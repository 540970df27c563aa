use vstd::prelude::*;
use crate::json::array_contains;
use crate::json::extract_bool;
use crate::json::json_extract_bool;
use crate::json::json_string_array_contains;
use crate::url::is_private_octets;
use crate::url::spec_parse_agent_url;
use crate::url::spec_parse_ipv4;

verus! {

pub const AGENT_TASK_JSON_MAX: usize = 1536;

/// Why a skill call was refused.
#[derive(Clone, Copy, PartialEq, Eq, Structural)]
pub enum PolicyDenial {
    SkillDenied,
    HostDenied,
    StepBudgetExceeded,
}

pub open spec fn denial_reason(d: PolicyDenial) -> Seq<u8> {
    match d {
        PolicyDenial::SkillDenied => seq![115u8, 107, 105, 108, 108, 32, 100, 101, 110, 105, 101, 100, 32, 98, 121, 32, 112, 111, 108, 105, 99, 121],
        PolicyDenial::HostDenied => seq![104u8, 111, 115, 116, 32, 100, 101, 110, 105, 101, 100, 32, 98, 121, 32, 112, 111, 108, 105, 99, 121],
        PolicyDenial::StepBudgetExceeded => seq![115u8, 116, 101, 112, 32, 98, 117, 100, 103, 101, 116, 32, 101, 120, 99, 101, 101, 100, 101, 100],
    }
}

impl PolicyDenial {
    /// The reason recorded with the refusal.
    pub fn reason(&self) -> (r: &'static [u8])
        ensures
            r@ == denial_reason(*self),
    {
        match self {
            PolicyDenial::SkillDenied => {
                let r: &'static [u8] = &[115u8, 107, 105, 108, 108, 32, 100, 101, 110, 105, 101, 100, 32, 98, 121, 32, 112, 111, 108, 105, 99, 121];
                assert(r@ =~= denial_reason(*self));
                r
            },
            PolicyDenial::HostDenied => {
                let r: &'static [u8] = &[104u8, 111, 115, 116, 32, 100, 101, 110, 105, 101, 100, 32, 98, 121, 32, 112, 111, 108, 105, 99, 121];
                assert(r@ =~= denial_reason(*self));
                r
            },
            PolicyDenial::StepBudgetExceeded => {
                let r: &'static [u8] = &[115u8, 116, 101, 112, 32, 98, 117, 100, 103, 101, 116, 32, 101, 120, 99, 101, 101, 100, 101, 100];
                assert(r@ =~= denial_reason(*self));
                r
            },
        }
    }
}

pub open spec fn default_goal_profile() -> Seq<u8> {
    seq![123u8, 34, 97, 108, 108, 111, 119, 101, 100, 95, 115, 107, 105, 108, 108, 115, 34, 58, 91, 34, 102, 101, 116, 99, 104, 95, 117, 114, 108, 34, 44, 34, 99, 97, 108, 108, 95, 109, 111, 100, 101, 108, 34, 44, 34, 112, 111, 115, 116, 95, 114, 101, 115, 117, 108, 116, 34, 93, 44, 34, 97, 108, 108, 111, 119, 101, 100, 95, 104, 111, 115, 116, 115, 34, 58, 91, 34, 49, 48, 46, 48, 46, 50, 46, 50, 34, 93, 125]
}

pub open spec fn local_summary_profile() -> Seq<u8> {
    seq![123u8, 34, 97, 108, 108, 111, 119, 101, 100, 95, 115, 107, 105, 108, 108, 115, 34, 58, 91, 34, 102, 101, 116, 99, 104, 95, 117, 114, 108, 34, 44, 34, 115, 117, 109, 109, 97, 114, 105, 122, 101, 95, 116, 101, 120, 116, 34, 93, 44, 34, 97, 108, 108, 111, 119, 101, 100, 95, 104, 111, 115, 116, 115, 34, 58, 91, 34, 49, 48, 46, 48, 46, 50, 46, 50, 34, 93, 125]
}

pub open spec fn local_post_profile() -> Seq<u8> {
    seq![123u8, 34, 97, 108, 108, 111, 119, 101, 100, 95, 115, 107, 105, 108, 108, 115, 34, 58, 91, 34, 102, 101, 116, 99, 104, 95, 117, 114, 108, 34, 44, 34, 115, 117, 109, 109, 97, 114, 105, 122, 101, 95, 116, 101, 120, 116, 34, 44, 34, 112, 111, 115, 116, 95, 114, 101, 115, 117, 108, 116, 34, 93, 44, 34, 97, 108, 108, 111, 119, 101, 100, 95, 104, 111, 115, 116, 115, 34, 58, 91, 34, 49, 48, 46, 48, 46, 50, 46, 50, 34, 93, 125]
}

pub open spec fn m3_summary_profile() -> Seq<u8> {
    seq![123u8, 34, 97, 108, 108, 111, 119, 101, 100, 95, 115, 107, 105, 108, 108, 115, 34, 58, 91, 34, 102, 101, 116, 99, 104, 95, 117, 114, 108, 34, 44, 34, 115, 117, 109, 109, 97, 114, 105, 122, 101, 95, 116, 101, 120, 116, 34, 44, 34, 99, 97, 108, 108, 95, 109, 111, 100, 101, 108, 34, 93, 44, 34, 97, 108, 108, 111, 119, 101, 100, 95, 104, 111, 115, 116, 115, 34, 58, 91, 34, 49, 48, 46, 48, 46, 50, 46, 50, 34, 44, 34, 97, 112, 105, 46, 111, 112, 101, 110, 97, 105, 46, 99, 111, 109, 34, 93, 44, 34, 97, 108, 108, 111, 119, 95, 112, 117, 98, 108, 105, 99, 95, 104, 111, 115, 116, 115, 34, 58, 116, 114, 117, 101, 125]
}

pub open spec fn m3_post_profile() -> Seq<u8> {
    seq![123u8, 34, 97, 108, 108, 111, 119, 101, 100, 95, 115, 107, 105, 108, 108, 115, 34, 58, 91, 34, 102, 101, 116, 99, 104, 95, 117, 114, 108, 34, 44, 34, 115, 117, 109, 109, 97, 114, 105, 122, 101, 95, 116, 101, 120, 116, 34, 44, 34, 99, 97, 108, 108, 95, 109, 111, 100, 101, 108, 34, 44, 34, 112, 111, 115, 116, 95, 114, 101, 115, 117, 108, 116, 34, 93, 44, 34, 97, 108, 108, 111, 119, 101, 100, 95, 104, 111, 115, 116, 115, 34, 58, 91, 34, 49, 48, 46, 48, 46, 50, 46, 50, 34, 44, 34, 97, 112, 105, 46, 111, 112, 101, 110, 97, 105, 46, 99, 111, 109, 34, 93, 44, 34, 97, 108, 108, 111, 119, 95, 112, 117, 98, 108, 105, 99, 95, 104, 111, 115, 116, 115, 34, 58, 116, 114, 117, 101, 125]
}

pub open spec fn allowed_skills_key() -> Seq<u8> {
    seq![97u8, 108, 108, 111, 119, 101, 100, 95, 115, 107, 105, 108, 108, 115]
}

pub open spec fn allowed_hosts_key() -> Seq<u8> {
    seq![97u8, 108, 108, 111, 119, 101, 100, 95, 104, 111, 115, 116, 115]
}

pub open spec fn allow_public_hosts_key() -> Seq<u8> {
    seq![97u8, 108, 108, 111, 119, 95, 112, 117, 98, 108, 105, 99, 95, 104, 111, 115, 116, 115]
}

/// A skill is allowed unless the task lists `allowed_skills` without it.
pub open spec fn spec_skill_allowed(task: Seq<u8>, skill: Seq<u8>) -> bool {
    match array_contains(task, task.len() as int, allowed_skills_key(), skill) {
        Some(v) => v,
        None => true,
    }
}

pub open spec fn spec_allow_public_hosts(task: Seq<u8>) -> bool {
    match extract_bool(task, task.len() as int, allow_public_hosts_key()) {
        Some(v) => v,
        None => false,
    }
}

/// A URL's host is allowed when the URL parses and the task lists no `allowed_hosts`,
/// lists the host, or allows public hosts and the host is no private IPv4 literal.
pub open spec fn spec_host_allowed(task: Seq<u8>, url: Seq<u8>) -> bool {
    match spec_parse_agent_url(url, url.len() as int) {
        None => false,
        Some(p) => {
            let host = url.subrange(p.host_start as int, p.host_start + p.host_len);
            match array_contains(task, task.len() as int, allowed_hosts_key(), host) {
                None => true,
                Some(explicit) => explicit || (spec_allow_public_hosts(task) && !(spec_parse_ipv4(
                    host,
                ) matches Some(o) && is_private_octets(o))),
            }
        },
    }
}

/// The verdict on calling `skill` as step `step` (against `target`, when it has one).
pub open spec fn spec_policy_check(
    task: Seq<u8>,
    max_steps: int,
    skill: Seq<u8>,
    step: int,
    target: Option<Seq<u8>>,
) -> Result<(), PolicyDenial> {
    if !spec_skill_allowed(task, skill) {
        Err(PolicyDenial::SkillDenied)
    } else if target matches Some(url) && !spec_host_allowed(task, url) {
        Err(PolicyDenial::HostDenied)
    } else if max_steps != 0 && step > max_steps {
        Err(PolicyDenial::StepBudgetExceeded)
    } else {
        Ok(())
    }
}

/// The policy of the current task: its JSON and its step budget (0: none).
pub struct TaskPolicy {
    pub json: Vec<u8>,
    pub max_steps: usize,
}

impl TaskPolicy {
    pub open spec fn task(&self) -> Seq<u8> {
        self.json@
    }

    /// No task stored, no step budget.
    pub fn new() -> (r: Self)
        ensures
            r.task() == Seq::<u8>::empty(),
            r.max_steps == 0,
    {
        TaskPolicy { json: Vec::new(), max_steps: 0 }
    }

    /// Stores the first `len` bytes of `line` as the task JSON; false, changing nothing,
    /// when they exceed `AGENT_TASK_JSON_MAX`.
    pub fn agent_store_task_json(&mut self, line: &[u8], len: usize) -> (r: bool)
        requires
            len <= line.len(),
        ensures
            r == (len <= AGENT_TASK_JSON_MAX),
            r ==> final(self).task() == line@.take(len as int),
            !r ==> final(self).task() == old(self).task(),
            final(self).max_steps == old(self).max_steps,
    {
        if len > AGENT_TASK_JSON_MAX {
            return false;
        }
        let mut v: Vec<u8> = Vec::new();
        crate::bytes::append_all(&mut v, vstd::slice::slice_subrange(line, 0, len));
        self.json = v;
        true
    }

    fn store_profile(&mut self, profile: &[u8]) -> (r: bool)
        requires
            profile.len() <= AGENT_TASK_JSON_MAX,
        ensures
            r,
            final(self).task() == profile@,
            final(self).max_steps == old(self).max_steps,
    {
        let r = self.agent_store_task_json(profile, profile.len());
        assert(profile@.take(profile.len() as int) =~= profile@);
        r
    }

    /// Fetch, model call and post, on the host gateway only.
    pub fn agent_store_default_goal_policy(&mut self) -> (r: bool)
        ensures
            r,
            final(self).task() == default_goal_profile(),
            final(self).max_steps == old(self).max_steps,
    {
        let p: &[u8] = &[123u8, 34, 97, 108, 108, 111, 119, 101, 100, 95, 115, 107, 105, 108, 108, 115, 34, 58, 91, 34, 102, 101, 116, 99, 104, 95, 117, 114, 108, 34, 44, 34, 99, 97, 108, 108, 95, 109, 111, 100, 101, 108, 34, 44, 34, 112, 111, 115, 116, 95, 114, 101, 115, 117, 108, 116, 34, 93, 44, 34, 97, 108, 108, 111, 119, 101, 100, 95, 104, 111, 115, 116, 115, 34, 58, 91, 34, 49, 48, 46, 48, 46, 50, 46, 50, 34, 93, 125];
        assert(p@ =~= default_goal_profile());
        self.store_profile(p)
    }

    /// Fetch and local summary, on the host gateway only.
    pub fn agent_store_local_summary_policy(&mut self) -> (r: bool)
        ensures
            r,
            final(self).task() == local_summary_profile(),
            final(self).max_steps == old(self).max_steps,
    {
        let p: &[u8] = &[123u8, 34, 97, 108, 108, 111, 119, 101, 100, 95, 115, 107, 105, 108, 108, 115, 34, 58, 91, 34, 102, 101, 116, 99, 104, 95, 117, 114, 108, 34, 44, 34, 115, 117, 109, 109, 97, 114, 105, 122, 101, 95, 116, 101, 120, 116, 34, 93, 44, 34, 97, 108, 108, 111, 119, 101, 100, 95, 104, 111, 115, 116, 115, 34, 58, 91, 34, 49, 48, 46, 48, 46, 50, 46, 50, 34, 93, 125];
        assert(p@ =~= local_summary_profile());
        self.store_profile(p)
    }

    /// Fetch, local summary and post, on the host gateway only.
    pub fn agent_store_local_post_policy(&mut self) -> (r: bool)
        ensures
            r,
            final(self).task() == local_post_profile(),
            final(self).max_steps == old(self).max_steps,
    {
        let p: &[u8] = &[123u8, 34, 97, 108, 108, 111, 119, 101, 100, 95, 115, 107, 105, 108, 108, 115, 34, 58, 91, 34, 102, 101, 116, 99, 104, 95, 117, 114, 108, 34, 44, 34, 115, 117, 109, 109, 97, 114, 105, 122, 101, 95, 116, 101, 120, 116, 34, 44, 34, 112, 111, 115, 116, 95, 114, 101, 115, 117, 108, 116, 34, 93, 44, 34, 97, 108, 108, 111, 119, 101, 100, 95, 104, 111, 115, 116, 115, 34, 58, 91, 34, 49, 48, 46, 48, 46, 50, 46, 50, 34, 93, 125];
        assert(p@ =~= local_post_profile());
        self.store_profile(p)
    }

    /// Fetch, summary and model call, on the gateway, OpenAI and public hosts.
    pub fn agent_store_m3_summary_policy(&mut self) -> (r: bool)
        ensures
            r,
            final(self).task() == m3_summary_profile(),
            final(self).max_steps == old(self).max_steps,
    {
        let p: &[u8] = &[123u8, 34, 97, 108, 108, 111, 119, 101, 100, 95, 115, 107, 105, 108, 108, 115, 34, 58, 91, 34, 102, 101, 116, 99, 104, 95, 117, 114, 108, 34, 44, 34, 115, 117, 109, 109, 97, 114, 105, 122, 101, 95, 116, 101, 120, 116, 34, 44, 34, 99, 97, 108, 108, 95, 109, 111, 100, 101, 108, 34, 93, 44, 34, 97, 108, 108, 111, 119, 101, 100, 95, 104, 111, 115, 116, 115, 34, 58, 91, 34, 49, 48, 46, 48, 46, 50, 46, 50, 34, 44, 34, 97, 112, 105, 46, 111, 112, 101, 110, 97, 105, 46, 99, 111, 109, 34, 93, 44, 34, 97, 108, 108, 111, 119, 95, 112, 117, 98, 108, 105, 99, 95, 104, 111, 115, 116, 115, 34, 58, 116, 114, 117, 101, 125];
        assert(p@ =~= m3_summary_profile());
        self.store_profile(p)
    }

    /// As the summary policy, with posting.
    pub fn agent_store_m3_post_policy(&mut self) -> (r: bool)
        ensures
            r,
            final(self).task() == m3_post_profile(),
            final(self).max_steps == old(self).max_steps,
    {
        let p: &[u8] = &[123u8, 34, 97, 108, 108, 111, 119, 101, 100, 95, 115, 107, 105, 108, 108, 115, 34, 58, 91, 34, 102, 101, 116, 99, 104, 95, 117, 114, 108, 34, 44, 34, 115, 117, 109, 109, 97, 114, 105, 122, 101, 95, 116, 101, 120, 116, 34, 44, 34, 99, 97, 108, 108, 95, 109, 111, 100, 101, 108, 34, 44, 34, 112, 111, 115, 116, 95, 114, 101, 115, 117, 108, 116, 34, 93, 44, 34, 97, 108, 108, 111, 119, 101, 100, 95, 104, 111, 115, 116, 115, 34, 58, 91, 34, 49, 48, 46, 48, 46, 50, 46, 50, 34, 44, 34, 97, 112, 105, 46, 111, 112, 101, 110, 97, 105, 46, 99, 111, 109, 34, 93, 44, 34, 97, 108, 108, 111, 119, 95, 112, 117, 98, 108, 105, 99, 95, 104, 111, 115, 116, 115, 34, 58, 116, 114, 117, 101, 125];
        assert(p@ =~= m3_post_profile());
        self.store_profile(p)
    }

    /// Whether the task allows `skill` (see `spec_skill_allowed`).
    pub fn agent_skill_allowed(&self, skill: &[u8]) -> (r: bool)
        ensures
            r == spec_skill_allowed(self.task(), skill@),
    {
        let key: &[u8] = &[97u8, 108, 108, 111, 119, 101, 100, 95, 115, 107, 105, 108, 108, 115];
        assert(key@ =~= allowed_skills_key());
        match json_string_array_contains(self.json.as_slice(), self.json.len(), key, skill) {
            Some(v) => v,
            None => true,
        }
    }

    /// Whether the task sets `allow_public_hosts` to true.
    pub fn agent_allow_public_hosts(&self) -> (r: bool)
        ensures
            r == spec_allow_public_hosts(self.task()),
    {
        let key: &[u8] = &[97u8, 108, 108, 111, 119, 95, 112, 117, 98, 108, 105, 99, 95, 104, 111, 115, 116, 115];
        assert(key@ =~= allow_public_hosts_key());
        match json_extract_bool(self.json.as_slice(), self.json.len(), key) {
            Some(v) => v,
            None => false,
        }
    }

    /// Whether the task allows fetching `url` (see `spec_host_allowed`).
    pub fn agent_host_allowed(&self, url: &[u8]) -> (r: bool)
        ensures
            r == spec_host_allowed(self.task(), url@),
    {
        let parts = match crate::url::parse_agent_url(url, url.len()) {
            Some(v) => v,
            None => return false,
        };
        proof {
            crate::url::lemma_agent_url_host_range(url@, url.len() as int);
        }
        let host = vstd::slice::slice_subrange(url, parts.host_start, parts.host_start + parts.host_len);
        let key: &[u8] = &[97u8, 108, 108, 111, 119, 101, 100, 95, 104, 111, 115, 116, 115];
        assert(key@ =~= allowed_hosts_key());
        let explicit = match json_string_array_contains(self.json.as_slice(), self.json.len(), key, host) {
            Some(v) => v,
            None => return true,
        };
        explicit || (self.agent_allow_public_hosts() && !crate::url::is_private_ipv4(host))
    }

    /// The verdict on calling `skill` as step `step`, against `target_url` when the call
    /// has one (see `spec_policy_check`).
    pub fn agent_policy_check(&self, skill: &[u8], step: u8, target_url: Option<&[u8]>) -> (r: Result<(), PolicyDenial>)
        ensures
            r == spec_policy_check(
                self.task(),
                self.max_steps as int,
                skill@,
                step as int,
                match target_url {
                    Some(u) => Some(u@),
                    None => None,
                },
            ),
    {
        if !self.agent_skill_allowed(skill) {
            return Err(PolicyDenial::SkillDenied);
        }
        if let Some(url) = target_url {
            if !self.agent_host_allowed(url) {
                return Err(PolicyDenial::HostDenied);
            }
        }
        if self.max_steps != 0 && (step as usize) > self.max_steps {
            return Err(PolicyDenial::StepBudgetExceeded);
        }
        Ok(())
    }
}

/// With no policy stored, every skill and every parsable URL is allowed.
pub proof fn lemma_empty_policy_allows(skill: Seq<u8>, url: Seq<u8>)
    ensures
        spec_skill_allowed(Seq::empty(), skill),
        spec_parse_agent_url(url, url.len() as int) is Some ==> spec_host_allowed(Seq::empty(), url),
{
    crate::json::lemma_array_contains_empty(allowed_skills_key(), skill);
    if let Some(p) = spec_parse_agent_url(url, url.len() as int) {
        crate::json::lemma_array_contains_empty(
            allowed_hosts_key(),
            url.subrange(p.host_start as int, p.host_start + p.host_len),
        );
    }
}

} // verus!
