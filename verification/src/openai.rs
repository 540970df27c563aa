use vstd::prelude::*;
use crate::bytes::{ascii_lower, bytes_eq, spec_ascii_lower};

verus! {

pub open spec fn spec_responses_url() -> Seq<u8> {
    seq![
        104u8, 116, 116, 112, 115, 58, 47, 47, 97, 112, 105, 46, 111, 112, 101, 110, 97, 105, 46,
        99, 111, 109, 47, 118, 49, 47, 114, 101, 115, 112, 111, 110, 115, 101, 115,
    ]
}

pub open spec fn spec_responses_host() -> Seq<u8> {
    seq![97u8, 112, 105, 46, 111, 112, 101, 110, 97, 105, 46, 99, 111, 109]
}

pub open spec fn spec_responses_path() -> Seq<u8> {
    seq![47u8, 118, 49, 47, 114, 101, 115, 112, 111, 110, 115, 101, 115]
}

pub open spec fn spec_model_name() -> Seq<u8> {
    seq![103u8, 112, 116, 45, 53, 45, 109, 105, 110, 105]
}

/// `https://api.openai.com/v1/responses`
pub fn responses_url() -> (r: &'static [u8])
    ensures
        r@ == spec_responses_url(),
{
    let r: &'static [u8] = &[
        104u8, 116, 116, 112, 115, 58, 47, 47, 97, 112, 105, 46, 111, 112, 101, 110, 97, 105, 46,
        99, 111, 109, 47, 118, 49, 47, 114, 101, 115, 112, 111, 110, 115, 101, 115,
    ];
    assert(r@ =~= spec_responses_url());
    r
}

/// `api.openai.com`
pub fn responses_host() -> (r: &'static [u8])
    ensures
        r@ == spec_responses_host(),
{
    let r: &'static [u8] = &[97u8, 112, 105, 46, 111, 112, 101, 110, 97, 105, 46, 99, 111, 109];
    assert(r@ =~= spec_responses_host());
    r
}

/// `gpt-5-mini`
pub fn model_name() -> (r: &'static [u8])
    ensures
        r@ == spec_model_name(),
{
    let r: &'static [u8] = &[103u8, 112, 116, 45, 53, 45, 109, 105, 110, 105];
    assert(r@ =~= spec_model_name());
    r
}

pub open spec fn eq_ignore_case(a: Seq<u8>, b: Seq<u8>) -> bool {
    a.len() == b.len() && forall|i: int| 0 <= i < a.len() ==> spec_ascii_lower(#[trigger] a[i])
        == spec_ascii_lower(b[i])
}

/// Equality of two byte strings, ignoring ASCII case.
pub fn ascii_eq_ignore_case(left: &[u8], right: &[u8]) -> (r: bool)
    ensures
        r == eq_ignore_case(left@, right@),
{
    if left.len() != right.len() {
        return false;
    }
    let mut i = 0usize;
    while i < left.len()
        invariant
            left.len() == right.len(),
            i <= left.len(),
            forall|k: int| 0 <= k < i ==> spec_ascii_lower(#[trigger] left@[k]) == spec_ascii_lower(
                right@[k],
            ),
        decreases left.len() - i,
    {
        if ascii_lower(left[i]) != ascii_lower(right[i]) {
            return false;
        }
        i += 1;
    }
    true
}

/// Whether a request goes to the OpenAI responses endpoint over HTTPS on port 443.
pub fn is_responses_target(domain: &[u8], path: &[u8], https: bool, port: u16) -> (r: bool)
    ensures
        r == (https && port == 443 && eq_ignore_case(domain@, spec_responses_host()) && path@
            == spec_responses_path()),
{
    let p: &[u8] = &[47u8, 118, 49, 47, 114, 101, 115, 112, 111, 110, 115, 101, 115];
    assert(p@ =~= spec_responses_path());
    https && port == 443 && ascii_eq_ignore_case(domain, responses_host()) && bytes_eq(path, p)
}

/// Room for the API key.
pub const API_KEY_MAX: usize = 256;

/// The API key slot: a fixed buffer and the length of the key it holds.
pub struct ApiKeyStore {
    buf: Vec<u8>,
    len: usize,
}

/// A key the slot takes: not empty, at most `API_KEY_MAX` bytes, and no carriage return
/// or line feed in it.
pub open spec fn key_accepted(key: Seq<u8>) -> bool {
    &&& 0 < key.len() <= API_KEY_MAX
    &&& forall|j: int| 0 <= j < key.len() ==> key[j] != 13 && key[j] != 10
}

/// Whether a key is stored depends on the key alone.
pub proof fn lemma_key_accepted(buf: Seq<u8>, len: int, key: Seq<u8>)
    ensures
        set_key_step(buf, len, key).2 == key_accepted(key),
{
    if 0 < key.len() <= API_KEY_MAX && !key_accepted(key) {
        let j = choose|j: int| 0 <= j < key.len() && !(key[j] != 13 && key[j] != 10);
        assert(0 <= j < key.len() && (key[j] == 13 || key[j] == 10));
    }
}

/// Storing `key` over a slot holding `buf` and `len`: refused (`false`) when the key is
/// empty or too long, untouched then; refused as well at the first carriage return or
/// line feed, after the bytes before it were written over the start of the buffer (the
/// length stays); otherwise the key replaces the old one and what is left of the old
/// one is cleared.
pub open spec fn set_key_step(buf: Seq<u8>, len: int, key: Seq<u8>) -> (Seq<u8>, int, bool) {
    if key.len() == 0 || key.len() > API_KEY_MAX {
        (buf, len, false)
    } else if exists|j: int| 0 <= j < key.len() && (key[j] == 13 || key[j] == 10) {
        let j = choose|j: int|
            0 <= j < key.len() && (key[j] == 13 || key[j] == 10) && forall|k: int|
                0 <= k < j ==> key[k] != 13 && key[k] != 10;
        (key.take(j) + buf.skip(j), len, false)
    } else {
        let keep = if len > key.len() {
            len
        } else {
            key.len() as int
        };
        (
            key + Seq::new((keep - key.len()) as nat, |i: int| 0u8) + buf.skip(keep),
            key.len() as int,
            true,
        )
    }
}

/// `Authorization: Bearer <key>\r\n`
pub open spec fn bearer_line(key: Seq<u8>) -> Seq<u8> {
    seq![
        65u8, 117, 116, 104, 111, 114, 105, 122, 97, 116, 105, 111, 110, 58, 32, 66, 101, 97, 114,
        101, 114, 32,
    ] + key + seq![13u8, 10]
}

/// The bearer header for `key` in a buffer of capacity `cap`: empty without a key or
/// when the whole line does not fit.
pub open spec fn bearer_header(key: Seq<u8>, cap: int) -> Seq<u8> {
    if key.len() == 0 || bearer_line(key).len() > cap {
        Seq::empty()
    } else {
        bearer_line(key)
    }
}

impl ApiKeyStore {
    pub closed spec fn raw(&self) -> Seq<u8> {
        self.buf@
    }

    pub closed spec fn key_len(&self) -> int {
        self.len as int
    }

    /// The key held.
    pub open spec fn key(&self) -> Seq<u8> {
        self.raw().take(self.key_len())
    }

    pub closed spec fn wf(&self) -> bool {
        self.buf.len() == API_KEY_MAX && self.len <= API_KEY_MAX
    }

    /// An empty slot.
    pub fn new() -> (r: Self)
        ensures
            r.wf(),
            r.key_len() == 0,
            r.raw() == Seq::new(API_KEY_MAX as nat, |i: int| 0u8),
    {
        let mut buf: Vec<u8> = Vec::new();
        let mut i = 0usize;
        while i < API_KEY_MAX
            invariant
                i <= API_KEY_MAX,
                buf@ == Seq::new(i as nat, |k: int| 0u8),
            decreases API_KEY_MAX - i,
        {
            buf.push(0);
            i += 1;
            assert(buf@ =~= Seq::new(i as nat, |k: int| 0u8));
        }
        ApiKeyStore { buf, len: 0 }
    }

    pub fn api_key_ready(&self) -> (r: bool)
        ensures
            r == (self.key_len() != 0),
    {
        self.len != 0
    }

    /// Zeroes the key and forgets it.
    pub fn clear_api_key(&mut self)
        requires
            old(self).wf(),
        ensures
            final(self).wf(),
            final(self).key_len() == 0,
            final(self).raw() == Seq::new(old(self).key_len() as nat, |i: int| 0u8) + old(
                self,
            ).raw().skip(old(self).key_len()),
    {
        let ghost old_raw = self.buf@;
        let mut i = 0usize;
        while i < self.len && i < self.buf.len()
            invariant
                self.wf(),
                self.len == old(self).len,
                old_raw.len() == API_KEY_MAX,
                i <= self.len,
                self.buf@ == Seq::new(i as nat, |k: int| 0u8) + old_raw.skip(i as int),
            decreases self.len - i,
        {
            self.buf.set(i, 0);
            i += 1;
            assert(self.buf@ =~= Seq::new(i as nat, |k: int| 0u8) + old_raw.skip(i as int));
        }
        self.len = 0;
    }

    /// Stores `key` (see `set_key_step`).
    pub fn set_api_key(&mut self, key: &[u8]) -> (r: bool)
        requires
            old(self).wf(),
        ensures
            final(self).wf(),
            set_key_step(old(self).raw(), old(self).key_len(), key@) == (
                final(self).raw(),
                final(self).key_len(),
                r,
            ),
    {
        if key.len() == 0 || key.len() > API_KEY_MAX {
            return false;
        }
        let ghost old_raw = self.buf@;
        let mut i = 0usize;
        while i < key.len()
            invariant
                self.wf(),
                self.len == old(self).len,
                old_raw == old(self).raw(),
                old_raw.len() == API_KEY_MAX,
                0 < key.len() <= API_KEY_MAX,
                i <= key.len(),
                forall|k: int| 0 <= k < i ==> key@[k] != 13 && key@[k] != 10,
                self.buf@ == key@.take(i as int) + old_raw.skip(i as int),
            decreases key.len() - i,
        {
            let b = key[i];
            if b == 13u8 || b == 10u8 {
                proof {
                    let j = choose|j: int|
                        0 <= j < key@.len() && (key@[j] == 13 || key@[j] == 10) && forall|k: int|
                            0 <= k < j ==> key@[k] != 13 && key@[k] != 10;
                    assert(0 <= i && (key@[i as int] == 13 || key@[i as int] == 10) && forall|k: int|
                        0 <= k < i ==> key@[k] != 13 && key@[k] != 10);
                    if j < i {
                        assert(key@[j] != 13 && key@[j] != 10);
                    } else if j > i {
                        assert(key@[i as int] != 13 && key@[i as int] != 10);
                    }
                }
                return false;
            }
            self.buf.set(i, b);
            i += 1;
            assert(self.buf@ =~= key@.take(i as int) + old_raw.skip(i as int));
        }
        let ghost written = self.buf@;
        while i < self.len && i < self.buf.len()
            invariant
                self.wf(),
                self.len == old(self).len,
                key.len() <= i <= API_KEY_MAX,
                old_raw.len() == API_KEY_MAX,
                i <= self.len || i == key.len(),
                self.buf@ == key@ + Seq::new((i - key.len()) as nat, |k: int| 0u8) + old_raw.skip(
                    i as int,
                ),
            decreases API_KEY_MAX - i,
        {
            self.buf.set(i, 0);
            i += 1;
            assert(self.buf@ =~= key@ + Seq::new((i - key.len()) as nat, |k: int| 0u8)
                + old_raw.skip(i as int));
        }
        self.len = key.len();
        proof {
            assert(!exists|j: int| 0 <= j < key@.len() && (key@[j] == 13 || key@[j] == 10));
        }
        true
    }

    /// Stores the key built into the image, when there is one and no key is set yet.
    pub fn init_embedded_api_key(&mut self, embedded: &[u8])
        requires
            old(self).wf(),
        ensures
            final(self).wf(),
            (embedded.len() == 0 || old(self).key_len() != 0) ==> final(self).raw() == old(
                self,
            ).raw() && final(self).key_len() == old(self).key_len(),
            !(embedded.len() == 0 || old(self).key_len() != 0) ==> set_key_step(
                old(self).raw(),
                old(self).key_len(),
                embedded@,
            ).0 == final(self).raw() && set_key_step(
                old(self).raw(),
                old(self).key_len(),
                embedded@,
            ).1 == final(self).key_len(),
    {
        if embedded.len() == 0 || self.api_key_ready() {
            return;
        }
        let _ = self.set_api_key(embedded);
    }

    /// `Authorization: Bearer <key>\r\n` within `cap` bytes (see `bearer_header`).
    pub fn build_bearer_header(&self, cap: usize) -> (r: Vec<u8>)
        requires
            self.wf(),
        ensures
            r@ == bearer_header(self.key(), cap as int),
    {
        build_bearer_line(self.buf.as_slice(), self.len, cap)
    }
}

/// The bearer header for `token[..len]`.
pub fn build_bearer_line(token: &[u8], len: usize, cap: usize) -> (r: Vec<u8>)
    requires
        len <= token.len(),
    ensures
        r@ == bearer_header(token@.take(len as int), cap as int),
{
    let prefix: &[u8] = &[
        65u8, 117, 116, 104, 111, 114, 105, 122, 97, 116, 105, 111, 110, 58, 32, 66, 101, 97, 114,
        101, 114, 32,
    ];
    if len == 0 || len > cap || cap - len < 24 {
        return Vec::new();
    }
    let mut out: Vec<u8> = Vec::new();
    let mut i = 0usize;
    while i < prefix.len()
        invariant
            i <= prefix.len(),
            out@ == prefix@.take(i as int),
        decreases prefix.len() - i,
    {
        out.push(prefix[i]);
        i += 1;
        assert(out@ =~= prefix@.take(i as int));
    }
    i = 0;
    while i < len
        invariant
            i <= len <= token.len(),
            out@ == prefix@ + token@.take(i as int),
        decreases len - i,
    {
        out.push(token[i]);
        i += 1;
        assert(out@ =~= prefix@ + token@.take(i as int));
    }
    out.push(13u8);
    out.push(10u8);
    assert(out@ =~= bearer_line(token@.take(len as int)));
    out
}

/// A key that was stored is the key the bearer header carries.
pub proof fn lemma_bearer_after_set(buf: Seq<u8>, len: int, key: Seq<u8>, cap: int)
    requires
        buf.len() == API_KEY_MAX,
        0 <= len <= API_KEY_MAX,
        set_key_step(buf, len, key).2,
        cap >= key.len() + 24,
    ensures
        ({
            let (b2, l2, _) = set_key_step(buf, len, key);
            bearer_header(b2.take(l2), cap) == bearer_line(key)
        }),
{
    let (b2, l2, _) = set_key_step(buf, len, key);
    assert(b2.take(l2) =~= key);
}

} // verus!
