use vstd::prelude::*;
use crate::turn::cap_to;

verus! {

pub const RESPONSE_BODY_MAX: usize = 65536;
pub const OUTPUT_TEXT_MAX: usize = 16384;
pub const REDIRECT_DOMAIN_MAX: usize = 256;
pub const REDIRECT_PATH_MAX: usize = 256;
pub const FETCH_MAX_REDIRECTS: u8 = 3;

/// The response body a task keeps (at most `RESPONSE_BODY_MAX` bytes, with whether more
/// came), and the model output text found in it while it arrives.
pub struct ResponseCapture {
    pub body: Vec<u8>,
    pub truncated: bool,
    pub output_text: Vec<u8>,
}

#[verifier::ext_equal]
pub struct CaptureView {
    pub body: Seq<u8>,
    pub truncated: bool,
    pub output_text: Seq<u8>,
}

impl View for ResponseCapture {
    type V = CaptureView;

    open spec fn view(&self) -> CaptureView {
        CaptureView { body: self.body@, truncated: self.truncated, output_text: self.output_text@ }
    }
}

/// Keeping `data` as the next part of the body: nothing outside a capturing phase; a
/// new body clears the flags; a model answer whose text was already found with a 2xx
/// status keeps nothing more; otherwise as much as fits is kept (the rest marks the body
/// cut off), and for a model answer with a 2xx status the nested output text is looked
/// for again.
pub open spec fn sp_capture(c: CaptureView, capturing: bool, openai_phase: bool, status: u16, data: Seq<u8>) -> CaptureView {
    if !capturing {
        c
    } else {
        let c0 = if c.body.len() == 0 {
            CaptureView { truncated: false, output_text: Seq::empty(), ..c }
        } else {
            c
        };
        let ok = 200 <= status < 300;
        if openai_phase && c0.output_text.len() != 0 && ok {
            c0
        } else {
            let remain = if c0.body.len() < RESPONSE_BODY_MAX {
                RESPONSE_BODY_MAX - c0.body.len()
            } else {
                0
            };
            let c1 = CaptureView {
                body: c0.body + cap_to(data, remain),
                truncated: c0.truncated || data.len() > remain,
                ..c0
            };
            if openai_phase && ok {
                match crate::model::nested_text_from(c1.body, 0, OUTPUT_TEXT_MAX as int) {
                    Some(t) if t.len() != 0 => CaptureView { output_text: t, ..c1 },
                    _ => c1,
                }
            } else {
                c1
            }
        }
    }
}

impl ResponseCapture {
    pub fn new() -> (r: Self)
        ensures
            r@ == (CaptureView { body: Seq::empty(), truncated: false, output_text: Seq::empty() }),
    {
        ResponseCapture { body: Vec::new(), truncated: false, output_text: Vec::new() }
    }

    /// Forgets the body and the text for a new transfer.
    pub fn clear(&mut self)
        ensures
            final(self)@ == (CaptureView { body: Seq::empty(), output_text: Seq::empty(), ..old(self)@ }),
    {
        self.body = Vec::new();
        self.output_text = Vec::new();
    }

    /// Keeps the next part `data` of the response (see `sp_capture`); `capturing` says
    /// whether the task waits for a response it reads, `openai_phase` whether that is a
    /// model answer, `status` the HTTP status.
    pub fn agent_capture_response_body(&mut self, capturing: bool, openai_phase: bool, status: u16, data: &[u8])
        requires
            old(self).body.len() <= RESPONSE_BODY_MAX,
        ensures
            final(self)@ == sp_capture(old(self)@, capturing, openai_phase, status, data@),
            final(self).body.len() <= RESPONSE_BODY_MAX,
    {
        if !capturing {
            return;
        }
        if self.body.len() == 0 {
            self.truncated = false;
            self.output_text = Vec::new();
        }
        let ok = 200 <= status && status < 300;
        if openai_phase && self.output_text.len() != 0 && ok {
            return;
        }
        let remain = RESPONSE_BODY_MAX - self.body.len();
        if data.len() > remain {
            self.truncated = true;
        }
        let ghost before = self.body@;
        crate::bytes::append_bytes(&mut self.body, RESPONSE_BODY_MAX, data);
        assert(self.body@ =~= before + cap_to(data@, remain as int));
        if openai_phase && ok {
            match crate::model::extract_openai_nested_output_text(self.body.as_slice(), OUTPUT_TEXT_MAX) {
                Some(t) => {
                    if t.len() != 0 {
                        self.output_text = t;
                    }
                },
                None => {},
            }
        }
    }
}

// ---------------------------------------------------------------------------
// Redirects
// ---------------------------------------------------------------------------

/// A redirect waiting to be followed, and how many were followed.
pub struct Redirect {
    pub redirects: u8,
    pub pending: bool,
    pub suppress_ok: bool,
    pub domain: Vec<u8>,
    pub path: Vec<u8>,
    pub https: bool,
}

#[verifier::ext_equal]
pub struct RedirectView {
    pub redirects: u8,
    pub pending: bool,
    pub suppress_ok: bool,
    pub domain: Seq<u8>,
    pub path: Seq<u8>,
    pub https: bool,
}

impl View for Redirect {
    type V = RedirectView;

    open spec fn view(&self) -> RedirectView {
        RedirectView {
            redirects: self.redirects,
            pending: self.pending,
            suppress_ok: self.suppress_ok,
            domain: self.domain@,
            path: self.path@,
            https: self.https,
        }
    }
}

/// Following the `Location` header of response headers `buf[..len]`: not for an
/// authorized request, nor past `FETCH_MAX_REDIRECTS` or while one waits; a location
/// that parses as a URL whose host and path fit becomes the pending redirect, one that
/// does not fit is refused with a reason.
pub open spec fn sp_redirect(r: RedirectView, oauth_active: bool, buf: Seq<u8>, len: int) -> (RedirectView, Option<Seq<u8>>) {
    if oauth_active || r.redirects >= FETCH_MAX_REDIRECTS || r.pending {
        (r, None)
    } else {
        match crate::http::spec_find_location(buf, len) {
            None => (r, None),
            Some((s, e)) => {
                let val = buf.subrange(s, e);
                match crate::url::spec_parse_url(val, val.len() as int) {
                    None => (r, None),
                    Some(p) => if p.domain_len == 0 || p.domain_len > REDIRECT_DOMAIN_MAX || p.path_len > REDIRECT_PATH_MAX {
                        (r, Some(seq![114u8, 101, 100, 105, 114, 101, 99, 116, 32, 117, 114, 108, 32, 116, 111, 111, 32, 108, 111, 110, 103]))
                    } else {
                        (
                            RedirectView {
                                domain: val.subrange(p.domain_start as int, p.domain_start + p.domain_len),
                                path: val.subrange(p.path_start as int, p.path_start + p.path_len),
                                https: p.https,
                                pending: true,
                                suppress_ok: true,
                                redirects: (r.redirects + 1) as u8,
                            },
                            None,
                        )
                    },
                }
            },
        }
    }
}

fn slice_copy(buf: &[u8], start: usize, n: usize) -> (r: Vec<u8>)
    requires
        start + n <= buf.len(),
    ensures
        r@ == buf@.subrange(start as int, start + n),
{
    let mut out: Vec<u8> = Vec::new();
    crate::bytes::append_all(&mut out, vstd::slice::slice_subrange(buf, start, start + n));
    out
}

impl Redirect {
    pub fn new() -> (r: Self)
        ensures
            r@ == (RedirectView {
                redirects: 0,
                pending: false,
                suppress_ok: false,
                domain: Seq::empty(),
                path: Seq::empty(),
                https: false,
            }),
    {
        Redirect { redirects: 0, pending: false, suppress_ok: false, domain: Vec::new(), path: Vec::new(), https: false }
    }

    /// Looks for a redirect in response headers (see `sp_redirect`); returns the reason
    /// to record when the location does not fit.
    pub fn capture_redirect(&mut self, oauth_active: bool, buf: &[u8], len: usize) -> (r: Option<&'static [u8]>)
        requires
            len <= buf.len(),
        ensures
            final(self)@ == sp_redirect(old(self)@, oauth_active, buf@, len as int).0,
            match (r, sp_redirect(old(self)@, oauth_active, buf@, len as int).1) {
                (Some(x), Some(y)) => x@ == y,
                (None, None) => true,
                _ => false,
            },
    {
        if oauth_active || self.redirects >= FETCH_MAX_REDIRECTS || self.pending {
            return None;
        }
        let (s, e) = match crate::http::find_location(buf, len) {
            Some(v) => v,
            None => {
                return None;
            },
        };
        let val = vstd::slice::slice_subrange(buf, s, e);
        let p = match crate::url::parse_url(val, val.len()) {
            Some(p) => p,
            None => {
                return None;
            },
        };
        proof {
            crate::url::lemma_url_range(val@, val.len() as int);
        }
        if p.domain_len == 0 || p.domain_len > REDIRECT_DOMAIN_MAX || p.path_len > REDIRECT_PATH_MAX {
            let reason: &'static [u8] = &[114u8, 101, 100, 105, 114, 101, 99, 116, 32, 117, 114, 108, 32, 116, 111, 111, 32, 108, 111, 110, 103];
            assert(reason@ =~= seq![114u8, 101, 100, 105, 114, 101, 99, 116, 32, 117, 114, 108, 32, 116, 111, 111, 32, 108, 111, 110, 103]);
            return Some(reason);
        }
        self.domain = slice_copy(val, p.domain_start, p.domain_len);
        self.path = slice_copy(val, p.path_start, p.path_len);
        self.https = p.https;
        self.pending = true;
        self.suppress_ok = true;
        self.redirects = self.redirects + 1;
        None
    }

    /// A fetch starts: nothing waits to be followed and no result is hidden; the count
    /// of redirects starts anew unless the fetch follows one.
    pub fn on_fetch_start(&mut self, following: bool)
        ensures
            final(self)@ == (RedirectView {
                redirects: if following { old(self)@.redirects } else { 0 },
                pending: false,
                suppress_ok: false,
                ..old(self)@
            }),
    {
        if !following {
            self.redirects = 0;
        }
        self.pending = false;
        self.suppress_ok = false;
    }

    /// Takes the redirect that waits to be followed: its host, path and scheme. It waits
    /// no more and the result of the next fetch is not hidden.
    pub fn take_pending(&mut self) -> (r: Option<(Vec<u8>, Vec<u8>, bool)>)
        ensures
            !old(self)@.pending ==> r is None && final(self)@ == old(self)@,
            old(self)@.pending ==> (r matches Some((d, p, h)) && d@ == old(self)@.domain && p@ == old(self)@.path
                && h == old(self)@.https),
            old(self)@.pending ==> final(self)@ == (RedirectView { pending: false, suppress_ok: false, ..old(self)@ }),
    {
        if !self.pending {
            return None;
        }
        let d = slice_copy(self.domain.as_slice(), 0, self.domain.len());
        let p = slice_copy(self.path.as_slice(), 0, self.path.len());
        assert(self.domain@.subrange(0, self.domain.len() as int) =~= self.domain@);
        assert(self.path@.subrange(0, self.path.len() as int) =~= self.path@);
        self.pending = false;
        self.suppress_ok = false;
        Some((d, p, self.https))
    }
}

} // verus!
