use vstd::prelude::*;
use crate::bytes::{append_bytes, bounded_append, dec_digits, percent_encode, percent_encode_from, u64_to_dec};
use crate::json::push_bounded;
use crate::openai::{bearer_header, build_bearer_line};
use crate::timer::{spec_ticks_to_ms, ticks_to_ms};

verus! {

/// Credentials for the X API, as the build supplies them.
pub struct XSecrets {
    pub bearer_token: Vec<u8>,
    pub api_key: Vec<u8>,
    pub api_secret: Vec<u8>,
    pub access_token: Vec<u8>,
    pub access_secret: Vec<u8>,
}

pub open spec fn spec_secrets_ready(s: &XSecrets) -> bool {
    s.api_key.len() > 0 && s.api_secret.len() > 0 && s.access_token.len() > 0
        && s.access_secret.len() > 0
}

/// Whether the four OAuth 1.0a credentials are all present.
pub fn secrets_ready(s: &XSecrets) -> (r: bool)
    ensures
        r == spec_secrets_ready(s),
{
    s.api_key.len() > 0 && s.api_secret.len() > 0 && s.access_token.len() > 0
        && s.access_secret.len() > 0
}

/// Whether an app-only bearer token is present.
pub fn bearer_token_ready(s: &XSecrets) -> (r: bool)
    ensures
        r == (s.bearer_token.len() > 0),
{
    s.bearer_token.len() > 0
}

/// `Authorization: Bearer <token>\r\n` within `cap` bytes, empty without a token or room.
pub fn build_bearer_header(s: &XSecrets, cap: usize) -> (r: Vec<u8>)
    ensures
        r@ == bearer_header(s.bearer_token@, cap as int),
{
    let r = build_bearer_line(s.bearer_token.as_slice(), s.bearer_token.len(), cap);
    assert(s.bearer_token@.take(s.bearer_token.len() as int) =~= s.bearer_token@);
    r
}

/// Seconds since the epoch, from the epoch second learned at counter reading
/// `epoch_ticks`; without an epoch (or a counter frequency) the seconds since boot.
pub open spec fn spec_now_timestamp(epoch_sec: u64, epoch_ticks: u64, ticks: u64, freq: u64) -> int {
    let delta = if ticks >= epoch_ticks {
        ticks - epoch_ticks
    } else {
        0
    };
    if epoch_sec == 0 || freq == 0 {
        (spec_ticks_to_ms(ticks, freq) / 1000) as int
    } else {
        epoch_sec + delta / (freq as int)
    }
}

/// The current time for OAuth timestamps, from the counter reading `ticks` at `freq` Hz.
pub fn now_timestamp(epoch_sec: u64, epoch_ticks: u64, ticks: u64, freq: u64) -> (r: u64)
    requires
        spec_now_timestamp(epoch_sec, epoch_ticks, ticks, freq) <= u64::MAX,
    ensures
        r == spec_now_timestamp(epoch_sec, epoch_ticks, ticks, freq),
{
    let delta = if ticks >= epoch_ticks {
        ticks - epoch_ticks
    } else {
        0
    };
    if epoch_sec == 0 || freq == 0 {
        ticks_to_ms(ticks, freq) / 1000
    } else {
        epoch_sec + (delta / freq)
    }
}

/// A fresh nonce: bumps `counter` (wrapping) and mixes it with the counter reading.
pub fn nonce(counter: &mut u64, ticks: u64) -> (r: u64)
    ensures
        *final(counter) == (if *old(counter) == u64::MAX {
            0
        } else {
            (*old(counter) + 1) as u64
        }),
        r == ticks ^ (*final(counter) << 1u64) ^ 0x9e3779b97f4a7c15u64,
{
    if *counter == u64::MAX {
        *counter = 0;
    } else {
        *counter = *counter + 1;
    }
    ticks ^ (*counter << 1u64) ^ 0x9e3779b97f4a7c15u64
}

/// Room for one percent-encoded value.
pub const ENCODED_VALUE_MAX: usize = 256;

/// `[&]key=<percent-encoded value>` appended within `cap` (the `&` only after earlier
/// parameters; the encoded value is limited to 256 bytes).
pub open spec fn param_appended(out: Seq<u8>, cap: int, key: Seq<u8>, val: Seq<u8>) -> Seq<u8> {
    let o1 = if out.len() > 0 {
        push_bounded(out, cap, 38)
    } else {
        out
    };
    let o2 = bounded_append(o1, cap, key);
    let o3 = push_bounded(o2, cap, 61);
    bounded_append(o3, cap, percent_encode_from(val, 0, ENCODED_VALUE_MAX as int))
}

fn append_byte(out: &mut Vec<u8>, cap: usize, b: u8)
    ensures
        final(out)@ == push_bounded(old(out)@, cap as int, b),
{
    if out.len() < cap {
        out.push(b);
    }
}

/// Appends one `key=value` pair of an OAuth parameter string.
pub fn append_param(out: &mut Vec<u8>, cap: usize, key: &[u8], val: &[u8])
    ensures
        final(out)@ == param_appended(old(out)@, cap as int, key@, val@),
{
    if out.len() > 0 {
        append_byte(out, cap, 38u8);
    }
    append_bytes(out, cap, key);
    append_byte(out, cap, 61u8);
    let enc = percent_encode(val, ENCODED_VALUE_MAX);
    append_bytes(out, cap, enc.as_slice());
}

/// `key="<percent-encoded value>"` and, when `comma`, `, `, appended within `cap`.
pub open spec fn kv_appended(out: Seq<u8>, cap: int, key: Seq<u8>, val: Seq<u8>, comma: bool) -> Seq<
    u8,
> {
    let o1 = bounded_append(out, cap, key);
    let o2 = bounded_append(o1, cap, seq![61u8, 34]);
    let o3 = bounded_append(o2, cap, percent_encode_from(val, 0, ENCODED_VALUE_MAX as int));
    let o4 = push_bounded(o3, cap, 34);
    if comma {
        bounded_append(o4, cap, seq![44u8, 32])
    } else {
        o4
    }
}

/// Appends one `key="value"` item of an OAuth header.
pub fn append_kv(out: &mut Vec<u8>, cap: usize, key: &[u8], val: &[u8], comma: bool)
    ensures
        final(out)@ == kv_appended(old(out)@, cap as int, key@, val@, comma),
{
    append_bytes(out, cap, key);
    let eq_quote: &[u8] = &[61u8, 34];
    assert(eq_quote@ == seq![61u8, 34]);
    append_bytes(out, cap, eq_quote);
    let enc = percent_encode(val, ENCODED_VALUE_MAX);
    append_bytes(out, cap, enc.as_slice());
    append_byte(out, cap, 34u8);
    if comma {
        let sep: &[u8] = &[44u8, 32];
        assert(sep@ == seq![44u8, 32]);
        append_bytes(out, cap, sep);
    }
}

pub open spec fn k_consumer_key() -> Seq<u8> {
    seq![111u8, 97, 117, 116, 104, 95, 99, 111, 110, 115, 117, 109, 101, 114, 95, 107, 101, 121]
}

pub open spec fn k_nonce() -> Seq<u8> {
    seq![111u8, 97, 117, 116, 104, 95, 110, 111, 110, 99, 101]
}

pub open spec fn k_signature() -> Seq<u8> {
    seq![111u8, 97, 117, 116, 104, 95, 115, 105, 103, 110, 97, 116, 117, 114, 101]
}

pub open spec fn k_signature_method() -> Seq<u8> {
    seq![
        111u8, 97, 117, 116, 104, 95, 115, 105, 103, 110, 97, 116, 117, 114, 101, 95, 109, 101, 116,
        104, 111, 100,
    ]
}

pub open spec fn k_timestamp() -> Seq<u8> {
    seq![111u8, 97, 117, 116, 104, 95, 116, 105, 109, 101, 115, 116, 97, 109, 112]
}

pub open spec fn k_token() -> Seq<u8> {
    seq![111u8, 97, 117, 116, 104, 95, 116, 111, 107, 101, 110]
}

pub open spec fn k_version() -> Seq<u8> {
    seq![111u8, 97, 117, 116, 104, 95, 118, 101, 114, 115, 105, 111, 110]
}

/// `HMAC-SHA1`
pub open spec fn v_hmac_sha1() -> Seq<u8> {
    seq![72u8, 77, 65, 67, 45, 83, 72, 65, 49]
}

/// `1.0`
pub open spec fn v_version() -> Seq<u8> {
    seq![49u8, 46, 48]
}

fn consts() -> (r: (Vec<u8>, Vec<u8>, Vec<u8>, Vec<u8>, Vec<u8>, Vec<u8>, Vec<u8>, Vec<u8>, Vec<u8>))
    ensures
        r.0@ == k_consumer_key(),
        r.1@ == k_nonce(),
        r.2@ == k_signature(),
        r.3@ == k_signature_method(),
        r.4@ == k_timestamp(),
        r.5@ == k_token(),
        r.6@ == k_version(),
        r.7@ == v_hmac_sha1(),
        r.8@ == v_version(),
{
    let a = vec![111u8, 97, 117, 116, 104, 95, 99, 111, 110, 115, 117, 109, 101, 114, 95, 107, 101, 121];
    let b = vec![111u8, 97, 117, 116, 104, 95, 110, 111, 110, 99, 101];
    let c = vec![111u8, 97, 117, 116, 104, 95, 115, 105, 103, 110, 97, 116, 117, 114, 101];
    let d = vec![
        111u8, 97, 117, 116, 104, 95, 115, 105, 103, 110, 97, 116, 117, 114, 101, 95, 109, 101, 116,
        104, 111, 100,
    ];
    let e = vec![111u8, 97, 117, 116, 104, 95, 116, 105, 109, 101, 115, 116, 97, 109, 112];
    let f = vec![111u8, 97, 117, 116, 104, 95, 116, 111, 107, 101, 110];
    let g = vec![111u8, 97, 117, 116, 104, 95, 118, 101, 114, 115, 105, 111, 110];
    let h = vec![72u8, 77, 65, 67, 45, 83, 72, 65, 49];
    let i = vec![49u8, 46, 48];
    assert(a@ =~= k_consumer_key());
    assert(b@ =~= k_nonce());
    assert(c@ =~= k_signature());
    assert(d@ =~= k_signature_method());
    assert(e@ =~= k_timestamp());
    assert(f@ =~= k_token());
    assert(g@ =~= k_version());
    assert(h@ =~= v_hmac_sha1());
    assert(i@ =~= v_version());
    (a, b, c, d, e, f, g, h, i)
}

/// Room for the parameter string.
pub const PARAM_MAX: usize = 512;

/// The sorted OAuth parameter string that the signature covers.
pub open spec fn param_string(s: &XSecrets, timestamp: u64, nonce: u64) -> Seq<u8> {
    let cap = PARAM_MAX as int;
    let p1 = param_appended(Seq::empty(), cap, k_consumer_key(), s.api_key@);
    let p2 = param_appended(p1, cap, k_nonce(), dec_digits(nonce as nat));
    let p3 = param_appended(p2, cap, k_signature_method(), v_hmac_sha1());
    let p4 = param_appended(p3, cap, k_timestamp(), dec_digits(timestamp as nat));
    let p5 = param_appended(p4, cap, k_token(), s.access_token@);
    param_appended(p5, cap, k_version(), v_version())
}

pub fn oauth_param_string(s: &XSecrets, timestamp: u64, nonce: u64) -> (r: Vec<u8>)
    ensures
        r@ == param_string(s, timestamp, nonce),
{
    let (kc, kn, _ks, ksm, kt, ktok, kv, vh, vv) = consts();
    let ts = u64_to_dec(timestamp);
    let nc = u64_to_dec(nonce);
    let mut p: Vec<u8> = Vec::new();
    append_param(&mut p, PARAM_MAX, kc.as_slice(), s.api_key.as_slice());
    append_param(&mut p, PARAM_MAX, kn.as_slice(), nc.as_slice());
    append_param(&mut p, PARAM_MAX, ksm.as_slice(), vh.as_slice());
    append_param(&mut p, PARAM_MAX, kt.as_slice(), ts.as_slice());
    append_param(&mut p, PARAM_MAX, ktok.as_slice(), s.access_token.as_slice());
    append_param(&mut p, PARAM_MAX, kv.as_slice(), vv.as_slice());
    p
}

/// Room for the signature base string, and for each encoded part of it.
pub const BASE_MAX: usize = 1024;

pub const ENCODED_PART_MAX: usize = 512;

/// `METHOD&<encoded url>&<encoded parameters>`, within 1024 bytes.
pub open spec fn signature_base(method: Seq<u8>, base_url: Seq<u8>, params: Seq<u8>) -> Seq<u8> {
    let cap = BASE_MAX as int;
    let b1 = bounded_append(Seq::empty(), cap, method);
    let b2 = push_bounded(b1, cap, 38);
    let b3 = bounded_append(b2, cap, percent_encode_from(base_url, 0, ENCODED_PART_MAX as int));
    let b4 = push_bounded(b3, cap, 38);
    bounded_append(b4, cap, percent_encode_from(params, 0, ENCODED_PART_MAX as int))
}

/// The signature base string of a request.
pub fn oauth_signature_base(method: &[u8], base_url: &[u8], params: &[u8]) -> (r: Vec<u8>)
    ensures
        r@ == signature_base(method@, base_url@, params@),
{
    let mut b: Vec<u8> = Vec::new();
    append_bytes(&mut b, BASE_MAX, method);
    append_byte(&mut b, BASE_MAX, 38u8);
    let enc = percent_encode(base_url, ENCODED_PART_MAX);
    append_bytes(&mut b, BASE_MAX, enc.as_slice());
    append_byte(&mut b, BASE_MAX, 38u8);
    let enc2 = percent_encode(params, ENCODED_PART_MAX);
    append_bytes(&mut b, BASE_MAX, enc2.as_slice());
    b
}

/// Room for the signing key.
pub const KEY_MAX: usize = 256;

/// `<encoded consumer secret>&<encoded token secret>`, within 256 bytes.
pub open spec fn signing_key(s: &XSecrets) -> Seq<u8> {
    let cap = KEY_MAX as int;
    let k1 = bounded_append(Seq::empty(), cap, percent_encode_from(s.api_secret@, 0, ENCODED_PART_MAX as int));
    let k2 = push_bounded(k1, cap, 38);
    bounded_append(k2, cap, percent_encode_from(s.access_secret@, 0, ENCODED_PART_MAX as int))
}

/// The HMAC-SHA1 key that signs requests.
pub fn oauth_signing_key(s: &XSecrets) -> (r: Vec<u8>)
    ensures
        r@ == signing_key(s),
{
    let mut k: Vec<u8> = Vec::new();
    let enc = percent_encode(s.api_secret.as_slice(), ENCODED_PART_MAX);
    append_bytes(&mut k, KEY_MAX, enc.as_slice());
    append_byte(&mut k, KEY_MAX, 38u8);
    let enc2 = percent_encode(s.access_secret.as_slice(), ENCODED_PART_MAX);
    append_bytes(&mut k, KEY_MAX, enc2.as_slice());
    k
}

/// `Authorization: OAuth `
pub open spec fn oauth_prefix() -> Seq<u8> {
    seq![65u8, 117, 116, 104, 111, 114, 105, 122, 97, 116, 105, 111, 110, 58, 32, 79, 65, 117, 116, 104, 32]
}

/// The OAuth header line for a request signed with `signature` (base64), within `cap`;
/// the closing `\r\n` only when both bytes fit; empty without credentials.
pub open spec fn oauth_header(s: &XSecrets, timestamp: u64, nonce: u64, signature: Seq<u8>, cap: int) -> Seq<u8> {
    if !spec_secrets_ready(s) {
        Seq::empty()
    } else {
        let h0 = bounded_append(Seq::empty(), cap, oauth_prefix());
        let h1 = kv_appended(h0, cap, k_consumer_key(), s.api_key@, true);
        let h2 = kv_appended(h1, cap, k_nonce(), dec_digits(nonce as nat), true);
        let h3 = kv_appended(h2, cap, k_signature(), signature, true);
        let h4 = kv_appended(h3, cap, k_signature_method(), v_hmac_sha1(), true);
        let h5 = kv_appended(h4, cap, k_timestamp(), dec_digits(timestamp as nat), true);
        let h6 = kv_appended(h5, cap, k_token(), s.access_token@, true);
        let h7 = kv_appended(h6, cap, k_version(), v_version(), false);
        if h7.len() + 2 <= cap {
            h7 + seq![13u8, 10]
        } else {
            h7
        }
    }
}

/// Builds the OAuth 1.0a `Authorization` header from the signature of the request.
pub fn build_oauth_header(s: &XSecrets, timestamp: u64, nonce: u64, signature: &[u8], cap: usize) -> (r: Vec<u8>)
    ensures
        r@ == oauth_header(s, timestamp, nonce, signature@, cap as int),
{
    if !secrets_ready(s) {
        return Vec::new();
    }
    let (kc, kn, ks, ksm, kt, ktok, kv, vh, vv) = consts();
    let ts = u64_to_dec(timestamp);
    let nc = u64_to_dec(nonce);
    let prefix: &[u8] = &[65u8, 117, 116, 104, 111, 114, 105, 122, 97, 116, 105, 111, 110, 58, 32, 79, 65, 117, 116, 104, 32];
    assert(prefix@ == oauth_prefix());
    let mut h: Vec<u8> = Vec::new();
    append_bytes(&mut h, cap, prefix);
    append_kv(&mut h, cap, kc.as_slice(), s.api_key.as_slice(), true);
    append_kv(&mut h, cap, kn.as_slice(), nc.as_slice(), true);
    append_kv(&mut h, cap, ks.as_slice(), signature, true);
    append_kv(&mut h, cap, ksm.as_slice(), vh.as_slice(), true);
    append_kv(&mut h, cap, kt.as_slice(), ts.as_slice(), true);
    append_kv(&mut h, cap, ktok.as_slice(), s.access_token.as_slice(), true);
    append_kv(&mut h, cap, kv.as_slice(), vv.as_slice(), false);
    if h.len() <= cap && cap - h.len() >= 2 {
        h.push(13u8);
        h.push(10u8);
    }
    h
}


/// The OAuth clock: the Unix time it was last set to and the counter reading then (0 and
/// 0 before it is set).
#[derive(Clone, Copy, PartialEq, Eq, Structural)]
pub struct OauthClock {
    pub epoch_sec: u64,
    pub epoch_ticks: u64,
}

impl OauthClock {
    /// Not set.
    pub fn new() -> (r: Self)
        ensures
            r == (OauthClock { epoch_sec: 0, epoch_ticks: 0 }),
    {
        OauthClock { epoch_sec: 0, epoch_ticks: 0 }
    }

    /// Sets the clock to `epoch_sec` at the counter reading `ticks` (the `time` command).
    pub fn set_oauth_time(&mut self, epoch_sec: u64, ticks: u64)
        ensures
            *final(self) == (OauthClock { epoch_sec, epoch_ticks: ticks }),
    {
        self.epoch_sec = epoch_sec;
        self.epoch_ticks = ticks;
    }

    /// Sets the clock from the `Date` of a response's headers, read at `ticks`; a response
    /// without a date leaves it as it was.
    pub fn on_response_headers(&mut self, headers: &crate::http::HttpHeaderInfo, ticks: u64)
        ensures
            *final(self) == (match headers.date {
                Some(d) => OauthClock { epoch_sec: d, epoch_ticks: ticks },
                None => *old(self),
            }),
    {
        if let Some(d) = headers.date {
            self.set_oauth_time(d, ticks);
        }
    }

    /// The current time for OAuth timestamps (see `now_timestamp`).
    pub fn now(&self, ticks: u64, freq: u64) -> (r: u64)
        requires
            spec_now_timestamp(self.epoch_sec, self.epoch_ticks, ticks, freq) <= u64::MAX,
        ensures
            r == spec_now_timestamp(self.epoch_sec, self.epoch_ticks, ticks, freq),
    {
        now_timestamp(self.epoch_sec, self.epoch_ticks, ticks, freq)
    }
}

} // verus!
