use vstd::prelude::*;
use crate::bytes::append_all;
use crate::bytes::min_int;

verus! {

pub const MBEDTLS_ERR_SSL_WANT_READ: i32 = -0x6900;
pub const MBEDTLS_ERR_SSL_WANT_WRITE: i32 = -0x6880;
pub const MBEDTLS_ERR_SSL_PEER_CLOSE_NOTIFY: i32 = -0x7880;
pub const TLS_TX_CHUNK_LEN: usize = 1400;
pub const TLS_RX_CAP: usize = 65536;
pub const TLS_PENDING_SLOTS: usize = 4;
pub const TLS_PENDING_MAX: usize = 2048;
pub const TLS_HOST_BUF_LEN: usize = 128;

/// Whether a TLS step asked to be called again once data moves.
pub fn want_retry(code: i32) -> (r: bool)
    ensures
        r == (code == MBEDTLS_ERR_SSL_WANT_READ || code == MBEDTLS_ERR_SSL_WANT_WRITE),
{
    code == MBEDTLS_ERR_SSL_WANT_READ || code == MBEDTLS_ERR_SSL_WANT_WRITE
}

/// Whether the peer closed the TLS session.
pub fn is_peer_close(code: i32) -> (r: bool)
    ensures
        r == (code == MBEDTLS_ERR_SSL_PEER_CLOSE_NOTIFY),
{
    code == MBEDTLS_ERR_SSL_PEER_CLOSE_NOTIFY
}

/// How many bytes of a `len`-byte TLS write go out in one TCP segment.
pub fn send_chunk_len(len: usize) -> (r: usize)
    ensures
        r == min_int(
            len as int,
            min_int(TLS_TX_CHUNK_LEN as int, crate::net::TX_BUF_LEN - crate::net::TX_FRAME_OVERHEAD),
        ),
{
    let safe = if TLS_TX_CHUNK_LEN < crate::net::max_tcp_payload_len() {
        TLS_TX_CHUNK_LEN
    } else {
        crate::net::max_tcp_payload_len()
    };
    if len < safe {
        len
    } else {
        safe
    }
}

/// The server name handed to the TLS library: `domain` cut to 127 bytes, then a zero.
pub fn hostname_cstr(domain: &[u8]) -> (r: Vec<u8>)
    ensures
        r@ == domain@.take(min_int(domain.len() as int, (TLS_HOST_BUF_LEN - 1) as int)).push(0u8),
{
    let mut out: Vec<u8> = Vec::new();
    crate::bytes::append_bytes(&mut out, TLS_HOST_BUF_LEN - 1, domain);
    out.push(0u8);
    out
}

/// The state of the entropy generator after `k` steps from the counter value `ticks`.
pub open spec fn entropy_state(ticks: u64, k: nat) -> u64
    decreases k,
{
    if k == 0 {
        ticks ^ 0x9e37_79b9_7f4a_7c15u64
    } else {
        vstd::wrapping::u64_specs::wrapping_add(
            vstd::wrapping::u64_specs::wrapping_mul(
                entropy_state(ticks, (k - 1) as nat),
                6364136223846793005u64,
            ),
            1u64,
        )
    }
}

/// Byte `k` of the entropy stream seeded by `ticks`: bits 32 to 39 of the state after
/// `k + 1` steps.
pub open spec fn entropy_byte(ticks: u64, k: nat) -> u8 {
    (entropy_state(ticks, k + 1) >> 32u64) as u8
}

/// `len` bytes of the linear congruential stream that the TLS library draws its
/// randomness from, seeded by the counter value `ticks`.
pub fn entropy_fill(ticks: u64, len: usize) -> (out: Vec<u8>)
    ensures
        out.len() == len,
        forall|k: int| 0 <= k < len ==> #[trigger] out@[k] == entropy_byte(ticks, k as nat),
{
    let mut state: u64 = ticks ^ 0x9e37_79b9_7f4a_7c15u64;
    let mut out: Vec<u8> = Vec::new();
    let mut i = 0usize;
    while i < len
        invariant
            i <= len,
            out.len() == i,
            state == entropy_state(ticks, i as nat),
            forall|k: int| 0 <= k < i ==> #[trigger] out@[k] == entropy_byte(ticks, k as nat),
        decreases len - i,
    {
        state = state.wrapping_mul(6364136223846793005u64).wrapping_add(1u64);
        out.push((state >> 32u64) as u8);
        i += 1;
    }
    out
}

// ---------------------------------------------------------------------------
// Received application bytes
// ---------------------------------------------------------------------------

/// What the stream holds unread after `data` arrives: `data` appended, or, when the two
/// together overflow the buffer, nothing at all.
pub open spec fn rx_push(unread: Seq<u8>, data: Seq<u8>) -> Seq<u8> {
    if data.len() == 0 {
        unread
    } else if unread.len() + data.len() > TLS_RX_CAP {
        Seq::empty()
    } else {
        unread + data
    }
}

/// The TCP sequence number `n` bytes after `seq`.
pub open spec fn seq_after(seq: u32, n: nat) -> u32 {
    ((seq + n) % 0x1_0000_0000) as u32
}

pub(crate) fn advance(seq: u32, n: usize) -> (r: u32)
    ensures
        r == seq_after(seq, n as nat),
{
    let low = (n as u64 % 0x1_0000_0000u64) as u32;
    let r = seq.wrapping_add(low);
    assert(r == seq_after(seq, n as nat)) by (nonlinear_arith)
        requires
            low == (n as int) % 0x1_0000_0000,
            r == (if seq + low > u32::MAX {
                seq + low - 0x1_0000_0000
            } else {
                seq + low
            }),
    ;
    r
}

/// Bytes received on the TLS connection and not yet handed to the TLS library.
pub struct RxStream {
    buf: Vec<u8>,
    off: usize,
}

impl View for RxStream {
    type V = Seq<u8>;

    closed spec fn view(&self) -> Seq<u8> {
        self.buf@.subrange(self.off as int, self.buf.len() as int)
    }
}

impl RxStream {
    pub closed spec fn wf(&self) -> bool {
        self.off <= self.buf.len() <= TLS_RX_CAP
    }

    pub proof fn lemma_wf(&self)
        requires
            self.wf(),
        ensures
            self@.len() <= TLS_RX_CAP,
    {
    }

    /// An empty stream.
    pub fn new() -> (r: Self)
        ensures
            r.wf(),
            r@ == Seq::<u8>::empty(),
    {
        RxStream { buf: Vec::new(), off: 0 }
    }

    /// Appends received bytes; when they would overflow the buffer, even after moving the
    /// unread bytes to its front, the whole buffer is dropped with them.
    pub fn push(&mut self, data: &[u8])
        requires
            old(self).wf(),
        ensures
            final(self).wf(),
            final(self)@ == rx_push(old(self)@, data@),
    {
        if data.len() == 0 {
            return ;
        }
        if self.off >= self.buf.len() {
            self.buf = Vec::new();
            self.off = 0;
            assert(self@ =~= old(self)@);
        }
        if data.len() > TLS_RX_CAP - self.buf.len() && self.off > 0 {
            let mut rest: Vec<u8> = Vec::new();
            append_all(
                &mut rest,
                vstd::slice::slice_subrange(self.buf.as_slice(), self.off, self.buf.len()),
            );
            self.buf = rest;
            self.off = 0;
            assert(self@ =~= old(self)@);
        }
        if data.len() > TLS_RX_CAP - self.buf.len() {
            self.buf = Vec::new();
            self.off = 0;
            assert(self@ =~= Seq::<u8>::empty());
            return ;
        }
        append_all(&mut self.buf, data);
        assert(self@ =~= old(self)@ + data@);
    }

    /// Hands out up to `max` unread bytes, oldest first; `MBEDTLS_ERR_SSL_WANT_READ` when
    /// none is there.
    pub fn recv(&mut self, max: usize) -> (r: Result<Vec<u8>, i32>)
        requires
            old(self).wf(),
        ensures
            final(self).wf(),
            old(self)@.len() == 0 ==> (r matches Err(e) && e == MBEDTLS_ERR_SSL_WANT_READ
                && final(self)@ == old(self)@),
            old(self)@.len() > 0 ==> (r matches Ok(v) && v@ == old(self)@.take(
                min_int(max as int, old(self)@.len() as int),
            ) && final(self)@ == old(self)@.skip(v.len() as int)),
    {
        let available = self.buf.len() - self.off;
        if available == 0 {
            return Err(MBEDTLS_ERR_SSL_WANT_READ);
        }
        let n = if available < max {
            available
        } else {
            max
        };
        let mut out: Vec<u8> = Vec::new();
        append_all(&mut out, vstd::slice::slice_subrange(self.buf.as_slice(), self.off, self.off + n));
        assert(out@ =~= old(self)@.take(n as int));
        self.off = self.off + n;
        assert(self@ =~= old(self)@.skip(n as int));
        if self.off >= self.buf.len() {
            self.buf = Vec::new();
            self.off = 0;
            assert(self@ =~= old(self)@.skip(n as int));
        }
        Ok(out)
    }

    /// Drops everything unread.
    pub fn clear(&mut self)
        ensures
            final(self).wf(),
            final(self)@ == Seq::<u8>::empty(),
    {
        self.buf = Vec::new();
        self.off = 0;
        assert(self@ =~= Seq::<u8>::empty());
    }
}

// ---------------------------------------------------------------------------
// Reassembly of TCP segments that arrive ahead of the expected sequence number
// ---------------------------------------------------------------------------

/// A held segment: whether the slot is in use, its sequence number and its bytes.
pub type SlotView = (bool, u32, Seq<u8>);

/// The abstract receive state: unread bytes, next expected sequence number, held
/// segments.
pub type RxModel = (Seq<u8>, u32, Seq<SlotView>);

pub open spec fn valid_count(p: Seq<SlotView>) -> nat
    decreases p.len(),
{
    if p.len() == 0 {
        0
    } else {
        valid_count(p.drop_last()) + (if p.last().0 {
            1nat
        } else {
            0nat
        })
    }
}

pub proof fn lemma_valid_count_clear(p: Seq<SlotView>, i: int, s: SlotView)
    requires
        0 <= i < p.len(),
        p[i].0,
        !s.0,
    ensures
        valid_count(p.update(i, s)) + 1 == valid_count(p),
    decreases p.len(),
{
    if i == p.len() - 1 {
        assert(p.update(i, s).drop_last() =~= p.drop_last());
    } else {
        lemma_valid_count_clear(p.drop_last(), i, s);
        assert(p.update(i, s).drop_last() =~= p.drop_last().update(i, s));
    }
}

/// The first slot at or after `from` that holds a segment starting at `seq`; the slot
/// count when there is none.
pub open spec fn slot_for(p: Seq<SlotView>, seq: u32, from: int) -> int
    decreases p.len() - from,
{
    if from >= p.len() {
        p.len() as int
    } else if p[from].0 && p[from].1 == seq {
        from
    } else {
        slot_for(p, seq, from + 1)
    }
}

pub proof fn lemma_slot_for(p: Seq<SlotView>, seq: u32, from: int)
    requires
        0 <= from <= p.len(),
    ensures
        from <= slot_for(p, seq, from) <= p.len(),
        slot_for(p, seq, from) < p.len() ==> p[slot_for(p, seq, from)].0 && p[slot_for(
            p,
            seq,
            from,
        )].1 == seq,
        forall|k: int| from <= k < slot_for(p, seq, from) ==> !(p[k].0 && p[k].1 == seq),
    decreases p.len() - from,
{
    if from < p.len() && !(p[from].0 && p[from].1 == seq) {
        lemma_slot_for(p, seq, from + 1);
    }
}

/// The first free slot at or after `from`; the slot count when all are in use.
pub open spec fn free_slot(p: Seq<SlotView>, from: int) -> int
    decreases p.len() - from,
{
    if from >= p.len() {
        p.len() as int
    } else if !p[from].0 {
        from
    } else {
        free_slot(p, from + 1)
    }
}

pub proof fn lemma_free_slot(p: Seq<SlotView>, from: int)
    requires
        0 <= from <= p.len(),
    ensures
        from <= free_slot(p, from) <= p.len(),
        free_slot(p, from) < p.len() ==> !p[free_slot(p, from)].0,
        forall|k: int| from <= k < free_slot(p, from) ==> p[k].0,
    decreases p.len() - from,
{
    if from < p.len() && p[from].0 {
        lemma_free_slot(p, from + 1);
    }
}

/// Moves held segments into the stream while one starts at the expected sequence number.
pub open spec fn drain(u: Seq<u8>, ack: u32, p: Seq<SlotView>) -> RxModel
    decreases valid_count(p),
{
    let i = slot_for(p, ack, 0);
    if 0 <= i < p.len() {
        proof {
            lemma_slot_for(p, ack, 0);
            lemma_valid_count_clear(p, i, (false, p[i].1, Seq::<u8>::empty()));
        }
        drain(
            rx_push(u, p[i].2),
            seq_after(ack, p[i].2.len()),
            p.update(i, (false, p[i].1, Seq::<u8>::empty())),
        )
    } else {
        (u, ack, p)
    }
}

/// A segment of `d` starting at `seq` arrives in state `m`: the new state, and whether the
/// segment was the expected one. An expected segment goes to the stream, followed by the
/// held segments that then line up; a later one (less than half the sequence space
/// ahead) of at most `TLS_PENDING_MAX` bytes is held in the first free slot unless a
/// segment with the same start is held already; anything else is dropped.
pub open spec fn push_seq(m: RxModel, seq: u32, d: Seq<u8>) -> (RxModel, bool) {
    let (u, ack, p) = m;
    if d.len() == 0 {
        (m, false)
    } else if seq == ack {
        (drain(rx_push(u, d), seq_after(ack, d.len()), p), true)
    } else if vstd::wrapping::u32_specs::wrapping_sub(seq, ack) < 0x8000_0000 && d.len()
        <= TLS_PENDING_MAX && slot_for(p, seq, 0) >= p.len() && free_slot(p, 0) < p.len() {
        ((u, ack, p.update(free_slot(p, 0), (true, seq, d))), false)
    } else {
        (m, false)
    }
}

/// A held segment.
pub struct PendingSegment {
    valid: bool,
    seq: u32,
    data: Vec<u8>,
}

pub open spec fn no_held(p: Seq<SlotView>) -> bool {
    forall|k: int| 0 <= k < p.len() ==> !(#[trigger] p[k]).0
}

/// The receive side of the TLS connection's TCP stream.
pub struct TlsRx {
    rx: RxStream,
    ack: u32,
    pending: Vec<PendingSegment>,
}

impl TlsRx {
    pub closed spec fn slots(&self) -> Seq<SlotView> {
        self.pending@.map_values(|s: PendingSegment| (s.valid, s.seq, s.data@))
    }

    pub closed spec fn model(&self) -> RxModel {
        (self.rx@, self.ack, self.slots())
    }

    pub closed spec fn wf(&self) -> bool {
        &&& self.rx.wf()
        &&& self.pending.len() == TLS_PENDING_SLOTS
    }

    pub proof fn lemma_wf(&self)
        requires
            self.wf(),
        ensures
            self.model().0.len() <= TLS_RX_CAP,
            self.model().2.len() == TLS_PENDING_SLOTS,
    {
    }

    fn empty_slots() -> (r: Vec<PendingSegment>)
        ensures
            r.len() == TLS_PENDING_SLOTS,
            forall|k: int| 0 <= k < r.len() ==> !(#[trigger] r@[k]).valid && r@[k].seq == 0
                && r@[k].data@.len() == 0,
    {
        let mut r: Vec<PendingSegment> = Vec::new();
        let mut i = 0usize;
        while i < TLS_PENDING_SLOTS
            invariant
                i <= TLS_PENDING_SLOTS,
                r.len() == i,
                forall|k: int| 0 <= k < r.len() ==> !(#[trigger] r@[k]).valid && r@[k].seq == 0
                    && r@[k].data@.len() == 0,
            decreases TLS_PENDING_SLOTS - i,
        {
            r.push(PendingSegment { valid: false, seq: 0, data: Vec::new() });
            i += 1;
        }
        r
    }

    /// A fresh connection whose next expected sequence number is `ack`.
    pub fn new(ack: u32) -> (r: Self)
        ensures
            r.wf(),
            r.model().0 == Seq::<u8>::empty(),
            r.model().1 == ack,
            no_held(r.model().2),
    {
        let r = TlsRx { rx: RxStream::new(), ack, pending: Self::empty_slots() };
        assert(no_held(r.model().2));
        r
    }

    /// Drops the unread bytes and every held segment; the expected sequence number stays.
    pub fn reset(&mut self)
        requires
            old(self).wf(),
        ensures
            final(self).wf(),
            final(self).model().0 == Seq::<u8>::empty(),
            final(self).model().1 == old(self).model().1,
            no_held(final(self).model().2),
    {
        self.rx.clear();
        self.pending = Self::empty_slots();
        assert(no_held(self.model().2));
    }

    /// The sequence number the next in-order segment must carry.
    pub fn expected_ack(&self) -> (r: u32)
        ensures
            r == self.model().1,
    {
        self.ack
    }

    /// Sets the sequence number expected next.
    pub fn update_ack(&mut self, ack: u32)
        requires
            old(self).wf(),
        ensures
            final(self).wf(),
            final(self).model() == (old(self).model().0, ack, old(self).model().2),
    {
        self.ack = ack;
    }

    /// Appends bytes to the stream whatever their sequence number (see `rx_push`).
    pub fn push_rx_payload(&mut self, data: &[u8])
        requires
            old(self).wf(),
        ensures
            final(self).wf(),
            final(self).model() == (rx_push(old(self).model().0, data@), old(self).model().1, old(
                self,
            ).model().2),
    {
        self.rx.push(data);
    }

    /// Hands the TLS library up to `max` bytes (see `RxStream::recv`).
    pub fn recv(&mut self, max: usize) -> (r: Result<Vec<u8>, i32>)
        requires
            old(self).wf(),
        ensures
            final(self).wf(),
            final(self).model().1 == old(self).model().1,
            final(self).model().2 == old(self).model().2,
            old(self).model().0.len() == 0 ==> (r matches Err(e) && e == MBEDTLS_ERR_SSL_WANT_READ
                && final(self).model().0 == old(self).model().0),
            old(self).model().0.len() > 0 ==> (r matches Ok(v) && v@ == old(self).model().0.take(
                min_int(max as int, old(self).model().0.len() as int),
            ) && final(self).model().0 == old(self).model().0.skip(v.len() as int)),
    {
        self.rx.recv(max)
    }

    fn find_slot(&self, seq: u32) -> (r: usize)
        ensures
            r == slot_for(self.slots(), seq, 0),
    {
        let mut i = 0usize;
        proof {
            lemma_slot_for(self.slots(), seq, 0);
        }
        while i < self.pending.len() && !(self.pending[i].valid && self.pending[i].seq == seq)
            invariant
                i <= self.pending.len(),
                slot_for(self.slots(), seq, 0) == slot_for(self.slots(), seq, i as int),
            decreases self.pending.len() - i,
        {
            i += 1;
        }
        i
    }

    fn find_free(&self) -> (r: usize)
        ensures
            r == free_slot(self.slots(), 0),
    {
        let mut i = 0usize;
        while i < self.pending.len() && self.pending[i].valid
            invariant
                i <= self.pending.len(),
                free_slot(self.slots(), 0) == free_slot(self.slots(), i as int),
            decreases self.pending.len() - i,
        {
            i += 1;
        }
        i
    }

    /// A TCP segment of `data` starting at `seq` arrived; returns whether it was the
    /// expected one (see `push_seq`).
    pub fn push_rx_payload_seq(&mut self, seq: u32, data: &[u8]) -> (accepted: bool)
        requires
            old(self).wf(),
        ensures
            final(self).wf(),
            (final(self).model(), accepted) == push_seq(old(self).model(), seq, data@),
    {
        if data.len() == 0 {
            return false;
        }
        let expected = self.ack;
        if seq == expected {
            self.rx.push(data);
            self.ack = advance(expected, data.len());
            let ghost target = drain(self.rx@, self.ack, self.slots());
            let mut i = self.find_slot(self.ack);
            while i < self.pending.len()
                invariant
                    self.wf(),
                    i == slot_for(self.slots(), self.ack, 0),
                    drain(self.rx@, self.ack, self.slots()) == target,
                decreases valid_count(self.slots()),
            {
                proof {
                    lemma_slot_for(self.slots(), self.ack, 0);
                    lemma_valid_count_clear(
                        self.slots(),
                        i as int,
                        (false, self.slots()[i as int].1, Seq::<u8>::empty()),
                    );
                }
                let ghost before = self.slots();
                let held_seq = self.pending[i].seq;
                let n = self.pending[i].data.len();
                self.rx.push(self.pending[i].data.as_slice());
                self.ack = advance(self.ack, n);
                self.pending.set(i, PendingSegment { valid: false, seq: held_seq, data: Vec::new() });
                assert(self.slots() =~= before.update(i as int, (false, held_seq, Seq::<u8>::empty())));
                i = self.find_slot(self.ack);
            }
            return true;
        }
        if seq.wrapping_sub(expected) < 0x8000_0000 {
            if data.len() <= TLS_PENDING_MAX {
                if self.find_slot(seq) < self.pending.len() {
                    return false;
                }
                let j = self.find_free();
                if j < self.pending.len() {
                    let mut copy: Vec<u8> = Vec::new();
                    append_all(&mut copy, data);
                    let ghost before = self.slots();
                    self.pending.set(j, PendingSegment { valid: true, seq, data: copy });
                    assert(self.slots() =~= before.update(j as int, (true, seq, data@)));
                }
            }
            return false;
        }
        false
    }
}

/// A segment that starts at the expected sequence number, with nothing held, goes straight
/// to the stream and moves the expected number past it.
pub proof fn lemma_in_order(u: Seq<u8>, ack: u32, p: Seq<SlotView>, d: Seq<u8>)
    requires
        no_held(p),
        d.len() > 0,
    ensures
        push_seq((u, ack, p), ack, d) == ((rx_push(u, d), seq_after(ack, d.len()), p), true),
{
    lemma_slot_for(p, seq_after(ack, d.len()), 0);
}

/// Two segments that arrive in the wrong order, the later one first, come out of the
/// stream in sequence order, and nothing stays held.
pub proof fn lemma_reordered_pair(u: Seq<u8>, ack: u32, p: Seq<SlotView>, d1: Seq<u8>, d2: Seq<u8>)
    requires
        no_held(p),
        p.len() > 0,
        0 < d1.len() < 0x8000_0000,
        0 < d2.len() <= TLS_PENDING_MAX,
    ensures
        ({
            let (m1, a1) = push_seq((u, ack, p), seq_after(ack, d1.len()), d2);
            let (m2, a2) = push_seq(m1, ack, d1);
            &&& !a1
            &&& a2
            &&& m2.0 == rx_push(rx_push(u, d1), d2)
            &&& m2.1 == seq_after(seq_after(ack, d1.len()), d2.len())
            &&& no_held(m2.2)
        }),
{
    let s2 = seq_after(ack, d1.len());
    assert(s2 != ack);
    assert(vstd::wrapping::u32_specs::wrapping_sub(s2, ack) == d1.len());
    lemma_slot_for(p, s2, 0);
    lemma_free_slot(p, 0);
    assert(free_slot(p, 0) == 0);
    let p1 = p.update(0, (true, s2, d2));
    let u1 = rx_push(u, d1);
    lemma_slot_for(p1, s2, 0);
    assert(slot_for(p1, s2, 0) == 0);
    let p2 = p1.update(0, (false, s2, Seq::<u8>::empty()));
    lemma_valid_count_clear(p1, 0, (false, s2, Seq::<u8>::empty()));
    let a3 = seq_after(s2, d2.len());
    lemma_slot_for(p2, a3, 0);
    assert(no_held(p2));
    assert(slot_for(p2, a3, 0) == p2.len());
    let u2 = rx_push(u1, d2);
    assert(drain(u2, a3, p2) == (u2, a3, p2));
    assert(drain(u1, s2, p1) == drain(u2, a3, p2));
    assert(push_seq((u, ack, p), s2, d2) == ((u, ack, p1), false));
    assert(push_seq((u, ack, p1), ack, d1) == (drain(u1, s2, p1), true));
}

/// A second segment with the same start as a held one changes nothing.
pub proof fn lemma_duplicate_ignored(m: RxModel, seq: u32, d: Seq<u8>)
    requires
        seq != m.1,
        slot_for(m.2, seq, 0) < m.2.len(),
    ensures
        push_seq(m, seq, d) == (m, false),
{
}

/// What the TLS library reads back is what arrived, in order: after the bytes `d`
/// arrive in an empty stream, a read of at least their length returns exactly them.
pub proof fn lemma_read_back(d: Seq<u8>, max: int)
    requires
        0 < d.len() <= TLS_RX_CAP,
        max >= d.len(),
    ensures
        rx_push(Seq::empty(), d).take(min_int(max, rx_push(Seq::empty(), d).len() as int)) == d,
{
    assert(Seq::<u8>::empty() + d =~= d);
    assert(d.take(d.len() as int) =~= d);
}

} // verus!
