use vstd::prelude::*;
use crate::bytes::append_all;
use crate::bytes::bounded_append;
use crate::bytes::min_int;
use crate::utf8::valid_prefix_end;

verus! {

pub const SESSION_HISTORY_MAX: usize = 16384;
pub const SESSION_STATE_SLOTS: usize = 8;
pub const SESSION_STATE_KEY_MAX: usize = 32;
pub const SESSION_STATE_VALUE_MAX: usize = 2048;

/// The longest prefix of `s`, at most `cap` bytes, made of whole UTF-8 sequences.
pub open spec fn utf8_prefix(s: Seq<u8>, cap: int) -> Seq<u8> {
    s.take(valid_prefix_end(s, 0, min_int(cap, s.len() as int)))
}

/// History after appending `b`: as much of it as fits, cut at a UTF-8 boundary.
pub open spec fn history_append(h: Seq<u8>, b: Seq<u8>) -> Seq<u8> {
    h + utf8_prefix(b, SESSION_HISTORY_MAX - h.len())
}

/// A key/value slot; an empty key marks a free slot.
pub type StateSlot = (Seq<u8>, Seq<u8>);

/// The first slot at or after `from` that holds `key`, or the slot count.
pub open spec fn slot_of(slots: Seq<StateSlot>, key: Seq<u8>, from: int) -> int
    decreases slots.len() - from,
{
    if from >= slots.len() {
        slots.len() as int
    } else if slots[from].0.len() != 0 && slots[from].0 == key {
        from
    } else {
        slot_of(slots, key, from + 1)
    }
}

pub proof fn lemma_slot_of(slots: Seq<StateSlot>, key: Seq<u8>, from: int)
    requires
        0 <= from <= slots.len(),
    ensures
        from <= slot_of(slots, key, from) <= slots.len(),
        slot_of(slots, key, from) < slots.len() ==> slots[slot_of(slots, key, from)].0.len() != 0
            && slots[slot_of(slots, key, from)].0 == key,
        forall|k: int|
            from <= k < slot_of(slots, key, from) ==> !(slots[k].0.len() != 0 && slots[k].0
                == key),
    decreases slots.len() - from,
{
    if from < slots.len() && !(slots[from].0.len() != 0 && slots[from].0 == key) {
        lemma_slot_of(slots, key, from + 1);
    }
}

/// The first free slot at or after `from`, or the slot count.
pub open spec fn free_slot_of(slots: Seq<StateSlot>, from: int) -> int
    decreases slots.len() - from,
{
    if from >= slots.len() {
        slots.len() as int
    } else if slots[from].0.len() == 0 {
        from
    } else {
        free_slot_of(slots, from + 1)
    }
}

pub proof fn lemma_free_slot_of(slots: Seq<StateSlot>, from: int)
    requires
        0 <= from <= slots.len(),
    ensures
        from <= free_slot_of(slots, from) <= slots.len(),
        free_slot_of(slots, from) < slots.len() ==> slots[free_slot_of(slots, from)].0.len() == 0,
        forall|k: int| from <= k < free_slot_of(slots, from) ==> slots[k].0.len() != 0,
    decreases slots.len() - from,
{
    if from < slots.len() && slots[from].0.len() != 0 {
        lemma_free_slot_of(slots, from + 1);
    }
}

/// The slot a write of `key` goes to: the one holding it, else the first free one, else
/// the first slot (whose entry is then lost).
pub open spec fn write_slot(slots: Seq<StateSlot>, key: Seq<u8>) -> int {
    if slot_of(slots, key, 0) < slots.len() {
        slot_of(slots, key, 0)
    } else if free_slot_of(slots, 0) < slots.len() {
        free_slot_of(slots, 0)
    } else {
        0
    }
}

/// Slots after a write; `None` when the key is empty or too long or the value too long.
pub open spec fn state_write(slots: Seq<StateSlot>, key: Seq<u8>, value: Seq<u8>) -> Option<
    Seq<StateSlot>,
> {
    if key.len() == 0 || key.len() > SESSION_STATE_KEY_MAX || value.len() > SESSION_STATE_VALUE_MAX {
        None
    } else {
        Some(
            slots.update(
                write_slot(slots, key),
                (key, utf8_prefix(value, SESSION_STATE_VALUE_MAX as int)),
            ),
        )
    }
}

/// The value stored under `key`; empty when there is none.
pub open spec fn state_read(slots: Seq<StateSlot>, key: Seq<u8>) -> Seq<u8> {
    let i = slot_of(slots, key, 0);
    if 0 <= i < slots.len() {
        slots[i].1
    } else {
        Seq::empty()
    }
}

/// The conversation of one session: its history, its named state values, and the agent
/// memory that notes each request, tool result and answer.
pub struct Session {
    started: bool,
    history: Vec<u8>,
    keys: Vec<Vec<u8>>,
    values: Vec<Vec<u8>>,
    memory: crate::memory::AgentMemory,
}

impl Session {
    pub closed spec fn history(&self) -> Seq<u8> {
        self.history@
    }

    pub closed spec fn slots(&self) -> Seq<StateSlot> {
        Seq::new(SESSION_STATE_SLOTS as nat, |i: int| (self.keys@[i]@, self.values@[i]@))
    }

    pub closed spec fn started(&self) -> bool {
        self.started
    }

    pub closed spec fn memory(&self) -> crate::memory::AgentMemory {
        self.memory
    }

    pub closed spec fn wf(&self) -> bool {
        &&& self.keys.len() == SESSION_STATE_SLOTS
        &&& self.values.len() == SESSION_STATE_SLOTS
        &&& self.history.len() <= SESSION_HISTORY_MAX
        &&& self.memory.wf()
        &&& self.memory.started() == self.started
    }

    pub proof fn lemma_wf(&self)
        requires
            self.wf(),
        ensures
            self.slots().len() == SESSION_STATE_SLOTS,
            self.history().len() <= SESSION_HISTORY_MAX,
    {
    }

    fn empty_slots() -> (r: Vec<Vec<u8>>)
        ensures
            r.len() == SESSION_STATE_SLOTS,
            forall|i: int| 0 <= i < r.len() ==> (#[trigger] r@[i])@.len() == 0,
    {
        let mut r: Vec<Vec<u8>> = Vec::new();
        let mut i = 0usize;
        while i < SESSION_STATE_SLOTS
            invariant
                i <= SESSION_STATE_SLOTS,
                r.len() == i,
                forall|k: int| 0 <= k < r.len() ==> (#[trigger] r@[k])@.len() == 0,
            decreases SESSION_STATE_SLOTS - i,
        {
            r.push(Vec::new());
            i += 1;
        }
        r
    }

    /// A session that has not started yet.
    pub fn new() -> (r: Self)
        ensures
            r.wf(),
            !r.started(),
            r.history().len() == 0,
            forall|i: int| 0 <= i < SESSION_STATE_SLOTS ==> (#[trigger] r.slots()[i]).0.len() == 0,
            r.memory().turn() == 0,
    {
        Session {
            started: false,
            history: Vec::new(),
            keys: Self::empty_slots(),
            values: Self::empty_slots(),
            memory: crate::memory::AgentMemory::new(),
        }
    }

    /// Starts the session afresh: empty history, every slot free, the memory cleared.
    pub fn session_reset(&mut self)
        ensures
            final(self).wf(),
            final(self).started(),
            final(self).history().len() == 0,
            final(self).slots() == empty_slots(),
            forall|i: int|
                0 <= i < SESSION_STATE_SLOTS ==> (#[trigger] final(self).slots()[i]).0.len() == 0
                    && final(self).slots()[i].1.len() == 0,
            final(self).memory().turn() == 0,
            final(self).memory().budget() == crate::memory::zero_budget(),
            forall|i: int|
                0 <= i < crate::memory::MEMORY_SLOT_COUNT ==> #[trigger] final(self).memory().slots()[i]
                    == crate::memory::empty_slot(),
    {
        self.started = true;
        self.history = Vec::new();
        self.keys = Self::empty_slots();
        self.values = Self::empty_slots();
        self.memory.memory_reset();
        assert forall|i: int| 0 <= i < SESSION_STATE_SLOTS implies #[trigger] self.slots()[i]
            == empty_slots()[i] by {
            assert(self.keys@[i]@ =~= Seq::<u8>::empty());
            assert(self.values@[i]@ =~= Seq::<u8>::empty());
        }
        assert(self.slots() =~= empty_slots());
    }

    /// Whether the session has started.
    pub fn session_started(&self) -> (r: bool)
        ensures
            r == self.started(),
    {
        self.started
    }

    /// Starts the session unless it has started already.
    pub fn ensure_session_started(&mut self)
        requires
            old(self).wf(),
        ensures
            final(self).wf(),
            final(self).started(),
            final(self).history() == start_history(old(self)),
            final(self).slots() == start_slots(old(self)),
            old(self).started() ==> final(self).memory() == old(self).memory(),
            crate::memory::start_slots(&final(self).memory()) == crate::memory::start_slots(&old(self).memory()),
            crate::memory::start_turn(&final(self).memory()) == crate::memory::start_turn(&old(self).memory()),
            crate::memory::start_budget(&final(self).memory()) == crate::memory::start_budget(&old(self).memory()),
            crate::memory::mview(&final(self).memory()) == crate::memory::mem_started(crate::memory::mview(&old(self).memory())),
    {
        if !self.started {
            self.session_reset();
            proof {
                self.memory.lemma_wf();
                assert(self.memory.slots() =~= Seq::new(
                    crate::memory::MEMORY_SLOT_COUNT as nat,
                    |i: int| crate::memory::empty_slot(),
                ));
                assert(crate::memory::mview(&self.memory()) =~= crate::memory::mem_started(
                    crate::memory::mview(&old(self).memory()),
                ));
            }
        }
    }

    /// Appends bytes to the history (see `history_append`).
    pub fn history_append_bytes(&mut self, bytes: &[u8])
        requires
            old(self).wf(),
        ensures
            final(self).wf(),
            final(self).history() == history_append(old(self).history(), bytes@),
            final(self).slots() == old(self).slots(),
            final(self).started() == old(self).started(),
            final(self).memory() == old(self).memory(),
    {
        let remaining = SESSION_HISTORY_MAX - self.history.len();
        let take = crate::utf8::utf8_safe_prefix_len(bytes, remaining);
        append_all(&mut self.history, vstd::slice::slice_subrange(bytes, 0, take));
        assert(self.slots() =~= old(self).slots());
    }

    fn turn(&mut self, label: &[u8], text: &[u8])
        requires
            old(self).wf(),
            old(self).started(),
        ensures
            final(self).wf(),
            final(self).memory() == old(self).memory(),
            final(self).started(),
            final(self).history() == history_append(
                history_append(history_append(start_history(old(self)), label@), text@),
                seq![10u8],
            ),
            final(self).slots() == start_slots(old(self)),
    {
        self.ensure_session_started();
        self.history_append_bytes(label);
        self.history_append_bytes(text);
        let nl: &[u8] = &[10u8];
        assert(nl@ =~= seq![10u8]);
        self.history_append_bytes(nl);
    }

    /// Records a user request: `User: `, the text, a newline.
    pub fn append_user_turn(&mut self, text: &[u8])
        requires
            old(self).wf(),
        ensures
            final(self).wf(),
            final(self).started(),
            final(self).slots() == start_slots(old(self)),
            final(self).history() == history_append(
                history_append(history_append(start_history(old(self)), user_label()), text@),
                seq![10u8],
            ),
            crate::memory::user_noted(&old(self).memory(), text@, &final(self).memory()),
            crate::memory::mview(&final(self).memory()) == crate::memory::mem_user(crate::memory::mview(&old(self).memory()), text@),
    {
        self.ensure_session_started();
        self.memory.note_user_request(text);
        proof {
            crate::memory::lemma_noted_views(&old(self).memory(), &self.memory(), text@, Seq::empty());
        }
        let label: &[u8] = &[85u8, 115, 101, 114, 58, 32];
        assert(label@ =~= user_label());
        self.turn(label, text);
    }

    /// Records an answer: `Assistant: `, the text, a newline.
    pub fn append_assistant_turn(&mut self, text: &[u8])
        requires
            old(self).wf(),
        ensures
            final(self).wf(),
            final(self).started(),
            final(self).slots() == start_slots(old(self)),
            final(self).history() == history_append(
                history_append(history_append(start_history(old(self)), assistant_label()), text@),
                seq![10u8],
            ),
            crate::memory::answer_noted(&old(self).memory(), text@, &final(self).memory()),
            crate::memory::mview(&final(self).memory()) == crate::memory::mem_answer(crate::memory::mview(&old(self).memory()), text@),
    {
        self.ensure_session_started();
        let _ = self.memory.note_assistant_response(text);
        proof {
            crate::memory::lemma_noted_views(&old(self).memory(), &self.memory(), text@, Seq::empty());
        }
        let label: &[u8] = &[65u8, 115, 115, 105, 115, 116, 97, 110, 116, 58, 32];
        assert(label@ =~= assistant_label());
        self.turn(label, text);
    }

    /// Records a tool result: `Tool[`, the tool, `]: `, the result, a newline.
    pub fn append_tool_result(&mut self, tool: &[u8], result: &[u8])
        requires
            old(self).wf(),
        ensures
            final(self).wf(),
            final(self).started(),
            final(self).slots() == start_slots(old(self)),
            final(self).history() == history_append(
                history_append(
                    history_append(
                        history_append(
                            history_append(start_history(old(self)), seq![84u8, 111, 111, 108, 91]),
                            tool@,
                        ),
                        seq![93u8, 58, 32],
                    ),
                    result@,
                ),
                seq![10u8],
            ),
            crate::memory::tool_noted(&old(self).memory(), tool@, result@, &final(self).memory()),
            crate::memory::mview(&final(self).memory()) == crate::memory::mem_tool(crate::memory::mview(&old(self).memory()), tool@, result@),
    {
        self.ensure_session_started();
        let _ = self.memory.note_tool_result(tool, result);
        proof {
            crate::memory::lemma_noted_views(&old(self).memory(), &self.memory(), result@, tool@);
        }
        let open: &[u8] = &[84u8, 111, 111, 108, 91];
        let close: &[u8] = &[93u8, 58, 32];
        let nl: &[u8] = &[10u8];
        assert(open@ =~= seq![84u8, 111, 111, 108, 91]);
        assert(close@ =~= seq![93u8, 58, 32]);
        assert(nl@ =~= seq![10u8]);
        self.history_append_bytes(open);
        self.history_append_bytes(tool);
        self.history_append_bytes(close);
        self.history_append_bytes(result);
        self.history_append_bytes(nl);
    }

    /// The length of the history.
    pub fn history_len(&self) -> (r: usize)
        ensures
            r == self.history().len(),
    {
        self.history.len()
    }

    /// The whole history, as much as fits below `cap`.
    pub fn history_bytes(&self, cap: usize) -> (r: Vec<u8>)
        ensures
            r@ == bounded_append(Seq::empty(), cap as int, self.history()),
    {
        let mut out: Vec<u8> = Vec::new();
        crate::bytes::append_bytes(&mut out, cap, self.history.as_slice());
        out
    }

    /// The last `budget` bytes of the history, cut at a UTF-8 boundary, without the final
    /// `User: <current_goal>` line when the history ends with it.
    pub fn history_suffix_excluding_current_user(&self, current_goal: &[u8], budget: usize) -> (r: Vec<
        u8,
    >)
        requires
            self.wf(),
        ensures
            r@ == history_suffix(self.history(), current_goal@, budget as int),
    {
        let label: &[u8] = &[85u8, 115, 101, 114, 58, 32];
        assert(label@ =~= user_label());
        let h = self.history.as_slice();
        let mut effective = h.len();
        if current_goal.len() <= SESSION_HISTORY_MAX && h.len() >= label.len() + current_goal.len() + 1 {
            let expected = label.len() + current_goal.len() + 1;
            let start = h.len() - expected;
            let tail = vstd::slice::slice_subrange(h, start, h.len());
            assert(tail@ =~= h@.subrange(start as int, h.len() as int));
            let head_ok = crate::bytes::starts_with(tail, tail.len(), label);
            let goal_part = vstd::slice::slice_subrange(tail, label.len(), tail.len() - 1);
            assert(goal_part@ =~= h@.subrange(start + 6, h.len() - 1));
            assert(head_ok == (h@.subrange(start as int, start + 6) == user_label())) by {
                if head_ok {
                    assert forall|k: int| 0 <= k < 6 implies h@.subrange(start as int, start + 6)[k]
                        == user_label()[k] by {
                        assert(tail@[0 + k] == label@[k]);
                    }
                    assert(h@.subrange(start as int, start + 6) =~= user_label());
                }
                if h@.subrange(start as int, start + 6) == user_label() {
                    assert forall|k: int| 0 <= k < 6 implies #[trigger] tail@[0 + k] == label@[k] by {
                        assert(tail@[k] == h@.subrange(start as int, start + 6)[k]);
                    }
                }
            }
            if head_ok && tail[tail.len() - 1] == 10u8 && crate::bytes::bytes_eq(goal_part, current_goal) {
                effective = start;
            }
        }
        let kept = vstd::slice::slice_subrange(h, 0, effective);
        assert(kept@ =~= history_without_goal(self.history(), current_goal@));
        let s = crate::utf8::utf8_safe_suffix_start(kept, budget);
        let mut out: Vec<u8> = Vec::new();
        append_all(&mut out, vstd::slice::slice_subrange(kept, s, effective));
        out
    }

    fn find_slot(&self, key: &[u8]) -> (r: usize)
        requires
            self.wf(),
        ensures
            r == slot_of(self.slots(), key@, 0),
    {
        let mut i = 0usize;
        while i < SESSION_STATE_SLOTS && !(self.keys[i].len() != 0 && crate::bytes::bytes_eq(
            self.keys[i].as_slice(),
            key,
        ))
            invariant
                self.wf(),
                i <= SESSION_STATE_SLOTS,
                slot_of(self.slots(), key@, 0) == slot_of(self.slots(), key@, i as int),
            decreases SESSION_STATE_SLOTS - i,
        {
            i += 1;
        }
        i
    }

    fn alloc_slot(&self) -> (r: usize)
        requires
            self.wf(),
        ensures
            r == (if free_slot_of(self.slots(), 0) < SESSION_STATE_SLOTS {
                free_slot_of(self.slots(), 0)
            } else {
                0
            }),
    {
        let mut i = 0usize;
        while i < SESSION_STATE_SLOTS && self.keys[i].len() != 0
            invariant
                self.wf(),
                i <= SESSION_STATE_SLOTS,
                free_slot_of(self.slots(), 0) == free_slot_of(self.slots(), i as int),
            decreases SESSION_STATE_SLOTS - i,
        {
            i += 1;
        }
        if i < SESSION_STATE_SLOTS {
            i
        } else {
            0
        }
    }

    /// Stores `value` (cut at a UTF-8 boundary to `SESSION_STATE_VALUE_MAX` bytes) under
    /// `key`; false, changing nothing, when the key is empty or longer than
    /// `SESSION_STATE_KEY_MAX` or the value longer than `SESSION_STATE_VALUE_MAX`.
    pub fn write_session_state(&mut self, key: &[u8], value: &[u8]) -> (r: bool)
        requires
            old(self).wf(),
        ensures
            final(self).wf(),
            final(self).history() == old(self).history(),
            final(self).started() == old(self).started(),
            r == state_write(old(self).slots(), key@, value@) is Some,
            r ==> Some(final(self).slots()) == state_write(old(self).slots(), key@, value@),
            !r ==> final(self).slots() == old(self).slots(),
            final(self).memory() == old(self).memory(),
    {
        if key.len() == 0 || key.len() > SESSION_STATE_KEY_MAX || value.len() > SESSION_STATE_VALUE_MAX {
            return false;
        }
        proof {
            lemma_slot_of(self.slots(), key@, 0);
            lemma_free_slot_of(self.slots(), 0);
        }
        let found = self.find_slot(key);
        let slot = if found < SESSION_STATE_SLOTS {
            found
        } else {
            self.alloc_slot()
        };
        let ghost before = self.slots();
        let mut k: Vec<u8> = Vec::new();
        append_all(&mut k, key);
        let v = crate::utf8::copy_utf8_prefix(SESSION_STATE_VALUE_MAX, value);
        self.keys.set(slot, k);
        self.values.set(slot, v);
        assert(self.slots() =~= before.update(
            slot as int,
            (key@, utf8_prefix(value@, SESSION_STATE_VALUE_MAX as int)),
        ));
        true
    }

    /// The value stored under `key`, as much as fits below `cap`; empty when there is none.
    pub fn read_session_state(&self, key: &[u8], cap: usize) -> (r: Vec<u8>)
        requires
            self.wf(),
        ensures
            r@ == bounded_append(Seq::empty(), cap as int, state_read(self.slots(), key@)),
    {
        let slot = self.find_slot(key);
        let mut out: Vec<u8> = Vec::new();
        if slot < SESSION_STATE_SLOTS {
            crate::bytes::append_bytes(&mut out, cap, self.values[slot].as_slice());
        } else {
            assert(state_read(self.slots(), key@) =~= Seq::<u8>::empty());
            assert(bounded_append(Seq::empty(), cap as int, Seq::<u8>::empty()) =~= Seq::<u8>::empty());
        }
        out
    }

    /// `State[key] = value` lines for the slots in use, in slot order, as much as fits
    /// below `cap`.
    pub fn state_snapshot(&self, cap: usize) -> (r: Vec<u8>)
        requires
            self.wf(),
        ensures
            r@ == snapshot_from(self.slots(), 0, Seq::empty(), cap as int),
    {
        let open: &[u8] = &[83u8, 116, 97, 116, 101, 91];
        let mid: &[u8] = &[93u8, 32, 61, 32];
        let nl: &[u8] = &[10u8];
        assert(open@ =~= state_open());
        assert(mid@ =~= state_mid());
        assert(nl@ =~= seq![10u8]);
        let mut out: Vec<u8> = Vec::new();
        let mut i = 0usize;
        while i < SESSION_STATE_SLOTS
            invariant
                self.wf(),
                i <= SESSION_STATE_SLOTS,
                open@ == state_open(),
                mid@ == state_mid(),
                nl@ == seq![10u8],
                snapshot_from(self.slots(), i as int, out@, cap as int) == snapshot_from(
                    self.slots(),
                    0,
                    Seq::empty(),
                    cap as int,
                ),
            decreases SESSION_STATE_SLOTS - i,
        {
            if self.keys[i].len() != 0 {
                crate::bytes::append_bytes(&mut out, cap, open);
                crate::bytes::append_bytes(&mut out, cap, self.keys[i].as_slice());
                crate::bytes::append_bytes(&mut out, cap, mid);
                crate::bytes::append_bytes(&mut out, cap, self.values[i].as_slice());
                crate::bytes::append_bytes(&mut out, cap, nl);
            }
            i += 1;
        }
        out
    }
}

/// The history a turn starts from: the current one, or an empty one when the session had
/// not started.
pub open spec fn start_history(s: &Session) -> Seq<u8> {
    if s.started() {
        s.history()
    } else {
        Seq::empty()
    }
}

/// Every slot free.
/// A session just reset: started, no history, every slot free, and a cleared memory.
pub open spec fn fresh(s: &Session) -> bool {
    &&& s.started()
    &&& s.history().len() == 0
    &&& s.slots() == empty_slots()
    &&& s.memory().turn() == 0
    &&& s.memory().budget() == crate::memory::zero_budget()
    &&& forall|i: int| 0 <= i < crate::memory::MEMORY_SLOT_COUNT ==> #[trigger] s.memory().slots()[i] == crate::memory::empty_slot()
}

pub open spec fn empty_slots() -> Seq<StateSlot> {
    Seq::new(SESSION_STATE_SLOTS as nat, |i: int| (Seq::<u8>::empty(), Seq::<u8>::empty()))
}

/// The slots a turn starts from: the current ones, or free ones when the session had not
/// started.
pub open spec fn start_slots(s: &Session) -> Seq<StateSlot> {
    if s.started() {
        s.slots()
    } else {
        empty_slots()
    }
}

pub open spec fn user_label() -> Seq<u8> {
    seq![85u8, 115, 101, 114, 58, 32]
}

pub open spec fn assistant_label() -> Seq<u8> {
    seq![65u8, 115, 115, 105, 115, 116, 97, 110, 116, 58, 32]
}

pub open spec fn state_open() -> Seq<u8> {
    seq![83u8, 116, 97, 116, 101, 91]
}

pub open spec fn state_mid() -> Seq<u8> {
    seq![93u8, 32, 61, 32]
}

/// The history without a final `User: <goal>` line.
pub open spec fn history_without_goal(h: Seq<u8>, goal: Seq<u8>) -> Seq<u8> {
    let n = user_label().len() + goal.len() + 1;
    if h.len() >= n && h.subrange(h.len() - n, h.len() - n + 6) == user_label() && h[h.len() - 1]
        == 10u8 && h.subrange(h.len() - n + 6, h.len() - 1) == goal {
        h.take(h.len() - n)
    } else {
        h
    }
}

pub open spec fn history_suffix(h: Seq<u8>, goal: Seq<u8>, budget: int) -> Seq<u8> {
    let kept = history_without_goal(h, goal);
    kept.subrange(crate::utf8::safe_suffix_start(kept, budget), kept.len() as int)
}

/// The snapshot lines of the slots from `i` on, appended to `out` below `cap`.
pub open spec fn snapshot_from(slots: Seq<StateSlot>, i: int, out: Seq<u8>, cap: int) -> Seq<u8>
    decreases slots.len() - i,
{
    if i >= slots.len() {
        out
    } else if slots[i].0.len() == 0 {
        snapshot_from(slots, i + 1, out, cap)
    } else {
        snapshot_from(
            slots,
            i + 1,
            bounded_append(
                bounded_append(
                    bounded_append(
                        bounded_append(bounded_append(out, cap, state_open()), cap, slots[i].0),
                        cap,
                        state_mid(),
                    ),
                    cap,
                    slots[i].1,
                ),
                cap,
                seq![10u8],
            ),
            cap,
        )
    }
}

/// A snapshot written below `cap` stays within `cap` and keeps what was there.
pub proof fn lemma_snapshot_len(slots: Seq<StateSlot>, i: int, out: Seq<u8>, cap: int)
    requires
        out.len() <= cap,
    ensures
        out.len() <= snapshot_from(slots, i, out, cap).len() <= cap,
    decreases slots.len() - i,
{
    if i < slots.len() {
        if slots[i].0.len() == 0 {
            lemma_snapshot_len(slots, i + 1, out, cap);
        } else {
            let next = bounded_append(
                bounded_append(
                    bounded_append(
                        bounded_append(bounded_append(out, cap, state_open()), cap, slots[i].0),
                        cap,
                        state_mid(),
                    ),
                    cap,
                    slots[i].1,
                ),
                cap,
                seq![10u8],
            );
            lemma_snapshot_len(slots, i + 1, next, cap);
        }
    }
}

/// A value written under a key is what a read of that key gives back, cut at a UTF-8
/// boundary to `SESSION_STATE_VALUE_MAX` bytes.
pub proof fn lemma_read_after_write(slots: Seq<StateSlot>, key: Seq<u8>, value: Seq<u8>)
    requires
        slots.len() == SESSION_STATE_SLOTS,
        0 < key.len() <= SESSION_STATE_KEY_MAX,
        value.len() <= SESSION_STATE_VALUE_MAX,
    ensures
        state_write(slots, key, value) matches Some(s2) && state_read(s2, key) == utf8_prefix(
            value,
            SESSION_STATE_VALUE_MAX as int,
        ),
{
    lemma_slot_of(slots, key, 0);
    lemma_free_slot_of(slots, 0);
    let w = write_slot(slots, key);
    let s2 = slots.update(w, (key, utf8_prefix(value, SESSION_STATE_VALUE_MAX as int)));
    lemma_slot_of(s2, key, 0);
    assert(s2[w].0 == key);
    assert(s2[w].0.len() != 0);
    if slot_of(s2, key, 0) < w {
        let j = slot_of(s2, key, 0);
        assert(s2[j] == slots[j]);
        assert(slot_of(slots, key, 0) <= j) by {
            if slot_of(slots, key, 0) > j {
                assert(!(slots[j].0.len() != 0 && slots[j].0 == key));
            }
        }
    }
    assert(slot_of(s2, key, 0) == w);
}

/// Writing a key that is already stored, or while a slot is free, leaves the value of
/// every other key as it was.
pub proof fn lemma_write_keeps_others(
    slots: Seq<StateSlot>,
    key: Seq<u8>,
    value: Seq<u8>,
    other: Seq<u8>,
)
    requires
        slots.len() == SESSION_STATE_SLOTS,
        0 < key.len() <= SESSION_STATE_KEY_MAX,
        value.len() <= SESSION_STATE_VALUE_MAX,
        other != key,
        slot_of(slots, key, 0) < slots.len() || free_slot_of(slots, 0) < slots.len(),
    ensures
        state_write(slots, key, value) matches Some(s2) && state_read(s2, other) == state_read(
            slots,
            other,
        ),
{
    lemma_slot_of(slots, key, 0);
    lemma_free_slot_of(slots, 0);
    let w = write_slot(slots, key);
    let s2 = slots.update(w, (key, utf8_prefix(value, SESSION_STATE_VALUE_MAX as int)));
    lemma_slot_of(s2, other, 0);
    lemma_slot_of(slots, other, 0);
    let a = slot_of(slots, other, 0);
    let b = slot_of(s2, other, 0);
    assert(slots[w].0.len() == 0 || slots[w].0 == key);
    if a < b {
        assert(s2[a] == slots[a]);
    }
    if b < a {
        assert(b != w);
        assert(s2[b] == slots[b]);
    }
    assert(a == b);
    if a < slots.len() {
        assert(a != w);
    }
}

} // verus!
