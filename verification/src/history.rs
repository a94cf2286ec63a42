//! The input history: an ordered recall buffer for previously submitted
//! lines, with a cursor and a one-shot "first recall" flag that makes the
//! first recall after a save land on the most recent entry.

use vstd::prelude::*;

verus! {

/// Ordered recall buffer of submitted input lines, oldest first.
pub struct InputHistory {
    pub current: i32,
    pub inputs: Vec<String>,
    pub first: bool,
}

/// The mathematical content of an [`InputHistory`].
pub struct HistoryView {
    pub current: int,
    pub inputs: Seq<Seq<char>>,
    pub first: bool,
}

impl View for InputHistory {
    type V = HistoryView;

    open spec fn view(&self) -> HistoryView {
        HistoryView {
            current: self.current as int,
            inputs: self.inputs@.map_values(|s: String| s@),
            first: self.first,
        }
    }
}

/// The cursor value a pending index is normalized to: past the newest end it
/// wraps to the oldest entry, below zero it lands on the newest entry, and in
/// range it is kept.
pub open spec fn spec_norm_index(len: int, pending: int) -> int {
    if pending >= len {
        0
    } else if pending < 0 {
        if len >= 1 {
            len - 1
        } else {
            0
        }
    } else {
        pending
    }
}

/// The history state after saving one input line: a non-empty line is
/// appended, the cursor resets to the no-selection mark, and the one-shot
/// first recall flag is armed.
pub open spec fn spec_save(h: HistoryView, input: Seq<char>) -> HistoryView {
    let inputs = if input.len() == 0 {
        h.inputs
    } else {
        h.inputs.push(input)
    };
    HistoryView { current: -1, inputs, first: true }
}

/// The cursor position one recall step reaches. The first recall after a
/// save lands on the newest entry whatever the direction; after that,
/// stepping toward newer entries wraps past the newest to the oldest, and
/// stepping toward older entries stops at the oldest.
pub open spec fn spec_recall_index(h: HistoryView, newer: bool) -> int {
    let len = h.inputs.len() as int;
    if h.first {
        len - 1
    } else if newer {
        spec_norm_index(len, h.current + 1)
    } else if h.current - 1 < 0 {
        0
    } else {
        h.current - 1
    }
}

/// The history state after one recall step on a non-empty history.
pub open spec fn spec_recall_state(h: HistoryView, newer: bool) -> HistoryView {
    HistoryView { current: spec_recall_index(h, newer), inputs: h.inputs, first: false }
}

/// The entry one recall step returns on a non-empty history.
pub open spec fn spec_recall_output(h: HistoryView, newer: bool) -> Seq<char> {
    h.inputs[spec_recall_index(h, newer)]
}

/// Internal consistency of a history value: the cursor is a real index or
/// the no-selection mark, and the buffer is small enough for its cursor
/// arithmetic.
pub open spec fn history_wf(h: HistoryView) -> bool {
    &&& h.inputs.len() + 1 <= i32::MAX
    &&& if h.inputs.len() == 0 {
        h.current == 0 || h.current == -1
    } else {
        -1 <= h.current < h.inputs.len()
    }
}

impl InputHistory {
    /// An empty history with no selection and the first recall flag unarmed.
    pub fn new() -> (r: Self)
        ensures
            r@.inputs.len() == 0,
            r@.current == -1,
            r@.first == false,
            history_wf(r@),
    {
        InputHistory { current: -1, inputs: Vec::new(), first: false }
    }

    /// Normalizes a pending cursor value into the buffer and stores it.
    pub fn set_current_history_index(&mut self, pending: i32) -> (r: i32)
        requires
            old(self)@.inputs.len() + 1 <= i32::MAX,
        ensures
            final(self)@.current == spec_norm_index(old(self)@.inputs.len() as int, pending as int),
            final(self)@.inputs == old(self)@.inputs,
            final(self)@.first == old(self)@.first,
            r as int == final(self)@.current,
    {
        let len = self.inputs.len() as i32;
        self.current = if pending >= len {
            0
        } else if pending < 0 {
            if len >= 1 {
                len - 1
            } else {
                0
            }
        } else {
            pending
        };
        self.current
    }

    /// Saves one submitted line: appends it when non-empty, never grows the
    /// buffer when empty, resets the cursor to the no-selection mark and
    /// arms the one-shot first recall flag.
    pub fn save_input(&mut self, input: String)
        requires
            old(self)@.inputs.len() + 2 <= i32::MAX,
        ensures
            final(self)@ == spec_save(old(self)@, input@),
            history_wf(final(self)@),
    {
        if !input.as_str().is_empty() {
            self.inputs.push(input);
        }
        self.first = true;
        self.current = -1;
        proof {
            assert(self@.inputs =~= spec_save(old(self)@, input@).inputs);
        }
    }

    /// Consumes the one-shot first recall flag, reporting whether it was set.
    pub fn check_first(&mut self) -> (r: bool)
        ensures
            r == old(self)@.first,
            final(self)@.first == false,
            final(self)@.current == old(self)@.current,
            final(self)@.inputs == old(self)@.inputs,
    {
        if self.first {
            self.first = false;
            return true;
        }
        false
    }

    /// Recalls one entry. On an empty history nothing changes and the empty
    /// string comes back; otherwise the cursor moves as [`spec_recall_index`]
    /// says and the entry under the new cursor is returned.
    pub fn recall(&mut self, newer: bool) -> (r: String)
        requires
            history_wf(old(self)@),
        ensures
            old(self)@.inputs.len() == 0 ==> final(self)@ == old(self)@ && r@.len() == 0,
            old(self)@.inputs.len() > 0 ==> {
                &&& final(self)@ == spec_recall_state(old(self)@, newer)
                &&& r@ == spec_recall_output(old(self)@, newer)
            },
            history_wf(final(self)@),
    {
        if self.inputs.len() == 0 {
            return String::new();
        }
        let first = self.check_first();
        let pending: i32 = if first {
            -1
        } else if newer {
            self.current + 1
        } else {
            if self.current <= 0 {
                0
            } else {
                self.current - 1
            }
        };
        let idx = self.set_current_history_index(pending);
        let out = self.inputs[idx as usize].clone();
        out
    }
}

/// Saving an empty line never grows the buffer.
pub proof fn lemma_save_empty_keeps_inputs(h: HistoryView)
    ensures
        spec_save(h, Seq::<char>::empty()).inputs == h.inputs,
{
}

/// Saving a non-empty line and then recalling once, in either direction,
/// returns exactly the line just saved.
pub proof fn lemma_first_recall_returns_saved(h: HistoryView, x: Seq<char>, newer: bool)
    requires
        x.len() > 0,
    ensures
        spec_recall_output(spec_save(h, x), newer) == x,
{
    let saved = spec_save(h, x);
    assert(saved.inputs == h.inputs.push(x));
    assert(spec_recall_index(saved, newer) == saved.inputs.len() - 1);
}

/// The history state after `k` recall steps in one fixed direction.
pub open spec fn recall_state_at(h: HistoryView, newer: bool, k: nat) -> HistoryView
    decreases k,
{
    if k == 0 {
        h
    } else {
        spec_recall_state(recall_state_at(h, newer, (k - 1) as nat), newer)
    }
}

/// The entry returned by the recall step taken after `k` earlier steps.
pub open spec fn recall_output_at(h: HistoryView, newer: bool, k: nat) -> Seq<char> {
    spec_recall_output(recall_state_at(h, newer, k), newer)
}

/// The cursor position reached by the recall step taken after `k` earlier steps.
pub open spec fn recall_index_at(h: HistoryView, newer: bool, k: nat) -> int {
    spec_recall_index(recall_state_at(h, newer, k), newer)
}

/// Starting from a just-saved history of `n` entries, the first recall lands
/// on the newest entry; after that, recalls toward newer entries wrap to the
/// oldest and walk forward, while recalls toward older entries walk backward.
pub proof fn lemma_recall_trajectory(h: HistoryView, newer: bool, k: nat)
    requires
        h.first,
        h.inputs.len() >= 1,
        k < h.inputs.len(),
    ensures
        recall_state_at(h, newer, k).inputs == h.inputs,
        recall_index_at(h, newer, k) == if newer {
            if k == 0 {
                h.inputs.len() - 1
            } else {
                k - 1
            }
        } else {
            h.inputs.len() - 1 - k
        },
        recall_output_at(h, newer, k) == h.inputs[recall_index_at(h, newer, k)],
        k >= 1 ==> !recall_state_at(h, newer, k).first,
    decreases k,
{
    if k > 0 {
        lemma_recall_trajectory(h, newer, (k - 1) as nat);
    }
}

/// After a save, recalling repeatedly in one fixed direction visits all
/// entries of the history before any entry comes back: the first
/// `n` recall steps land on pairwise distinct positions.
pub proof fn lemma_recall_visits_all_before_repeating(
    h: HistoryView,
    newer: bool,
    j: nat,
    k: nat,
)
    requires
        h.first,
        h.inputs.len() >= 1,
        j < k < h.inputs.len(),
    ensures
        recall_index_at(h, newer, j) != recall_index_at(h, newer, k),
{
    lemma_recall_trajectory(h, newer, j);
    lemma_recall_trajectory(h, newer, k);
}

} // verus!
