//! Undo/redo history of model snapshots, bounded in length.

use vstd::prelude::*;

verus! {

/// At most this many snapshots are kept for undo.
pub const HISTORY_LIMIT: usize = 50;

/// Snapshots to go back to (`past`, most recent last) and to go forward to
/// again (`future`, most recent undo last).
pub struct History<T> {
    past: Vec<T>,
    future: Vec<T>,
}

pub struct HistoryView<T> {
    pub past: Seq<T>,
    pub future: Seq<T>,
}

impl<T> View for History<T> {
    type V = HistoryView<T>;

    closed spec fn view(&self) -> HistoryView<T> {
        HistoryView { past: self.past@, future: self.future@ }
    }
}

impl<T> HistoryView<T> {
    /// Past and future together never exceed the limit.
    pub open spec fn wf(self) -> bool {
        self.past.len() + self.future.len() <= HISTORY_LIMIT
    }
}

/// Recording `snapshot` before a change: the oldest snapshot goes when the
/// limit is reached, and the redo history is cleared.
pub open spec fn record<T>(h: HistoryView<T>, snapshot: T) -> HistoryView<T> {
    HistoryView {
        past: (if h.past.len() >= HISTORY_LIMIT { h.past.drop_first() } else { h.past }).push(snapshot),
        future: Seq::empty(),
    }
}

/// Undo: the latest snapshot becomes current, the current value can be redone.
pub open spec fn undo_step<T>(h: HistoryView<T>, current: T) -> (HistoryView<T>, T) {
    if h.past.len() == 0 {
        (h, current)
    } else {
        (HistoryView { past: h.past.drop_last(), future: h.future.push(current) }, h.past.last())
    }
}

/// Redo: the latest undone value becomes current, the current one can be undone.
pub open spec fn redo_step<T>(h: HistoryView<T>, current: T) -> (HistoryView<T>, T) {
    if h.future.len() == 0 {
        (h, current)
    } else {
        (HistoryView { past: h.past.push(current), future: h.future.drop_last() }, h.future.last())
    }
}

impl<T> History<T> {
    pub fn new() -> (h: Self)
        ensures
            h@.past == Seq::<T>::empty(),
            h@.future == Seq::<T>::empty(),
    {
        History { past: Vec::new(), future: Vec::new() }
    }

    /// Records the state before a change so that it can be undone.
    pub fn push_snapshot(&mut self, snapshot: T)
        ensures
            final(self)@ == record(old(self)@, snapshot),
            old(self)@.wf() ==> final(self)@.wf(),
    {
        if self.past.len() >= HISTORY_LIMIT {
            self.past.remove(0);
            assert(self.past@ =~= old(self)@.past.drop_first());
        }
        self.past.push(snapshot);
        self.future.clear();
        assert(self@.past =~= record(old(self)@, snapshot).past);
        assert(self@.future =~= record(old(self)@, snapshot).future);
    }

    /// Replaces `current` by the latest snapshot, keeping `current` for redo.
    /// Returns `false`, changing nothing, when there is nothing to undo.
    pub fn undo(&mut self, current: &mut T) -> (r: bool)
        ensures
            r == (old(self)@.past.len() > 0),
            (final(self)@, *final(current)) == undo_step(old(self)@, *old(current)),
            old(self)@.wf() ==> final(self)@.wf(),
    {
        match self.past.pop() {
            Some(prev) => {
                let mut value = prev;
                std::mem::swap(&mut value, current);
                self.future.push(value);
                assert(self@ == undo_step(old(self)@, *old(current)).0);
                true
            },
            None => false,
        }
    }

    /// Replaces `current` by the latest undone value, keeping `current` for
    /// undo. Returns `false`, changing nothing, when there is nothing to redo.
    pub fn redo(&mut self, current: &mut T) -> (r: bool)
        ensures
            r == (old(self)@.future.len() > 0),
            (final(self)@, *final(current)) == redo_step(old(self)@, *old(current)),
            old(self)@.wf() ==> final(self)@.wf(),
    {
        match self.future.pop() {
            Some(next) => {
                let mut value = next;
                std::mem::swap(&mut value, current);
                self.past.push(value);
                assert(self@ == redo_step(old(self)@, *old(current)).0);
                true
            },
            None => false,
        }
    }

    /// Records the undo step that the end of a pointer gesture calls for.
    /// After a node drag that moved some node, the step is the model as it
    /// was when the drag started (`drag_start`), so that undo restores the
    /// positions from before the drag; after a structural change it is the
    /// model just before the release (`before`); otherwise nothing is
    /// recorded. Returns whether a step was recorded.
    pub fn record_release(&mut self, structural: bool, drag_start: Option<T>, moved: bool, before: T) -> (recorded: bool)
        ensures
            recorded == (structural || (moved && drag_start is Some)),
            moved ==> (drag_start matches Some(start) ==> final(self)@ == record(old(self)@, start)),
            !(moved && drag_start is Some) && structural ==> final(self)@ == record(old(self)@, before),
            !recorded ==> final(self)@ == old(self)@,
            old(self)@.wf() ==> final(self)@.wf(),
    {
        match drag_start {
            Some(start) if moved => {
                self.push_snapshot(start);
                true
            },
            _ => {
                if structural {
                    self.push_snapshot(before);
                }
                structural
            },
        }
    }

    pub fn can_undo(&self) -> (r: bool)
        ensures
            r == (self@.past.len() > 0),
    {
        self.past.len() > 0
    }

    pub fn can_redo(&self) -> (r: bool)
        ensures
            r == (self@.future.len() > 0),
    {
        self.future.len() > 0
    }
}

/// Redo takes back an undo: both the history and the current value return.
pub proof fn law_redo_after_undo<T>(h: HistoryView<T>, current: T)
    requires
        h.past.len() > 0,
    ensures
        redo_step(undo_step(h, current).0, undo_step(h, current).1) == (h, current),
{
    let (h1, c1) = undo_step(h, current);
    assert(h1.past.push(c1) =~= h.past);
    assert(h1.future.drop_last() =~= h.future);
}

/// Undo takes back a redo: both the history and the current value return.
pub proof fn law_undo_after_redo<T>(h: HistoryView<T>, current: T)
    requires
        h.future.len() > 0,
    ensures
        undo_step(redo_step(h, current).0, redo_step(h, current).1) == (h, current),
{
    let (h1, c1) = redo_step(h, current);
    assert(h1.future.push(c1) =~= h.future);
    assert(h1.past.drop_last() =~= h.past);
}

/// Undoing right after recording a snapshot restores that snapshot, offers
/// the changed value for redo, and leaves the older snapshots as they were.
pub proof fn law_undo_after_record<T>(h: HistoryView<T>, snapshot: T, current: T)
    ensures
        undo_step(record(h, snapshot), current).1 == snapshot,
        undo_step(record(h, snapshot), current).0.future == seq![current],
        undo_step(record(h, snapshot), current).0.past
            == (if h.past.len() >= HISTORY_LIMIT { h.past.drop_first() } else { h.past }),
{
    let r = record(h, snapshot);
    let kept = if h.past.len() >= HISTORY_LIMIT { h.past.drop_first() } else { h.past };
    assert(r.past.drop_last() =~= kept);
    assert(Seq::<T>::empty().push(current) =~= seq![current]);
}

/// Every step keeps past and future within the limit.
pub proof fn law_history_bounded<T>(h: HistoryView<T>, snapshot: T, current: T)
    requires
        h.wf(),
    ensures
        record(h, snapshot).wf(),
        undo_step(h, current).0.wf(),
        redo_step(h, current).0.wf(),
{
}

} // verus!
