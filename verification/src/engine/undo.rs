//! Bounded undo/redo history of mesh snapshots.
use std::collections::VecDeque;
use vstd::prelude::*;

verus! {

/// One recorded step: a label, the serialized state of one object and when it was taken.
#[derive(Clone)]
pub struct UndoEntry {
    pub name: String,
    pub snapshot: Vec<u8>,
    pub object_id: String,
    pub timestamp: u64,
}

/// Keeps the last `n` items of `s` (all of them when `s` is not longer than `n`).
pub open spec fn keep_last<T>(s: Seq<T>, n: nat) -> Seq<T> {
    if s.len() > n {
        s.subrange(s.len() - n, s.len() as int)
    } else {
        s
    }
}

/// Undo history (oldest first) and redo stack (most recently undone last).
pub struct UndoSystem {
    history: VecDeque<UndoEntry>,
    redo_stack: VecDeque<UndoEntry>,
    max_steps: usize,
}

impl UndoSystem {
    /// Every reachable history holds at most `max_steps` entries, the redo
    /// stack included.
    #[verifier::type_invariant]
    spec fn within_capacity(self) -> bool {
        self.history@.len() + self.redo_stack@.len() <= self.max_steps
    }

    /// The entries that can be undone, oldest first.
    pub closed spec fn history_view(&self) -> Seq<UndoEntry> {
        self.history@
    }

    /// The entries that can be redone; the next one to redo is the last.
    pub closed spec fn redo_view(&self) -> Seq<UndoEntry> {
        self.redo_stack@
    }

    /// How many steps the history keeps.
    pub closed spec fn capacity(&self) -> nat {
        self.max_steps as nat
    }

    /// The two stacks together hold at most `capacity` entries.
    pub open spec fn bounded(&self) -> bool {
        self.history_view().len() + self.redo_view().len() <= self.capacity()
    }

    /// An empty history that keeps at most `max_steps` steps.
    pub fn new(max_steps: usize) -> (s: Self)
        ensures
            s.history_view() == Seq::<UndoEntry>::empty(),
            s.redo_view() == Seq::<UndoEntry>::empty(),
            s.capacity() == max_steps,
            s.bounded(),
    {
        UndoSystem { history: VecDeque::with_capacity(max_steps), redo_stack: VecDeque::new(), max_steps }
    }

    /// Records a step. The redo stack is emptied, and when the history is
    /// longer than the capacity its oldest entries are dropped.
    pub fn push(&mut self, name: String, object_id: String, snapshot: Vec<u8>, timestamp: u64)
        ensures
            final(self).history_view() == keep_last(
                old(self).history_view().push(UndoEntry { name, snapshot, object_id, timestamp }),
                old(self).capacity(),
            ),
            final(self).redo_view() == Seq::<UndoEntry>::empty(),
            final(self).capacity() == old(self).capacity(),
            final(self).bounded(),
    {
        proof {
            use_type_invariant(&*self);
        }
        let entry = UndoEntry { name, snapshot, object_id, timestamp };
        let max = self.max_steps;
        let mut history: VecDeque<UndoEntry> = VecDeque::new();
        std::mem::swap(&mut history, &mut self.history);
        let mut redo: VecDeque<UndoEntry> = VecDeque::new();
        std::mem::swap(&mut redo, &mut self.redo_stack);
        let ghost appended = history@.push(entry);
        history.push_back(entry);
        while history.len() > max
            invariant
                history@ == appended.subrange(appended.len() - history@.len(), appended.len() as int),
                history@.len() <= appended.len(),
                history@.len() >= max || history@.len() == appended.len(),
            decreases history@.len(),
        {
            history.pop_front();
        }
        assert(history@ =~= keep_last(appended, max as nat));
        self.history = history;
        proof {
            use_type_invariant(&*self);
        }
    }

    /// Steps back: the newest history entry moves to the redo stack, and its
    /// object id and snapshot are returned. `None`, with nothing changed,
    /// when there is nothing to undo.
    pub fn undo(&mut self) -> (r: Option<(String, Vec<u8>)>)
        ensures
            final(self).capacity() == old(self).capacity(),
            final(self).bounded(),
            old(self).history_view().len() == 0 ==> {
                &&& r is None
                &&& final(self).history_view() == old(self).history_view()
                &&& final(self).redo_view() == old(self).redo_view()
            },
            old(self).history_view().len() > 0 ==> {
                let e = old(self).history_view().last();
                &&& r matches Some((id, snap)) && id == e.object_id && snap@ == e.snapshot@
                &&& final(self).history_view() == old(self).history_view().drop_last()
                &&& final(self).redo_view() == old(self).redo_view().push(e)
            },
    {
        proof {
            use_type_invariant(&*self);
        }
        let mut history: VecDeque<UndoEntry> = VecDeque::new();
        std::mem::swap(&mut history, &mut self.history);
        let mut redo: VecDeque<UndoEntry> = VecDeque::new();
        std::mem::swap(&mut redo, &mut self.redo_stack);
        let r = match history.pop_back() {
            None => None,
            Some(entry) => {
                let result = (entry.object_id.clone(), entry.snapshot.clone());
                redo.push_back(entry);
                Some(result)
            },
        };
        self.history = history;
        self.redo_stack = redo;
        proof {
            use_type_invariant(&*self);
        }
        r
    }

    /// Takes the newest entry off the redo stack and returns its object id
    /// and snapshot; the history is left as it is. `None`, with nothing
    /// changed, when there is nothing to redo.
    pub fn redo(&mut self) -> (r: Option<(String, Vec<u8>)>)
        ensures
            final(self).capacity() == old(self).capacity(),
            final(self).bounded(),
            final(self).history_view() == old(self).history_view(),
            old(self).redo_view().len() == 0 ==> {
                &&& r is None
                &&& final(self).redo_view() == old(self).redo_view()
            },
            old(self).redo_view().len() > 0 ==> {
                let e = old(self).redo_view().last();
                &&& r matches Some((id, snap)) && id == e.object_id && snap@ == e.snapshot@
                &&& final(self).redo_view() == old(self).redo_view().drop_last()
            },
    {
        proof {
            use_type_invariant(&*self);
        }
        let mut redo: VecDeque<UndoEntry> = VecDeque::new();
        std::mem::swap(&mut redo, &mut self.redo_stack);
        let r = match redo.pop_back() {
            None => None,
            Some(entry) => Some((entry.object_id, entry.snapshot)),
        };
        self.redo_stack = redo;
        proof {
            use_type_invariant(&*self);
        }
        r
    }

    /// Whether there is a step to undo.
    pub fn can_undo(&self) -> (b: bool)
        ensures
            b == (self.history_view().len() > 0),
    {
        self.history.len() != 0
    }

    /// Whether there is a step to redo.
    pub fn can_redo(&self) -> (b: bool)
        ensures
            b == (self.redo_view().len() > 0),
    {
        self.redo_stack.len() != 0
    }

    /// Forgets every recorded step.
    pub fn clear(&mut self)
        ensures
            final(self).history_view() == Seq::<UndoEntry>::empty(),
            final(self).redo_view() == Seq::<UndoEntry>::empty(),
            final(self).capacity() == old(self).capacity(),
            final(self).bounded(),
    {
        proof {
            use_type_invariant(&*self);
        }
        self.history = VecDeque::new();
        self.redo_stack = VecDeque::new();
        proof {
            use_type_invariant(&*self);
        }
    }

    /// Number of steps that can be undone; never more than the capacity.
    pub fn history_count(&self) -> (n: usize)
        ensures
            n == self.history_view().len(),
            n <= self.capacity(),
    {
        proof {
            use_type_invariant(self);
        }
        self.history.len()
    }

    /// The labels of the undoable steps, oldest first.
    pub fn get_history_names(&self) -> (names: Vec<String>)
        ensures
            names@.len() == self.history_view().len(),
            forall|i: int| 0 <= i < names@.len() ==> #[trigger] names@[i] == self.history_view()[i].name,
    {
        let mut names: Vec<String> = Vec::new();
        let n = self.history.len();
        let mut i: usize = 0;
        while i < n
            invariant
                n == self.history@.len(),
                i <= n,
                names@.len() == i,
                forall|j: int| 0 <= j < i ==> #[trigger] names@[j] == self.history@[j].name,
            decreases n - i,
        {
            names.push(self.history[i].name.clone());
            i = i + 1;
        }
        names
    }
}

/// Undoing right after recording a step gives back that step's object and
/// snapshot, whenever the history keeps at least one step.
pub proof fn law_undo_returns_last_push(history: Seq<UndoEntry>, e: UndoEntry, capacity: nat)
    requires
        capacity > 0,
    ensures
        keep_last(history.push(e), capacity).len() > 0,
        keep_last(history.push(e), capacity).last() == e,
{
}

/// Redoing right after an undo gives back the step that was undone: the
/// undone entry is the top of the redo stack.
pub proof fn law_redo_returns_last_undo(history: Seq<UndoEntry>, redo: Seq<UndoEntry>)
    requires
        history.len() > 0,
    ensures
        redo.push(history.last()).len() > 0,
        redo.push(history.last()).last() == history.last(),
{
}

/// Recording a step never leaves more steps than the capacity.
pub proof fn law_history_within_capacity(history: Seq<UndoEntry>, e: UndoEntry, capacity: nat)
    ensures
        keep_last(history.push(e), capacity).len() <= capacity,
{
}

} // verus!
