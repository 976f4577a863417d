use vstd::prelude::*;

verus! {

/// What a write-once slot holds after `complete`: either nothing yet, or the
/// single value that was written first.
pub open spec fn complete_spec<T>(s: Option<T>, value: T) -> Option<T> {
    match s {
        Some(v) => Some(v),
        None => Some(value),
    }
}

/// The slot's state after a sequence of completion attempts, in order.
pub open spec fn complete_all<T>(s: Option<T>, values: Seq<T>) -> Option<T>
    decreases values.len(),
{
    if values.len() == 0 {
        s
    } else {
        complete_all(complete_spec(s, values[0]), values.drop_first())
    }
}

/// The terminal outcome that a cell broadcasts: the work's value, or the
/// notice that the owner left before the work finished.
#[derive(Clone, Debug, PartialEq, Eq)]
pub enum Outcome<T> {
    Done(T),
    Abandoned,
}

/// A single-assignment value slot: empty while the work is pending, then set
/// exactly once and never changed again.
pub struct Slot<T> {
    value: Option<T>,
}

impl<T> View for Slot<T> {
    type V = Option<T>;

    closed spec fn view(&self) -> Option<T> {
        self.value
    }
}

impl<T> Slot<T> {
    /// An empty (pending) slot.
    pub fn new() -> (r: Slot<T>)
        ensures
            r@ == None::<T>,
    {
        Slot { value: None }
    }

    /// Whether the slot has been written.
    pub fn is_completed(&self) -> (r: bool)
        ensures
            r == self@.is_some(),
    {
        self.value.is_some()
    }

    /// Writes `value` if the slot is still empty. A second completion is
    /// refused and hands the value back, leaving the first one in place.
    pub fn complete(&mut self, value: T) -> (r: Result<(), T>)
        ensures
            final(self)@ == complete_spec(old(self)@, value),
            old(self)@.is_none() ==> r is Ok,
            old(self)@.is_some() ==> r == Err::<(), T>(value),
    {
        if self.value.is_some() {
            Err(value)
        } else {
            self.value = Some(value);
            Ok(())
        }
    }

    /// The value written, if any.
    pub fn get(&self) -> (r: Option<&T>)
        ensures
            match r {
                Some(v) => self@ == Some(*v),
                None => self@.is_none(),
            },
    {
        match &self.value {
            Some(v) => Some(v),
            None => None,
        }
    }
}

/// Of any number of completion attempts on an empty slot, the first one wins,
/// and every later reader sees its value, whenever it reads.
pub proof fn lemma_first_completion_wins<T>(values: Seq<T>)
    requires
        values.len() >= 1,
    ensures
        complete_all(None::<T>, values) == Some(values[0]),
{
    lemma_completed_stays(values[0], values.drop_first());
}

/// A completed slot keeps its value through any later completion attempts.
pub proof fn lemma_completed_stays<T>(v: T, values: Seq<T>)
    ensures
        complete_all(Some(v), values) == Some(v),
    decreases values.len(),
{
    if values.len() > 0 {
        lemma_completed_stays(v, values.drop_first());
    }
}

} // verus!
