use vstd::prelude::*;

verus! {

/// Events of the counter.
#[derive(Debug, Clone, Copy, PartialEq, Eq, Structural)]
pub enum Message {
    IncrementPressed,
}

/// A counter that goes up by one on each press.
///
/// At `u32::MAX` it saturates, so the value never goes down.
#[derive(Debug, Clone, Copy, PartialEq, Eq, Structural)]
pub struct Counter {
    pub value: u32,
}

/// The value after one increment of `v`.
pub open spec fn incremented(v: u32) -> u32 {
    if v < u32::MAX {
        (v + 1) as u32
    } else {
        v
    }
}

impl Counter {
    /// A counter at zero.
    pub fn new() -> (r: Counter)
        ensures
            r.value == 0,
    {
        Counter { value: 0 }
    }

    /// Applies one event.
    pub fn update(&mut self, message: Message)
        ensures
            final(self).value == incremented(old(self).value),
    {
        match message {
            Message::IncrementPressed => {
                self.value = self.value.saturating_add(1);
            },
        }
    }

    /// The title of the window.
    pub fn title(&self) -> (r: String)
        ensures
            r@ == "Counter"@,
    {
        String::from_str("Counter")
    }
}

/// The value never decreases, and it grows by exactly one below the maximum.
pub proof fn lemma_increment_monotone(v: u32)
    ensures
        incremented(v) >= v,
        v < u32::MAX ==> incremented(v) == v + 1,
{
}

} // verus!
