//! The blink clock: a frame counter that decides when blinking text is
//! hidden.

use vstd::prelude::*;

verus! {

/// Number of ticks after which the clock repeats.
pub const BLINK_PERIOD: u16 = 200;

/// A cyclic counter advanced once per frame. The blink phases are functions of
/// the counter alone.
#[derive(Clone, Copy, Debug, PartialEq, Eq, Structural)]
pub struct BlinkClock {
    counter: u16,
}

impl BlinkClock {
    /// The current tick.
    pub closed spec fn spec_counter(self) -> u16 {
        self.counter
    }

    /// The counter stays below the period.
    pub open spec fn wf(self) -> bool {
        self.spec_counter() < BLINK_PERIOD
    }

    /// Whether rapidly blinking text is hidden: the first six ticks of every
    /// hundred.
    pub open spec fn spec_fast(self) -> bool {
        self.spec_counter() % 100 <= 5
    }

    /// Whether slowly blinking text is hidden: ticks 20 to 25.
    pub open spec fn spec_slow(self) -> bool {
        20 <= self.spec_counter() <= 25
    }

    /// The clock one tick later.
    pub closed spec fn ticked(self) -> BlinkClock {
        BlinkClock { counter: ((self.counter + 1) % 200) as u16 }
    }

    /// The clock `n` ticks later.
    pub open spec fn ticked_n(self, n: nat) -> BlinkClock
        decreases n,
    {
        if n == 0 {
            self
        } else {
            self.ticked_n((n - 1) as nat).ticked()
        }
    }

    /// The clock at tick zero.
    pub closed spec fn new_spec() -> BlinkClock {
        BlinkClock { counter: 0 }
    }

    /// A clock at tick zero.
    pub fn new() -> (out: BlinkClock)
        ensures
            out == BlinkClock::new_spec(),
            out.wf(),
            out.spec_counter() == 0,
    {
        BlinkClock { counter: 0 }
    }

    /// The current tick.
    #[verifier::when_used_as_spec(spec_counter)]
    pub fn counter(self) -> (out: u16)
        ensures
            out == self.spec_counter(),
    {
        self.counter
    }

    /// Whether rapidly blinking text is hidden at this tick.
    #[verifier::when_used_as_spec(spec_fast)]
    pub fn fast(self) -> (out: bool)
        ensures
            out == self.spec_fast(),
    {
        self.counter % 100 <= 5
    }

    /// Whether slowly blinking text is hidden at this tick.
    #[verifier::when_used_as_spec(spec_slow)]
    pub fn slow(self) -> (out: bool)
        ensures
            out == self.spec_slow(),
    {
        20 <= self.counter && self.counter <= 25
    }

    /// Advances the clock by one tick, wrapping at the period.
    pub fn tick(&mut self)
        requires
            old(self).wf(),
        ensures
            final(self).wf(),
            *final(self) == old(self).ticked(),
            final(self).spec_counter() == (old(self).spec_counter() + 1) % 200,
    {
        self.counter = (self.counter + 1) % BLINK_PERIOD;
    }

    /// A tick keeps the clock well formed and adds one modulo the period.
    pub proof fn lemma_ticked(self)
        requires
            self.wf(),
        ensures
            self.ticked().wf(),
            self.ticked().spec_counter() == (self.spec_counter() + 1) % 200,
    {
    }

    /// After `n` ticks the counter has advanced by `n` modulo the period.
    pub proof fn lemma_ticked_n(self, n: nat)
        requires
            self.wf(),
        ensures
            self.ticked_n(n).wf(),
            self.ticked_n(n).spec_counter() == (self.spec_counter() + n) % 200,
        decreases n,
    {
        if n > 0 {
            self.lemma_ticked_n((n - 1) as nat);
            self.ticked_n((n - 1) as nat).lemma_ticked();
        }
    }

    /// The clock has period 200: after 200 ticks it is back where it was.
    pub proof fn lemma_period(self)
        requires
            self.wf(),
        ensures
            self.ticked_n(200) == self,
    {
        self.lemma_ticked_n(200);
    }
}

} // verus!
