//! When a session with a translation page is set up anew.

use vstd::prelude::*;

verus! {

/// The fewest translations between two renewals of a session.
pub const FEWEST: u32 = 75;

/// The most translations between two renewals of a session.
pub const MOST: u32 = 125;

/// A number from `min` to `max`, spread by the current nanoseconds.
pub open spec fn spread(nanos: int, min: int, max: int) -> int {
    min + nanos % (max - min + 1)
}

/// A number from `min` to `max`, spread by the current nanoseconds.
pub fn random_between(nanos: u32, min: u32, max: u32) -> (r: u32)
    requires
        min <= max,
        max - min < u32::MAX,
    ensures
        r == spread(nanos as int, min as int, max as int),
        min <= r <= max,
{
    let width: u32 = max - min + 1;
    assert(0 <= nanos as int % (width as int) < width) by (nonlinear_arith)
        requires
            width > 0,
    ;
    min + nanos % width
}

/// Counts the translations that a session has served. A session is set up
/// on its first use and anew after some 75 to 125 translations, so that it
/// neither costs a page load each time nor goes stale.
#[derive(Debug)]
pub struct SessionCounter {
    /// The translations since the session was set up, the one that set it
    /// up counted.
    pub count: u32,
    /// How many translations the session serves.
    pub reset_after: u32,
}

/// A counter for a session that has not been set up.
pub open spec fn fresh_counter(nanos: u32) -> SessionCounter {
    SessionCounter {
        count: 0,
        reset_after: spread(nanos as int, FEWEST as int, MOST as int) as u32,
    }
}

impl SessionCounter {
    /// The session serves 75 to 125 translations, and has not served more.
    pub open spec fn wf(self) -> bool {
        FEWEST <= self.reset_after <= MOST && self.count <= self.reset_after
    }

    /// Whether the session is to be set up before it is used.
    pub open spec fn is_due(self) -> bool {
        self.count == 0 || self.count >= self.reset_after
    }

    /// The counter after one more translation.
    pub open spec fn ticked(self, nanos: u32) -> SessionCounter {
        if self.is_due() {
            SessionCounter {
                count: 1,
                reset_after: spread(nanos as int, FEWEST as int, MOST as int) as u32,
            }
        } else {
            SessionCounter { count: (self.count + 1) as u32, reset_after: self.reset_after }
        }
    }

    /// A counter for a session that has not been set up.
    pub fn new(nanos: u32) -> (r: Self)
        ensures
            r == fresh_counter(nanos),
            r.wf(),
            r.is_due(),
    {
        SessionCounter { count: 0, reset_after: random_between(nanos, FEWEST, MOST) }
    }

    /// Counts one translation, before the session is used for it. Tells
    /// whether the session is to be set up first.
    pub fn tick(&mut self, nanos: u32) -> (needs_refresh: bool)
        requires
            old(self).wf(),
        ensures
            final(self).wf(),
            needs_refresh == old(self).is_due(),
            *final(self) == old(self).ticked(nanos),
    {
        let needs_refresh = self.count == 0 || self.count >= self.reset_after;
        if needs_refresh {
            self.count = 1;
            self.reset_after = random_between(nanos, FEWEST, MOST);
        } else {
            self.count = self.count + 1;
        }
        needs_refresh
    }
}

/// The counter after `n` more translations; the nanoseconds play a part only
/// when the session is set up.
pub open spec fn after_ticks(c: SessionCounter, nanos: Seq<u32>) -> SessionCounter
    decreases nanos.len(),
{
    if nanos.len() == 0 {
        c
    } else {
        after_ticks(c, nanos.drop_last()).ticked(nanos.last())
    }
}

/// A session that was just set up serves exactly as many translations as it
/// was meant to before it is set up anew: it is due after that many, and not
/// before.
pub proof fn law_renewal_cadence(c: SessionCounter, nanos: Seq<u32>)
    requires
        c.wf(),
        c.count == 1,
        nanos.len() < c.reset_after,
    ensures
        after_ticks(c, nanos).reset_after == c.reset_after,
        after_ticks(c, nanos).count == 1 + nanos.len(),
        after_ticks(c, nanos).is_due() <==> nanos.len() == c.reset_after - 1,
    decreases nanos.len(),
{
    if nanos.len() > 0 {
        law_renewal_cadence(c, nanos.drop_last());
    }
}

/// Whatever a session has served, its next renewal puts it back at its first
/// translation, with 75 to 125 to serve.
pub proof fn law_renewal_restarts(c: SessionCounter, nanos: u32)
    requires
        c.wf(),
        c.is_due(),
    ensures
        c.ticked(nanos).count == 1,
        c.ticked(nanos).wf(),
        !c.ticked(nanos).is_due(),
{
    let width: int = (MOST - FEWEST + 1) as int;
    assert(0 <= nanos as int % width < width) by (nonlinear_arith)
        requires
            width > 0,
    ;
}

/// A number between two others is one of them or lies between them, and each
/// can come out.
pub proof fn law_random_between(nanos: u32, min: u32, max: u32, r: u32)
    requires
        min <= max,
        max - min < u32::MAX,
        call_ensures(random_between, (nanos, min, max), r),
    ensures
        min <= r <= max,
        nanos <= max - min ==> r == min + nanos,
        (r - min) % (max - min + 1) == nanos as int % (max - min + 1),
{
    let width: int = max - min + 1;
    if nanos < width {
        vstd::arithmetic::div_mod::lemma_small_mod(nanos as nat, width as nat);
    }
    vstd::arithmetic::div_mod::lemma_mod_twice(nanos as int, width);
    assert(r - min == nanos as int % width);
}

/// A new session is due at once, and serves 75 to 125 translations.
pub proof fn law_new_counter(nanos: u32, c: SessionCounter)
    requires
        call_ensures(SessionCounter::new, (nanos,), c),
    ensures
        c.count == 0,
        75 <= c.reset_after <= 125,
{
}

/// A session that is due is set up and counts from one; one that is not
/// counts one more and serves as many as it was to.
pub proof fn law_counting(c: &mut SessionCounter, nanos: u32, needs_refresh: bool)
    requires
        old(c).wf(),
        call_ensures(SessionCounter::tick, (c, nanos), needs_refresh),
    ensures
        needs_refresh <==> old(c).count == 0 || old(c).count >= old(c).reset_after,
        needs_refresh ==> final(c).count == 1 && 75 <= final(c).reset_after <= 125,
        !needs_refresh ==> final(c).count == old(c).count + 1 && final(c).reset_after
            == old(c).reset_after,
{
}

} // verus!
