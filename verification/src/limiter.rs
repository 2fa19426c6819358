//! Bounded concurrency.

use vstd::prelude::*;

verus! {

/// The place of one operation in progress. Only taking one makes it, and giving it back uses it up.
#[derive(Debug)]
pub struct Place(());

/// What happens to a limiter's places.
pub enum PlaceEvent {
    /// An operation asks for a place.
    Ask,
    /// An operation that has a place gives it back.
    Return,
}

/// Operations in progress after an event, of `count` before and at most `bound`.
pub open spec fn count_after(count: nat, bound: nat, event: PlaceEvent) -> nat {
    match event {
        PlaceEvent::Ask => if count < bound {
            count + 1
        } else {
            count
        },
        PlaceEvent::Return => if count == 0 {
            0
        } else {
            (count - 1) as nat
        },
    }
}

/// Counts operations in progress, never more than a maximum.
#[derive(Debug)]
pub struct Limiter {
    active: usize,
    maximum: usize,
}

impl Limiter {
    #[verifier::type_invariant]
    spec fn well_formed(self) -> bool {
        self.active <= self.maximum
    }

    /// Operations in progress.
    pub closed spec fn count(self) -> nat {
        self.active as nat
    }

    /// Most operations at a time.
    pub closed spec fn bound(self) -> nat {
        self.maximum as nat
    }

    /// No operation in progress.
    pub fn new(maximum: usize) -> (limiter: Self)
        ensures
            limiter.count() == 0,
            limiter.bound() == maximum,
    {
        Limiter { active: 0, maximum }
    }

    /// Takes a place unless as many operations as allowed are in progress.
    pub fn acquire(&mut self) -> (place: Option<Place>)
        ensures
            final(self).bound() == old(self).bound(),
            place is Some <==> old(self).count() < old(self).bound(),
            final(self).count() == count_after(
                old(self).count(),
                old(self).bound(),
                PlaceEvent::Ask,
            ),
            final(self).count() <= final(self).bound(),
    {
        proof {
            use_type_invariant(&*self);
        }
        if self.active < self.maximum {
            self.active += 1;
            Some(Place(()))
        } else {
            None
        }
    }

    /// Takes a place back.
    pub fn release(&mut self, place: Place)
        ensures
            final(self).bound() == old(self).bound(),
            final(self).count() == count_after(
                old(self).count(),
                old(self).bound(),
                PlaceEvent::Return,
            ),
            final(self).count() <= final(self).bound(),
    {
        let Place(()) = place;
        proof {
            use_type_invariant(&*self);
        }
        if self.active > 0 {
            self.active -= 1;
        }
    }
}

/// Operations in progress after a history that began with none.
pub open spec fn count_of(bound: nat, history: Seq<PlaceEvent>) -> nat
    decreases history.len(),
{
    if history.len() == 0 {
        0
    } else {
        count_after(count_of(bound, history.drop_last()), bound, history.last())
    }
}

/// Places that operations hold after a history: one more for each that was granted, one less for
/// each that came back.
pub open spec fn held_after(bound: nat, history: Seq<PlaceEvent>) -> int
    decreases history.len(),
{
    if history.len() == 0 {
        0
    } else {
        let before = history.drop_last();
        held_after(bound, before) + match history.last() {
            PlaceEvent::Ask => if count_of(bound, before) < bound {
                1int
            } else {
                0
            },
            PlaceEvent::Return => -1,
        }
    }
}

/// Whether every place that comes back in a history was held.
pub open spec fn returns_are_held(bound: nat, history: Seq<PlaceEvent>) -> bool {
    forall|n: int|
        0 <= n < history.len() && #[trigger] history[n] is Return ==> held_after(
            bound,
            history.take(n),
        ) > 0
}

/// However operations come and go, the places held are those counted and never exceed the bound:
/// an operation that asks is refused exactly when as many as allowed are in progress, and once one
/// of them ends, the next to ask is granted a place.
pub proof fn places_are_bounded(bound: nat, history: Seq<PlaceEvent>)
    requires
        returns_are_held(bound, history),
    ensures
        held_after(bound, history) == count_of(bound, history),
        count_of(bound, history) <= bound,
        held_after(bound, history.push(PlaceEvent::Ask)) == held_after(bound, history)
            <==> held_after(bound, history) == bound,
        held_after(bound, history) > 0 ==> held_after(
            bound,
            history.push(PlaceEvent::Return).push(PlaceEvent::Ask),
        ) == held_after(bound, history),
    decreases history.len(),
{
    if history.len() > 0 {
        let before = history.drop_last();
        assert forall|n: int|
            0 <= n < before.len() && #[trigger] before[n] is Return implies held_after(
            bound,
            before.take(n),
        ) > 0 by {
            assert(before[n] == history[n]);
            assert(before.take(n) =~= history.take(n));
        }
        places_are_bounded(bound, before);
        assert(history.take(history.len() - 1) =~= before);
        if history.last() is Return {
            assert(history[history.len() - 1] is Return);
        }
    }
    let asked = history.push(PlaceEvent::Ask);
    assert(asked.drop_last() =~= history);
    let returned = history.push(PlaceEvent::Return);
    assert(returned.drop_last() =~= history);
    assert(count_of(bound, returned) == count_after(
        count_of(bound, history),
        bound,
        PlaceEvent::Return,
    ));
    assert(held_after(bound, returned) == held_after(bound, history) - 1);
    assert(returned.push(PlaceEvent::Ask).drop_last() =~= returned);
}

}
