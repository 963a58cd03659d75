//! Signal detector: a zero-crossing state machine with one bit of hysteresis
//! that turns the smoothed signal into buy, sell and hold events.
//!
//! Each sample is read as its comparison with zero. From `Flat`, a sample
//! below zero buys and goes `Long`; from `Long`, a sample at or above zero
//! sells and goes `Flat`; anything else holds. A sample that compares as
//! neither (a NaN) holds in either position.
use vstd::prelude::*;

verus! {

/// How a sample of the smoothed signal compares with zero.
#[derive(Clone, Copy, Debug, PartialEq, Eq, Structural)]
pub enum Reading {
    Below,
    AtOrAbove,
    Unordered,
}

/// The detector's one bit of state.
#[derive(Clone, Copy, Debug, PartialEq, Eq, Structural)]
pub enum Position {
    Flat,
    Long,
}

/// What the detector emits for one sample.
#[derive(Clone, Copy, Debug, PartialEq, Eq, Structural)]
pub enum Event {
    Buy,
    Sell,
    Hold,
}

impl Event {
    pub open spec fn value_of(self) -> int {
        match self {
            Event::Buy => 1,
            Event::Sell => -1,
            Event::Hold => 0,
        }
    }

    /// The event as it stands in the output column: `1`, `-1` or `0`.
    pub fn value(&self) -> (r: i8)
        ensures
            r == self.value_of(),
    {
        match self {
            Event::Buy => 1,
            Event::Sell => -1,
            Event::Hold => 0,
        }
    }
}

/// One transition: the next position and the event emitted.
pub open spec fn transition(p: Position, r: Reading) -> (Position, Event) {
    match (p, r) {
        (Position::Flat, Reading::Below) => (Position::Long, Event::Buy),
        (Position::Long, Reading::AtOrAbove) => (Position::Flat, Event::Sell),
        _ => (p, Event::Hold),
    }
}

/// The position after the first `k` readings, starting `Flat`.
pub open spec fn position_after(s: Seq<Reading>, k: nat) -> Position
    decreases k,
{
    if k == 0 {
        Position::Flat
    } else {
        transition(position_after(s, (k - 1) as nat), s[k - 1]).0
    }
}

/// The event emitted for reading `i`.
pub open spec fn event_at(s: Seq<Reading>, i: nat) -> Event {
    transition(position_after(s, i), s[i as int]).1
}

/// The events emitted over a whole sequence of readings.
pub open spec fn events_of(s: Seq<Reading>) -> Seq<Event> {
    Seq::new(s.len(), |i: int| event_at(s, i as nat))
}

/// The event that leaves a position.
pub open spec fn exit_event(p: Position) -> Event {
    match p {
        Position::Flat => Event::Buy,
        Position::Long => Event::Sell,
    }
}

/// Applies one reading to the detector's position.
pub fn step(p: Position, r: Reading) -> (out: (Position, Event))
    ensures
        out == transition(p, r),
{
    match (p, r) {
        (Position::Flat, Reading::Below) => (Position::Long, Event::Buy),
        (Position::Long, Reading::AtOrAbove) => (Position::Flat, Event::Sell),
        _ => (p, Event::Hold),
    }
}

/// Runs the detector over a sequence of readings, starting `Flat`; one event
/// per reading, in order.
pub fn detect(readings: &Vec<Reading>) -> (r: Vec<Event>)
    ensures
        r@ == events_of(readings@),
{
    let mut r: Vec<Event> = Vec::new();
    let mut p = Position::Flat;
    let mut i: usize = 0;
    while i < readings.len()
        invariant
            i <= readings@.len(),
            p == position_after(readings@, i as nat),
            r@.len() == i,
            forall|k: int| 0 <= k < i ==> #[trigger] r@[k] == event_at(readings@, k as nat),
        decreases readings@.len() - i,
    {
        let (next, e) = step(p, readings[i]);
        r.push(e);
        p = next;
        i = i + 1;
    }
    assert(r@ =~= events_of(readings@));
    r
}

/// As long as the event that leaves a position does not come, the detector
/// stays in it.
proof fn lemma_stays(s: Seq<Reading>, a: nat, m: nat, p: Position)
    requires
        a <= m <= s.len(),
        position_after(s, a) == p,
        forall|k: nat| a <= k < m ==> #[trigger] event_at(s, k) != exit_event(p),
    ensures
        position_after(s, m) == p,
    decreases m - a,
{
    if m > a {
        let m1 = (m - 1) as nat;
        lemma_stays(s, a, m1, p);
        assert(event_at(s, m1) != exit_event(p));
    }
}

/// Buys and sells alternate: between two equal events that are not holds
/// stands the other one.
pub proof fn lemma_events_alternate(s: Seq<Reading>, i: int, j: int)
    requires
        0 <= i < j < s.len(),
        events_of(s)[i] == events_of(s)[j],
        events_of(s)[i] != Event::Hold,
    ensures
        exists|k: int|
            i < k < j && #[trigger] events_of(s)[k] != Event::Hold && events_of(s)[k]
                != events_of(s)[i],
{
    let p = position_after(s, (i + 1) as nat);
    let e = events_of(s)[i];
    assert(e == event_at(s, i as nat));
    assert(exit_event(p) != e);
    if forall|k: nat| i + 1 <= k < j ==> #[trigger] event_at(s, k) != exit_event(p) {
        lemma_stays(s, (i + 1) as nat, j as nat, p);
        assert(events_of(s)[j] == event_at(s, j as nat));
        assert(false);
    } else {
        let k = choose|k: nat| i + 1 <= k < j && #[trigger] event_at(s, k) == exit_event(p);
        assert(events_of(s)[k as int] == event_at(s, k));
    }
}

/// The first event that is not a hold is a buy: every sell is preceded by a
/// buy.
pub proof fn lemma_sell_after_buy(s: Seq<Reading>, j: int)
    requires
        0 <= j < s.len(),
        events_of(s)[j] == Event::Sell,
    ensures
        exists|k: int| 0 <= k < j && #[trigger] events_of(s)[k] == Event::Buy,
{
    if forall|k: nat| 0 <= k < j ==> #[trigger] event_at(s, k) != Event::Buy {
        lemma_stays(s, 0, j as nat, Position::Flat);
        assert(events_of(s)[j] == event_at(s, j as nat));
        assert(false);
    } else {
        let k = choose|k: nat| 0 <= k < j && #[trigger] event_at(s, k) == Event::Buy;
        assert(events_of(s)[k as int] == event_at(s, k));
    }
}

} // verus!
