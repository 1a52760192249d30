//! Directional occupancy tracking with two threshold detectors.
//!
//! Sensor 1 watches the outside of the doorway and sensor 2 the inside. A
//! person walking in trips sensor 1 first, which latches, and then sensor 2,
//! which resolves the latch as an entry; walking out trips them the other way
//! round. Latches are sticky: they are cleared only when an event resolves.
use vstd::prelude::*;

verus! {

/// The outcome of one cycle whose two readings were both valid.
#[derive(Clone, Copy, Debug, PartialEq, Eq, Structural)]
pub enum Event {
    /// No crossing resolved in this cycle.
    Idle,
    /// Someone walked in.
    Entered,
    /// Someone walked out.
    Left,
}

/// The tracker's configuration, latches and counters.
#[derive(Clone, Copy, Debug, PartialEq, Eq, Structural)]
pub struct Tracker {
    /// Distance seen by sensor 1 at startup.
    pub baseline1: u16,
    /// Distance seen by sensor 2 at startup.
    pub baseline2: u16,
    /// Least deviation from a baseline that makes a sensor active.
    pub threshold: u16,
    /// Sensor 1 was active since the last resolved event.
    pub latch1: bool,
    /// Sensor 2 was active since the last resolved event.
    pub latch2: bool,
    /// People inside now (saturating, never below zero).
    pub occupants_inside: u16,
    /// People who entered since startup (saturating).
    pub total_entries: u16,
}

/// Whether `reading` deviates from `baseline` by at least `threshold`.
pub open spec fn is_active(baseline: u16, reading: u16, threshold: u16) -> bool {
    (if baseline >= reading {
        baseline - reading
    } else {
        reading - baseline
    }) >= threshold
}

/// `n + 1`, held at `u16::MAX`.
pub open spec fn inc_sat(n: u16) -> u16 {
    if n == u16::MAX {
        n
    } else {
        (n + 1) as u16
    }
}

/// `n - 1`, held at zero.
pub open spec fn dec_sat(n: u16) -> u16 {
    if n == 0 {
        n
    } else {
        (n - 1) as u16
    }
}

/// The tracker and event after one cycle with valid readings `r1` and `r2`.
pub open spec fn cycle(t: Tracker, r1: u16, r2: u16) -> (Tracker, Event) {
    let active1 = is_active(t.baseline1, r1, t.threshold);
    let active2 = is_active(t.baseline2, r2, t.threshold);
    if t.latch1 && active2 {
        (
            Tracker {
                latch1: false,
                latch2: false,
                occupants_inside: inc_sat(t.occupants_inside),
                total_entries: inc_sat(t.total_entries),
                ..t
            },
            Event::Entered,
        )
    } else if t.latch2 && active1 {
        (
            Tracker {
                latch1: false,
                latch2: false,
                occupants_inside: dec_sat(t.occupants_inside),
                ..t
            },
            Event::Left,
        )
    } else {
        (Tracker { latch1: t.latch1 || active1, latch2: t.latch2 || active2, ..t }, Event::Idle)
    }
}

/// The tracker and outcome after one cycle with readings `r1` and `r2`, each
/// `None` for a timeout: a cycle with a timeout is skipped and changes nothing.
pub open spec fn update_spec(t: Tracker, r1: Option<u16>, r2: Option<u16>) -> (
    Tracker,
    Option<Event>,
) {
    match (r1, r2) {
        (Some(a), Some(b)) => {
            let (n, e) = cycle(t, a, b);
            (n, Some(e))
        },
        _ => (t, None),
    }
}

/// Absolute difference of two readings.
fn abs_diff(a: u16, b: u16) -> (r: u16)
    ensures
        r == (if a >= b {
            a - b
        } else {
            b - a
        }),
{
    if a >= b {
        a - b
    } else {
        b - a
    }
}

impl Tracker {
    /// A tracker with the given baselines and threshold, latches clear and
    /// counters at zero.
    pub fn new(baseline1: u16, baseline2: u16, threshold: u16) -> (t: Tracker)
        ensures
            t == (Tracker {
                baseline1,
                baseline2,
                threshold,
                latch1: false,
                latch2: false,
                occupants_inside: 0,
                total_entries: 0,
            }),
    {
        Tracker {
            baseline1,
            baseline2,
            threshold,
            latch1: false,
            latch2: false,
            occupants_inside: 0,
            total_entries: 0,
        }
    }

    /// Runs one cycle on the readings of sensor 1 and sensor 2 (`None` for a
    /// timeout). Returns the event, or `None` where the cycle was skipped
    /// because a reading timed out; the tracker is then left as it was.
    pub fn update(&mut self, reading1: Option<u16>, reading2: Option<u16>) -> (r: Option<Event>)
        ensures
            (*final(self), r) == update_spec(*old(self), reading1, reading2),
            r is None <==> (reading1 is None || reading2 is None),
            r is None ==> *final(self) == *old(self),
            final(self).total_entries >= old(self).total_entries,
    {
        let (cur1, cur2) = match (reading1, reading2) {
            (Some(a), Some(b)) => (a, b),
            _ => return None,
        };
        let active2 = abs_diff(self.baseline2, cur2) >= self.threshold;
        if self.latch1 && active2 {
            self.occupants_inside = self.occupants_inside.saturating_add(1);
            self.total_entries = self.total_entries.saturating_add(1);
            self.latch1 = false;
            self.latch2 = false;
            return Some(Event::Entered);
        }
        let active1 = abs_diff(self.baseline1, cur1) >= self.threshold;
        if self.latch2 && active1 {
            self.occupants_inside = self.occupants_inside.saturating_sub(1);
            self.latch1 = false;
            self.latch2 = false;
            return Some(Event::Left);
        }
        self.latch1 = self.latch1 || active1;
        self.latch2 = self.latch2 || active2;
        Some(Event::Idle)
    }
}

/// The tracker after the cycles `cycles`, in order, each a pair of readings
/// of sensor 1 and sensor 2.
pub open spec fn run_cycles(t: Tracker, cycles: Seq<(Option<u16>, Option<u16>)>) -> Tracker
    decreases cycles.len(),
{
    if cycles.len() == 0 {
        t
    } else {
        run_cycles(update_spec(t, cycles[0].0, cycles[0].1).0, cycles.drop_first())
    }
}

/// How many of the cycles `cycles`, run from `t`, resolve as an entry.
pub open spec fn entries_in(t: Tracker, cycles: Seq<(Option<u16>, Option<u16>)>) -> nat
    decreases cycles.len(),
{
    if cycles.len() == 0 {
        0
    } else {
        let (n, e) = update_spec(t, cycles[0].0, cycles[0].1);
        (if e == Some(Event::Entered) {
            1nat
        } else {
            0nat
        }) + entries_in(n, cycles.drop_first())
    }
}

/// The count of entries since startup never goes down, whatever the cycles.
pub proof fn lemma_total_entries_never_decrease(
    t: Tracker,
    cycles: Seq<(Option<u16>, Option<u16>)>,
)
    ensures
        run_cycles(t, cycles).total_entries >= t.total_entries,
    decreases cycles.len(),
{
    if cycles.len() > 0 {
        lemma_total_entries_never_decrease(
            update_spec(t, cycles[0].0, cycles[0].1).0,
            cycles.drop_first(),
        );
    }
}

/// The number of people inside never exceeds what it was plus the entries
/// seen since: exits only take away, and never wrap below zero.
pub proof fn lemma_occupants_bounded_by_entries(
    t: Tracker,
    cycles: Seq<(Option<u16>, Option<u16>)>,
)
    ensures
        run_cycles(t, cycles).occupants_inside <= t.occupants_inside + entries_in(t, cycles),
    decreases cycles.len(),
{
    if cycles.len() > 0 {
        lemma_occupants_bounded_by_entries(
            update_spec(t, cycles[0].0, cycles[0].1).0,
            cycles.drop_first(),
        );
    }
}

/// From an empty room, cycles that resolve no entry (exits included) leave
/// the count of people inside at zero: it saturates at zero.
pub proof fn lemma_exits_from_empty_stay_at_zero(
    t: Tracker,
    cycles: Seq<(Option<u16>, Option<u16>)>,
)
    requires
        t.occupants_inside == 0,
        entries_in(t, cycles) == 0,
    ensures
        run_cycles(t, cycles).occupants_inside == 0,
{
    lemma_occupants_bounded_by_entries(t, cycles);
}

/// When both the entry and the exit condition hold in one cycle, the entry
/// is the one resolved.
pub proof fn lemma_entry_wins_tie(t: Tracker, reading1: u16, reading2: u16)
    requires
        t.latch1,
        t.latch2,
        is_active(t.baseline1, reading1, t.threshold),
        is_active(t.baseline2, reading2, t.threshold),
    ensures
        update_spec(t, Some(reading1), Some(reading2)).1 == Some(Event::Entered),
{
}

} // verus!
