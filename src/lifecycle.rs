use vstd::prelude::*;

verus! {

/// The coarse stage of a session.
#[derive(Debug, Clone, Copy, PartialEq, Eq, Structural)]
pub enum Phase {
    WaitingForPlayers,
    Countdown(i32),
    Active,
}

/// Position of a phase in the order `WaitingForPlayers`, `Countdown`,
/// `Active`.
pub open spec fn rank(p: Phase) -> int {
    match p {
        Phase::WaitingForPlayers => 0,
        Phase::Countdown(_) => 1,
        Phase::Active => 2,
    }
}

/// The phase that a tick derives: `Active` stays; without any snapshot the
/// session waits; otherwise a positive countdown counts down and any other
/// value makes the session active.
pub open spec fn next_phase_spec(current: Phase, snapshot_seen: bool, countdown: i32) -> Phase {
    if current is Active {
        Phase::Active
    } else if !snapshot_seen {
        Phase::WaitingForPlayers
    } else if countdown > 0 {
        Phase::Countdown(countdown)
    } else {
        Phase::Active
    }
}

/// Evaluates the phase for a tick from the latest snapshot fields.
pub fn next_phase(current: Phase, snapshot_seen: bool, countdown: i32) -> (r: Phase)
    ensures
        r == next_phase_spec(current, snapshot_seen, countdown),
{
    match current {
        Phase::Active => Phase::Active,
        _ => {
            if !snapshot_seen {
                Phase::WaitingForPlayers
            } else if countdown > 0 {
                Phase::Countdown(countdown)
            } else {
                Phase::Active
            }
        },
    }
}

/// Phases never move backward: once the session has left
/// `WaitingForPlayers` (which takes a snapshot, and a snapshot once seen stays
/// seen), the next phase ranks no lower, and `Active` is kept.
pub proof fn lemma_phase_monotonic(current: Phase, snapshot_seen: bool, countdown: i32)
    requires
        !(current is WaitingForPlayers) ==> snapshot_seen,
    ensures
        rank(next_phase_spec(current, snapshot_seen, countdown)) >= rank(current),
        current is Active ==> next_phase_spec(current, snapshot_seen, countdown) is Active,
        !(next_phase_spec(current, snapshot_seen, countdown) is WaitingForPlayers) ==> snapshot_seen,
{
}

/// Once a snapshot with a non-positive countdown has been taken into account,
/// the session is `Active` and stays so whatever later countdowns say.
pub proof fn lemma_active_is_sticky(current: Phase, countdown: i32, later: Seq<i32>)
    requires
        !(current is WaitingForPlayers),
        countdown <= 0,
    ensures
        run_phases(next_phase_spec(current, true, countdown), later) is Active,
{
    lemma_active_stays(later);
}

/// The phase after ticks that see the countdowns in `cs` one by one, with a
/// snapshot seen before each.
pub open spec fn run_phases(start: Phase, cs: Seq<i32>) -> Phase
    decreases cs.len(),
{
    if cs.len() == 0 {
        start
    } else {
        run_phases(next_phase_spec(start, true, cs[0]), cs.drop_first())
    }
}

proof fn lemma_active_stays(cs: Seq<i32>)
    ensures
        run_phases(Phase::Active, cs) is Active,
    decreases cs.len(),
{
    if cs.len() > 0 {
        lemma_active_stays(cs.drop_first());
    }
}

} // verus!
