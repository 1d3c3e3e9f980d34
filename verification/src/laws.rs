//! Properties of the dashboard's behaviour, stated once for all inputs
//! and proved from the transition functions.

use vstd::prelude::*;

use crate::app::Action;
use crate::app::App;
use crate::app::AppEvent;
use crate::app::Event;
use crate::app::FetchError;
use crate::app::InputEvent;
use crate::app::KeyCode;
use crate::app::KeyEvent;
use crate::app::MIN_REFRESH_MS;
use crate::app::INTERVAL_STEP_MS;
use crate::app::dec_interval;
use crate::app::inc_interval;
use crate::app::reconciled_selection;
use crate::app::step_transition;
use crate::ps::Build;
use crate::ps::Output;
use crate::ps::lemma_find_characterizes;

verus! {

/// The interval after `n` decrease presses.
pub open spec fn dec_interval_n(ms: u64, n: nat) -> u64
    decreases n,
{
    if n == 0 {
        ms
    } else {
        dec_interval(dec_interval_n(ms, (n - 1) as nat))
    }
}

/// However often decrease is pressed, an interval at or above the floor
/// never falls below it.
pub proof fn lemma_interval_floor(ms: u64, n: nat)
    requires
        ms >= MIN_REFRESH_MS,
    ensures
        dec_interval_n(ms, n) >= MIN_REFRESH_MS,
    decreases n,
{
    if n > 0 {
        lemma_interval_floor(ms, (n - 1) as nat);
    }
}

/// One increase press raises any interval short of the top of the range
/// by a whole step: there is no ceiling below the range's own.
pub proof fn lemma_increase_unbounded(ms: u64)
    requires
        ms <= u64::MAX - INTERVAL_STEP_MS,
    ensures
        inc_interval(ms) == ms + INTERVAL_STEP_MS,
{
}

/// Across a snapshot replacement the selection follows the selected
/// build's identity, not its row number: it lands on a row carrying the
/// same identity whenever the new snapshot holds one, and clears when the
/// identity is gone. No selection survives out of no selection.
pub proof fn lemma_selection_follows_identity(
    prev: Seq<Build>,
    sel: Option<usize>,
    next: Seq<Build>,
)
    requires
        next.len() <= usize::MAX,
        match sel {
            Option::Some(i) => i < prev.len(),
            Option::None => true,
        },
    ensures
        match sel {
            Option::Some(i) => match reconciled_selection(prev, sel, next) {
                Option::Some(j) => j < next.len() && next[j as int].nix_pid == prev[
                    i as int
                ].nix_pid,
                Option::None => forall|k: int|
                    0 <= k < next.len() ==> next[k].nix_pid != prev[i as int].nix_pid,
            },
            Option::None => reconciled_selection(prev, sel, next) is None,
        },
{
    match sel {
        Option::Some(i) => {
            lemma_find_characterizes(next, prev[i as int].nix_pid);
        },
        Option::None => {},
    }
}

/// A quit event — whichever way it was produced — stops the loop in one
/// step: the state stops running, and the loop is asked for nothing more,
/// so no further render or refresh cycle follows.
pub proof fn lemma_quit_stops_loop(s: App)
    ensures
        !step_transition(s, Event::App(AppEvent::Quit)).0.running,
        step_transition(s, Event::App(AppEvent::Quit)).1 == Action::Continue,
{
}

/// The quit key and the control-C chord both leave the state untouched
/// and ask for a quit emission, which the loop feeds back as a quit
/// event.
pub proof fn lemma_quit_keys_emit(s: App, key: KeyEvent)
    requires
        key.code == KeyCode::Char('q') || ((key.code == KeyCode::Char('c') || key.code
            == KeyCode::Char('C')) && key.ctrl),
    ensures
        step_transition(s, Event::Terminal(InputEvent::KeyPress(key))).0 == s,
        step_transition(s, Event::Terminal(InputEvent::KeyPress(key))).1 == Action::EmitQuit,
{
}

/// A failed refresh keeps the prior snapshot and selection wholly
/// untouched and still re-arms the cycle: a failure degrades freshness,
/// never availability.
pub proof fn lemma_failed_refresh_retains(s: App, e: FetchError)
    ensures
        step_transition(s, Event::App(AppEvent::Refresh(Result::Err(e)))).0 == s,
        step_transition(s, Event::App(AppEvent::Refresh(Result::Err(e)))).1
            == Action::ScheduleRefresh,
{
}

/// The state after a run of refresh completions, applied in arrival
/// order.
pub open spec fn apply_refreshes(s: App, outputs: Seq<Result<Output, FetchError>>) -> App
    decreases outputs.len(),
{
    if outputs.len() == 0 {
        s
    } else {
        crate::app::refresh_transition(apply_refreshes(s, outputs.drop_last()), outputs.last())
    }
}

/// However many refresh completions arrive, the snapshot ends as the
/// whole payload of the last successful one: completions replace the
/// snapshot atomically and cannot mix into each other.
pub proof fn lemma_snapshot_is_last_payload(s: App, outputs: Seq<Result<Output, FetchError>>)
    requires
        outputs.len() > 0,
        outputs.last() is Ok,
    ensures
        match outputs.last() {
            Result::Ok(builds) => apply_refreshes(s, outputs).active_builds == builds,
            Result::Err(_) => false,
        },
{
}

} // verus!
