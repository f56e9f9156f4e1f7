//! What the graph editor's controls do: stepping through the passes of a
//! loop, undo and redo, saving, freezing and running.
use vstd::prelude::*;

use crate::events::AppEvent;

verus! {

/// The pass before `pass`, stopping at the first one.
pub fn prev_pass(pass: usize) -> (r: usize)
    ensures
        r == pass_before(pass as int),
{
    if pass == 0 {
        0
    } else {
        pass - 1
    }
}

/// The pass after `pass`, stopping at the last one, `limit`.
pub fn next_pass(pass: usize, limit: usize) -> (r: usize)
    ensures
        r == pass_after(pass as int, limit as int),
{
    if pass < limit {
        pass + 1
    } else {
        limit
    }
}

/// The pass before `pass` as a value.
pub open spec fn pass_before(pass: int) -> int {
    if pass == 0 { 0 } else { pass - 1 }
}

/// The pass after `pass` as a value, within `limit`.
pub open spec fn pass_after(pass: int, limit: int) -> int {
    if pass < limit { pass + 1 } else { limit }
}

/// The pass controls keep a pass within its loop: from a pass no later than
/// the last one, a step back or forward stays between the first pass and the
/// last, so any number of steps does.
pub proof fn lemma_pass_steps_stay_within(pass: int, limit: int)
    requires
        0 <= pass <= limit,
    ensures
        0 <= pass_before(pass) <= limit,
        0 <= pass_after(pass, limit) <= limit,
{
}

/// Undo (or redo) is offered while nothing runs and there is a step to take.
pub fn can_step_history(running: bool, steps: usize) -> (r: bool)
    ensures
        r == (!running && steps > 0),
{
    !running && steps > 0
}

/// What to do about saving the workflow.
#[derive(Clone, Copy, Debug, PartialEq, Eq, Structural)]
pub enum SaveAction {
    /// Show a save button, enabled or not.
    OfferButton { enabled: bool },
    /// Save now.
    AutoSave,
    /// Nothing to do.
    Wait,
}

/// The quiet time after the last change before an automatic save, in
/// nanoseconds.
pub const AUTOSAVE_DELAY_NANOS: u128 = 2_000_000_000;

/// Without autosave a save button is offered, enabled when there are changes.
/// With autosave, an unfrozen workflow with changes is saved once more than
/// the delay has passed since the last change (`elapsed_nanos`, in
/// nanoseconds).
pub fn save_action(autosave: bool, frozen: bool, has_changes: bool, elapsed_nanos: u128) -> (r: SaveAction)
    ensures
        !autosave ==> r == (SaveAction::OfferButton { enabled: has_changes }),
        autosave && !frozen && has_changes && elapsed_nanos > AUTOSAVE_DELAY_NANOS ==> r == SaveAction::AutoSave,
        autosave && !(!frozen && has_changes && elapsed_nanos > AUTOSAVE_DELAY_NANOS) ==> r == SaveAction::Wait,
{
    if !autosave {
        SaveAction::OfferButton { enabled: has_changes }
    } else if !frozen && has_changes && elapsed_nanos > AUTOSAVE_DELAY_NANOS {
        SaveAction::AutoSave
    } else {
        SaveAction::Wait
    }
}

/// The label and hint of the freeze toggle.
pub fn freeze_label(running: bool, frozen: bool) -> (r: (&'static str, &'static str))
    ensures
        running ==> r.0@ == "« running »"@ && r.1@ == "Please wait..."@,
        !running && frozen ==> r.0@ == "« frozen »"@ && r.1@ == "Click to re-enable editing."@,
        !running && !frozen ==> r.0@ == "« editing »"@ && r.1@ == "Click to prevent new changes."@,
{
    if running {
        ("« running »", "Please wait...")
    } else if frozen {
        ("« frozen »", "Click to re-enable editing.")
    } else {
        ("« editing »", "Click to prevent new changes.")
    }
}

/// The run control: a stop button while a run goes on, else a play button.
#[derive(Clone, Copy, Debug, PartialEq, Eq, Structural)]
pub enum RunControl {
    Stop { enabled: bool },
    Play { enabled: bool },
}

/// While running, stopping is offered until it has been asked for; otherwise
/// running is offered unless background tasks are busy.
pub fn run_control(running: bool, interrupting: bool, busy: bool) -> (r: RunControl)
    ensures
        running ==> r == (RunControl::Stop { enabled: !interrupting }),
        !running ==> r == (RunControl::Play { enabled: !busy }),
{
    if running {
        RunControl::Stop { enabled: !interrupting }
    } else {
        RunControl::Play { enabled: !busy }
    }
}

/// The run shortcut starts a run only when nothing runs and nothing is busy.
pub fn run_shortcut(running: bool, busy: bool) -> (r: Option<AppEvent>)
    ensures
        !running && !busy ==> r == Some(AppEvent::UserRunWorkflow),
        running || busy ==> r is None,
{
    if !running && !busy {
        Some(AppEvent::UserRunWorkflow)
    } else {
        None
    }
}

/// Double-clicking a level of the view stack below the top leaves the
/// subgraphs down to it.
pub fn level_clicked(depth: usize, double_clicked: bool) -> (r: Option<AppEvent>)
    ensures
        depth > 0 && double_clicked ==> r == Some(AppEvent::LeaveSubgraph(depth)),
        !(depth > 0 && double_clicked) ==> r is None,
{
    if depth > 0 && double_clicked {
        Some(AppEvent::LeaveSubgraph(depth))
    } else {
        None
    }
}

} // verus!
