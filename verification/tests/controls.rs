use aerie::controls::{
    RunControl, SaveAction, can_step_history, freeze_label, level_clicked, next_pass, prev_pass,
    run_control, run_shortcut, save_action,
};
use aerie::events::AppEvent;

#[test]
fn passes_step_within_bounds() {
    assert_eq!(prev_pass(0), 0);
    assert_eq!(prev_pass(3), 2);
    assert_eq!(next_pass(2, 5), 3);
    assert_eq!(next_pass(5, 5), 5);
    assert_eq!(next_pass(7, 5), 5);
    assert_eq!(next_pass(0, 0), 0);
    assert_eq!(next_pass(usize::MAX, usize::MAX), usize::MAX);
    for limit in 0..4usize {
        for pass in 0..=limit {
            assert!(prev_pass(pass) <= limit && next_pass(pass, limit) <= limit);
        }
    }
}

#[test]
fn history_steps() {
    assert!(can_step_history(false, 2));
    assert!(!can_step_history(true, 2));
    assert!(!can_step_history(false, 0));
}

#[test]
fn saving() {
    assert_eq!(save_action(false, false, true, 0), SaveAction::OfferButton { enabled: true });
    assert_eq!(save_action(false, true, false, 9999), SaveAction::OfferButton { enabled: false });
    assert_eq!(save_action(true, false, true, 2_000_000_001), SaveAction::AutoSave);
    assert_eq!(save_action(true, false, true, 2_000_000_000), SaveAction::Wait);
    assert_eq!(save_action(true, true, true, 5_000_000_000), SaveAction::Wait);
    assert_eq!(save_action(true, false, false, 5_000_000_000), SaveAction::Wait);
}

#[test]
fn freeze_labels() {
    assert_eq!(freeze_label(true, true), ("« running »", "Please wait..."));
    assert_eq!(freeze_label(false, true), ("« frozen »", "Click to re-enable editing."));
    assert_eq!(freeze_label(false, false), ("« editing »", "Click to prevent new changes."));
}

#[test]
fn run_controls() {
    assert_eq!(run_control(true, false, true), RunControl::Stop { enabled: true });
    assert_eq!(run_control(true, true, false), RunControl::Stop { enabled: false });
    assert_eq!(run_control(false, false, true), RunControl::Play { enabled: false });
    assert_eq!(run_shortcut(false, false), Some(AppEvent::UserRunWorkflow));
    assert_eq!(run_shortcut(true, false), None);
    assert_eq!(run_shortcut(false, true), None);
}

#[test]
fn leaving_subgraphs() {
    assert_eq!(level_clicked(2, true), Some(AppEvent::LeaveSubgraph(2)));
    assert_eq!(level_clicked(0, true), None);
    assert_eq!(level_clicked(2, false), None);
}
