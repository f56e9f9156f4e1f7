use aerie::events::AppEvent;
use std::cmp::Ordering;

#[test]
fn event_priorities() {
    assert_eq!(AppEvent::EnterSubgraph(3).priority(), -100);
    assert_eq!(AppEvent::LeaveSubgraph(1).priority(), -100);
    assert_eq!(AppEvent::UserRunWorkflow.priority(), -200);
    assert_eq!(AppEvent::SetPrompt("hi".to_string()).priority(), -200);
    assert_eq!(AppEvent::Undo.priority(), 0);
    assert_eq!(AppEvent::ProgressEnd(9).priority(), 0);
}

#[test]
fn events_compare_by_priority() {
    assert_eq!(AppEvent::UserRunWorkflow.compare(&AppEvent::Undo), Ordering::Less);
    assert_eq!(AppEvent::Redo.compare(&AppEvent::EnterSubgraph(0)), Ordering::Greater);
    assert_eq!(AppEvent::Undo.compare(&AppEvent::ToolsChanged), Ordering::Equal);
    assert_eq!(
        AppEvent::SetPrompt("a".to_string()).compare(&AppEvent::UserRunWorkflow),
        Ordering::Equal
    );
}
