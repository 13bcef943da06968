use bigsound::push::{push_with_refresh, start_push, PushEvent, PushStage};

fn failed(message: &str) -> PushEvent {
    PushEvent::Pushed(Err(message.to_string()))
}

#[test]
fn a_push_that_succeeds_is_over() {
    let stage = push_with_refresh(start_push(41), PushEvent::Pushed(Ok(())));
    assert!(matches!(stage, PushStage::Done(Ok(()))));
}

#[test]
fn an_ordinary_failure_is_not_retried() {
    let stage = push_with_refresh(start_push(41), failed("permission denied"));
    match stage {
        PushStage::Done(Err(e)) => assert_eq!(e, "permission denied"),
        _ => panic!("not over"),
    }
}

#[test]
fn a_stale_node_is_looked_up_and_retried_once() {
    for message in ["no global 41", "unknown id", "No such object", "node not found"] {
        let stage = push_with_refresh(start_push(41), failed(message));
        assert!(matches!(stage, PushStage::Discover { node_id: 41, .. }), "{message}");
        let stage = push_with_refresh(stage, PushEvent::Discovered(Some(42)));
        assert!(matches!(stage, PushStage::Push { node_id: 42, retry: true }));
        let stage = push_with_refresh(stage, failed("no global 42"));
        assert!(matches!(stage, PushStage::Done(Err(_))));
    }
}

#[test]
fn an_unchanged_or_missing_node_gives_the_first_error() {
    for found in [Some(41), None] {
        let stage = push_with_refresh(start_push(41), failed("no global 41"));
        match push_with_refresh(stage, PushEvent::Discovered(found)) {
            PushStage::Done(Err(e)) => assert_eq!(e, "no global 41"),
            _ => panic!("not over"),
        }
    }
}

#[test]
fn stray_push_events_change_nothing() {
    let stage = push_with_refresh(start_push(41), PushEvent::Discovered(Some(1)));
    assert!(matches!(stage, PushStage::Push { node_id: 41, retry: false }));
    let stage = push_with_refresh(stage, failed("unknown"));
    let stage = push_with_refresh(stage, PushEvent::Pushed(Ok(())));
    assert!(matches!(stage, PushStage::Discover { node_id: 41, .. }));
    let stage = push_with_refresh(PushStage::Done(Ok(())), failed("late"));
    assert!(matches!(stage, PushStage::Done(Ok(()))));
}
