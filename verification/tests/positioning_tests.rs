use cosmic_monitor_positiond::positioning::{PositioningAction, PositioningEvent, PositioningRun};

#[test]
fn empty_layout_is_done_at_once() {
    let (_, action) = PositioningRun::start(0);
    assert_eq!(action, PositioningAction::Done);
}

#[test]
fn each_monitor_once_in_order_despite_refusals() {
    let (mut run, mut action) = PositioningRun::start(3);
    let mut positioned = Vec::new();
    let answers = [PositioningEvent::PositionFailed, PositioningEvent::PositionSet, PositioningEvent::PositionFailed];
    let mut turn = 0;
    loop {
        match action {
            PositioningAction::OpenSession { index } => {
                assert_eq!(index, turn);
                action = run.step(PositioningEvent::SessionReady);
            }
            PositioningAction::SetPosition { index } => {
                positioned.push(index);
                action = run.step(answers[turn]);
                turn += 1;
            }
            PositioningAction::Abort => panic!("no session failed"),
            PositioningAction::Done => break,
        }
    }
    assert_eq!(positioned, vec![0, 1, 2]);
}

#[test]
fn failed_session_aborts() {
    let (mut run, action) = PositioningRun::start(2);
    assert_eq!(action, PositioningAction::OpenSession { index: 0 });
    assert_eq!(run.step(PositioningEvent::SessionReady), PositioningAction::SetPosition { index: 0 });
    assert_eq!(run.step(PositioningEvent::PositionSet), PositioningAction::OpenSession { index: 1 });
    assert_eq!(run.step(PositioningEvent::SessionFailed), PositioningAction::Abort);
}
