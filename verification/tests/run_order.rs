use aipet::run_schedule::{
    report_message, status_word, stop_message, RunAction, RunEvent, RunSchedule, RunStage, RunStop,
    StepStatus,
};

fn drive(rows: usize, events: &[(usize, RunEvent)]) -> Vec<RunAction> {
    let mut s = RunSchedule::new(rows);
    let mut out = Vec::new();
    let mut event = RunEvent::Proceed;
    for k in 0..40 {
        let a = s.next(event);
        out.push(a);
        if matches!(a, RunAction::Finish | RunAction::Stop(_)) {
            break;
        }
        event = events.iter().find(|(at, _)| *at == k).map(|(_, e)| *e).unwrap_or(RunEvent::Proceed);
    }
    out
}

#[test]
fn run_goes_through_steps_in_order() {
    let actions = drive(2, &[]);
    assert_eq!(
        actions,
        vec![
            RunAction::Report(1, StepStatus::Running),
            RunAction::Work(RunStage::Prepare),
            RunAction::Report(1, StepStatus::Completed),
            RunAction::Report(2, StepStatus::Running),
            RunAction::Work(RunStage::GenerateBase),
            RunAction::Report(2, StepStatus::Completed),
            RunAction::Work(RunStage::ConfirmBase),
            RunAction::Report(3, StepStatus::Running),
            RunAction::Work(RunStage::Strip(0)),
            RunAction::Work(RunStage::Strip(1)),
            RunAction::Report(3, StepStatus::Completed),
            RunAction::Report(4, StepStatus::Running),
            RunAction::Work(RunStage::ProcessImages),
            RunAction::Report(4, StepStatus::Completed),
            RunAction::Report(5, StepStatus::Running),
            RunAction::Work(RunStage::QualityCheck),
            RunAction::Report(5, StepStatus::Completed),
            RunAction::Report(6, StepStatus::Running),
            RunAction::Work(RunStage::ComposeAtlas),
            RunAction::Report(6, StepStatus::Completed),
            RunAction::Report(7, StepStatus::Running),
            RunAction::Work(RunStage::Package),
            RunAction::Report(7, StepStatus::Completed),
            RunAction::Finish,
        ]
    );
}

#[test]
fn cancel_stops_at_check_points_only() {
    // Cancelled after the step-1 completed report (action 2): stops there.
    let a = drive(9, &[(2, RunEvent::Cancelled)]);
    assert_eq!(a.len(), 4);
    assert_eq!(a[3], RunAction::Stop(RunStop::Cancelled));
    // Cancelled right after the step-1 running report: no check there.
    let a = drive(9, &[(0, RunEvent::Cancelled)]);
    assert_eq!(a[1], RunAction::Work(RunStage::Prepare));
    assert_eq!(*a.last().unwrap(), RunAction::Finish);
    // Cancelled after the first strip: the second strip never starts.
    let a = drive(9, &[(8, RunEvent::Cancelled)]);
    assert_eq!(a[8], RunAction::Work(RunStage::Strip(0)));
    assert_eq!(a[9], RunAction::Stop(RunStop::Cancelled));
    assert_eq!(a.len(), 10);
}

#[test]
fn declined_base_stops_run() {
    let a = drive(9, &[(6, RunEvent::Declined)]);
    assert_eq!(a[6], RunAction::Work(RunStage::ConfirmBase));
    assert_eq!(a[7], RunAction::Stop(RunStop::Declined));
    let mut s = RunSchedule::new(9);
    for _ in 0..7 {
        s.next(RunEvent::Proceed);
    }
    assert_eq!(s.next(RunEvent::Declined), RunAction::Stop(RunStop::Declined));
    assert_eq!(s.next(RunEvent::Proceed), RunAction::Stop(RunStop::Declined));
    assert_eq!(stop_message(RunStop::Declined), "用户取消");
    assert_eq!(stop_message(RunStop::Cancelled), "cancelled");
}

#[test]
fn finished_run_stays_finished() {
    let mut s = RunSchedule::new(1);
    let mut n = 0;
    while s.next(RunEvent::Proceed) != RunAction::Finish {
        n += 1;
    }
    assert_eq!(n, 22);
    assert_eq!(s.next(RunEvent::Cancelled), RunAction::Finish);
}

#[test]
fn step_reports_carry_their_messages() {
    assert_eq!(report_message(1, StepStatus::Running), "prepare workdir");
    assert_eq!(report_message(2, StepStatus::Completed), "base image ready");
    assert_eq!(report_message(3, StepStatus::Completed), "all strips done");
    assert_eq!(report_message(5, StepStatus::Running), "quality check");
    assert_eq!(report_message(7, StepStatus::Completed), "package done");
    assert_eq!(status_word(StepStatus::Running), "running");
    assert_eq!(status_word(StepStatus::Completed), "completed");
}
