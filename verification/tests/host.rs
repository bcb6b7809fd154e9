use sworker::host::{
    call_outcome, count_successes, increase_summary, srd_change_plan, CallOutcome,
    IncreaseSummary, PayloadBuffer, PayloadError, SrdChangePlan, MAX_SIZE,
};

#[test]
fn change_plans() {
    assert_eq!(srd_change_plan(0), SrdChangePlan::Nothing);
    assert_eq!(srd_change_plan(3), SrdChangePlan::Increase(3));
    assert_eq!(srd_change_plan(-7), SrdChangePlan::Decrease(7));
    assert_eq!(srd_change_plan(i32::MAX), SrdChangePlan::Increase(i32::MAX as u32));
    assert_eq!(srd_change_plan(-i32::MAX), SrdChangePlan::Decrease(i32::MAX as u32));
}

#[test]
fn call_outcomes() {
    assert_eq!(call_outcome(0, 0), CallOutcome::Succeeded);
    assert_eq!(call_outcome(0, 1), CallOutcome::Failed(1));
    assert_eq!(call_outcome(0x2001, 0), CallOutcome::InvokeFailed(0x2001));
    assert_eq!(call_outcome(0x2001, 1), CallOutcome::InvokeFailed(0x2001));
}

#[test]
fn counting_successes() {
    let v = vec![
        CallOutcome::Succeeded,
        CallOutcome::Failed(1),
        CallOutcome::Succeeded,
        CallOutcome::InvokeFailed(2),
    ];
    assert_eq!(count_successes(&v), 2);
    assert_eq!(count_successes(&Vec::new()), 0);
}

#[test]
fn summaries() {
    assert_eq!(increase_summary(4, 4), IncreaseSummary::Complete);
    assert_eq!(increase_summary(4, 1), IncreaseSummary::Partial { succeeded: 1, failed: 3 });
    assert_eq!(increase_summary(0, 0), IncreaseSummary::Complete);
}

#[test]
fn body_up_to_the_limit_is_accepted() {
    let mut p = PayloadBuffer::new();
    assert_eq!(p.extend_chunk(b"{\"change\":"), Ok(()));
    assert_eq!(p.extend_chunk(b" 4}"), Ok(()));
    assert_eq!(p.body, b"{\"change\": 4}".to_vec());
    let mut q = PayloadBuffer::new();
    assert_eq!(q.extend_chunk(&vec![b'x'; MAX_SIZE]), Ok(()));
    assert_eq!(q.body.len(), MAX_SIZE);
}

#[test]
fn body_past_the_limit_is_refused_and_kept() {
    let mut p = PayloadBuffer::new();
    assert_eq!(p.extend_chunk(&vec![b'x'; MAX_SIZE - 1]), Ok(()));
    assert_eq!(p.extend_chunk(b"yz"), Err(PayloadError::Overflow));
    assert_eq!(p.body.len(), MAX_SIZE - 1);
    assert_eq!(MAX_SIZE, 262_144);
}
