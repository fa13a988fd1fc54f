use cw_ics20_hook::error::ContractError;
use cw_ics20_hook::msg::{
    AggregationPolicy, ResolutionSignal, TransferResult, TransferStatus, Unit,
};
use cw_ics20_hook::state::Ledger;

fn unit(amount: u128, denom: &str) -> Unit {
    Unit { amount, denom: denom.to_string() }
}

fn dispatch(
    ledger: &mut Ledger,
    sender: &str,
    units: Vec<Unit>,
    policy: AggregationPolicy,
) -> cw_ics20_hook::msg::DispatchResponse {
    ledger
        .dispatch(
            sender.to_string(),
            units,
            "channel-0".to_string(),
            "dest-addr".to_string(),
            policy,
            Vec::new(),
            None,
        )
        .unwrap()
}

#[test]
fn recovery_without_a_record_is_fatal() {
    let l = Ledger::new();
    assert_eq!(l.recover().unwrap_err(), ContractError::NoRecoveryRecord);
}

#[test]
fn failed_leg_records_funds_for_return() {
    let mut l = Ledger::new();
    let r = dispatch(&mut l, "alice", vec![unit(100, "uusd")], AggregationPolicy::AfterAny);
    let mut legs = r.legs;
    let ctx = legs.remove(0).context;
    let resp = l.resolve_leg(ctx, ResolutionSignal::Failed("refused".to_string())).unwrap();
    let n = resp.notification.unwrap();
    assert_eq!(n.outcome, TransferResult::Error("refused".to_string()));
    assert_eq!(n.funds, vec![unit(100, "uusd")]);

    // the ledger mutation is retained even though the notification may fail
    assert_eq!(l.get_status(1), TransferStatus::Complete);

    // if the notification dispatch fails, the recovery path returns the funds
    let back = l.recover().unwrap();
    assert_eq!(back.to_address, "alice");
    assert_eq!(back.funds, vec![unit(100, "uusd")]);
}

#[test]
fn timed_out_leg_records_funds_for_return() {
    let mut l = Ledger::new();
    let r = dispatch(&mut l, "bob", vec![unit(42, "uusk")], AggregationPolicy::AfterAny);
    let mut legs = r.legs;
    let ctx = legs.remove(0).context;
    let resp = l.resolve_leg(ctx, ResolutionSignal::TimedOut).unwrap();
    let n = resp.notification.unwrap();
    assert_eq!(n.outcome, TransferResult::Timeout);
    assert_eq!(n.funds, vec![unit(42, "uusk")]);
    let back = l.recover().unwrap();
    assert_eq!(back.to_address, "bob");
    assert_eq!(back.funds, vec![unit(42, "uusk")]);
}

#[test]
fn successful_leg_records_nothing() {
    let mut l = Ledger::new();
    let r = dispatch(&mut l, "alice", vec![unit(100, "uusd")], AggregationPolicy::AfterAny);
    let mut legs = r.legs;
    let ctx = legs.remove(0).context;
    let resp = l.resolve_leg(ctx, ResolutionSignal::Delivered(Vec::new())).unwrap();
    assert!(resp.notification.unwrap().funds.is_empty());
    assert_eq!(l.recover().unwrap_err(), ContractError::NoRecoveryRecord);
}

#[test]
fn after_all_non_final_failure_records_nothing() {
    // no notification fires before the final leg, so no funds ride a
    // notification and nothing is recorded for return
    let mut l = Ledger::new();
    let r = dispatch(
        &mut l,
        "alice",
        vec![unit(1, "uusd"), unit(2, "uusk")],
        AggregationPolicy::AfterAll,
    );
    let mut legs = r.legs;
    let ctx1 = legs.remove(0).context;
    let resp = l.resolve_leg(ctx1, ResolutionSignal::Failed("boom".to_string())).unwrap();
    assert!(resp.notification.is_none());
    assert_eq!(l.recover().unwrap_err(), ContractError::NoRecoveryRecord);
}

#[test]
fn recovery_slot_is_overwritten_not_queued() {
    let mut l = Ledger::new();
    let r1 = dispatch(&mut l, "alice", vec![unit(100, "uusd")], AggregationPolicy::AfterAny);
    let r2 = dispatch(&mut l, "bob", vec![unit(200, "uusk")], AggregationPolicy::AfterAny);
    let ctx1 = { r1.legs.into_iter().next().unwrap().context };
    let ctx2 = { r2.legs.into_iter().next().unwrap().context };
    l.resolve_leg(ctx1, ResolutionSignal::TimedOut).unwrap();
    l.resolve_leg(ctx2, ResolutionSignal::Failed("late".to_string())).unwrap();
    // only the most recent obligation is recoverable, by design
    let back = l.recover().unwrap();
    assert_eq!(back.to_address, "bob");
    assert_eq!(back.funds, vec![unit(200, "uusk")]);
}

#[test]
fn recover_leaves_the_record_in_place() {
    let mut l = Ledger::new();
    let r = dispatch(&mut l, "alice", vec![unit(100, "uusd")], AggregationPolicy::AfterAny);
    let ctx = r.legs.into_iter().next().unwrap().context;
    l.resolve_leg(ctx, ResolutionSignal::TimedOut).unwrap();
    let first = l.recover().unwrap();
    let second = l.recover().unwrap();
    assert_eq!(first, second);
}
