use cw_ics20_hook::contract::classify;
use cw_ics20_hook::error::ContractError;
use cw_ics20_hook::msg::{
    AggregationPolicy, ResolutionSignal, TransferResult, TransferStatus, Unit,
};
use cw_ics20_hook::state::Ledger;

fn unit(amount: u128, denom: &str) -> Unit {
    Unit { amount, denom: denom.to_string() }
}

fn dispatch_simple(
    ledger: &mut Ledger,
    sender: &str,
    units: Vec<Unit>,
    policy: AggregationPolicy,
) -> Result<cw_ics20_hook::msg::DispatchResponse, ContractError> {
    ledger.dispatch(
        sender.to_string(),
        units,
        "channel-0".to_string(),
        "dest-addr".to_string(),
        policy,
        b"opaque-callback".to_vec(),
        None,
    )
}

#[test]
fn classify_discards_success_payload() {
    let r = classify(ResolutionSignal::Delivered(b"ignored payload".to_vec()));
    assert_eq!(r, TransferResult::Success);
}

#[test]
fn classify_keeps_error_message_verbatim() {
    let r = classify(ResolutionSignal::Failed("out of gas".to_string()));
    assert_eq!(r, TransferResult::Error("out of gas".to_string()));
}

#[test]
fn classify_timeout() {
    let r = classify(ResolutionSignal::TimedOut);
    assert_eq!(r, TransferResult::Timeout);
}

#[test]
fn dispatch_allocates_increasing_ids_and_records_units() {
    let mut l = Ledger::new();
    let r1 = dispatch_simple(&mut l, "alice", vec![unit(100, "uusd")], AggregationPolicy::AfterAny)
        .unwrap();
    assert_eq!(r1.transfer_id, 1);
    let r2 = dispatch_simple(&mut l, "alice", vec![unit(7, "uusk")], AggregationPolicy::AfterAny)
        .unwrap();
    assert_eq!(r2.transfer_id, 2);
    assert_eq!(l.get_status(1), TransferStatus::Pending(vec![unit(100, "uusd")]));
    assert_eq!(l.get_status(2), TransferStatus::Pending(vec![unit(7, "uusk")]));
}

#[test]
fn dispatch_builds_one_leg_per_unit() {
    let mut l = Ledger::new();
    let r = dispatch_simple(
        &mut l,
        "alice",
        vec![unit(100, "uusd"), unit(200, "uusk")],
        AggregationPolicy::AfterAll,
    )
    .unwrap();
    assert_eq!(r.legs.len(), 2);
    for (k, leg) in r.legs.iter().enumerate() {
        assert_eq!(leg.channel_id, "channel-0");
        assert_eq!(leg.to_address, "dest-addr");
        assert_eq!(leg.context.transfer_id, 1);
        assert_eq!(leg.context.sender, "alice");
        assert_eq!(leg.context.policy, AggregationPolicy::AfterAll);
        assert_eq!(leg.context.callback, b"opaque-callback".to_vec());
        if k == 0 {
            assert_eq!(leg.context.unit, unit(100, "uusd"));
        } else {
            assert_eq!(leg.context.unit, unit(200, "uusk"));
        }
    }
    assert!(r.ack.is_none());
}

#[test]
fn dispatch_with_notify_target_acknowledges() {
    let mut l = Ledger::new();
    let r = l
        .dispatch(
            "alice".to_string(),
            vec![unit(1, "uusd")],
            "channel-0".to_string(),
            "dest-addr".to_string(),
            AggregationPolicy::AfterAny,
            Vec::new(),
            Some("watcher".to_string()),
        )
        .unwrap();
    let ack = r.ack.unwrap();
    assert_eq!(ack.target, "watcher");
    assert_eq!(ack.transfer_id, 1);
}

#[test]
fn dispatch_with_zero_units_fails_and_allocates_no_id() {
    let mut l = Ledger::new();
    let r = dispatch_simple(&mut l, "alice", vec![], AggregationPolicy::AfterAny);
    assert_eq!(r.unwrap_err(), ContractError::NoFunds);
    assert_eq!(l.next_id, 0);
    assert_eq!(l.get_status(1), TransferStatus::NotFound);
    // the next dispatch still gets id 1
    let r2 = dispatch_simple(&mut l, "alice", vec![unit(5, "uusd")], AggregationPolicy::AfterAny)
        .unwrap();
    assert_eq!(r2.transfer_id, 1);
}

#[test]
fn after_any_single_leg_success_notifies_and_completes() {
    let mut l = Ledger::new();
    let r = dispatch_simple(&mut l, "alice", vec![unit(100, "uusd")], AggregationPolicy::AfterAny)
        .unwrap();
    assert_eq!(r.transfer_id, 1);
    assert_eq!(l.get_status(1), TransferStatus::Pending(vec![unit(100, "uusd")]));

    let mut legs = r.legs;
    let ctx = legs.remove(0).context;
    let resp = l.resolve_leg(ctx, ResolutionSignal::Delivered(Vec::new())).unwrap();
    let n = resp.notification.expect("AfterAny always notifies");
    assert_eq!(n.target, "alice");
    assert_eq!(n.callback, b"opaque-callback".to_vec());
    assert_eq!(n.outcome, TransferResult::Success);
    assert!(n.funds.is_empty());
    assert_eq!(l.get_status(1), TransferStatus::Complete);
}

#[test]
fn after_any_each_leg_notifies_with_its_own_outcome() {
    let mut l = Ledger::new();
    let r = dispatch_simple(
        &mut l,
        "alice",
        vec![unit(100, "uusd"), unit(200, "uusk")],
        AggregationPolicy::AfterAny,
    )
    .unwrap();
    let mut legs = r.legs;
    let ctx2 = legs.remove(1).context;
    let ctx1 = legs.remove(0).context;

    // second leg resolves first, with an error
    let resp = l.resolve_leg(ctx2, ResolutionSignal::Failed("boom".to_string())).unwrap();
    let n = resp.notification.expect("AfterAny always notifies");
    assert_eq!(n.outcome, TransferResult::Error("boom".to_string()));
    assert_eq!(n.funds, vec![unit(200, "uusk")]);
    assert_eq!(l.get_status(1), TransferStatus::Pending(vec![unit(100, "uusd")]));

    // first leg resolves second, successfully, and still notifies
    let resp = l.resolve_leg(ctx1, ResolutionSignal::Delivered(Vec::new())).unwrap();
    let n = resp.notification.expect("AfterAny always notifies");
    assert_eq!(n.outcome, TransferResult::Success);
    assert!(n.funds.is_empty());
    assert_eq!(l.get_status(1), TransferStatus::Complete);
}

#[test]
fn after_all_notifies_only_on_final_leg() {
    let mut l = Ledger::new();
    let r = dispatch_simple(
        &mut l,
        "alice",
        vec![unit(100, "uusd"), unit(200, "uusk")],
        AggregationPolicy::AfterAll,
    )
    .unwrap();
    assert_eq!(r.transfer_id, 1);
    let mut legs = r.legs;
    let ctx2 = legs.remove(1).context;
    let ctx1 = legs.remove(0).context;

    let resp = l.resolve_leg(ctx1, ResolutionSignal::Delivered(Vec::new())).unwrap();
    assert!(resp.notification.is_none());
    assert_eq!(l.get_status(1), TransferStatus::Pending(vec![unit(200, "uusk")]));

    let resp = l.resolve_leg(ctx2, ResolutionSignal::Delivered(Vec::new())).unwrap();
    let n = resp.notification.expect("final leg must notify");
    assert_eq!(n.outcome, TransferResult::Success);
    assert!(n.funds.is_empty());
    assert_eq!(l.get_status(1), TransferStatus::Complete);
}

#[test]
fn identical_legs_match_arbitrarily_one_at_a_time() {
    let mut l = Ledger::new();
    let r = dispatch_simple(
        &mut l,
        "alice",
        vec![unit(50, "uusd"), unit(50, "uusd")],
        AggregationPolicy::AfterAll,
    )
    .unwrap();
    let mut legs = r.legs;
    let ctx2 = legs.remove(1).context;
    let ctx1 = legs.remove(0).context;

    let resp = l.resolve_leg(ctx2, ResolutionSignal::Delivered(Vec::new())).unwrap();
    assert!(resp.notification.is_none());
    assert_eq!(l.get_status(1), TransferStatus::Pending(vec![unit(50, "uusd")]));

    let resp = l.resolve_leg(ctx1, ResolutionSignal::Delivered(Vec::new())).unwrap();
    assert!(resp.notification.is_some());
    assert_eq!(l.get_status(1), TransferStatus::Complete);
}

#[test]
fn resolution_for_unknown_id_is_fatal_and_mutates_nothing() {
    let mut l = Ledger::new();
    let r = dispatch_simple(&mut l, "alice", vec![unit(100, "uusd")], AggregationPolicy::AfterAny)
        .unwrap();
    let mut legs = r.legs;
    let mut ctx = legs.remove(0).context;
    ctx.transfer_id = 99;
    let e = l.resolve_leg(ctx, ResolutionSignal::Delivered(Vec::new())).unwrap_err();
    assert_eq!(e, ContractError::UnknownTransfer);
    assert!(e.is_protocol_violation());
    assert_eq!(l.get_status(1), TransferStatus::Pending(vec![unit(100, "uusd")]));
}

#[test]
fn resolution_for_unknown_unit_is_fatal_and_mutates_nothing() {
    let mut l = Ledger::new();
    let r = dispatch_simple(&mut l, "alice", vec![unit(100, "uusd")], AggregationPolicy::AfterAny)
        .unwrap();
    let mut legs = r.legs;
    let mut ctx = legs.remove(0).context;
    ctx.unit = unit(101, "uusd");
    let e = l.resolve_leg(ctx, ResolutionSignal::Delivered(Vec::new())).unwrap_err();
    assert_eq!(e, ContractError::UnknownUnit);
    assert!(e.is_protocol_violation());
    assert_eq!(l.get_status(1), TransferStatus::Pending(vec![unit(100, "uusd")]));
}

#[test]
fn resolution_for_completed_transfer_is_fatal() {
    let mut l = Ledger::new();
    let r = dispatch_simple(&mut l, "alice", vec![unit(100, "uusd")], AggregationPolicy::AfterAny)
        .unwrap();
    let mut legs = r.legs;
    let ctx = legs.remove(0).context;
    let replay = cw_ics20_hook::msg::LegContext {
        transfer_id: ctx.transfer_id,
        sender: ctx.sender.clone(),
        unit: unit(100, "uusd"),
        policy: ctx.policy,
        callback: ctx.callback.clone(),
    };
    l.resolve_leg(ctx, ResolutionSignal::Delivered(Vec::new())).unwrap();
    let e = l.resolve_leg(replay, ResolutionSignal::Delivered(Vec::new())).unwrap_err();
    assert_eq!(e, ContractError::UnknownUnit);
    assert_eq!(l.get_status(1), TransferStatus::Complete);
}

#[test]
fn no_funds_is_not_a_protocol_violation() {
    assert!(!ContractError::NoFunds.is_protocol_violation());
    assert!(!ContractError::NoRecoveryRecord.is_protocol_violation());
    assert!(ContractError::UnknownTransfer.is_protocol_violation());
    assert!(ContractError::UnknownUnit.is_protocol_violation());
}
