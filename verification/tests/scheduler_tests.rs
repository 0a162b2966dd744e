use farcall::Address;
use farcall::CallAction;
use farcall::CallActions;
use farcall::CallDepth;
use farcall::FarCallHandler;
use farcall::FarCallOpcode;

fn addr(lo: u128) -> Address {
    Address::new(0, lo)
}

#[test]
fn depth_constructors() {
    assert_eq!(CallDepth::new(3).0, 3);
    assert_eq!(CallDepth::current().0, 0);
    assert_eq!(CallDepth::next().0, 1);
}

#[test]
fn default_values_are_empty() {
    assert_eq!(CallDepth::default().0, 0);
    let mut q = CallActions::default();
    assert!(q.take_immediate().is_empty());
    let mut h = FarCallHandler::default();
    assert!(h.immediate_return.is_none());
    assert!(h.take_immediate_actions().is_empty());
    let m = farcall::MockedCalls::default();
    assert_eq!(
        m.get_matching_return_data(addr(1), &[], farcall::Word256::new(0, 0)),
        None
    );
}

#[test]
fn depth_decrement_saturates_at_zero() {
    assert_eq!(CallDepth::new(0).decrement().0, 0);
    assert_eq!(CallDepth::current().decrement().0, 0);
}

#[test]
fn depth_decrement_steps_down() {
    assert_eq!(CallDepth::new(5).decrement().0, 4);
    assert_eq!(CallDepth::next().decrement().0, 0);
}

#[test]
fn action_at_depth_zero_is_immediate() {
    let mut q = CallActions::new();
    let a = CallAction::SetMessageSender(addr(5));
    q.push(CallDepth::new(0), a);
    let drained = q.take_immediate();
    assert_eq!(drained.len(), 1);
    assert_eq!(drained[0], a);
    assert!(q.take_immediate().is_empty());
}

#[test]
fn action_at_depth_two_fires_after_two_ticks_exactly_once() {
    let mut q = CallActions::new();
    let a = CallAction::SetThisAddress(addr(9));
    q.push(CallDepth::new(2), a);
    assert!(q.take_immediate().is_empty());
    q.track();
    assert!(q.take_immediate().is_empty());
    q.track();
    let drained = q.take_immediate();
    assert_eq!(drained.len(), 1);
    assert_eq!(drained[0], a);
    q.track();
    assert!(q.take_immediate().is_empty());
}

#[test]
fn actions_release_in_order() {
    let mut q = CallActions::new();
    let a = CallAction::SetMessageSender(addr(1));
    let b = CallAction::SetThisAddress(addr(2));
    q.push(CallDepth::new(1), a);
    q.push(CallDepth::new(1), b);
    q.track();
    let drained = q.take_immediate();
    assert_eq!(drained, vec![a, b]);
}

#[test]
fn handler_advances_actions_only_on_far_calls() {
    let mut h = FarCallHandler::new();
    let a = CallAction::SetMessageSender(addr(7));
    h.set_action(CallDepth::new(1), a);
    assert!(h.take_immediate_actions().is_empty());
    h.track_call_actions(None);
    assert!(h.take_immediate_actions().is_empty());
    h.track_call_actions(Some(FarCallOpcode::Normal));
    let drained = h.take_immediate_actions();
    assert_eq!(drained.len(), 1);
    assert_eq!(drained[0], a);
}
