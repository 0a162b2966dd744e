use farcall::Address;
use farcall::CallFrameSnapshot;
use farcall::FarCallHandler;
use farcall::FarCallOpcode;

fn frame(pc: u16, base_memory_page: u32, is_local_frame: bool) -> CallFrameSnapshot {
    CallFrameSnapshot {
        pc,
        sp: 11,
        exception_handler_location: 13,
        code_page: 21,
        base_memory_page,
        this_address: Address::new(0, 0xAB),
        code_address: Address::new(0, 0xCD),
        context_u128_value: 99,
        is_local_frame,
    }
}

#[test]
fn immediate_return_without_before_snapshot_is_ignored() {
    let mut h = FarCallHandler::new();
    h.set_immediate_return(vec![1, 2, 3]);
    assert!(h.immediate_return.is_none());
    assert!(h.maybe_return_early().is_none());
}

#[test]
fn normal_return_resumes_after_the_call() {
    let mut h = FarCallHandler::new();
    h.track_before_far_calls(Some(FarCallOpcode::Normal), frame(7, 5, true));
    h.set_immediate_return(vec![0xFF]);
    let r = h.immediate_return.clone().expect("return should be pending");
    assert_eq!(r.next_pc, 8);
    assert!(!r.next_is_local_frame);
    assert_eq!(r.next_context_u128_value, 0);
    assert_eq!(r.return_base_memory_page, 5);
    assert_eq!(r.next_base_memory_page, 5);
    assert_eq!(r.next_code_page, 21);
    assert_eq!(r.next_sp, 11);
    assert_eq!(r.next_exception_handler_location, 13);
    assert_eq!(r.next_this_address, Address::new(0, 0xAB));
}

#[test]
fn delegate_return_forces_locality_off() {
    let mut h = FarCallHandler::new();
    h.track_before_far_calls(Some(FarCallOpcode::Delegate), frame(1, 4, true));
    h.set_immediate_return(Vec::new());
    let r = h.immediate_return.clone().expect("return should be pending");
    assert_eq!(r.next_pc, 2);
    assert!(!r.next_is_local_frame);
    assert_eq!(r.next_context_u128_value, 0);
}

#[test]
fn mimic_return_uses_after_page_and_keeps_locality() {
    let mut h = FarCallHandler::new();
    h.track_before_far_calls(Some(FarCallOpcode::Mimic), frame(7, 5, true));
    h.track_after_far_calls(Some(FarCallOpcode::Mimic), frame(0, 31, false));
    h.set_immediate_return(vec![1]);
    let r = h.immediate_return.clone().expect("return should be pending");
    assert_eq!(r.return_base_memory_page, 31);
    assert_eq!(r.next_base_memory_page, 5);
    assert!(r.next_is_local_frame);
    assert_eq!(r.next_pc, 8);
}

#[test]
fn mimic_return_falls_back_to_before_page() {
    let mut h = FarCallHandler::new();
    h.track_before_far_calls(Some(FarCallOpcode::Mimic), frame(7, 5, false));
    h.set_immediate_return(vec![1]);
    let r = h.immediate_return.clone().expect("return should be pending");
    assert_eq!(r.return_base_memory_page, 5);
    assert!(!r.next_is_local_frame);
}

#[test]
fn new_far_call_evicts_stale_after_snapshot() {
    let mut h = FarCallHandler::new();
    h.track_before_far_calls(Some(FarCallOpcode::Normal), frame(1, 2, false));
    h.track_after_far_calls(Some(FarCallOpcode::Normal), frame(2, 3, false));
    assert!(h.after_far_call_stack.is_some());
    h.track_before_far_calls(Some(FarCallOpcode::Mimic), frame(4, 5, false));
    assert!(h.after_far_call_stack.is_none());
    assert_eq!(h.current_far_call, Some(FarCallOpcode::Mimic));
    h.track_before_far_calls(None, frame(9, 9, false));
    assert_eq!(h.current_far_call, Some(FarCallOpcode::Mimic));
}

#[test]
fn saturating_program_counter_stays_at_max() {
    let mut h = FarCallHandler::new();
    h.track_before_far_calls(Some(FarCallOpcode::Normal), frame(u16::MAX, 5, false));
    h.set_immediate_return(Vec::new());
    let r = h.immediate_return.clone().expect("return should be pending");
    assert_eq!(r.next_pc, u16::MAX);
}

#[test]
fn applying_a_return_pads_the_last_word() {
    let mut h = FarCallHandler::new();
    h.track_before_far_calls(Some(FarCallOpcode::Normal), frame(7, 5, false));
    h.set_immediate_return(vec![1, 2, 3, 4, 5]);
    let app = h.maybe_return_early().expect("an application is due");
    assert!(h.immediate_return.is_none());
    assert_eq!(app.base_memory_page, 5);
    assert_eq!(app.returndata_length, 32);
    assert_eq!(app.words.len(), 1);
    let mut expected = vec![0u8; 27];
    expected.extend_from_slice(&[1, 2, 3, 4, 5]);
    assert_eq!(app.words[0], expected);
    assert_eq!(app.next_pc, 8);
    assert!(h.maybe_return_early().is_none());
}

#[test]
fn applying_a_return_splits_full_words() {
    let mut h = FarCallHandler::new();
    h.track_before_far_calls(Some(FarCallOpcode::Normal), frame(7, 5, false));
    let mut payload = vec![0xAAu8; 32];
    payload.extend_from_slice(&[0xBBu8; 32]);
    h.set_immediate_return(payload);
    let app = h.maybe_return_early().expect("an application is due");
    assert_eq!(app.returndata_length, 64);
    assert_eq!(app.words.len(), 2);
    assert_eq!(app.words[0], vec![0xAAu8; 32]);
    assert_eq!(app.words[1], vec![0xBBu8; 32]);
}

#[test]
fn empty_payload_writes_nothing() {
    let mut h = FarCallHandler::new();
    h.track_before_far_calls(Some(FarCallOpcode::Normal), frame(7, 5, false));
    h.set_immediate_return(Vec::new());
    let app = h.maybe_return_early().expect("an application is due");
    assert_eq!(app.returndata_length, 0);
    assert!(app.words.is_empty());
}
