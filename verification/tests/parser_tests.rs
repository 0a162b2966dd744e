use farcall::parser::msg_value_simulator;
use farcall::Address;
use farcall::CallFrameSnapshot;
use farcall::ParsedFarCall;
use farcall::Word256;

fn frame_for(code_address: Address, context_u128_value: u128) -> CallFrameSnapshot {
    CallFrameSnapshot {
        pc: 1,
        sp: 2,
        exception_handler_location: 3,
        code_page: 4,
        base_memory_page: 5,
        this_address: Address::new(0, 6),
        code_address,
        context_u128_value,
        is_local_frame: false,
    }
}

fn zero() -> Word256 {
    Word256::new(0, 0)
}

#[test]
fn plain_call_takes_the_frames_context_value() {
    let frame = frame_for(Address::new(0, 0x1234), 77);
    let r = farcall::parser::parse(&frame, vec![1, 2, 3], true, zero(), zero(), zero());
    match r {
        ParsedFarCall::SimpleCall { to, value, calldata } => {
            assert_eq!(to, Address::new(0, 0x1234));
            assert_eq!(value, Word256::new(0, 77));
            assert_eq!(calldata, vec![1, 2, 3]);
        }
        ParsedFarCall::ValueCall { .. } => panic!("expected a plain call"),
    }
}

#[test]
fn simulator_call_decodes_the_extra_registers() {
    let frame = frame_for(msg_value_simulator(), 123);
    let value_reg = Word256::new(0xDEAD, 42);
    let recipient_reg = Word256::new(0xFFFF_FFFF_0000_0005, 0x99);
    let system_reg = Word256::new(0, 0b10);
    let r = farcall::parser::parse(&frame, vec![9], true, value_reg, recipient_reg, system_reg);
    match r {
        ParsedFarCall::ValueCall { to, value, calldata, recipient, is_system_call } => {
            assert_eq!(to, msg_value_simulator());
            // Only the low 128 bits of the value register count.
            assert_eq!(value, Word256::new(0, 42));
            assert_eq!(calldata, vec![9]);
            // The recipient is the register narrowed to 160 bits.
            assert_eq!(recipient, Address::new(0x5, 0x99));
            assert!(is_system_call);
        }
        ParsedFarCall::SimpleCall { .. } => panic!("expected a value-transfer call"),
    }
}

#[test]
fn system_flag_reads_bit_one_only() {
    let frame = frame_for(msg_value_simulator(), 0);
    let r = farcall::parser::parse(&frame, vec![], true, zero(), zero(), Word256::new(0, 0b01));
    match r {
        ParsedFarCall::ValueCall { is_system_call, .. } => assert!(!is_system_call),
        ParsedFarCall::SimpleCall { .. } => panic!("expected a value-transfer call"),
    }
}

#[test]
fn selector_is_hex_of_the_first_four_bytes() {
    let call = ParsedFarCall::SimpleCall {
        to: Address::new(0, 1),
        value: Word256::new(0, 0),
        calldata: vec![0x9C, 0xC7, 0xF7, 0x08, 0x55],
    };
    assert_eq!(call.selector(), "9cc7f708");
}

#[test]
fn selector_matches_the_wellknown_constants() {
    let call = ParsedFarCall::SimpleCall {
        to: Address::new(0, 1),
        value: Word256::new(0, 0),
        calldata: vec![0x42, 0xCB, 0xB1, 0x5C],
    };
    assert_eq!(call.selector(), farcall::parser::SELECTOR_SYSTEM_CONTEXT_BLOCK_NUMBER);
    let call = ParsedFarCall::SimpleCall {
        to: Address::new(0, 1),
        value: Word256::new(0, 0),
        calldata: vec![0x3C, 0xDA, 0x33, 0x51],
    };
    assert_eq!(call.selector(), farcall::parser::SELECTOR_CONTRACT_DEPLOYER_CREATE2);
}

#[test]
fn selector_is_empty_for_short_calldata() {
    let call = ParsedFarCall::SimpleCall {
        to: Address::new(0, 1),
        value: Word256::new(0, 0),
        calldata: vec![0x9C, 0xC7, 0xF7],
    };
    assert_eq!(call.selector(), "");
}

#[test]
fn params_splits_the_tail_into_words() {
    let mut calldata = vec![1, 2, 3, 4];
    calldata.extend_from_slice(&[0xAAu8; 32]);
    calldata.extend_from_slice(&[0xBBu8; 32]);
    let call = ParsedFarCall::SimpleCall {
        to: Address::new(0, 1),
        value: Word256::new(0, 0),
        calldata,
    };
    let params = call.params();
    assert_eq!(params.len(), 2);
    assert_eq!(params[0], vec![0xAAu8; 32]);
    assert_eq!(params[1], vec![0xBBu8; 32]);
}

#[test]
fn params_is_empty_for_selector_only_calldata() {
    let call = ParsedFarCall::SimpleCall {
        to: Address::new(0, 1),
        value: Word256::new(0, 0),
        calldata: vec![1, 2, 3, 4],
    };
    assert!(call.params().is_empty());
}

#[test]
fn param_bytes_after_skips_whole_words() {
    let mut calldata = vec![1, 2, 3, 4];
    calldata.extend_from_slice(&[0xAAu8; 32]);
    calldata.extend_from_slice(&[0xBBu8; 32]);
    let call = ParsedFarCall::SimpleCall {
        to: Address::new(0, 1),
        value: Word256::new(0, 0),
        calldata,
    };
    assert_eq!(call.param_bytes_after(1), vec![0xBBu8; 32]);
    assert_eq!(call.param_bytes_after(0).len(), 64);
}

#[test]
fn param_bytes_after_is_empty_when_too_little_remains() {
    let mut calldata = vec![1, 2, 3, 4];
    calldata.extend_from_slice(&[0xAAu8; 16]);
    let call = ParsedFarCall::SimpleCall {
        to: Address::new(0, 1),
        value: Word256::new(0, 0),
        calldata,
    };
    assert_eq!(call.param_bytes_after(1), Vec::<u8>::new());
}

#[test]
fn accessors_agree_with_the_fields() {
    let call = ParsedFarCall::ValueCall {
        to: Address::new(0, 2),
        value: Word256::new(0, 3),
        calldata: vec![5, 6],
        recipient: Address::new(0, 7),
        is_system_call: false,
    };
    assert_eq!(*call.to(), Address::new(0, 2));
    assert_eq!(*call.value(), Word256::new(0, 3));
    assert_eq!(call.calldata(), &[5, 6][..]);
}
