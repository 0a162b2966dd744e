//! Decoding of a far call's ABI registers into a logical call description.

use vstd::prelude::*;

use crate::frames::CallFrameSnapshot;
use crate::values::Address;
use crate::values::Word256;

verus! {

/// The lowercase hex digit for a nibble.
pub open spec fn hex_digit(n: u8) -> char
    recommends
        n < 16,
{
    if n < 10 {
        ((n + 0x30) as u8) as char
    } else {
        ((n + 0x57) as u8) as char
    }
}

/// The lowercase hex encoding of a byte sequence: two digits per byte,
/// high nibble first.
pub open spec fn hex_of(s: Seq<u8>) -> Seq<char>
    decreases s.len(),
{
    if s.len() == 0 {
        Seq::empty()
    } else {
        hex_of(s.drop_last()) + seq![hex_digit(s.last() / 16), hex_digit(s.last() % 16)]
    }
}

/// Relies on hex::encode: each byte of the input becomes two lowercase
/// hex digits, high nibble first, in input order.
#[verifier::external_body]
fn hex_encode(bytes: &Vec<u8>) -> (r: String)
    ensures
        r@ == hex_of(bytes@),
{
    hex::encode(bytes.as_slice())
}

/// The fixed system address of the value-simulator contract: a value-
/// bearing call is implemented as a call into it, followed by a Mimic
/// call into the true target.
pub open spec fn msg_value_simulator_address() -> Address {
    Address { hi: 0, lo: 0x8009 }
}

/// The fixed system address of the value-simulator contract.
pub fn msg_value_simulator() -> (a: Address)
    ensures
        a == msg_value_simulator_address(),
{
    Address { hi: 0, lo: 0x8009 }
}

/// Selector of the ledger token's balance query.
pub const SELECTOR_L2_ETH_BALANCE_OF: &'static str = "9cc7f708";

/// Selector of the system context's block-number query.
pub const SELECTOR_SYSTEM_CONTEXT_BLOCK_NUMBER: &'static str = "42cbb15c";

/// Selector of the system context's block-timestamp query.
pub const SELECTOR_SYSTEM_CONTEXT_BLOCK_TIMESTAMP: &'static str = "796b89b9";

/// Selector of the contract deployer's create entry point.
pub const SELECTOR_CONTRACT_DEPLOYER_CREATE: &'static str = "9c4d535b";

/// Selector of the contract deployer's create2 entry point.
pub const SELECTOR_CONTRACT_DEPLOYER_CREATE2: &'static str = "3cda3351";

/// A far call decoded into a logical call description.
pub enum ParsedFarCall {
    /// A call to the value-simulator contract used when transferring
    /// funds: the three extra ABI registers carry the transfer value, the
    /// true recipient and a system-call flag.
    ValueCall {
        /// The callee address: the value simulator itself.
        to: Address,
        /// The transferred value: the low 128 bits of the first extra
        /// register.
        value: Word256,
        /// The raw calldata bytes.
        calldata: Vec<u8>,
        /// The true recipient: the second extra register narrowed to an
        /// address.
        recipient: Address,
        /// Whether the call is a system call: a fixed bit of the third
        /// extra register.
        is_system_call: bool,
    },
    /// A plain far call with calldata.
    SimpleCall {
        /// The callee address.
        to: Address,
        /// The call frame's context value widened to a full word.
        value: Word256,
        /// The raw calldata bytes.
        calldata: Vec<u8>,
    },
}

impl ParsedFarCall {
    /// The callee address of either variant.
    pub open spec fn spec_to(self) -> Address {
        match self {
            ParsedFarCall::ValueCall { to, .. } => to,
            ParsedFarCall::SimpleCall { to, .. } => to,
        }
    }

    /// The value of either variant.
    pub open spec fn spec_value(self) -> Word256 {
        match self {
            ParsedFarCall::ValueCall { value, .. } => value,
            ParsedFarCall::SimpleCall { value, .. } => value,
        }
    }

    /// The calldata bytes of either variant.
    pub open spec fn spec_calldata(self) -> Seq<u8> {
        match self {
            ParsedFarCall::ValueCall { calldata, .. } => calldata@,
            ParsedFarCall::SimpleCall { calldata, .. } => calldata@,
        }
    }

    /// Retrieve the callee address of the call.
    pub fn to(&self) -> (r: &Address)
        ensures
            *r == self.spec_to(),
    {
        match self {
            ParsedFarCall::ValueCall { to, .. } => to,
            ParsedFarCall::SimpleCall { to, .. } => to,
        }
    }

    /// Retrieve the value of the call.
    pub fn value(&self) -> (r: &Word256)
        ensures
            *r == self.spec_value(),
    {
        match self {
            ParsedFarCall::ValueCall { value, .. } => value,
            ParsedFarCall::SimpleCall { value, .. } => value,
        }
    }

    /// Retrieve the calldata of the call.
    pub fn calldata(&self) -> (r: &[u8])
        ensures
            r@ == self.spec_calldata(),
    {
        match self {
            ParsedFarCall::ValueCall { calldata, .. } => calldata.as_slice(),
            ParsedFarCall::SimpleCall { calldata, .. } => calldata.as_slice(),
        }
    }

    /// The hex-encoded selector of the call: the first four bytes of the
    /// calldata, or the empty string if the calldata is shorter.
    pub fn selector(&self) -> (r: String)
        ensures
            self.spec_calldata().len() < 4 ==> r@ == Seq::<char>::empty(),
            self.spec_calldata().len() >= 4 ==> r@ == hex_of(self.spec_calldata().take(4)),
    {
        let calldata = self.calldata();
        if calldata.len() < 4 {
            String::new()
        } else {
            let mut four: Vec<u8> = Vec::new();
            let mut i: usize = 0;
            while i < 4
                invariant
                    i <= 4,
                    calldata@.len() >= 4,
                    four@ == calldata@.take(i as int),
                decreases 4 - i,
            {
                four.push(calldata[i]);
                proof {
                    assert(four@ =~= calldata@.take(i + 1));
                }
                i = i + 1;
            }
            hex_encode(&four)
        }
    }

    /// The parameters of the call: the calldata past the four-byte
    /// selector, split into 32-byte words. The parameter region must be
    /// an exact multiple of 32 bytes.
    pub fn params(&self) -> (r: Vec<Vec<u8>>)
        requires
            self.spec_calldata().len() >= 4,
            (self.spec_calldata().len() - 4) % 32 == 0,
        ensures
            r@.len() == (self.spec_calldata().len() - 4) / 32,
            forall|t: int|
                0 <= t < r@.len() ==> (#[trigger] r@[t])@ == self.spec_calldata().subrange(
                    4 + 32 * t,
                    4 + 32 * t + 32,
                ),
    {
        let calldata = self.calldata();
        let len = calldata.len();
        let count = (len - 4) / 32;
        proof {
            vstd::arithmetic::div_mod::lemma_fundamental_div_mod((len - 4) as int, 32);
        }
        let mut words: Vec<Vec<u8>> = Vec::new();
        let mut i: usize = 0;
        while i < count
            invariant
                i <= count,
                len == calldata@.len(),
                4 <= len,
                4 + 32 * count == len,
                words@.len() == i,
                forall|t: int|
                    0 <= t < i ==> (#[trigger] words@[t])@ == calldata@.subrange(
                        4 + 32 * t,
                        4 + 32 * t + 32,
                    ),
            decreases count - i,
        {
            let start = 4 + 32 * i;
            proof {
                assert(32 * i + 32 <= 32 * count);
            }
            let mut w: Vec<u8> = Vec::new();
            let mut k: usize = 0;
            while k < 32
                invariant
                    k <= 32,
                    len == calldata@.len(),
                    start == 4 + 32 * i,
                    start + 32 <= len,
                    w@ == calldata@.subrange(start as int, start as int + k as int),
                decreases 32 - k,
            {
                w.push(calldata[start + k]);
                proof {
                    assert(w@ =~= calldata@.subrange(start as int, start as int + (k + 1)));
                }
                k = k + 1;
            }
            words.push(w);
            i = i + 1;
        }
        words
    }

    /// The raw parameter bytes after skipping `offset_words` 32-byte
    /// words, or the empty vector if the parameter region is empty or
    /// holds fewer than the skipped bytes.
    pub fn param_bytes_after(&self, offset_words: usize) -> (r: Vec<u8>)
        requires
            self.spec_calldata().len() >= 4,
            offset_words <= 0x07FF_FFFF,
        ensures
            (self.spec_calldata().len() == 4 || self.spec_calldata().len() - 4 < 32 * offset_words)
                ==> r@ == Seq::<u8>::empty(),
            (self.spec_calldata().len() > 4 && self.spec_calldata().len() - 4 >= 32 * offset_words)
                ==> r@ == self.spec_calldata().subrange(
                4 + 32 * offset_words,
                self.spec_calldata().len() as int,
            ),
    {
        let calldata = self.calldata();
        let len = calldata.len();
        let skip = 32 * offset_words;
        if len == 4 || len - 4 < skip {
            Vec::new()
        } else {
            let start = 4 + skip;
            let mut out: Vec<u8> = Vec::new();
            let mut i: usize = start;
            while i < len
                invariant
                    start <= i <= len,
                    len == calldata@.len(),
                    out@ == calldata@.subrange(start as int, i as int),
                decreases len - i,
            {
                out.push(calldata[i]);
                proof {
                    assert(out@ =~= calldata@.subrange(start as int, i + 1));
                }
                i = i + 1;
            }
            out
        }
    }
}

/// How a decoded call description relates to the frame and registers it
/// was decoded from. A call whose frame runs the value-simulator's code
/// is a value-transfer call: the transfer value is the low 128 bits of
/// the first extra ABI register, the recipient is the second extra
/// register narrowed to an address, and the system-call flag is bit 1 of
/// the third. Any other call is a plain call whose value is the frame's
/// context value.
pub open spec fn parsed_call_of(
    frame: CallFrameSnapshot,
    calldata: Seq<u8>,
    value_reg: Word256,
    recipient_reg: Word256,
    is_system_reg: Word256,
    r: ParsedFarCall,
) -> bool {
    if frame.code_address == msg_value_simulator_address() {
        match r {
            ParsedFarCall::ValueCall { to, value, calldata: cd, recipient, is_system_call } => {
                &&& to == frame.code_address
                &&& value.hi == 0
                &&& value.lo == value_reg.lo
                &&& cd@ == calldata
                &&& recipient.hi == recipient_reg.hi & 0xFFFF_FFFF
                &&& recipient.lo == recipient_reg.lo
                &&& is_system_call == (is_system_reg.lo >> 1 & 1 == 1)
            },
            ParsedFarCall::SimpleCall { .. } => false,
        }
    } else {
        match r {
            ParsedFarCall::ValueCall { .. } => false,
            ParsedFarCall::SimpleCall { to, value, calldata: cd } => {
                &&& to == frame.code_address
                &&& value.hi == 0
                &&& value.lo == frame.context_u128_value
                &&& cd@ == calldata
            },
        }
    }
}

/// Decode a far call from the frame that is about to execute it, the
/// calldata bytes the call's fat pointer references, and the three extra
/// ABI registers of the value-transfer convention. The implicit-calldata
/// register must be pointer-tagged; a host handing anything else has
/// broken the VM's ABI contract, so that input is excluded outright.
pub fn parse(
    frame: &CallFrameSnapshot,
    calldata: Vec<u8>,
    abi_is_pointer: bool,
    value_reg: Word256,
    recipient_reg: Word256,
    is_system_reg: Word256,
) -> (r: ParsedFarCall)
    requires
        abi_is_pointer,
    ensures
        parsed_call_of(*frame, calldata@, value_reg, recipient_reg, is_system_reg, r),
{
    if frame.code_address == msg_value_simulator() {
        let value = Word256::from_u128(value_reg.low_u128());
        let recipient = recipient_reg.to_address();
        let is_system_call = is_system_reg.low_bit(1);
        ParsedFarCall::ValueCall {
            to: frame.code_address,
            value,
            calldata,
            recipient,
            is_system_call,
        }
    } else {
        ParsedFarCall::SimpleCall {
            to: frame.code_address,
            value: Word256::from_u128(frame.context_u128_value),
            calldata,
        }
    }
}

} // verus!
