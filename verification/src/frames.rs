//! Tracking of in-flight far calls and synthesis of the frame state a
//! natural far-call return would leave behind.

use vstd::prelude::*;
use vstd::arithmetic::div_mod::lemma_fundamental_div_mod;

use crate::actions::aged;
use crate::actions::ripe;
use crate::actions::CallAction;
use crate::actions::CallActions;
use crate::depth::CallDepth;
use crate::values::Address;

verus! {

/// The far-call sub-variant the interpreter decoded.
#[derive(Debug, Clone, Copy, PartialEq, Eq, Structural)]
pub enum FarCallOpcode {
    /// A plain cross-contract call.
    Normal,
    /// A call running the callee's code in the caller's context.
    Delegate,
    /// The value-transfer indirection path: the call first enters the
    /// value-simulator contract, which then mimics a call to the true
    /// target.
    Mimic,
}

/// The control state of one call frame at one instant, captured by value.
#[derive(Debug, Clone, Copy, PartialEq, Eq, Structural)]
pub struct CallFrameSnapshot {
    /// Program counter.
    pub pc: u16,
    /// Stack pointer.
    pub sp: u16,
    /// Where execution resumes if the frame's code panics.
    pub exception_handler_location: u16,
    /// Memory page holding the frame's code.
    pub code_page: u32,
    /// Base memory page of the frame's data area.
    pub base_memory_page: u32,
    /// The frame's owning ("this") address.
    pub this_address: Address,
    /// The address whose code the frame runs.
    pub code_address: Address,
    /// The frame's 128-bit context value.
    pub context_u128_value: u128,
    /// Whether the frame is local to its caller rather than a far frame.
    pub is_local_frame: bool,
}

/// The full next-frame field set and return payload for an immediate
/// return from a far call.
#[derive(Debug, Clone)]
pub struct ImmediateReturn {
    /// The fabricated return payload.
    pub return_data: Vec<u8>,
    /// Base memory page whose heap receives the payload.
    pub return_base_memory_page: u32,
    /// Program counter to resume at.
    pub next_pc: u16,
    /// Code page to restore.
    pub next_code_page: u32,
    /// Base memory page to restore.
    pub next_base_memory_page: u32,
    /// Stack pointer to restore.
    pub next_sp: u16,
    /// Exception handler target to restore.
    pub next_exception_handler_location: u16,
    /// Owning address to restore.
    pub next_this_address: Address,
    /// Frame-locality flag to restore.
    pub next_is_local_frame: bool,
    /// Context value to restore.
    pub next_context_u128_value: u128,
}

/// The largest return payload an immediate return may carry, chosen so
/// that the byte length of the padded word range fits in 32 bits.
pub const MAX_RETURN_BYTES: usize = 0xFFFF_FFE0;

/// How the built [`ImmediateReturn`] `r` relates to the snapshots and the
/// call variant it was built from. Normal and Delegate calls return into
/// the page and locality of the frame observed before the call, with the
/// locality flag forced off; a Mimic call returns into the page observed
/// after entering the callee when such a snapshot exists, and keeps the
/// locality flag of the frame observed before. Both divergences of the
/// Mimic path are required by the indirection convention and are
/// preserved deliberately.
pub open spec fn built_return(
    before: CallFrameSnapshot,
    after: Option<CallFrameSnapshot>,
    call: FarCallOpcode,
    data: Seq<u8>,
    r: ImmediateReturn,
) -> bool {
    &&& r.return_data@ == data
    &&& r.return_base_memory_page == if call is Mimic {
        match after {
            Option::Some(a) => a.base_memory_page,
            Option::None => before.base_memory_page,
        }
    } else {
        before.base_memory_page
    }
    &&& r.next_pc == if before.pc < u16::MAX {
        (before.pc + 1) as u16
    } else {
        u16::MAX
    }
    &&& r.next_code_page == before.code_page
    &&& r.next_base_memory_page == before.base_memory_page
    &&& r.next_sp == before.sp
    &&& r.next_exception_handler_location == before.exception_handler_location
    &&& r.next_this_address == before.this_address
    &&& r.next_is_local_frame == if call is Mimic {
        before.is_local_frame
    } else {
        false
    }
    &&& r.next_context_u128_value == 0
}

/// Number of 32-byte words needed to hold `n` bytes.
pub open spec fn word_count(n: nat) -> nat {
    if n % 32 == 0 {
        n / 32
    } else {
        n / 32 + 1
    }
}

/// `s` left-padded with zero bytes to 32 bytes: the big-endian word a VM
/// register would hold after reading `s` as a big-endian number.
pub open spec fn pad32(s: Seq<u8>) -> Seq<u8> {
    Seq::new((32 - s.len()) as nat, |i: int| 0u8) + s
}

/// The bytes of the `t`-th 32-byte chunk of `data`; the last chunk may be
/// shorter.
pub open spec fn chunk_of(data: Seq<u8>, t: int) -> Seq<u8> {
    data.subrange(
        32 * t,
        if 32 * t + 32 <= data.len() {
            32 * t + 32
        } else {
            data.len() as int
        },
    )
}

/// Everything the host must apply to resume execution as if the far call
/// had returned normally: the padded big-endian words to write into the
/// designated page starting at offset 0, the byte length of that range
/// for the return-data fat pointer, and the frame fields to overwrite.
pub struct ReturnApplication {
    /// Base memory page whose heap receives the words.
    pub base_memory_page: u32,
    /// Byte length of the written range: 32 times the word count.
    pub returndata_length: u32,
    /// The payload split into 32-byte big-endian words, zero-padded on
    /// the left in the final word if the payload length is not a multiple
    /// of 32.
    pub words: Vec<Vec<u8>>,
    /// Program counter to overwrite into the current frame.
    pub next_pc: u16,
    /// Code page to overwrite.
    pub next_code_page: u32,
    /// Base memory page to overwrite.
    pub next_base_memory_page: u32,
    /// Stack pointer to overwrite.
    pub next_sp: u16,
    /// Exception handler target to overwrite.
    pub next_exception_handler_location: u16,
    /// Owning address to overwrite.
    pub next_this_address: Address,
    /// Frame-locality flag to overwrite.
    pub next_is_local_frame: bool,
    /// Context value to overwrite.
    pub next_context_u128_value: u128,
}

/// How a [`ReturnApplication`] relates to the pending [`ImmediateReturn`]
/// it was derived from.
pub open spec fn return_application_of(ir: ImmediateReturn, app: ReturnApplication) -> bool {
    &&& app.base_memory_page == ir.return_base_memory_page
    &&& app.words@.len() == word_count(ir.return_data@.len())
    &&& app.returndata_length == 32 * word_count(ir.return_data@.len())
    &&& forall|t: int|
        0 <= t < app.words@.len() ==> (#[trigger] app.words@[t])@ == pad32(
            chunk_of(ir.return_data@, t),
        )
    &&& app.next_pc == ir.next_pc
    &&& app.next_code_page == ir.next_code_page
    &&& app.next_base_memory_page == ir.next_base_memory_page
    &&& app.next_sp == ir.next_sp
    &&& app.next_exception_handler_location == ir.next_exception_handler_location
    &&& app.next_this_address == ir.next_this_address
    &&& app.next_is_local_frame == ir.next_is_local_frame
    &&& app.next_context_u128_value == ir.next_context_u128_value
}

fn build_word(data: &Vec<u8>, start: usize, chunk_len: usize) -> (w: Vec<u8>)
    requires
        1 <= chunk_len <= 32,
        start + chunk_len <= data@.len(),
    ensures
        w@ == pad32(data@.subrange(start as int, start as int + chunk_len as int)),
{
    let mut w: Vec<u8> = Vec::new();
    let pad = 32 - chunk_len;
    let mut z: usize = 0;
    while z < pad
        invariant
            z <= pad,
            pad == 32 - chunk_len,
            w@ =~= Seq::new(z as nat, |i: int| 0u8),
        decreases pad - z,
    {
        w.push(0u8);
        proof {
            assert(w@ =~= Seq::new((z + 1) as nat, |i: int| 0u8));
        }
        z = z + 1;
    }
    let dlen = data.len();
    let mut k: usize = 0;
    while k < chunk_len
        invariant
            k <= chunk_len,
            chunk_len <= 32,
            pad == 32 - chunk_len,
            dlen == data@.len(),
            start + chunk_len <= dlen,
            w@ =~= Seq::new(pad as nat, |i: int| 0u8) + data@.subrange(
                start as int,
                start as int + k as int,
            ),
        decreases chunk_len - k,
    {
        w.push(data[start + k]);
        proof {
            assert(w@ =~= Seq::new(pad as nat, |i: int| 0u8) + data@.subrange(
                start as int,
                start as int + (k + 1) as int,
            ));
        }
        k = k + 1;
    }
    proof {
        assert(w@ =~= pad32(data@.subrange(start as int, start as int + chunk_len as int)));
    }
    w
}

/// Tracks the state of the far call in flight, the pending immediate
/// return, and the scheduled call actions, across the three host-driven
/// hook points. At most one far call's entry/exit snapshot pair is
/// retained at a time: observing a new far call evicts the stale exit
/// snapshot of the previous one.
#[derive(Debug, Clone)]
pub struct FarCallHandler {
    /// Frame snapshot taken when a far call opcode is about to execute.
    pub before_far_call_stack: Option<CallFrameSnapshot>,
    /// Frame snapshot taken once the call's entry into the callee
    /// completed.
    pub after_far_call_stack: Option<CallFrameSnapshot>,
    /// Variant of the far call most recently observed.
    pub current_far_call: Option<FarCallOpcode>,
    /// The pending fabricated return, consumed at the next cycle end.
    pub immediate_return: Option<ImmediateReturn>,
    /// The scheduled side-effect actions.
    pub call_actions: CallActions,
}

impl FarCallHandler {
    /// Actions ready to fire at the next cycle end, in arrival order.
    pub closed spec fn actions_immediate(self) -> Seq<CallAction> {
        self.call_actions.immediate_view()
    }

    /// Scheduled `(depth, action)` pairs still waiting, in arrival order.
    pub closed spec fn actions_pending(self) -> Seq<(CallDepth, CallAction)> {
        self.call_actions.pending_view()
    }

    /// A pending immediate return carries a payload the padded word range
    /// of which still fits in 32 bits.
    pub open spec fn wf(self) -> bool {
        self.immediate_return matches Some(r) ==> r.return_data@.len() <= MAX_RETURN_BYTES
    }

    /// Create a handler with no far call observed, no pending return and
    /// no scheduled actions.
    pub fn new() -> (r: FarCallHandler)
        ensures
            r.before_far_call_stack is None,
            r.after_far_call_stack is None,
            r.current_far_call is None,
            r.immediate_return is None,
            r.actions_immediate() == Seq::<CallAction>::empty(),
            r.actions_pending() == Seq::<(CallDepth, CallAction)>::empty(),
            r.wf(),
    {
        FarCallHandler {
            before_far_call_stack: None,
            after_far_call_stack: None,
            current_far_call: None,
            immediate_return: None,
            call_actions: CallActions::new(),
        }
    }

    /// Mark the far call in flight to return `return_data` at the next
    /// cycle end, building the full next-frame field set from the
    /// snapshot taken before the call and the recorded variant. With no
    /// recorded far call or no before-snapshot this is a no-op: the
    /// request is ignored and no state changes.
    pub fn set_immediate_return(&mut self, return_data: Vec<u8>)
        requires
            return_data@.len() <= MAX_RETURN_BYTES,
            old(self).wf(),
        ensures
            final(self).wf(),
            final(self).before_far_call_stack == old(self).before_far_call_stack,
            final(self).after_far_call_stack == old(self).after_far_call_stack,
            final(self).current_far_call == old(self).current_far_call,
            final(self).actions_immediate() == old(self).actions_immediate(),
            final(self).actions_pending() == old(self).actions_pending(),
            old(self).current_far_call is None || old(self).before_far_call_stack is None
                ==> final(self).immediate_return == old(self).immediate_return,
            old(self).current_far_call matches Some(call) ==> {
                old(self).before_far_call_stack matches Some(before) ==> (
                final(self).immediate_return matches Some(r) && built_return(
                    before,
                    old(self).after_far_call_stack,
                    call,
                    return_data@,
                    r,
                ))
            },
    {
        if let Some(call) = self.current_far_call {
            if let Some(before) = self.before_far_call_stack {
                let next_pc: u16 = if before.pc < u16::MAX {
                    before.pc + 1
                } else {
                    u16::MAX
                };
                let return_base_memory_page: u32 = match call {
                    FarCallOpcode::Normal | FarCallOpcode::Delegate => before.base_memory_page,
                    FarCallOpcode::Mimic => match self.after_far_call_stack {
                        Some(after) => after.base_memory_page,
                        None => before.base_memory_page,
                    },
                };
                let next_is_local_frame: bool = match call {
                    FarCallOpcode::Normal | FarCallOpcode::Delegate => false,
                    FarCallOpcode::Mimic => before.is_local_frame,
                };
                self.immediate_return = Some(
                    ImmediateReturn {
                        return_data,
                        return_base_memory_page,
                        next_pc,
                        next_code_page: before.code_page,
                        next_base_memory_page: before.base_memory_page,
                        next_sp: before.sp,
                        next_exception_handler_location: before.exception_handler_location,
                        next_this_address: before.this_address,
                        next_is_local_frame,
                        next_context_u128_value: 0,
                    },
                );
            }
        }
    }

    /// Schedule a [`CallAction`] to fire once `depth` more far-call
    /// boundaries have passed.
    pub fn set_action(&mut self, depth: CallDepth, action: CallAction)
        ensures
            final(self).wf() == old(self).wf(),
            final(self).before_far_call_stack == old(self).before_far_call_stack,
            final(self).after_far_call_stack == old(self).after_far_call_stack,
            final(self).current_far_call == old(self).current_far_call,
            final(self).immediate_return == old(self).immediate_return,
            depth.0 == 0 ==> {
                &&& final(self).actions_immediate() == old(self).actions_immediate().push(action)
                &&& final(self).actions_pending() == old(self).actions_pending()
            },
            depth.0 > 0 ==> {
                &&& final(self).actions_immediate() == old(self).actions_immediate()
                &&& final(self).actions_pending() == old(self).actions_pending().push(
                    (CallDepth((depth.0 - 1) as u8), action),
                )
            },
    {
        self.call_actions.push(depth, action)
    }

    /// Observe the opcode about to execute. A far call captures the
    /// current frame as the before-snapshot, evicts any stale
    /// after-snapshot, and records the variant; any other opcode leaves
    /// the handler unchanged.
    pub fn track_before_far_calls(
        &mut self,
        far_call: Option<FarCallOpcode>,
        frame: CallFrameSnapshot,
    )
        ensures
            final(self).wf() == old(self).wf(),
            final(self).immediate_return == old(self).immediate_return,
            final(self).actions_immediate() == old(self).actions_immediate(),
            final(self).actions_pending() == old(self).actions_pending(),
            far_call is None ==> {
                &&& final(self).before_far_call_stack == old(self).before_far_call_stack
                &&& final(self).after_far_call_stack == old(self).after_far_call_stack
                &&& final(self).current_far_call == old(self).current_far_call
            },
            far_call matches Some(call) ==> {
                &&& final(self).before_far_call_stack == Some(frame)
                &&& final(self).after_far_call_stack is None
                &&& final(self).current_far_call == Some(call)
            },
    {
        if let Some(call) = far_call {
            self.before_far_call_stack = Some(frame);
            self.after_far_call_stack = None;
            self.current_far_call = Some(call);
        }
    }

    /// Observe the opcode that just executed. A far call captures the
    /// current frame as the after-snapshot and records the variant; any
    /// other opcode leaves the handler unchanged.
    pub fn track_after_far_calls(
        &mut self,
        far_call: Option<FarCallOpcode>,
        frame: CallFrameSnapshot,
    )
        ensures
            final(self).wf() == old(self).wf(),
            final(self).immediate_return == old(self).immediate_return,
            final(self).before_far_call_stack == old(self).before_far_call_stack,
            final(self).actions_immediate() == old(self).actions_immediate(),
            final(self).actions_pending() == old(self).actions_pending(),
            far_call is None ==> {
                &&& final(self).after_far_call_stack == old(self).after_far_call_stack
                &&& final(self).current_far_call == old(self).current_far_call
            },
            far_call matches Some(call) ==> {
                &&& final(self).after_far_call_stack == Some(frame)
                &&& final(self).current_far_call == Some(call)
            },
    {
        if let Some(call) = far_call {
            self.after_far_call_stack = Some(frame);
            self.current_far_call = Some(call);
        }
    }

    /// Observe the opcode that just executed for scheduling purposes: a
    /// far call advances every pending action by one boundary; any other
    /// opcode leaves the queue unchanged.
    pub fn track_call_actions(&mut self, far_call: Option<FarCallOpcode>)
        ensures
            final(self).wf() == old(self).wf(),
            final(self).immediate_return == old(self).immediate_return,
            final(self).before_far_call_stack == old(self).before_far_call_stack,
            final(self).after_far_call_stack == old(self).after_far_call_stack,
            final(self).current_far_call == old(self).current_far_call,
            far_call is None ==> {
                &&& final(self).actions_immediate() == old(self).actions_immediate()
                &&& final(self).actions_pending() == old(self).actions_pending()
            },
            far_call is Some ==> {
                &&& final(self).actions_immediate() == old(self).actions_immediate() + ripe(
                    old(self).actions_pending(),
                )
                &&& final(self).actions_pending() == aged(old(self).actions_pending())
            },
    {
        if far_call.is_some() {
            self.call_actions.track();
        }
    }

    /// Consume the pending immediate return, if one is set, and derive
    /// everything the host must apply: the payload split into 32-byte
    /// big-endian words for the designated page, the byte length of that
    /// range, and the frame fields to overwrite. With no pending return
    /// the handler is unchanged and nothing is returned.
    pub fn maybe_return_early(&mut self) -> (r: Option<ReturnApplication>)
        requires
            old(self).wf(),
        ensures
            final(self).wf(),
            final(self).before_far_call_stack == old(self).before_far_call_stack,
            final(self).after_far_call_stack == old(self).after_far_call_stack,
            final(self).current_far_call == old(self).current_far_call,
            final(self).actions_immediate() == old(self).actions_immediate(),
            final(self).actions_pending() == old(self).actions_pending(),
            final(self).immediate_return is None,
            old(self).immediate_return is None ==> r is None,
            old(self).immediate_return matches Some(ir) ==> r matches Some(app)
                && return_application_of(ir, app),
    {
        let mut taken: Option<ImmediateReturn> = None;
        core::mem::swap(&mut taken, &mut self.immediate_return);
        match taken {
            None => None,
            Some(ir) => {
                let len = ir.return_data.len();
                let count = len / 32 + if len % 32 == 0 {
                    0
                } else {
                    1
                };
                proof {
                    lemma_fundamental_div_mod(len as int, 32);
                    assert(count == word_count(len as nat));
                    assert(32 * count <= len + 31);
                    assert(count <= 0x07FF_FFFF);
                }
                let mut words: Vec<Vec<u8>> = Vec::new();
                let mut i: usize = 0;
                while i < count
                    invariant
                        i <= count,
                        len == ir.return_data@.len(),
                        len <= MAX_RETURN_BYTES,
                        count == word_count(len as nat),
                        32 * count <= len + 31,
                        count <= 0x07FF_FFFF,
                        words@.len() == i,
                        forall|t: int|
                            0 <= t < i ==> (#[trigger] words@[t])@ == pad32(
                                chunk_of(ir.return_data@, t),
                            ),
                    decreases count - i,
                {
                    let start = i * 32;
                    proof {
                        assert(32 * (i + 1) <= 32 * count);
                        assert(start + 1 <= len);
                    }
                    let chunk_len = if len - start < 32 {
                        len - start
                    } else {
                        32
                    };
                    let w = build_word(&ir.return_data, start, chunk_len);
                    proof {
                        assert(ir.return_data@.subrange(
                            start as int,
                            start as int + chunk_len as int,
                        ) == chunk_of(ir.return_data@, i as int));
                    }
                    words.push(w);
                    i = i + 1;
                }
                let returndata_length: u32 = (count as u32) * 32;
                Some(
                    ReturnApplication {
                        base_memory_page: ir.return_base_memory_page,
                        returndata_length,
                        words,
                        next_pc: ir.next_pc,
                        next_code_page: ir.next_code_page,
                        next_base_memory_page: ir.next_base_memory_page,
                        next_sp: ir.next_sp,
                        next_exception_handler_location: ir.next_exception_handler_location,
                        next_this_address: ir.next_this_address,
                        next_is_local_frame: ir.next_is_local_frame,
                        next_context_u128_value: ir.next_context_u128_value,
                    },
                )
            },
        }
    }

    /// Remove and return the actions due now, in arrival order, for the
    /// host to apply.
    pub fn take_immediate_actions(&mut self) -> (r: Vec<CallAction>)
        ensures
            final(self).wf() == old(self).wf(),
            final(self).immediate_return == old(self).immediate_return,
            final(self).before_far_call_stack == old(self).before_far_call_stack,
            final(self).after_far_call_stack == old(self).after_far_call_stack,
            final(self).current_far_call == old(self).current_far_call,
            r@ == old(self).actions_immediate(),
            final(self).actions_immediate() == Seq::<CallAction>::empty(),
            final(self).actions_pending() == old(self).actions_pending(),
    {
        self.call_actions.take_immediate()
    }
}

impl Default for FarCallHandler {
    /// The default handler has seen no far call, holds no pending return
    /// and schedules no actions.
    fn default() -> (r: FarCallHandler)
        ensures
            r.before_far_call_stack is None,
            r.after_far_call_stack is None,
            r.current_far_call is None,
            r.immediate_return is None,
            r.actions_immediate() == Seq::<CallAction>::empty(),
            r.actions_pending() == Seq::<(CallDepth, CallAction)>::empty(),
            r.wf(),
    {
        FarCallHandler::new()
    }
}

} // verus!
