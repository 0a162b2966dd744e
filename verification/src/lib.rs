//! Call interception and mocking for a stack-machine VM's far-call
//! instruction class.
//!
//! The library decodes far-call ABI registers into a logical call
//! description, stores operator-supplied mock rules and resolves the best
//! match for a concrete call, schedules side-effect actions a fixed number
//! of call frames into the future, and synthesizes the exact frame state a
//! natural far-call return would leave behind, so a host interpreter can
//! short-circuit a call without running the callee.

pub mod actions;
pub mod depth;
pub mod frames;
pub mod mock;
pub mod parser;
pub mod values;

pub use actions::CallAction;
pub use actions::CallActions;
pub use depth::CallDepth;
pub use frames::CallFrameSnapshot;
pub use frames::FarCallHandler;
pub use frames::FarCallOpcode;
pub use frames::ImmediateReturn;
pub use frames::ReturnApplication;
pub use mock::MockCall;
pub use mock::MockedCalls;
pub use parser::ParsedFarCall;
pub use values::Address;
pub use values::Word256;
