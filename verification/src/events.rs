//! The value types crossing the boundary between the application, this
//! library, and the native engine: timeout policies, client handles, native
//! event records, decoded events, and the error taxonomy.

use vstd::prelude::*;

verus! {

/// Blocking behaviour requested of a single poll call: return immediately,
/// block indefinitely, or block for at most the given number of milliseconds.
pub enum WuServeTimeout {
    Block,
    Immediate,
    BlockForMilliseconds(i32),
}

impl WuServeTimeout {
    /// The millisecond value the native engine expects for this policy:
    /// -1 blocks indefinitely, 0 returns at once, n waits up to n ms.
    pub open spec fn spec_millis(self) -> i32 {
        match self {
            WuServeTimeout::Block => -1i32,
            WuServeTimeout::Immediate => 0i32,
            WuServeTimeout::BlockForMilliseconds(n) => n,
        }
    }

    /// Encode this policy as the timeout argument of the native poll call.
    pub fn timeout_millis(&self) -> (r: i32)
        ensures
            r == self.spec_millis(),
    {
        match self {
            WuServeTimeout::Block => -1,
            WuServeTimeout::Immediate => 0,
            WuServeTimeout::BlockForMilliseconds(n) => *n,
        }
    }
}

/// Pointer-sized token issued by the native engine for one participant.
/// Its validity is controlled entirely by the engine, which may reuse a
/// value for a different participant after the first one leaves.
pub type NativeToken = u64;

/// Stable logical identifier for a connected participant. Identifiers are
/// allocated from a strictly increasing counter and are never reused for
/// the lifetime of a host, even when the engine recycles the token.
#[derive(Copy, Clone, Debug, Eq, PartialEq, Ord, PartialOrd, Structural)]
pub struct WuClient(pub u32);

impl WuClient {
    /// The numeric value of this handle.
    pub fn id(&self) -> (r: u32)
        ensures
            r == self.0,
    {
        self.0
    }
}

/// Tag of one record polled from the native engine. The engine promises
/// exactly four kinds; anything else is carried as `Unrecognized` with the
/// raw tag value and treated as a contract violation by the translator.
#[derive(Copy, Clone, Debug, Eq, PartialEq, Structural)]
pub enum NativeEventKind {
    ClientJoin,
    ClientLeave,
    TextData,
    BinaryData,
    Unrecognized(u32),
}

/// One record polled from the native engine, with its payload already
/// copied out of the engine-owned buffer: that buffer is valid only for
/// the duration of the poll call, so the shell copies the advertised
/// length into an owned vector before handing the record to this library.
pub struct NativeEvent {
    pub kind: NativeEventKind,
    pub token: NativeToken,
    pub payload: Vec<u8>,
}

/// A decoded event delivered to the application.
#[derive(Clone, Debug, PartialEq)]
pub enum WuEvent {
    ClientJoin(WuClient),
    ClientLeave(WuClient),
    TextData(WuClient, String),
    BinaryData(WuClient, Vec<u8>),
}

/// The error taxonomy of the host layer.
///
/// `InitializationError` is fatal to session creation only and is produced
/// by the shell when the engine refuses to bind. `DecodeError` is
/// recoverable and stands in the event stream in place of a text event
/// whose payload was not valid UTF-8. `EngineContractViolation` carries an
/// event tag outside the four the engine promises and is unrecoverable.
#[derive(Copy, Clone, Debug, Eq, PartialEq, Structural)]
pub enum WuError {
    InitializationError,
    DecodeError(WuClient),
    EngineContractViolation(u32),
}

} // verus!
