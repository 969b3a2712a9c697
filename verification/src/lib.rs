//! Safety layer around an opaque real-time UDP transport engine.
//!
//! The native engine hands out transient, reusable participant tokens and a
//! single polled event stream. This crate turns those into stable, never
//! reused client handles and typed, owned events: a bidirectional handle
//! registry, an event translator, and the decision logic of the host facade.
//! The engine calls themselves (create, poll, send, remove, destroy) are
//! performed by the unverified shell that drives this library.

use vstd::prelude::*;

pub mod events;
pub mod host;
pub mod registry;
pub mod utf8;

verus! {

pub use crate::events::NativeEvent;
pub use crate::events::NativeEventKind;
pub use crate::events::NativeToken;
pub use crate::events::WuClient;
pub use crate::events::WuError;
pub use crate::events::WuEvent;
pub use crate::events::WuServeTimeout;
pub use crate::host::WuHost;
pub use crate::registry::HandleRegistry;

} // verus!
