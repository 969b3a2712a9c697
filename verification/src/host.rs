//! The decision core of the host facade.
//!
//! A host session owns one native engine handle and a handle registry.
//! The engine handle and the calls through it live in the unverified
//! shell; everything the session decides — how a polled record becomes a
//! typed event, which registry entries change, when a send or a removal
//! must not contact the engine — lives here. The shell polls the engine,
//! copies the record's payload into an owned buffer, and hands the record
//! to `translate_event`; for sends and removals it asks `find_client` or
//! `remove_client` for the token to use, and stays silent when there is
//! none.

use vstd::prelude::*;

verus! {

use crate::events::NativeEvent;
use crate::events::NativeEventKind;
use crate::events::NativeToken;
use crate::events::WuClient;
use crate::events::WuError;
use crate::events::WuEvent;
use crate::registry::HandleRegistry;
use crate::registry::remove_transition;
use crate::registry::resolve_transition;
use crate::utf8::is_valid_utf8;
use crate::utf8::utf8_str_of;
use crate::utf8::utf8_to_string;
use crate::utf8::validate_utf8;

/// The verified state of a host session: the registry that turns the
/// engine's transient tokens into stable client handles.
pub struct WuHost {
    registry: HandleRegistry,
}

/// The handle a translation resolves the record's token to: the live one
/// if the token is mapped, the next fresh identifier otherwise.
pub open spec fn resolved_handle(pre: HandleRegistry, token: NativeToken) -> u32 {
    if pre.tokens().contains_key(token) {
        pre.tokens()[token]
    } else {
        (pre.counter_val() + 1) as u32
    }
}

/// How translating a leave record changes the registry: the token's
/// mapping is evicted in both directions before the event is surfaced.
/// A leave for a token that was never resolved first allocates the handle
/// (consuming one identifier) and immediately retires it, leaving the
/// live mappings as they were.
pub open spec fn leave_post(pre: HandleRegistry, post: HandleRegistry, token: NativeToken) -> bool {
    if pre.tokens().contains_key(token) {
        &&& post.tokens() == pre.tokens().remove(token)
        &&& post.handles() == pre.handles().remove(pre.tokens()[token])
        &&& post.counter_val() == pre.counter_val()
        &&& post.issued() == pre.issued()
    } else {
        &&& post.tokens() == pre.tokens()
        &&& post.handles() == pre.handles()
        &&& post.counter_val() == pre.counter_val() + 1
        &&& post.issued() == pre.issued().insert((pre.counter_val() + 1) as u32)
    }
}

/// The full contract of one translation: how the registry changes and
/// which event or error comes back, for every kind of polled record.
pub open spec fn translate_post(
    pre: HandleRegistry,
    post: HandleRegistry,
    kind: NativeEventKind,
    token: NativeToken,
    payload: Seq<u8>,
    r: Result<WuEvent, WuError>,
) -> bool {
    let h = WuClient(resolved_handle(pre, token));
    match kind {
        NativeEventKind::ClientJoin => {
            &&& resolve_transition(pre, post, token, h.0)
            &&& r == Ok::<WuEvent, WuError>(WuEvent::ClientJoin(h))
        },
        NativeEventKind::ClientLeave => {
            &&& leave_post(pre, post, token)
            &&& r == Ok::<WuEvent, WuError>(WuEvent::ClientLeave(h))
        },
        NativeEventKind::TextData => {
            &&& resolve_transition(pre, post, token, h.0)
            &&& if is_valid_utf8(payload) {
                r matches Ok(e) && e matches WuEvent::TextData(c, s) && c == h && s@
                    == utf8_str_of(payload)
            } else {
                r == Err::<WuEvent, WuError>(WuError::DecodeError(h))
            }
        },
        NativeEventKind::BinaryData => {
            &&& resolve_transition(pre, post, token, h.0)
            &&& r matches Ok(e) && e matches WuEvent::BinaryData(c, b) && c == h && b@ == payload
        },
        NativeEventKind::Unrecognized(tag) => {
            &&& post == pre
            &&& r == Err::<WuEvent, WuError>(WuError::EngineContractViolation(tag))
        },
    }
}

impl WuHost {
    /// The session's registry state.
    pub closed spec fn reg(self) -> HandleRegistry {
        self.registry
    }

    /// Well-formedness of the session: its registry is a bijection.
    pub open spec fn wf(self) -> bool {
        self.reg().wf()
    }

    /// A fresh session core: no client is live, no identifier issued.
    pub fn new() -> (r: Self)
        ensures
            r.wf(),
            r.reg().tokens() == Map::<NativeToken, u32>::empty(),
            r.reg().handles() == Map::<u32, NativeToken>::empty(),
            r.reg().counter_val() == 0,
            r.reg().issued() == Set::<u32>::empty(),
    {
        WuHost { registry: HandleRegistry::new() }
    }

    /// How many identifiers have been issued so far; the shell checks
    /// this against the counter's limit before polling another record.
    pub fn issued_handles(&self) -> (r: u32)
        ensures
            r == self.reg().counter_val(),
    {
        self.registry.counter_value()
    }

    /// Turn one polled record into a typed event, updating the registry
    /// in the same call, so that by the time the caller observes the
    /// event the registry already reflects it: a join's handle is already
    /// resolvable, a leave's handle is already retired.
    ///
    /// A text payload is validated as UTF-8; on failure a recoverable
    /// decode error stands in place of the event. A binary payload is
    /// passed through byte for byte. A record with an unrecognized tag is
    /// a contract violation by the engine and is surfaced as an
    /// unrecoverable error that changes nothing.
    pub fn translate_event(&mut self, evt: NativeEvent) -> (r: Result<WuEvent, WuError>)
        requires
            old(self).wf(),
            old(self).reg().counter_val() < u32::MAX,
        ensures
            final(self).wf(),
            translate_post(old(self).reg(), final(self).reg(), evt.kind, evt.token, evt.payload@, r),
    {
        let NativeEvent { kind, token, payload } = evt;
        match kind {
            NativeEventKind::ClientJoin => {
                let client = self.registry.resolve_or_create(token);
                Ok(WuEvent::ClientJoin(client))
            },
            NativeEventKind::ClientLeave => {
                let ghost pre = self.registry;
                let client = self.registry.resolve_or_create(token);
                let ghost mid = self.registry;
                self.registry.remove(client);
                proof {
                    if pre.tokens().contains_key(token) {
                        assert(mid.handles()[client.0] == token);
                        assert(mid.handles().contains_key(client.0));
                    } else {
                        assert(!pre.handles().contains_key(client.0));
                        assert(mid.tokens().remove(token) =~= pre.tokens());
                        assert(mid.handles().remove(client.0) =~= pre.handles());
                    }
                }
                Ok(WuEvent::ClientLeave(client))
            },
            NativeEventKind::TextData => {
                let client = self.registry.resolve_or_create(token);
                if validate_utf8(&payload) {
                    Ok(WuEvent::TextData(client, utf8_to_string(payload)))
                } else {
                    Err(WuError::DecodeError(client))
                }
            },
            NativeEventKind::BinaryData => {
                let client = self.registry.resolve_or_create(token);
                Ok(WuEvent::BinaryData(client, payload))
            },
            NativeEventKind::Unrecognized(tag) => Err(WuError::EngineContractViolation(tag)),
        }
    }

    /// Pure read: the native token `client` currently stands for, or
    /// nothing if the handle is stale or was never issued. A send must
    /// contact the engine exactly when this returns a token; on `None`
    /// the send is a deliberate no-op, tolerant of join/leave races.
    pub fn find_client(&self, client: WuClient) -> (r: Option<NativeToken>)
        ensures
            match r {
                Some(t) => self.reg().handles().contains_key(client.0)
                    && self.reg().handles()[client.0] == t,
                None => !self.reg().handles().contains_key(client.0),
            },
    {
        self.registry.lookup(client)
    }

    /// Evict `client` from the registry and say which native participant
    /// the shell must drop from the engine, if any. Idempotent: on a
    /// stale or unknown handle nothing changes and the engine must not
    /// be contacted.
    pub fn remove_client(&mut self, client: WuClient) -> (r: Option<NativeToken>)
        requires
            old(self).wf(),
        ensures
            final(self).wf(),
            remove_transition(old(self).reg(), final(self).reg(), client.0),
            match r {
                Some(t) => old(self).reg().handles().contains_key(client.0)
                    && old(self).reg().handles()[client.0] == t,
                None => !old(self).reg().handles().contains_key(client.0),
            },
    {
        let found = self.registry.lookup(client);
        match found {
            Some(t) => {
                self.registry.remove(client);
                Some(t)
            },
            None => {
                proof {
                    assert(old(self).reg().handles().remove(client.0)
                        =~= old(self).reg().handles());
                }
                None
            },
        }
    }

    /// The engine's error callback is not routed anywhere: per-event
    /// failures are folded into the event stream (`DecodeError`,
    /// `EngineContractViolation`) instead of arriving out of band, so
    /// there is nothing to install and this call leaves the session as
    /// it is. Kept for parity with the engine-facing surface.
    pub fn set_error_callback(&self) {
    }
}

} // verus!
