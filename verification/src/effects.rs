//! What an engine asks its host to do.
//!
//! The engines of this crate perform no input or output. Each step takes the
//! event that arrived and returns a list of effects. The host performs them
//! in order; when one fails it skips the rest of the list and reports the
//! failure.

use crate::address::{Address, AddressView};
use crate::history::{StoreOp, StoreOpView};
use crate::messages::{
    AccessGrant, PubSubRequest, PubSubRequestView, PubSubResponse, PubSubResponseView,
};
use vstd::prelude::*;

verus! {

/// Where the payload of an outgoing message comes from.
#[derive(Debug, Clone, PartialEq, Eq)]
pub enum Payload {
    /// The message has no payload.
    Empty,
    /// These bytes.
    Inline(Vec<u8>),
    /// The record that the durable store holds under this key, read when the
    /// message is sent.
    Stored(u64),
    /// The payload of the message that is being handled, passed through
    /// untouched.
    Inherit,
}

/// View of a [`Payload`].
pub enum PayloadView {
    Empty,
    Inline(Seq<u8>),
    Stored(u64),
    Inherit,
}

impl View for Payload {
    type V = PayloadView;

    open spec fn view(&self) -> PayloadView {
        match self {
            Payload::Empty => PayloadView::Empty,
            Payload::Inline(bytes) => PayloadView::Inline(bytes@),
            Payload::Stored(key) => PayloadView::Stored(*key),
            Payload::Inherit => PayloadView::Inherit,
        }
    }
}

/// One thing for the host to do.
#[derive(Debug, Clone, PartialEq, Eq)]
pub enum Effect {
    /// Answer the request that is being handled.
    Respond(PubSubResponse),
    /// Send a request and do not wait for an answer.
    Send { target: Address, request: PubSubRequest, payload: Payload, grant: Option<AccessGrant> },
    /// Send a request and wait for its answer, for at most `timeout` time
    /// units. The host hands the outcome back to the engine.
    Call { target: Address, request: PubSubRequest, grant: Option<AccessGrant>, timeout: u64 },
    /// Perform an operation on the durable store.
    Store(StoreOp),
    /// Persist the state of the engine as one snapshot.
    SaveState,
    /// Remove the persisted snapshot.
    ClearState,
    /// Stop for good: the engine is not to be restarted.
    Exit,
}

/// View of an [`Effect`].
pub enum EffectView {
    Respond(PubSubResponseView),
    Send {
        target: AddressView,
        request: PubSubRequestView,
        payload: PayloadView,
        grant: Option<Seq<u8>>,
    },
    Call { target: AddressView, request: PubSubRequestView, grant: Option<Seq<u8>>, timeout: u64 },
    Store(StoreOpView),
    SaveState,
    ClearState,
    Exit,
}

/// The decoded body of a message that arrived.
#[derive(Debug, Clone, PartialEq, Eq)]
pub enum InboundBody {
    Request(PubSubRequest),
    Response(PubSubResponse),
    /// The body was none of the above.
    Malformed,
}

/// View of an [`InboundBody`].
pub enum InboundBodyView {
    Request(PubSubRequestView),
    Response(PubSubResponseView),
    Malformed,
}

impl View for InboundBody {
    type V = InboundBodyView;

    open spec fn view(&self) -> InboundBodyView {
        match self {
            InboundBody::Request(request) => InboundBodyView::Request(request@),
            InboundBody::Response(response) => InboundBodyView::Response(response@),
            InboundBody::Malformed => InboundBodyView::Malformed,
        }
    }
}

/// A message that arrived: who sent it, its body, its payload and the grant
/// attached to it.
#[derive(Debug, Clone, PartialEq, Eq)]
pub struct Inbound {
    pub source: Address,
    pub body: InboundBody,
    pub payload: Vec<u8>,
    pub grant: Option<AccessGrant>,
}

/// View of an [`Inbound`].
pub struct InboundView {
    pub source: AddressView,
    pub body: InboundBodyView,
    pub payload: Seq<u8>,
    pub grant: Option<Seq<u8>>,
}

impl View for Inbound {
    type V = InboundView;

    open spec fn view(&self) -> InboundView {
        InboundView {
            source: self.source@,
            body: self.body@,
            payload: self.payload@,
            grant: grant_view(self.grant),
        }
    }
}

/// The address from which timer ticks arrive.
pub open spec fn timer_address() -> AddressView {
    AddressView {
        node: "our"@,
        process: crate::address::ProcessIdView {
            process_name: "timer"@,
            package_name: "distro"@,
            publisher_node: "sys"@,
        },
    }
}

/// Whether a message comes from the timer.
pub fn is_timer(source: &Address) -> (r: bool)
    ensures
        r == (source@ == timer_address()),
{
    let timer = Address::new("our", crate::address::ProcessId::new("timer", "distro", "sys"));
    *source == timer
}

/// The view of what a handler returns.
pub open spec fn outcome_view<E>(r: Result<Vec<Effect>, E>) -> Result<Seq<EffectView>, E> {
    match r {
        Ok(effects) => Ok(effects.deep_view()),
        Err(e) => Err(e),
    }
}

/// View of an optional grant.
pub open spec fn grant_view(grant: Option<AccessGrant>) -> Option<Seq<u8>> {
    match grant {
        Some(g) => Some(g@),
        None => None,
    }
}

impl View for Effect {
    type V = EffectView;

    open spec fn view(&self) -> EffectView {
        match self {
            Effect::Respond(response) => EffectView::Respond(response@),
            Effect::Send { target, request, payload, grant } => EffectView::Send {
                target: target@,
                request: request@,
                payload: payload@,
                grant: grant_view(*grant),
            },
            Effect::Call { target, request, grant, timeout } => EffectView::Call {
                target: target@,
                request: request@,
                grant: grant_view(*grant),
                timeout: *timeout,
            },
            Effect::Store(op) => EffectView::Store(op@),
            Effect::SaveState => EffectView::SaveState,
            Effect::ClearState => EffectView::ClearState,
            Effect::Exit => EffectView::Exit,
        }
    }
}

impl DeepView for Effect {
    type V = EffectView;

    open spec fn deep_view(&self) -> EffectView {
        self@
    }
}

/// The store operations of a list as effects, in the same order.
pub open spec fn store_effects(ops: Seq<StoreOpView>) -> Seq<EffectView> {
    ops.map_values(|op: StoreOpView| EffectView::Store(op))
}

/// A copy of an optional grant.
pub fn duplicate_grant(grant: &Option<AccessGrant>) -> (r: Option<AccessGrant>)
    ensures
        grant_view(r) == grant_view(*grant),
{
    match grant {
        Some(g) => Some(g.duplicate()),
        None => None,
    }
}

/// Wraps store operations into effects, keeping their order.
pub fn into_store_effects(ops: Vec<StoreOp>) -> (r: Vec<Effect>)
    ensures
        r.deep_view() == store_effects(ops.deep_view()),
{
    let ghost all = ops.deep_view();
    let mut out: Vec<Effect> = Vec::new();
    for op in it: ops
        invariant
            it.seq() == ops@,
            all == ops.deep_view(),
            out@.len() == it.index(),
            forall|k: int| 0 <= k < out@.len() ==> (#[trigger] out@[k])@ == EffectView::Store(all[k]),
    {
        out.push(Effect::Store(op));
    }
    proof {
        assert(out.deep_view() =~= store_effects(all));
    }
    out
}

} // verus!
