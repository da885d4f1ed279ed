//! The messages that go out to clients.

use vstd::prelude::*;

use crate::cache_map::CacheMap;
#[allow(unused_imports)]
use crate::cache::{records, FieldsView};
use crate::topic::EpochIndex;

verus! {

/// The text that a client receives.
#[derive(Debug)]
pub struct Message(pub String);

/// A response: the name of its kind, and the result.
#[derive(Debug)]
pub struct WsResponseMessage<T> {
    pub kind: String,
    pub result: T,
}

/// The model of a [`WsResponseMessage`].
pub struct WsResponseMessageView<V> {
    pub kind: Seq<char>,
    pub result: V,
}

impl<T: View> View for WsResponseMessage<T> {
    type V = WsResponseMessageView<T::V>;

    open spec fn view(&self) -> WsResponseMessageView<T::V> {
        WsResponseMessageView { kind: self.kind@, result: self.result@ }
    }
}

/// What the result of a published response is made from.
#[derive(Debug)]
pub enum Payload {
    Block(CacheMap),
    Blocks(Vec<CacheMap>),
    Session(CacheMap),
    Validator(CacheMap),
    Validators { session: EpochIndex, data: Vec<CacheMap> },
    Parachains(CacheMap),
}

/// The model of a [`Payload`].
pub enum PayloadView {
    Block(FieldsView),
    Blocks(Seq<FieldsView>),
    Session(FieldsView),
    Validator(FieldsView),
    Validators { session: EpochIndex, data: Seq<FieldsView> },
    Parachains(FieldsView),
}

impl View for Payload {
    type V = PayloadView;

    open spec fn view(&self) -> PayloadView {
        match self {
            Payload::Block(record) => PayloadView::Block(record@),
            Payload::Blocks(data) => PayloadView::Blocks(records(data@)),
            Payload::Session(record) => PayloadView::Session(record@),
            Payload::Validator(record) => PayloadView::Validator(record@),
            Payload::Validators { session, data } => PayloadView::Validators {
                session: *session,
                data: records(data@),
            },
            Payload::Parachains(record) => PayloadView::Parachains(record@),
        }
    }
}

/// The name of the kind of response that a payload goes out in.
pub open spec fn kind_name(payload: PayloadView) -> Seq<char> {
    match payload {
        PayloadView::Block(_) => "block"@,
        PayloadView::Blocks(_) => "blocks"@,
        PayloadView::Session(_) => "session"@,
        PayloadView::Validator(_) => "validator"@,
        PayloadView::Validators { .. } => "validators"@,
        PayloadView::Parachains(_) => "parachains"@,
    }
}

/// The response that carries a payload.
pub open spec fn response(payload: PayloadView) -> WsResponseMessageView<PayloadView> {
    WsResponseMessageView { kind: kind_name(payload), result: payload }
}

/// The models of a list of responses.
pub open spec fn responses(messages: Seq<WsResponseMessage<Payload>>) -> Seq<
    WsResponseMessageView<PayloadView>,
> {
    messages.map_values(|m: WsResponseMessage<Payload>| m@)
}

impl WsResponseMessage<Payload> {
    /// The response that carries a payload.
    pub fn of(payload: Payload) -> (message: WsResponseMessage<Payload>)
        ensures
            message@ == response(payload@),
    {
        let kind = match &payload {
            Payload::Block(_) => "block",
            Payload::Blocks(_) => "blocks",
            Payload::Session(_) => "session",
            Payload::Validator(_) => "validator",
            Payload::Validators { .. } => "validators",
            Payload::Parachains(_) => "parachains",
        };
        WsResponseMessage { kind: kind.to_owned(), result: payload }
    }
}

} // verus!
