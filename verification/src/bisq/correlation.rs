//! How a response is matched to the request that asked for it.

use crate::bisq::payload::{
    GetDataResponse, GetUpdatedDataRequest, Message, Ping, Pong, PreliminaryGetDataRequest,
};
use vstd::prelude::*;

verus! {

/// What a request carries and the response to it carries back.
#[derive(Clone, Copy, Debug, PartialEq, Eq, Structural, Hash)]
pub struct CorrelationId(pub i32);

impl Message {
    /// What a message carries to match it to its counterpart, if anything.
    pub open spec fn spec_correlation_id(&self) -> Option<CorrelationId> {
        match self {
            Message::PreliminaryGetDataRequest(request) => Some(CorrelationId(request.nonce)),
            Message::GetUpdatedDataRequest(request) => Some(CorrelationId(request.nonce)),
            Message::GetDataResponse(response) => Some(CorrelationId(response.request_nonce)),
            Message::Ping(ping) => Some(CorrelationId(ping.nonce)),
            Message::Pong(pong) => Some(CorrelationId(pong.request_nonce)),
            _ => None,
        }
    }

    #[verifier::when_used_as_spec(spec_correlation_id)]
    pub fn correlation_id(&self) -> (id: Option<CorrelationId>)
        ensures
            id == self.spec_correlation_id(),
    {
        match self {
            Message::PreliminaryGetDataRequest(request) => Some(CorrelationId(request.nonce)),
            Message::GetUpdatedDataRequest(request) => Some(CorrelationId(request.nonce)),
            Message::GetDataResponse(response) => Some(CorrelationId(response.request_nonce)),
            Message::Ping(ping) => Some(CorrelationId(ping.nonce)),
            Message::Pong(pong) => Some(CorrelationId(pong.request_nonce)),
            _ => None,
        }
    }
}

/// A request, as far as its response goes: what is taken out of the message
/// that answers it.
pub trait ResponseExtractor {
    type Response;

    /// The response that a message holds, if it is of the kind that answers.
    spec fn response_in(msg: Message) -> Option<Self::Response>;

    fn extract(msg: Message) -> (response: Option<Self::Response>)
        ensures
            response == Self::response_in(msg),
    ;
}

impl ResponseExtractor for Ping {
    type Response = Pong;

    open spec fn response_in(msg: Message) -> Option<Pong> {
        match msg {
            Message::Pong(pong) => Some(pong),
            _ => None,
        }
    }

    fn extract(msg: Message) -> (response: Option<Pong>) {
        match msg {
            Message::Pong(pong) => Some(pong),
            _ => None,
        }
    }
}

impl ResponseExtractor for PreliminaryGetDataRequest {
    type Response = GetDataResponse;

    open spec fn response_in(msg: Message) -> Option<GetDataResponse> {
        match msg {
            Message::GetDataResponse(response) => Some(response),
            _ => None,
        }
    }

    fn extract(msg: Message) -> (response: Option<GetDataResponse>) {
        match msg {
            Message::GetDataResponse(response) => Some(response),
            _ => None,
        }
    }
}

impl ResponseExtractor for GetUpdatedDataRequest {
    type Response = GetDataResponse;

    open spec fn response_in(msg: Message) -> Option<GetDataResponse> {
        match msg {
            Message::GetDataResponse(response) => Some(response),
            _ => None,
        }
    }

    fn extract(msg: Message) -> (response: Option<GetDataResponse>) {
        match msg {
            Message::GetDataResponse(response) => Some(response),
            _ => None,
        }
    }
}

} // verus!
