//! The typed data that flows through the pipeline: the normalized metric
//! record, the intent message that binds it to a purpose and a moment, and
//! the signed envelope handed back to callers.

use vstd::prelude::*;

verus! {

/// The semantic purpose of a signed message. A signature over a message with
/// one scope never verifies against a message with another, which prevents
/// cross-purpose replay.
#[derive(Clone, Copy, Debug, PartialEq, Eq, Structural)]
pub enum IntentScope {
    ProcessData,
    Attestation,
}

/// A request for metrics about one named subject.
#[derive(Debug)]
pub struct MyAnimeRequest {
    pub name: String,
}

/// The normalized result of one upstream fetch. Immutable once constructed.
///
/// The average rating is carried in hundredths (a rating of `8.53` is stored
/// as `853`) so that every field is a plain value.
#[derive(Debug)]
pub struct MyMetrics {
    pub title: String,
    pub external_average_rating_centi: i64,
    pub external_popularity_rank: i64,
    pub external_member_count: i64,
    pub queried_name: String,
}

/// A payload bound to a purpose and a moment (milliseconds since epoch).
#[derive(Debug)]
pub struct IntentMessage {
    pub scope: IntentScope,
    pub timestamp_ms: u64,
    pub payload: MyMetrics,
}

/// A signed intent message: the proof of enclave-originated data returned to
/// callers. Produced exactly once per fresh fetch; never mutated afterwards.
#[derive(Debug)]
pub struct SignedEnvelope {
    pub response: IntentMessage,
    pub signature: Vec<u8>,
}

/// The mathematical value of a `MyMetrics`.
pub struct MetricsView {
    pub title: Seq<char>,
    pub rating_centi: i64,
    pub rank: i64,
    pub members: i64,
    pub queried_name: Seq<char>,
}

/// The mathematical value of an `IntentMessage`.
pub struct MessageView {
    pub scope: IntentScope,
    pub timestamp_ms: u64,
    pub payload: MetricsView,
}

/// The mathematical value of a `SignedEnvelope`.
pub struct EnvelopeView {
    pub response: MessageView,
    pub signature: Seq<u8>,
}

impl View for MyMetrics {
    type V = MetricsView;

    open spec fn view(&self) -> MetricsView {
        MetricsView {
            title: self.title@,
            rating_centi: self.external_average_rating_centi,
            rank: self.external_popularity_rank,
            members: self.external_member_count,
            queried_name: self.queried_name@,
        }
    }
}

impl View for IntentMessage {
    type V = MessageView;

    open spec fn view(&self) -> MessageView {
        MessageView {
            scope: self.scope,
            timestamp_ms: self.timestamp_ms,
            payload: self.payload@,
        }
    }
}

impl View for SignedEnvelope {
    type V = EnvelopeView;

    open spec fn view(&self) -> EnvelopeView {
        EnvelopeView { response: self.response@, signature: self.signature@ }
    }
}

} // verus!
