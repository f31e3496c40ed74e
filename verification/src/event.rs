//! What the stream hub announces, as far as the dispatcher reads it.

use vstd::prelude::*;

verus! {

/// Names a logical stream. Two identifiers are the same stream when they are
/// equal by value.
#[derive(Clone, Debug, PartialEq, Eq, Hash)]
pub enum StreamIdentifier {
    Unknown,
    Rtmp { app_name: String, stream_name: String },
    Rtsp { stream_path: String },
    WebRtc { app_name: String, stream_name: String },
}

/// A `StreamIdentifier` as plain values.
pub enum IdentifierModel {
    Unknown,
    Rtmp { app_name: Seq<char>, stream_name: Seq<char> },
    Rtsp { stream_path: Seq<char> },
    WebRtc { app_name: Seq<char>, stream_name: Seq<char> },
}

impl View for StreamIdentifier {
    type V = IdentifierModel;

    open spec fn view(&self) -> IdentifierModel {
        match *self {
            StreamIdentifier::Unknown => IdentifierModel::Unknown,
            StreamIdentifier::Rtmp { app_name, stream_name } => IdentifierModel::Rtmp {
                app_name: app_name@,
                stream_name: stream_name@,
            },
            StreamIdentifier::Rtsp { stream_path } => IdentifierModel::Rtsp {
                stream_path: stream_path@,
            },
            StreamIdentifier::WebRtc { app_name, stream_name } => IdentifierModel::WebRtc {
                app_name: app_name@,
                stream_name: stream_name@,
            },
        }
    }
}

/// A change in the life of a stream, as the hub broadcasts it.
#[derive(Clone, Debug, PartialEq, Eq)]
pub enum BroadcastEvent {
    /// A stream began publishing.
    Publish { identifier: StreamIdentifier },
    /// A stream stopped publishing.
    UnPublish { identifier: StreamIdentifier },
    /// Anything else the hub may announce.
    Other,
}

/// A `BroadcastEvent` as plain values.
pub enum EventModel {
    Publish { identifier: IdentifierModel },
    UnPublish { identifier: IdentifierModel },
    Other,
}

impl View for BroadcastEvent {
    type V = EventModel;

    open spec fn view(&self) -> EventModel {
        match *self {
            BroadcastEvent::Publish { identifier } => EventModel::Publish {
                identifier: identifier@,
            },
            BroadcastEvent::UnPublish { identifier } => EventModel::UnPublish {
                identifier: identifier@,
            },
            BroadcastEvent::Other => EventModel::Other,
        }
    }
}

impl EventModel {
    /// Whether this is the one kind of event that starts a push: the
    /// publishing of an RTMP stream.
    pub open spec fn is_rtmp_publish(self) -> bool {
        self matches EventModel::Publish { identifier } && identifier is Rtmp
    }
}

/// Why the hub's broadcast channel gave no event.
#[derive(Clone, Copy, Debug, PartialEq, Eq, Structural)]
pub enum EventSourceError {
    /// Every sender is gone: no event will come any more.
    Closed,
    /// The receiver fell behind, and this many events were overwritten
    /// before it could read them.
    Lagged(u64),
}

/// What one receive on the broadcast channel gave: an event, or the reason
/// why there was none.
pub type Received = Result<BroadcastEvent, EventSourceError>;

/// A `Received` as plain values.
pub type ReceivedModel = Result<EventModel, EventSourceError>;

/// One receive as plain values.
pub open spec fn received_model(received: Received) -> ReceivedModel {
    match received {
        Ok(event) => Ok(event@),
        Err(error) => Err(error),
    }
}

/// A run of receives as plain values.
pub open spec fn received_models(received: Seq<Received>) -> Seq<ReceivedModel> {
    Seq::new(received.len(), |i: int| received_model(received[i]))
}

} // verus!
