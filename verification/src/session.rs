//! What a push session is started with.

use crate::target::{text_model, PushTarget, TargetModel};
use vstd::prelude::*;

verus! {

/// Everything a push session is bound to, but for the connection it will own
/// and its handle into the hub, which whoever opens the connection adds.
#[derive(Clone, Debug, PartialEq, Eq)]
pub struct PushSession {
    /// Where to connect, as `host:port`.
    pub address: String,
    pub app_name: String,
    pub stream_name: String,
    /// How often the session has been retried: a new session starts at zero.
    pub retry_count: u32,
    /// The query of the push URL with its `?` in front, if it has one.
    pub search: Option<String>,
}

/// A `PushSession` as plain values.
pub struct SessionModel {
    pub address: Seq<char>,
    pub app_name: Seq<char>,
    pub stream_name: Seq<char>,
    pub retry_count: u32,
    pub search: Option<Seq<char>>,
}

impl View for PushSession {
    type V = SessionModel;

    open spec fn view(&self) -> SessionModel {
        SessionModel {
            address: self.address@,
            app_name: self.app_name@,
            stream_name: self.stream_name@,
            retry_count: self.retry_count,
            search: text_model(self.search),
        }
    }
}

/// The session that pushes the named stream to `target`.
pub open spec fn session_for(
    target: TargetModel,
    app_name: Seq<char>,
    stream_name: Seq<char>,
) -> SessionModel {
    SessionModel {
        address: target.address(),
        app_name,
        stream_name,
        retry_count: 0,
        search: target.search(),
    }
}

/// A run of sessions as plain values.
pub open spec fn session_models(sessions: Seq<PushSession>) -> Seq<SessionModel> {
    Seq::new(sessions.len(), |i: int| sessions[i]@)
}

impl PushSession {
    /// The session that pushes the named stream to `target`: not yet retried,
    /// and with the target's query.
    pub fn new(target: &PushTarget, app_name: String, stream_name: String) -> (session: PushSession)
        ensures
            session@ == session_for(target@, app_name@, stream_name@),
    {
        PushSession {
            address: target.address(),
            app_name,
            stream_name,
            retry_count: 0,
            search: target.search(),
        }
    }
}

} // verus!
