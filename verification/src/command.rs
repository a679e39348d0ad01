//! Requests to a server's state, each answered with a reply.
use crate::server::{RemoteMock, State};
use vstd::prelude::*;

verus! {

/// A request to a server's state.
#[derive(Debug)]
pub enum Command {
    /// Register a mock.
    CreateMock { remote_mock: RemoteMock },
    /// Ask for the hits of a mock.
    GetMockHits { mock_id: String },
    /// Remove a mock.
    RemoveMock { mock_id: String },
    /// Ask for the rendering of the last unmatched request.
    GetLastUnmatchedRequest,
}

/// The reply to a `Command`.
#[derive(Debug)]
pub enum CommandReply {
    /// The mock was registered.
    Created(bool),
    /// The hits of the mock, if the state knows it.
    Hits(Option<usize>),
    /// The removal was carried out.
    Removed(bool),
    /// The rendering of the last unmatched request, if any.
    LastUnmatchedRequest(Option<String>),
}

impl Command {
    /// Carries out a command on the state. Registering always succeeds;
    /// a removal is acknowledged whether or not the mock was found.
    pub fn handle(cmd: Command, state: &mut State) -> (r: CommandReply)
        ensures
            match cmd {
                Command::CreateMock { remote_mock } => {
                    &&& r matches CommandReply::Created(b) && b
                    &&& final(state)@.mocks == old(state)@.mocks.push(remote_mock@)
                    &&& final(state)@.unmatched == old(state)@.unmatched
                },
                Command::GetMockHits { mock_id } => {
                    &&& r matches CommandReply::Hits(h) && h == old(state)@.mock_hits(mock_id@)
                    &&& final(state)@ == old(state)@
                },
                Command::RemoveMock { mock_id } => {
                    &&& r matches CommandReply::Removed(b) && b
                    &&& final(state)@ == old(state)@.without_mock(mock_id@)
                },
                Command::GetLastUnmatchedRequest => {
                    &&& r matches CommandReply::LastUnmatchedRequest(l) && match l {
                        Some(s) => old(state)@.last_unmatched() == Some(s@),
                        None => old(state)@.last_unmatched() is None,
                    }
                    &&& final(state)@ == old(state)@
                },
            },
    {
        match cmd {
            Command::CreateMock { remote_mock } => {
                state.add_remote_mock(remote_mock);
                CommandReply::Created(true)
            },
            Command::GetMockHits { mock_id } => {
                let hits = state.get_mock_hits(mock_id.as_str());
                CommandReply::Hits(hits)
            },
            Command::RemoveMock { mock_id } => {
                state.remove_mock(mock_id.as_str());
                CommandReply::Removed(true)
            },
            Command::GetLastUnmatchedRequest => {
                let label = state.get_last_unmatched_request();
                CommandReply::LastUnmatchedRequest(label)
            },
        }
    }
}

} // verus!
