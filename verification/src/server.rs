//! A server that owns the terminal, and the clients that ask it to read and
//! to write.
//!
//! The queue of requests is kept behind a lock by the embedding program,
//! with a signal for new requests; every answer has a lock and a signal of
//! its own. Reading from and writing to the terminal is the caller's part.
//! `R` is what the caller uses to find the place for an answer again.

use std::collections::VecDeque;
use vstd::prelude::*;

verus! {

/// Clients that talk to the server.
pub const CLIENTS: usize = 4;

/// Times that a client has each of its lines written.
pub const ECHOES: usize = 4;

/// Whether the sender of a read request waits for the line.
#[derive(Debug)]
pub enum SyncType<R> {
    /// It waits; the line goes to the place that `R` stands for.
    Sync(R),
    /// It does not; the line is dropped.
    NonSync,
}

/// What a client asks of the server.
#[derive(Debug)]
pub enum Request<R> {
    /// Show the prompt and read a line.
    Read(String, SyncType<R>),
    /// Write the line.
    Write(String),
    /// Stop serving.
    Quit,
}

/// What the lock of an answer protects.
#[derive(Debug)]
pub struct Payload {
    /// The line that was read.
    pub buffer: String,
    /// The line is there.
    pub ready_flag: bool,
}

/// The place for the answer to one read request.
#[derive(Debug)]
pub struct Response {
    pub payload: Payload,
}

impl Response {
    /// A place without an answer.
    pub fn new() -> (response: Self)
        ensures
            response.payload.buffer@.len() == 0,
            !response.payload.ready_flag,
    {
        Response { payload: Payload { buffer: String::new(), ready_flag: false } }
    }

    /// Puts the line in place. The caller then raises the signal of the
    /// answer.
    pub fn deliver(&mut self, buffer: String)
        ensures
            final(self).payload.buffer == buffer,
            final(self).payload.ready_flag,
    {
        self.payload.buffer = buffer;
        self.payload.ready_flag = true;
    }
}

/// What the server's locks protect.
#[derive(Debug)]
pub struct Server<R> {
    /// Requests that were not served yet, oldest first.
    pub requests: VecDeque<Request<R>>,
    /// The serving thread was started.
    pub running: bool,
}

impl<R> Server<R> {
    /// A server without requests whose thread has not been started.
    pub fn new() -> (server: Self)
        ensures
            server.requests@.len() == 0,
            !server.running,
    {
        Server { requests: VecDeque::new(), running: false }
    }
}

/// What the serving thread does once it has released the lock.
#[derive(Debug)]
pub enum ServerStep<R> {
    /// Wait for the signal for new requests, then look again.
    Wait,
    /// Show the prompt and read a line; hand the line to `reply` if there
    /// is one, and look again.
    Prompt { prompt: String, reply: Option<R> },
    /// Write the line, and look again.
    Print(String),
    /// End.
    Stop,
}

/// What serving `request` means.
pub open spec fn step_for<R>(request: Request<R>) -> ServerStep<R> {
    match request {
        Request::Read(prompt, SyncType::Sync(reply)) => ServerStep::Prompt {
            prompt,
            reply: Some(reply),
        },
        Request::Read(prompt, SyncType::NonSync) => ServerStep::Prompt { prompt, reply: None },
        Request::Write(buffer) => ServerStep::Print(buffer),
        Request::Quit => ServerStep::Stop,
    }
}

/// One look of the serving thread at the queue: it takes the oldest request
/// and is told what to do for it, or waits if there is none.
pub fn server_routine<R>(server: &mut Server<R>) -> (step: ServerStep<R>)
    ensures
        final(server).running == old(server).running,
        old(server).requests@.len() == 0 ==> step is Wait,
        old(server).requests@.len() == 0 ==> final(server).requests@ == old(server).requests@,
        old(server).requests@.len() > 0 ==> step == step_for(old(server).requests@[0]),
        old(server).requests@.len() > 0 ==> final(server).requests@ == old(
            server).requests@.subrange(1, old(server).requests@.len() as int),
{
    match server.requests.pop_front() {
        None => ServerStep::Wait,
        Some(Request::Read(prompt, SyncType::Sync(reply))) => ServerStep::Prompt {
            prompt,
            reply: Some(reply),
        },
        Some(Request::Read(prompt, SyncType::NonSync)) => ServerStep::Prompt {
            prompt,
            reply: None,
        },
        Some(Request::Write(buffer)) => ServerStep::Print(buffer),
        Some(Request::Quit) => ServerStep::Stop,
    }
}

/// Puts `request` at the end of the queue. Returns whether the serving
/// thread has to be started first, which is so for the first request only.
/// The caller raises the signal for new requests.
pub fn server_request<R>(server: &mut Server<R>, request: Request<R>) -> (start: bool)
    ensures
        start == !old(server).running,
        final(server).running,
        final(server).requests@ == old(server).requests@.push(request),
{
    let start = !server.running;
    server.running = true;
    server.requests.push_back(request);
    start
}

/// What a client does with the answer to its read request.
#[derive(Clone, Copy, Debug, PartialEq, Eq, Structural)]
pub enum ClientStep {
    /// The line is not there: wait for the signal of the answer.
    Wait,
    /// The line is empty: the client is done.
    Leave,
    /// Have the line written `ECHOES` times, then ask for the next one.
    Echo,
}

/// A client looks at the answer to its read request.
pub fn client_routine(response: &Response) -> (step: ClientStep)
    ensures
        !response.payload.ready_flag ==> step == ClientStep::Wait,
        response.payload.ready_flag && response.payload.buffer@.len() == 0 ==> step
            == ClientStep::Leave,
        response.payload.ready_flag && response.payload.buffer@.len() > 0 ==> step
            == ClientStep::Echo,
{
    if !response.payload.ready_flag {
        ClientStep::Wait
    } else if response.payload.buffer.as_str().is_empty() {
        ClientStep::Leave
    } else {
        ClientStep::Echo
    }
}

/// A client that is done is counted out. Returns whether it was the last
/// one, in which case the caller raises the signal that all clients are
/// done.
pub fn client_done(client_threads: &mut usize) -> (last: bool)
    requires
        *old(client_threads) >= 1,
    ensures
        *final(client_threads) == *old(client_threads) - 1,
        last == (*old(client_threads) == 1),
{
    *client_threads = *client_threads - 1;
    *client_threads == 0
}

} // verus!
