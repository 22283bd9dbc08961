//! Running requests on the thread of the compiler.

use std::sync::Arc;
use vstd::prelude::*;
use vstd::string::*;
use crate::error::TscError;
use crate::state::{State, StateSnapshot};
use crate::strings;
use crate::strings::to_decimal;
use crate::views;

verus! {

/// The script that makes a request, with arguments that are a JSON text.
pub open spec fn request_script(id: nat, method: Seq<char>, args: Seq<char>) -> Seq<char> {
    "globalThis.serverRequest("@ + strings::decimal(id) + ", \""@ + method + "\", "@ + args + ");"@
}

/// The script that starts the compiler.
pub open spec fn start_script(debug: bool) -> Seq<char> {
    if debug {
        "globalThis.serverInit({\"debug\":true});"@
    } else {
        "globalThis.serverInit({\"debug\":false});"@
    }
}

/// The script that starts the compiler.
pub fn start_tsc(debug: bool) -> (r: String)
    ensures
        r@ == start_script(debug),
        debug ==> r@ == "globalThis.serverInit({\"debug\":true});"@,
        !debug ==> r@ == "globalThis.serverInit({\"debug\":false});"@,
{
    if debug {
        "globalThis.serverInit({\"debug\":true});".to_owned()
    } else {
        "globalThis.serverInit({\"debug\":false});".to_owned()
    }
}

/// What a request comes to once its script was run: the failure of the script, or the response.
pub open spec fn outcome(ran: Result<(), TscError>, response: Option<Seq<char>>) -> Result<
    Seq<char>,
    TscError,
> {
    match ran {
        Ok(()) => match response {
            Some(data) => Ok(data),
            None => Err(TscError::NoResponse),
        },
        Err(err) => Err(err),
    }
}

impl State {
    /// Begins a request: gives the script to run, unless the request was cancelled.
    pub fn start_request(
        &mut self,
        state_snapshot: Arc<StateSnapshot>,
        method: &str,
        args: &str,
        is_cancelled: bool,
    ) -> (r: Result<String, TscError>)
        requires
            !is_cancelled ==> old(self).last_id < usize::MAX,
        ensures
            is_cancelled ==> r == Err::<String, TscError>(TscError::Cancelled) && *final(self)
                == *old(self),
            !is_cancelled ==> {
                &&& r matches Ok(script) && script@ == request_script(
                    (old(self).last_id + 1) as nat,
                    method@,
                    args@,
                )
                &&& r matches Ok(script) && script@ == "globalThis.serverRequest("@
                    + strings::decimal((old(self).last_id + 1) as nat) + ", \""@ + method@
                    + "\", "@ + args@ + ");"@
                &&& *final(self) == (State {
                    last_id: (old(self).last_id + 1) as usize,
                    state_snapshot,
                    ..*old(self)
                })
            },
    {
        if is_cancelled {
            return Err(TscError::Cancelled);
        }
        self.state_snapshot = state_snapshot;
        self.last_id = self.last_id + 1;
        let mut script = "globalThis.serverRequest(".to_owned();
        script.append(to_decimal(self.last_id as u64).as_str());
        script.append(", \"");
        script.append(method);
        script.append("\", ");
        script.append(args);
        script.append(");");
        Ok(script)
    }

    /// Ends a request whose script was run: takes the response.
    pub fn finish_request(&mut self, ran: Result<(), TscError>) -> (r: Result<String, TscError>)
        ensures
            match outcome(ran, views::opt_view(old(self).response)) {
                Ok(data) => r matches Ok(text) && text@ == data,
                Err(error) => r matches Err(err) && err == error,
            },
            ran matches Err(error) ==> r == Err::<String, TscError>(error),
            ran is Ok ==> (old(self).response matches Some(data) ==> (r matches Ok(text) && text@
                == data@)),
            ran is Ok && old(self).response is None ==> r == Err::<String, TscError>(
                TscError::NoResponse,
            ),
            ran is Err ==> *final(self) == *old(self),
            ran is Ok ==> *final(self) == (State { response: None, ..*old(self) }),
    {
        match ran {
            Ok(()) => match self.response.take() {
                Some(data) => Ok(data),
                None => Err(TscError::NoResponse),
            },
            Err(err) => Err(err),
        }
    }
}

/// What the caller of a request gets: an error where the request could not be sent or the thread went
/// away before it replied, else what the thread replied.
pub fn received(sent: bool, reply: Option<Result<String, TscError>>) -> (r: Result<
    String,
    TscError,
>)
    ensures
        r == (match reply {
            Some(reply) if sent => reply,
            _ => Err::<String, TscError>(TscError::Disconnected),
        }),
{
    match reply {
        Some(reply) => if sent {
            reply
        } else {
            Err(TscError::Disconnected)
        },
        None => Err(TscError::Disconnected),
    }
}

/// What happens on the thread of the compiler.
#[derive(Debug, Clone, Copy, PartialEq, Eq, Structural)]
pub enum ThreadEvent {
    /// The channel of requests gave one, or was closed.
    Received { is_request: bool },
    /// A request was run, and its outcome was sent to the caller or could not be.
    Replied { was_sent: bool, is_cancelled: bool },
}

/// What the thread of the compiler does next.
#[derive(Debug, Clone, Copy, PartialEq, Eq, Structural)]
pub enum ThreadAction {
    RunRequest,
    /// Waits for the next request, with a warning before it where the outcome was lost.
    Receive { warns: bool },
    Stop,
}

/// What the thread of the compiler does after an event. An outcome that could not be sent is no
/// matter where the request was cancelled.
pub open spec fn next_action(event: ThreadEvent) -> ThreadAction {
    match event {
        ThreadEvent::Received { is_request } => if is_request {
            ThreadAction::RunRequest
        } else {
            ThreadAction::Stop
        },
        ThreadEvent::Replied { was_sent, is_cancelled } => ThreadAction::Receive {
            warns: !was_sent && !is_cancelled,
        },
    }
}

/// What the thread of the compiler does after an event.
pub fn run_tsc_thread(event: ThreadEvent) -> (r: ThreadAction)
    ensures
        r == next_action(event),
        event == (ThreadEvent::Received { is_request: true }) <==> r == ThreadAction::RunRequest,
        event == (ThreadEvent::Received { is_request: false }) <==> r == ThreadAction::Stop,
        event == (ThreadEvent::Replied { was_sent: false, is_cancelled: false }) <==> r
            == (ThreadAction::Receive { warns: true }),
{
    match event {
        ThreadEvent::Received { is_request } => if is_request {
            ThreadAction::RunRequest
        } else {
            ThreadAction::Stop
        },
        ThreadEvent::Replied { was_sent, is_cancelled } => ThreadAction::Receive {
            warns: !was_sent && !is_cancelled,
        },
    }
}

/// A response that the compiler gave while a script ran is what its request comes to, and no request
/// after it is answered with it again.
pub proof fn law_response_answers_one_request(data: Seq<char>)
    ensures
        outcome(Ok(()), Some(data)) == Ok::<Seq<char>, TscError>(data),
        outcome(Ok(()), None) == Err::<Seq<char>, TscError>(TscError::NoResponse),
{
}

/// The thread stops only where the channel of requests was closed.
pub proof fn law_thread_stops_only_when_closed(event: ThreadEvent)
    ensures
        next_action(event) is Stop <==> event == (ThreadEvent::Received { is_request: false }),
{
}

} // verus!
