//! The vocabulary of the isolated transport and the decisions taken around
//! each exchange with the sandboxed process.
//!
//! One message travels on one line. Writing to the process, reading from it
//! and turning lines into messages happen outside this module; what is sent,
//! and what each outcome of a read means, is decided here.

use crate::feedback::CriterionScore;
use crate::text::{join_texts, from_chars, owned, to_chars};
use crate::tma::RubricCriterion;
use vstd::prelude::*;

verus! {

/// What can go wrong on the transport.
#[derive(Debug)]
pub enum IPCError {
    SpawnError(String),
    WriteError(String),
    ReadError(String),
    SerializationError(String),
    DeserializationError(String),
    ProcessCrashed,
    Timeout,
    InvalidMessage,
}

impl IPCError {
    /// The text shown for a transport error.
    pub open spec fn text(self) -> Seq<char> {
        match self {
            IPCError::SpawnError(m) => "Failed to spawn AI jail process: "@ + m@,
            IPCError::WriteError(m) => "Failed to write to stdin: "@ + m@,
            IPCError::ReadError(m) => "Failed to read from stdout: "@ + m@,
            IPCError::SerializationError(m) => "Failed to serialize message: "@ + m@,
            IPCError::DeserializationError(m) => "Failed to deserialize message: "@ + m@,
            IPCError::ProcessCrashed => "AI jail process crashed"@,
            IPCError::Timeout => "Timeout waiting for response"@,
            IPCError::InvalidMessage => "Invalid message format"@,
        }
    }

    /// The text shown for this transport error.
    pub fn to_string(&self) -> (r: String)
        ensures
            r@ == self.text(),
    {
        match self {
            IPCError::SpawnError(m) => join_texts("Failed to spawn AI jail process: ", m.as_str()),
            IPCError::WriteError(m) => join_texts("Failed to write to stdin: ", m.as_str()),
            IPCError::ReadError(m) => join_texts("Failed to read from stdout: ", m.as_str()),
            IPCError::SerializationError(m) => join_texts("Failed to serialize message: ", m.as_str()),
            IPCError::DeserializationError(m) => join_texts(
                "Failed to deserialize message: ",
                m.as_str(),
            ),
            IPCError::ProcessCrashed => owned("AI jail process crashed"),
            IPCError::Timeout => owned("Timeout waiting for response"),
            IPCError::InvalidMessage => owned("Invalid message format"),
        }
    }
}

/// The messages that cross the isolation boundary. `overall_grade` holds the
/// bits of a single-precision number.
#[derive(Debug, Clone)]
pub enum IPCMessage {
    FeedbackRequest {
        request_id: String,
        content: String,
        rubric: String,
        criteria: Vec<RubricCriterion>,
    },
    FeedbackResponse {
        request_id: String,
        feedback: String,
        scores: Vec<CriterionScore>,
        overall_grade: u32,
    },
    Ping { timestamp: i64 },
    Pong { timestamp: i64 },
    Error { message: String },
    Shutdown,
    Ack { request_id: String },
}

/// Why a health check failed.
#[derive(Debug)]
pub enum PingError {
    /// The process answered with an error.
    Rejected(String),
    /// The process answered with something that is no answer to a ping.
    InvalidMessage,
}

impl PingError {
    /// The text shown for a failed health check.
    pub open spec fn text(self) -> Seq<char> {
        match self {
            PingError::Rejected(m) => "Ping failed: "@ + m@,
            PingError::InvalidMessage => "Invalid message format"@,
        }
    }

    /// The text shown for this failed health check.
    pub fn to_string(&self) -> (r: String)
        ensures
            r@ == self.text(),
    {
        match self {
            PingError::Rejected(m) => join_texts("Ping failed: ", m.as_str()),
            PingError::InvalidMessage => owned("Invalid message format"),
        }
    }
}

// ---------------------------------------------------------------------------
// Sending
// ---------------------------------------------------------------------------

/// A serialized message as the line to write: the text and a line feed.
pub fn frame(json: &str) -> (line: String)
    ensures
        line@ == json@.push('\n'),
{
    let mut out = to_chars(json);
    out.push('\n');
    from_chars(&out)
}

/// Whether a text holds no line feed, so that it can travel as one line.
pub open spec fn is_one_line(text: Seq<char>) -> bool {
    forall|i: int| 0 <= i < text.len() ==> text[i] != '\n'
}

/// Whether a text holds no line feed.
pub fn fits_one_line(text: &str) -> (b: bool)
    ensures
        b == is_one_line(text@),
{
    let v = to_chars(text);
    let mut i: usize = 0;
    while i < v.len()
        invariant
            i <= v.len(),
            v@ == text@,
            forall|j: int| 0 <= j < i ==> v@[j] != '\n',
        decreases v.len() - i,
    {
        if v[i] == '\n' {
            return false;
        }
        i += 1;
    }
    true
}

/// What to write for a message: nothing where the channel to the process is
/// closed, where the message could not be serialized, or where its
/// serialized text holds a line feed and so is no single line; and otherwise
/// the serialized text as one line, which ends with the only line feed in it.
pub fn outgoing_line(channel_open: bool, serialized: Result<String, String>) -> (r: Result<
    String,
    IPCError,
>)
    ensures
        match r {
            Ok(line) => channel_open && (serialized matches Ok(json) && is_one_line(json@)
                && line@ == json@.push('\n')),
            Err(IPCError::WriteError(m)) => !channel_open && m@ == "stdin not available"@,
            Err(IPCError::SerializationError(m)) => channel_open && (serialized matches Err(e)
                && m@ == e@),
            Err(IPCError::InvalidMessage) => channel_open && (serialized matches Ok(json)
                && !is_one_line(json@)),
            Err(_) => false,
        },
{
    if !channel_open {
        return Err(IPCError::WriteError(owned("stdin not available")));
    }
    match serialized {
        Ok(json) => {
            if fits_one_line(json.as_str()) {
                Ok(frame(json.as_str()))
            } else {
                Err(IPCError::InvalidMessage)
            }
        },
        Err(e) => Err(IPCError::SerializationError(e)),
    }
}

/// What a write or a flush means: a failure is a write error with its cause.
pub fn written(outcome: Result<(), String>) -> (r: Result<(), IPCError>)
    ensures
        match r {
            Ok(()) => outcome is Ok,
            Err(IPCError::WriteError(m)) => outcome matches Err(e) && m@ == e@,
            Err(_) => false,
        },
{
    match outcome {
        Ok(()) => Ok(()),
        Err(e) => Err(IPCError::WriteError(e)),
    }
}

// ---------------------------------------------------------------------------
// Receiving
// ---------------------------------------------------------------------------

/// What a read means. A closed channel and a failed read are read errors. An
/// empty read is the end of the stream: the process has crashed. Anything
/// else is a line to decode.
pub fn incoming_line(channel_open: bool, read: Result<String, String>) -> (r: Result<
    String,
    IPCError,
>)
    ensures
        match r {
            Ok(line) => channel_open && (read matches Ok(l) && l@.len() > 0 && line@ == l@),
            Err(IPCError::ReadError(m)) => if channel_open {
                read matches Err(e) && m@ == e@
            } else {
                m@ == "stdout not available"@
            },
            Err(IPCError::ProcessCrashed) => channel_open && (read matches Ok(l) && l@.len() == 0),
            Err(_) => false,
        },
{
    if !channel_open {
        return Err(IPCError::ReadError(owned("stdout not available")));
    }
    match read {
        Ok(line) => {
            if line.as_str().unicode_len() == 0 {
                Err(IPCError::ProcessCrashed)
            } else {
                Ok(line)
            }
        },
        Err(e) => Err(IPCError::ReadError(e)),
    }
}

/// What decoding a line means: a line that is no message is a
/// deserialization error, never a crash.
pub fn decoded(parsed: Result<IPCMessage, String>) -> (r: Result<IPCMessage, IPCError>)
    ensures
        match r {
            Ok(message) => parsed == Ok::<IPCMessage, String>(message),
            Err(IPCError::DeserializationError(m)) => parsed matches Err(e) && m@ == e@,
            Err(_) => false,
        },
{
    match parsed {
        Ok(message) => Ok(message),
        Err(e) => Err(IPCError::DeserializationError(e)),
    }
}

// ---------------------------------------------------------------------------
// Health check and shutdown
// ---------------------------------------------------------------------------

/// The message that opens a health check.
pub fn ping_message(timestamp: i64) -> (m: IPCMessage)
    ensures
        m == (IPCMessage::Ping { timestamp }),
{
    IPCMessage::Ping { timestamp }
}

/// What the answer to a ping means: only a pong is a success.
pub fn ping_outcome(reply: &IPCMessage) -> (r: Result<(), PingError>)
    ensures
        r is Ok <==> reply is Pong,
        reply matches IPCMessage::Error { message } ==> r matches Err(PingError::Rejected(m))
            && m@ == message@,
        !(reply is Pong) && !(reply is Error) ==> r matches Err(PingError::InvalidMessage),
{
    match reply {
        IPCMessage::Pong { .. } => Ok(()),
        IPCMessage::Error { message } => Err(PingError::Rejected(message.clone())),
        _ => Err(PingError::InvalidMessage),
    }
}

/// The message that asks the process to stop. Sending it is advisory: a
/// failure to send is ignored, and the wait for the process follows in any
/// case.
pub fn shutdown_message() -> (m: IPCMessage)
    ensures
        m == IPCMessage::Shutdown,
{
    IPCMessage::Shutdown
}

/// One step of shutting the process down.
#[derive(Debug)]
pub enum ShutdownStep {
    /// Send the message and flush, and go on whatever comes of it.
    Send(IPCMessage),
    /// Wait for the process to end.
    Wait,
}

/// The steps of a shutdown: the request to stop, where the channel is open,
/// and in any case the wait for the process.
pub fn shutdown_plan(channel_open: bool) -> (plan: Vec<ShutdownStep>)
    ensures
        plan@.len() == if channel_open {
            2int
        } else {
            1int
        },
        channel_open ==> plan@[0] == ShutdownStep::Send(IPCMessage::Shutdown),
        plan@.last() == ShutdownStep::Wait,
{
    let mut plan: Vec<ShutdownStep> = Vec::new();
    if channel_open {
        plan.push(ShutdownStep::Send(shutdown_message()));
    }
    plan.push(ShutdownStep::Wait);
    plan
}

// ---------------------------------------------------------------------------
// Spawning
// ---------------------------------------------------------------------------

/// Collects the command that starts the sandboxed process.
#[derive(Debug, Clone)]
pub struct IPCClientBuilder {
    pub jail_command: String,
    pub jail_args: Vec<String>,
    pub ai_script: String,
}

/// The arguments that restrict the process most: no output of the launcher,
/// a private file system, no network.
pub open spec fn default_jail_args() -> Seq<Seq<char>> {
    seq!["--quiet"@, "--private"@, "--net=none"@]
}

/// The views of a vector of strings.
pub open spec fn arg_views(v: Seq<String>) -> Seq<Seq<char>> {
    v.map_values(|s: String| s@)
}

impl IPCClientBuilder {
    /// A builder for the given entry point, with `firejail` as the launcher
    /// and the most restrictive arguments.
    pub fn new(ai_script: &str) -> (b: Self)
        ensures
            b.jail_command@ == "firejail"@,
            arg_views(b.jail_args@) == default_jail_args(),
            b.ai_script@ == ai_script@,
    {
        let mut args: Vec<String> = Vec::new();
        args.push(owned("--quiet"));
        args.push(owned("--private"));
        args.push(owned("--net=none"));
        assert(arg_views(args@) =~= default_jail_args());
        IPCClientBuilder { jail_command: owned("firejail"), jail_args: args, ai_script: owned(ai_script) }
    }

    /// Sets the launcher.
    pub fn jail_command(self, command: &str) -> (b: Self)
        ensures
            b.jail_command@ == command@,
            b.jail_args == self.jail_args,
            b.ai_script == self.ai_script,
    {
        IPCClientBuilder {
            jail_command: owned(command),
            jail_args: self.jail_args,
            ai_script: self.ai_script,
        }
    }

    /// Adds one argument for the launcher after those already set.
    pub fn jail_arg(self, arg: &str) -> (b: Self)
        ensures
            arg_views(b.jail_args@) == arg_views(self.jail_args@).push(arg@),
            b.jail_command == self.jail_command,
            b.ai_script == self.ai_script,
    {
        let mut args = self.jail_args;
        let added = owned(arg);
        assert(arg_views(args@.push(added)) =~= arg_views(args@).push(arg@));
        args.push(added);
        IPCClientBuilder { jail_command: self.jail_command, jail_args: args, ai_script: self.ai_script }
    }

    /// Replaces the arguments for the launcher.
    pub fn jail_args(self, args: Vec<String>) -> (b: Self)
        ensures
            b.jail_args == args,
            b.jail_command == self.jail_command,
            b.ai_script == self.ai_script,
    {
        IPCClientBuilder { jail_command: self.jail_command, jail_args: args, ai_script: self.ai_script }
    }

    /// The arguments handed to the launcher: those set, then the entry point.
    pub fn launch_args(&self) -> (r: Vec<String>)
        ensures
            arg_views(r@) == arg_views(self.jail_args@).push(self.ai_script@),
    {
        let mut out: Vec<String> = Vec::new();
        let mut i: usize = 0;
        assert(arg_views(out@) =~= arg_views(self.jail_args@).take(0));
        while i < self.jail_args.len()
            invariant
                i <= self.jail_args.len(),
                arg_views(out@) == arg_views(self.jail_args@).take(i as int),
            decreases self.jail_args.len() - i,
        {
            let arg = self.jail_args[i].clone();
            proof {
                assert(arg_views(out@.push(arg)) =~= arg_views(out@).push(arg@));
                assert(arg_views(self.jail_args@).take(i + 1) =~= arg_views(self.jail_args@).take(
                    i as int,
                ).push(self.jail_args@[i as int]@));
            }
            out.push(arg);
            i += 1;
        }
        let script = self.ai_script.clone();
        proof {
            assert(arg_views(self.jail_args@).take(self.jail_args@.len() as int) =~= arg_views(
                self.jail_args@,
            ));
            assert(arg_views(out@.push(script)) =~= arg_views(out@).push(script@));
        }
        out.push(script);
        out
    }
}

} // verus!
