//! The Varlink protocol as the client speaks it: NUL-framed messages, the
//! exchange of one call and its reply, and the meaning of a reply.
use vstd::prelude::*;

use crate::error::{IoFailure, SyntropctlError};
use crate::json::{entry, field_text_or, object_fields, text_field, text_or, text_value, Json};
use crate::text::{before_first, prefix_before};

verus! {

/// Timeout of an ordinary call, in milliseconds.
pub const DEFAULT_RPC_TIMEOUT_MS: u64 = 10000u64;

/// Timeout of an introspection call, in milliseconds.
pub const INTROSPECTION_TIMEOUT_MS: u64 = 1500u64;

/// A Varlink method call: the method's qualified name and its parameters.
#[derive(Debug)]
pub struct VarlinkCall {
    pub method: String,
    pub parameters: Option<Json>,
}

/// A Varlink reply: its parameters, the qualified name of an error, and the
/// `continues` flag.
#[derive(Debug)]
pub struct VarlinkReply {
    pub parameters: Option<Json>,
    pub error: Option<String>,
    pub continues: Option<bool>,
}

/// Vendor and interface metadata returned by `org.varlink.service.GetInfo`.
#[derive(Debug, Clone)]
pub struct ServiceInfo {
    pub vendor: String,
    pub product: String,
    pub version: String,
    pub url: String,
    pub interfaces: Vec<String>,
}

// ---------------------------------------------------------------------------
// Framing
// ---------------------------------------------------------------------------

/// The bytes that carry `body` on the wire: the body and a NUL terminator.
pub open spec fn frame(body: Seq<u8>) -> Seq<u8> {
    body.push(0u8)
}

/// Whether `bytes` holds no NUL.
pub open spec fn nul_free(bytes: Seq<u8>) -> bool {
    forall|i: int| 0 <= i < bytes.len() ==> #[trigger] bytes[i] != 0u8
}

/// The message a receiver takes from `stream`: the bytes before the first
/// NUL, or all of them when the stream ends without one.
pub open spec fn payload_of(stream: Seq<u8>) -> Seq<u8>
    decreases stream.len(),
{
    if stream.len() == 0 {
        stream
    } else if stream[0] == 0u8 {
        Seq::empty()
    } else {
        seq![stream[0]] + payload_of(stream.drop_first())
    }
}

/// Whether `stream` holds a NUL terminator.
pub open spec fn terminated(stream: Seq<u8>) -> bool {
    exists|i: int| 0 <= i < stream.len() && #[trigger] stream[i] == 0u8
}

proof fn lemma_payload_prefix(body: Seq<u8>, rest: Seq<u8>)
    requires
        nul_free(body),
    ensures
        payload_of(body + rest) == body + payload_of(rest),
    decreases body.len(),
{
    if body.len() > 0 {
        assert((body + rest).drop_first() == body.drop_first() + rest);
        lemma_payload_prefix(body.drop_first(), rest);
        assert(seq![body[0]] + (body.drop_first() + payload_of(rest)) == body + payload_of(rest));
    } else {
        assert(body + rest == rest);
        assert(body + payload_of(rest) == payload_of(rest));
    }
}

/// A framed message reads back as the message: whatever follows the
/// terminator, the receiver takes exactly the body that was framed, as long
/// as the body itself holds no NUL.
pub proof fn lemma_frame_round_trip(body: Seq<u8>, rest: Seq<u8>)
    requires
        nul_free(body),
    ensures
        payload_of(frame(body) + rest) == body,
        terminated(frame(body) + rest),
{
    let s = frame(body) + rest;
    assert(s == body + (seq![0u8] + rest));
    lemma_payload_prefix(body, seq![0u8] + rest);
    assert(payload_of(seq![0u8] + rest) == Seq::<u8>::empty());
    assert(body + Seq::<u8>::empty() == body);
    assert(s[body.len() as int] == 0u8);
}

// ---------------------------------------------------------------------------
// The exchange of one call
// ---------------------------------------------------------------------------

/// Where an exchange stands.
#[derive(Debug, Clone, Copy, PartialEq, Eq, Structural)]
pub enum ExchangePhase {
    Connecting,
    Sending,
    Receiving,
    Finished,
}

/// What the transport reports back to an exchange.
#[derive(Debug)]
pub enum ExchangeEvent {
    Connected,
    ConnectFailed(IoFailure),
    Sent,
    SendFailed(IoFailure),
    SendTimedOut,
    Byte(u8),
    Closed,
    ReceiveFailed(IoFailure),
    ReceiveTimedOut,
}

/// What the transport must do next for an exchange.
#[derive(Debug)]
pub enum ExchangeAction {
    /// Connect to the socket.
    Connect,
    /// Write these bytes, all of them.
    Send(Vec<u8>),
    /// Read one byte.
    ReceiveByte,
    /// The reply message, to be decoded.
    Deliver(Vec<u8>),
    /// The call failed.
    Fail(SyntropctlError),
}

/// The state of one call: the method and socket it is for, the request
/// body still to be sent, and the reply bytes received so far.
#[derive(Debug)]
pub struct VarlinkExchange {
    pub method: String,
    pub socket: String,
    pub request: Vec<u8>,
    pub received: Vec<u8>,
    pub phase: ExchangePhase,
}

/// Whether `ev` is an event the transport can report in `phase`.
pub open spec fn expects(phase: ExchangePhase, ev: ExchangeEvent) -> bool {
    match phase {
        ExchangePhase::Connecting => ev is Connected || ev is ConnectFailed,
        ExchangePhase::Sending => ev is Sent || ev is SendFailed || ev is SendTimedOut,
        ExchangePhase::Receiving => ev is Byte || ev is Closed || ev is ReceiveFailed
            || ev is ReceiveTimedOut,
        ExchangePhase::Finished => false,
    }
}

/// The outcome of a reply message that is complete: refused when empty.
pub open spec fn completion(received: Seq<u8>, action: ExchangeAction) -> bool {
    if received.len() == 0 {
        action matches ExchangeAction::Fail(SyntropctlError::MalformedReply(m)) && m@
            == "Empty reply buffer"@
    } else {
        action matches ExchangeAction::Deliver(bytes) && bytes@ == received
    }
}

impl VarlinkExchange {
    /// The exchange's invariant: the reply bytes received so far hold no
    /// terminator, and none are held before the request has gone out.
    pub open spec fn wf(self) -> bool {
        &&& nul_free(self.received@)
        &&& (self.phase == ExchangePhase::Connecting || self.phase == ExchangePhase::Sending)
            ==> self.received@.len() == 0
    }

    /// Starts the exchange of a call of `method` on `socket` whose encoded
    /// body is `body`: the first thing to do is to connect.
    pub fn start(method: &str, socket: &str, body: Vec<u8>) -> (r: (VarlinkExchange, ExchangeAction))
        ensures
            r.0.method@ == method@,
            r.0.socket@ == socket@,
            r.0.request@ == body@,
            r.0.received@ == Seq::<u8>::empty(),
            r.0.phase == ExchangePhase::Connecting,
            r.0.wf(),
            r.1 is Connect,
    {
        (
            VarlinkExchange {
                method: String::from_str(method),
                socket: String::from_str(socket),
                request: body,
                received: Vec::new(),
                phase: ExchangePhase::Connecting,
            },
            ExchangeAction::Connect,
        )
    }

    /// Takes in what the transport reports and says what it must do next.
    ///
    /// Once connected the framed request is sent; once sent, the reply is
    /// read one byte at a time until a NUL or the end of the stream, and the
    /// bytes before it are the reply message, which must not be empty. A
    /// failed connection names the daemon by the first segment of the
    /// method; the write and the read each fail on their own timeout.
    pub fn step(&mut self, ev: ExchangeEvent) -> (action: ExchangeAction)
        requires
            expects(old(self).phase, ev),
        ensures
            final(self).method == old(self).method,
            final(self).socket == old(self).socket,
            old(self).wf() ==> final(self).wf(),
            match ev {
                ExchangeEvent::Connected => {
                    &&& action matches ExchangeAction::Send(bytes) && bytes@ == frame(
                        old(self).request@,
                    )
                    &&& final(self).phase == ExchangePhase::Sending
                    &&& final(self).received@ == old(self).received@
                },
                ExchangeEvent::ConnectFailed(e) => {
                    &&& final(self).phase == ExchangePhase::Finished
                    &&& action matches ExchangeAction::Fail(
                        SyntropctlError::DaemonUnavailable { daemon, socket, source },
                    )
                    &&& daemon@ == before_first(old(self).method@, '.')
                    &&& socket@ == old(self).socket@
                    &&& source == e
                },
                ExchangeEvent::Sent => {
                    &&& final(self).phase == ExchangePhase::Receiving
                    &&& action is ReceiveByte
                    &&& final(self).received@ == old(self).received@
                },
                ExchangeEvent::SendFailed(e) => {
                    &&& final(self).phase == ExchangePhase::Finished
                    &&& action matches ExchangeAction::Fail(SyntropctlError::Io(f)) && f == e
                },
                ExchangeEvent::SendTimedOut => {
                    &&& final(self).phase == ExchangePhase::Finished
                    &&& action matches ExchangeAction::Fail(SyntropctlError::OperationFailed(m))
                        && m@ == "Varlink write timed out"@
                },
                ExchangeEvent::Byte(b) => if b == 0u8 {
                    &&& final(self).phase == ExchangePhase::Finished
                    &&& completion(old(self).received@, action)
                } else {
                    &&& final(self).phase == ExchangePhase::Receiving
                    &&& final(self).received@ == old(self).received@.push(b)
                    &&& action is ReceiveByte
                },
                ExchangeEvent::Closed => {
                    &&& final(self).phase == ExchangePhase::Finished
                    &&& completion(old(self).received@, action)
                },
                ExchangeEvent::ReceiveFailed(e) => {
                    &&& final(self).phase == ExchangePhase::Finished
                    &&& action matches ExchangeAction::Fail(SyntropctlError::Io(f)) && f == e
                },
                ExchangeEvent::ReceiveTimedOut => {
                    &&& final(self).phase == ExchangePhase::Finished
                    &&& action matches ExchangeAction::Fail(SyntropctlError::OperationFailed(m))
                        && m@ == "Varlink read timed out"@
                },
            },
    {
        match ev {
            ExchangeEvent::Connected => {
                let mut bytes: Vec<u8> = Vec::new();
                std::mem::swap(&mut bytes, &mut self.request);
                bytes.push(0u8);
                self.phase = ExchangePhase::Sending;
                ExchangeAction::Send(bytes)
            },
            ExchangeEvent::ConnectFailed(e) => {
                self.phase = ExchangePhase::Finished;
                let daemon = prefix_before(self.method.as_str(), '.');
                ExchangeAction::Fail(
                    SyntropctlError::DaemonUnavailable {
                        daemon,
                        socket: self.socket.clone(),
                        source: e,
                    },
                )
            },
            ExchangeEvent::Sent => {
                self.phase = ExchangePhase::Receiving;
                ExchangeAction::ReceiveByte
            },
            ExchangeEvent::SendFailed(e) => {
                self.phase = ExchangePhase::Finished;
                ExchangeAction::Fail(SyntropctlError::Io(e))
            },
            ExchangeEvent::SendTimedOut => {
                self.phase = ExchangePhase::Finished;
                ExchangeAction::Fail(
                    SyntropctlError::OperationFailed(String::from_str("Varlink write timed out")),
                )
            },
            ExchangeEvent::Byte(b) => {
                if b == 0u8 {
                    self.phase = ExchangePhase::Finished;
                    self.complete()
                } else {
                    self.received.push(b);
                    ExchangeAction::ReceiveByte
                }
            },
            ExchangeEvent::Closed => {
                self.phase = ExchangePhase::Finished;
                self.complete()
            },
            ExchangeEvent::ReceiveFailed(e) => {
                self.phase = ExchangePhase::Finished;
                ExchangeAction::Fail(SyntropctlError::Io(e))
            },
            ExchangeEvent::ReceiveTimedOut => {
                self.phase = ExchangePhase::Finished;
                ExchangeAction::Fail(
                    SyntropctlError::OperationFailed(String::from_str("Varlink read timed out")),
                )
            },
        }
    }

    /// Hands over the reply message received so far, refusing an empty one.
    fn complete(&mut self) -> (action: ExchangeAction)
        ensures
            final(self).method == old(self).method,
            final(self).socket == old(self).socket,
            final(self).phase == old(self).phase,
            final(self).received@.len() == 0 || final(self).received@ == old(self).received@,
            completion(old(self).received@, action),
    {
        if self.received.len() == 0 {
            ExchangeAction::Fail(
                SyntropctlError::MalformedReply(String::from_str("Empty reply buffer")),
            )
        } else {
            let mut bytes: Vec<u8> = Vec::new();
            std::mem::swap(&mut bytes, &mut self.received);
            ExchangeAction::Deliver(bytes)
        }
    }
}

// ---------------------------------------------------------------------------
// Calls and replies
// ---------------------------------------------------------------------------

/// What a reply means: the daemon's error, with its parameters, when it
/// names one; else its parameters, or `null` when it has none.
pub open spec fn reply_meaning(reply: VarlinkReply, r: Result<Json, SyntropctlError>) -> bool {
    match reply.error {
        Some(err) => r matches Err(SyntropctlError::ProtocolError { error, parameters }) && error
            == err && parameters == reply.parameters,
        None => match reply.parameters {
            Some(p) => r == Ok::<Json, SyntropctlError>(p),
            None => r matches Ok(Json::Null),
        },
    }
}

/// A call of `method` with `parameters`.
pub open spec fn is_call(c: VarlinkCall, method: Seq<char>, parameters: Option<Json>) -> bool {
    c.method@ == method && c.parameters == parameters
}

/// Low-level Varlink client: the calls it makes for introspection and what it
/// takes from the replies.
pub struct VarlinkClient;

impl VarlinkClient {
    /// The result of a call, given its reply.
    pub fn reply_result(reply: VarlinkReply) -> (r: Result<Json, SyntropctlError>)
        ensures
            reply_meaning(reply, r),
    {
        match reply.error {
            Some(err) => Err(SyntropctlError::ProtocolError { error: err, parameters: reply.parameters }),
            None => match reply.parameters {
                Some(p) => Ok(p),
                None => Ok(Json::Null),
            },
        }
    }

    /// The call `org.varlink.service.GetInfo()`.
    pub fn get_info_call() -> (c: VarlinkCall)
        ensures
            is_call(c, "org.varlink.service.GetInfo"@, None),
    {
        VarlinkCall { method: String::from_str("org.varlink.service.GetInfo"), parameters: None }
    }

    /// The call `org.varlink.service.GetInterfaceDescription(interface)`.
    pub fn interface_description_call(interface: &str) -> (c: VarlinkCall)
        ensures
            c.method@ == "org.varlink.service.GetInterfaceDescription"@,
            object_fields(c.parameters) matches Some(fields) && fields.len() == 1 && text_field(
                fields[0],
                "interface"@,
                interface@,
            ),
    {
        let mut fields: Vec<(String, Json)> = Vec::new();
        fields.push(entry("interface", text_value(interface)));
        VarlinkCall {
            method: String::from_str("org.varlink.service.GetInterfaceDescription"),
            parameters: Some(Json::Object(fields)),
        }
    }

    /// The description a `GetInterfaceDescription` reply carries, or the
    /// empty text.
    pub fn interface_description(res: &Json) -> (r: String)
        ensures
            r@ == text_or(*res, "description"@, ""@),
    {
        field_text_or(res, "description", "")
    }
}

} // verus!
