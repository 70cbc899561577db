//! Transport-abstract communication layer: the error model, the
//! connection parameters, the transport capability trait and a scripted
//! point-to-point simulator for tests and dry-runs.

use vstd::prelude::*;
use vstd::string::StringExecFns;

use crate::msg::{Msg, NodeID, RequestType, ResponseType};

verus! {

// Errors ------------------------------------------------------------------

/// Errors of the communication layer, distinguished end to end.
///
/// `Error` is a transport/link failure, `NoResponse` a receive timeout in
/// a context where the timeout is fatal, `MsgError` a well-formed exchange
/// whose semantics disagree with expectation (it carries both observed
/// kinds for diagnostics), `DecodeError` a malformed frame received from
/// hardware, and `InvalidDeviceInfo` a violated device invariant after
/// init.
#[derive(Debug, PartialEq, Clone)]
pub enum ComError {
    /// Link or OS failure, with a backend-specific message.
    Error(String),
    /// Receive timeout, surfaced where a response was required.
    NoResponse,
    /// Response semantics disagree with expectation: the observed request
    /// kind echo and response kind are carried for diagnostics.
    MsgError { expected: RequestType, observed: RequestType, response: ResponseType },
    /// A frame carried a request or response code outside the closed sets.
    DecodeError(u32),
    /// The attributes read at init violate the device invariants.
    InvalidDeviceInfo,
    /// A CRC read back from the device disagrees with the host-computed
    /// value.
    CrcMismatch { expected: u32, observed: u32 },
}

// Addressing mode and connection parameters -------------------------------

/// Addressing mode of a transport: broadcast (discovery only) or one
/// specific node.
pub type ComMode = NodeID;

/// Tagged configuration a transport is opened with.
#[derive(Debug, Clone)]
pub enum ComConnParams {
    /// Serial line: port name and baud rate.
    Serial { port: String, baud: u32 },
    /// CAN bus: interface name.
    Can { iface: String },
    /// Simulated bus: no parameters.
    Sim,
}

impl ComConnParams {
    /// Parameters for a serial connection.
    pub fn for_serial_conn(port: &str, baud: u32) -> (r: ComConnParams)
        ensures
            r matches ComConnParams::Serial { port: p, baud: b } && p@ == port@ && b == baud,
    {
        ComConnParams::Serial { port: String::from_str(port), baud }
    }

    /// Parameters for a CAN connection.
    pub fn for_can_conn(iface: &str) -> (r: ComConnParams)
        ensures
            r matches ComConnParams::Can { iface: i } && i@ == iface@,
    {
        ComConnParams::Can { iface: String::from_str(iface) }
    }

    /// Parameters for the simulated bus.
    pub fn for_sim_device() -> (r: ComConnParams)
        ensures
            r matches ComConnParams::Sim,
    {
        ComConnParams::Sim
    }
}

// Interface selection ------------------------------------------------------

/// The transport backends selectable from the command line.
#[derive(Debug, PartialEq, Eq, Structural, Copy, Clone)]
pub enum InterfaceType {
    Sim,
    Serial,
    CAN,
    Ethernet,
}

impl InterfaceType {
    /// The interface type a command-line name selects; names outside the
    /// recognized set select none.
    pub open spec fn spec_from_name(s: Seq<char>) -> Option<InterfaceType> {
        if s == "sim"@ {
            Some(InterfaceType::Sim)
        } else if s == "serial"@ {
            Some(InterfaceType::Serial)
        } else if s == "can"@ {
            Some(InterfaceType::CAN)
        } else if s == "ethernet"@ {
            Some(InterfaceType::Ethernet)
        } else {
            None
        }
    }

    /// Parse an interface type from its command-line name. An unknown
    /// name is an error whose text names it.
    pub fn from_str(s: &str) -> (r: Result<InterfaceType, ComError>)
        ensures
            match InterfaceType::spec_from_name(s@) {
                Some(t) => r == Ok::<InterfaceType, ComError>(t),
                None => r matches Err(e) && e matches ComError::Error(t) && t@
                    == "Unknown interface type "@ + s@,
            },
    {
        proof {
            reveal_strlit("sim");
            reveal_strlit("serial");
            reveal_strlit("can");
            reveal_strlit("ethernet");
        }
        let name = String::from_str(s);
        if name == String::from_str("sim") {
            Ok(InterfaceType::Sim)
        } else if name == String::from_str("serial") {
            Ok(InterfaceType::Serial)
        } else if name == String::from_str("can") {
            Ok(InterfaceType::CAN)
        } else if name == String::from_str("ethernet") {
            Ok(InterfaceType::Ethernet)
        } else {
            let mut text = String::from_str("Unknown interface type ");
            text.append(s);
            Err(ComError::Error(text))
        }
    }
}

// Transport capability trait -----------------------------------------------

/// Capability set of a transport backend.
///
/// A transport is used by exactly one logical flow at a time, strictly
/// half-duplex: each request awaits its response before the next is sent.
/// The ghost log `sent` records every frame that `send` accepted, so that
/// callers can state which requests a protocol sequence put on the wire.
pub trait ComInterface: Sized {
    /// Ghost log of the frames accepted by `send`, oldest first.
    spec fn sent(&self) -> Seq<Msg>;

    /// Whether the backend is a multi-drop bus: discovery is only run on
    /// network transports.
    spec fn spec_is_network() -> bool;

    /// The exact behavioral contract of `send` for this backend, over the
    /// state before and after the call.
    spec fn send_ens(pre: Self, post: Self, msg: Msg, r: Result<(), ComError>) -> bool;

    /// The exact behavioral contract of `recv` for this backend, over the
    /// state before and after the call.
    spec fn recv_ens(pre: Self, post: Self, r: Result<Option<Msg>, ComError>) -> bool;

    /// The exact behavioral contract of `set_mode` for this backend.
    spec fn set_mode_ens(pre: Self, post: Self, mode: ComMode, r: Result<(), ComError>) -> bool;

    /// The exact behavioral contract of `scan_network` for this backend.
    spec fn scan_ens(pre: Self, post: Self, r: Result<Vec<u8>, ComError>) -> bool;

    /// Construct an uninitialised instance of the backend.
    fn create() -> (r: Result<Self, ComError>)
        ensures
            r matches Ok(i) ==> i.sent() == Seq::<Msg>::empty(),
    ;

    /// Bind the instance to a named endpoint.
    fn open(&mut self, params: &ComConnParams) -> (r: Result<(), ComError>)
        ensures
            final(self).sent() == old(self).sent(),
    ;

    /// Constant per backend: true for multi-drop buses.
    fn is_network() -> (r: bool)
        ensures
            r == Self::spec_is_network(),
    ;

    /// Switch between broadcast and specific-node addressing. Broadcast is
    /// only valid on network transports and is rejected elsewhere.
    fn set_mode(&mut self, mode: ComMode) -> (r: Result<(), ComError>)
        ensures
            final(self).sent() == old(self).sent(),
            !Self::spec_is_network() && mode is Broadcast ==> r is Err,
            Self::set_mode_ens(*old(self), *final(self), mode, r),
    ;

    /// The receive-side timeout of the backend, in milliseconds.
    spec fn spec_timeout(&self) -> u64;

    /// Set the receive-side timeout for unicast exchanges, in
    /// milliseconds.
    fn set_timeout(&mut self, timeout_ms: u64) -> (r: Result<(), ComError>)
        ensures
            final(self).sent() == old(self).sent(),
    ;

    /// The receive-side timeout for unicast exchanges, in milliseconds.
    fn get_timeout(&self) -> (r: u64)
        ensures
            r == self.spec_timeout(),
    ;

    /// Transmit one frame to the addressee implied by the current mode.
    /// Fails with a transport error on link failure.
    fn send(&mut self, msg: &Msg) -> (r: Result<(), ComError>)
        ensures
            r is Ok ==> final(self).sent() == old(self).sent().push(*msg),
            r is Err ==> final(self).sent() == old(self).sent(),
            Self::send_ens(*old(self), *final(self), *msg, r),
    ;

    /// Read at most one frame for the current addressee within the
    /// timeout. A timeout is the recoverable outcome `Ok(None)`, distinct
    /// from a transport error.
    fn recv(&mut self) -> (r: Result<Option<Msg>, ComError>)
        ensures
            final(self).sent() == old(self).sent(),
            Self::recv_ens(*old(self), *final(self), r),
    ;

    /// Broadcast a ping and collect the distinct responders within a
    /// bounded window. Only network transports support it; the result is
    /// the deduplicated, ascending set of responder node ids.
    fn scan_network(&mut self) -> (r: Result<Vec<u8>, ComError>)
        ensures
            !Self::spec_is_network() ==> r is Err,
            r matches Ok(nodes) ==> forall|i: int, j: int|
                0 <= i < j < nodes@.len() ==> nodes@[i] < nodes@[j],
            Self::scan_ens(*old(self), *final(self), r),
    ;
}

// Scripted simulator -------------------------------------------------------

/// A scripted point-to-point transport for tests: it replays a queue of
/// prepared response frames and can be armed to fail on send, fail on
/// receive, or time out on receive.
pub struct ComSimulator {
    responses: Vec<Msg>,
    send_error: Option<ComError>,
    recv_error: Option<ComError>,
    recv_timeout: bool,
    sent_log: Ghost<Seq<Msg>>,
}

impl ComSimulator {
    /// The queue of prepared response frames, oldest first.
    pub closed spec fn spec_responses(self) -> Seq<Msg> {
        self.responses@
    }

    /// The armed send-side error, if any.
    pub closed spec fn spec_send_error(self) -> Option<ComError> {
        self.send_error
    }

    /// The armed receive-side error, if any.
    pub closed spec fn spec_recv_error(self) -> Option<ComError> {
        self.recv_error
    }

    /// Whether the next receive times out.
    pub closed spec fn spec_recv_timeout(self) -> bool {
        self.recv_timeout
    }

    /// A fresh simulator: empty queue, no armed faults.
    pub fn new() -> (r: ComSimulator)
        ensures
            r.spec_responses() == Seq::<Msg>::empty(),
            r.spec_send_error() is None,
            r.spec_recv_error() is None,
            !r.spec_recv_timeout(),
            r.sent() == Seq::<Msg>::empty(),
    {
        ComSimulator {
            responses: Vec::new(),
            send_error: None,
            recv_error: None,
            recv_timeout: false,
            sent_log: Ghost(Seq::empty()),
        }
    }

    /// Append one prepared response frame to the queue.
    pub fn add_response(&mut self, msg: Msg)
        ensures
            final(self).spec_responses() == old(self).spec_responses().push(msg),
            final(self).spec_send_error() == old(self).spec_send_error(),
            final(self).spec_recv_error() == old(self).spec_recv_error(),
            final(self).spec_recv_timeout() == old(self).spec_recv_timeout(),
            final(self).sent() == old(self).sent(),
    {
        self.responses.push(msg);
    }

    /// Arm a one-shot error for the next send.
    pub fn set_send_error(&mut self, e: ComError)
        ensures
            final(self).spec_send_error() == Some(e),
            final(self).spec_responses() == old(self).spec_responses(),
            final(self).spec_recv_error() == old(self).spec_recv_error(),
            final(self).spec_recv_timeout() == old(self).spec_recv_timeout(),
            final(self).sent() == old(self).sent(),
    {
        self.send_error = Some(e);
    }

    /// Arm a one-shot error for the next receive.
    pub fn set_recv_error(&mut self, e: ComError)
        ensures
            final(self).spec_recv_error() == Some(e),
            final(self).spec_responses() == old(self).spec_responses(),
            final(self).spec_send_error() == old(self).spec_send_error(),
            final(self).spec_recv_timeout() == old(self).spec_recv_timeout(),
            final(self).sent() == old(self).sent(),
    {
        self.recv_error = Some(e);
    }

    /// Arm a one-shot timeout for the next receive.
    pub fn set_recv_timeout_error(&mut self)
        ensures
            final(self).spec_recv_timeout(),
            final(self).spec_responses() == old(self).spec_responses(),
            final(self).spec_send_error() == old(self).spec_send_error(),
            final(self).spec_recv_error() == old(self).spec_recv_error(),
            final(self).sent() == old(self).sent(),
    {
        self.recv_timeout = true;
    }
}

impl ComInterface for ComSimulator {
    closed spec fn sent(&self) -> Seq<Msg> {
        self.sent_log@
    }

    open spec fn spec_is_network() -> bool {
        false
    }

    /// The scripted simulator blocks on nothing; its timeout is zero.
    open spec fn spec_timeout(&self) -> u64 {
        0
    }

    /// An armed send error is returned once and disarmed; otherwise the
    /// frame is accepted. The response queue and the receive-side faults
    /// are untouched.
    open spec fn send_ens(
        pre: ComSimulator,
        post: ComSimulator,
        msg: Msg,
        r: Result<(), ComError>,
    ) -> bool {
        &&& post.spec_responses() == pre.spec_responses()
        &&& post.spec_recv_error() == pre.spec_recv_error()
        &&& post.spec_recv_timeout() == pre.spec_recv_timeout()
        &&& post.spec_send_error() is None
        &&& match pre.spec_send_error() {
            Some(e) => r == Err::<(), ComError>(e),
            None => r is Ok,
        }
    }

    /// Broadcast mode is rejected on this point-to-point backend; a
    /// specific node is accepted. Neither touches the queue or the armed
    /// faults.
    open spec fn set_mode_ens(
        pre: ComSimulator,
        post: ComSimulator,
        mode: ComMode,
        r: Result<(), ComError>,
    ) -> bool {
        &&& post.spec_responses() == pre.spec_responses()
        &&& post.spec_send_error() == pre.spec_send_error()
        &&& post.spec_recv_error() == pre.spec_recv_error()
        &&& post.spec_recv_timeout() == pre.spec_recv_timeout()
        &&& match mode {
            ComMode::Broadcast => r is Err,
            ComMode::Specific(_) => r is Ok,
        }
    }

    /// Discovery is rejected on this point-to-point backend; nothing
    /// changes.
    open spec fn scan_ens(
        pre: ComSimulator,
        post: ComSimulator,
        r: Result<Vec<u8>, ComError>,
    ) -> bool {
        &&& post.spec_responses() == pre.spec_responses()
        &&& post.spec_send_error() == pre.spec_send_error()
        &&& post.spec_recv_error() == pre.spec_recv_error()
        &&& post.spec_recv_timeout() == pre.spec_recv_timeout()
        &&& r is Err
    }

    /// An armed receive error is returned once and disarmed; an armed
    /// timeout gives one `Ok(None)` and is disarmed; otherwise the oldest
    /// prepared response is delivered, and an empty queue reads as a
    /// timeout.
    open spec fn recv_ens(
        pre: ComSimulator,
        post: ComSimulator,
        r: Result<Option<Msg>, ComError>,
    ) -> bool {
        &&& post.spec_send_error() == pre.spec_send_error()
        &&& post.spec_recv_error() is None
        &&& match pre.spec_recv_error() {
            Some(e) => {
                &&& r == Err::<Option<Msg>, ComError>(e)
                &&& post.spec_recv_timeout() == pre.spec_recv_timeout()
                &&& post.spec_responses() == pre.spec_responses()
            },
            None => {
                &&& !post.spec_recv_timeout()
                &&& if pre.spec_recv_timeout() {
                    &&& r == Ok::<Option<Msg>, ComError>(None)
                    &&& post.spec_responses() == pre.spec_responses()
                } else if pre.spec_responses().len() > 0 {
                    &&& r == Ok::<Option<Msg>, ComError>(Some(pre.spec_responses()[0]))
                    &&& post.spec_responses() == pre.spec_responses().drop_first()
                } else {
                    &&& r == Ok::<Option<Msg>, ComError>(None)
                    &&& post.spec_responses() == pre.spec_responses()
                }
            },
        }
    }

    fn create() -> (r: Result<Self, ComError>) {
        Ok(ComSimulator::new())
    }

    fn open(&mut self, params: &ComConnParams) -> (r: Result<(), ComError>) {
        Ok(())
    }

    fn is_network() -> (r: bool) {
        false
    }

    fn set_mode(&mut self, mode: ComMode) -> (r: Result<(), ComError>) {
        match mode {
            ComMode::Broadcast => Err(
                ComError::Error(String::from_str("Broadcast is not supported")),
            ),
            ComMode::Specific(_) => Ok(()),
        }
    }

    fn set_timeout(&mut self, timeout_ms: u64) -> (r: Result<(), ComError>) {
        Ok(())
    }

    fn get_timeout(&self) -> (r: u64) {
        0
    }

    fn send(&mut self, msg: &Msg) -> (r: Result<(), ComError>) {
        if self.send_error.is_some() {
            let mut e: Option<ComError> = None;
            core::mem::swap(&mut e, &mut self.send_error);
            match e {
                Some(e) => Err(e),
                None => vstd::pervasive::unreached(),
            }
        } else {
            self.sent_log = Ghost(self.sent_log@.push(*msg));
            Ok(())
        }
    }

    fn recv(&mut self) -> (r: Result<Option<Msg>, ComError>) {
        if self.recv_error.is_some() {
            let mut e: Option<ComError> = None;
            core::mem::swap(&mut e, &mut self.recv_error);
            match e {
                Some(e) => Err(e),
                None => vstd::pervasive::unreached(),
            }
        } else if self.recv_timeout {
            self.recv_timeout = false;
            Ok(None)
        } else if self.responses.len() > 0 {
            let msg = self.responses.remove(0);
            proof {
                assert(self.responses@ =~= old(self).responses@.drop_first());
            }
            Ok(Some(msg))
        } else {
            Ok(None)
        }
    }

    fn scan_network(&mut self) -> (r: Result<Vec<u8>, ComError>) {
        Err(ComError::Error(String::from_str("Discovery needs a network transport")))
    }
}

} // verus!
