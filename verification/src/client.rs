//! The client core: connection state, request-id assignment and outbound
//! message construction.
//!
//! The core owns every protocol decision of the client but performs no I/O:
//! the shell around it opens and closes the byte stream, writes the frames
//! the core hands out, and feeds inbound frames back through the parser and
//! [`crate::rpc::classify`]. The type parameter `L` is the shell's
//! disconnect-listener representation; the core only stores and returns
//! such values, so that listener order and the fire-once rule are decided
//! here.

use vstd::prelude::*;

use crate::errors::AtsError;
use crate::frame::frame;
use crate::json::{clone_bytes, Json, JsonV};
use crate::keys;
use crate::rpc::request_jv;
use crate::ser::ser;

verus! {

/// The mathematical state of a client core.
pub struct ClientStateV<L> {
    pub socket_path: Seq<u8>,
    pub next_id: u64,
    pub connected: bool,
    pub listeners: Seq<L>,
}

/// The verified state of one client: the configured endpoint path, the
/// monotonic request-id counter, the connection flag and the registered
/// disconnect listeners.
pub struct ClientCore<L> {
    socket_path: Vec<u8>,
    next_id: u64,
    connected: bool,
    disconnect_listeners: Vec<L>,
}

impl<L> View for ClientCore<L> {
    type V = ClientStateV<L>;

    closed spec fn view(&self) -> ClientStateV<L> {
        ClientStateV {
            socket_path: self.socket_path@,
            next_id: self.next_id,
            connected: self.connected,
            listeners: self.disconnect_listeners@,
        }
    }
}

/// The state after a successful connect: the flag set, all else kept.
pub open spec fn connect_step<L>(s: ClientStateV<L>) -> ClientStateV<L> {
    ClientStateV { connected: true, ..s }
}

/// The state after a disconnect: the flag cleared, all else kept.
pub open spec fn disconnect_step<L>(s: ClientStateV<L>) -> ClientStateV<L> {
    ClientStateV { connected: false, ..s }
}

/// Connecting an already-connected client changes nothing: connecting is
/// idempotent, and a second connect is a no-op with success.
pub proof fn lemma_connect_idempotent<L>(s: ClientStateV<L>)
    ensures
        connect_step(connect_step(s)) == connect_step(s),
{
}

/// One outbound call, ready for the wire: the id the response must carry
/// and the exact framed bytes to write, contiguously, as one message.
#[derive(Debug)]
pub struct PendingCall {
    pub id: u64,
    pub frame: Vec<u8>,
}

impl<L> ClientCore<L> {
    /// A fresh core for the endpoint at `socket_path`: disconnected, with
    /// the request-id counter at one.
    pub fn new(socket_path: Vec<u8>) -> (c: ClientCore<L>)
        ensures
            c@ == (ClientStateV {
                socket_path: socket_path@,
                next_id: 1u64,
                connected: false,
                listeners: Seq::<L>::empty(),
            }),
    {
        let c = ClientCore {
            socket_path,
            next_id: 1,
            connected: false,
            disconnect_listeners: Vec::new(),
        };
        assert(c@.listeners =~= Seq::<L>::empty());
        c
    }

    /// The configured endpoint path.
    pub fn socket_path(&self) -> (p: &Vec<u8>)
        ensures
            p@ == self@.socket_path,
    {
        &self.socket_path
    }

    /// The id the next outbound request will use; strictly monotonic over
    /// the life of the client.
    pub fn next_id(&self) -> (r: u64)
        ensures
            r == self@.next_id,
    {
        self.next_id
    }

    /// Whether the client currently holds a connection.
    pub fn is_connected(&self) -> (r: bool)
        ensures
            r == self@.connected,
    {
        self.connected
    }

    /// Whether a connect must actually open the endpoint: connecting an
    /// already-connected client is a no-op with success.
    pub fn connect_needed(&self) -> (r: bool)
        ensures
            r == !self@.connected,
    {
        !self.connected
    }

    /// Records that the shell opened the endpoint: the client is connected,
    /// and nothing else changes.
    pub fn mark_connected(&mut self)
        ensures
            final(self)@ == connect_step(old(self)@),
    {
        self.connected = true;
    }

    /// Disconnects: clears the flag and says whether this was the
    /// transition from connected to disconnected. The shell runs every
    /// listener, in registration order, exactly when `fire` is true, so
    /// listeners fire once per transition.
    pub fn disconnect(&mut self) -> (fire: bool)
        ensures
            final(self)@ == disconnect_step(old(self)@),
            fire == old(self)@.connected,
    {
        let fire = self.connected;
        self.connected = false;
        fire
    }

    /// Appends a disconnect listener; listeners keep registration order.
    pub fn on_disconnect(&mut self, listener: L)
        ensures
            final(self)@ == (ClientStateV {
                listeners: old(self)@.listeners.push(listener),
                ..old(self)@
            }),
    {
        self.disconnect_listeners.push(listener);
    }

    /// The registered disconnect listeners, in registration order.
    pub fn listeners(&self) -> (r: &Vec<L>)
        ensures
            r@ == self@.listeners,
    {
        &self.disconnect_listeners
    }

    /// Starts an outbound request: takes the current id, builds the framed
    /// message, and advances the counter. Fails without changing anything
    /// when the client is not connected.
    fn start_request(&mut self, method: Vec<u8>, params: Vec<Json>) -> (r: Result<
        PendingCall,
        AtsError,
    >)
        requires
            old(self)@.next_id <= i64::MAX,
        ensures
            match r {
                Ok(call) => {
                    &&& old(self)@.connected
                    &&& final(self)@ == (ClientStateV {
                        next_id: (old(self)@.next_id + 1) as u64,
                        ..old(self)@
                    })
                    &&& call.id == old(self)@.next_id
                    &&& call.frame@ == frame(
                        ser(
                            request_jv(
                                old(self)@.next_id as i64,
                                method@,
                                Seq::new(
                                    params@.len(),
                                    |i: int|
                                        if 0 <= i < params@.len() {
                                            params@[i].jv()
                                        } else {
                                            JsonV::Null
                                        },
                                ),
                            ),
                        ),
                    )
                },
                Err(e) => {
                    &&& !old(self)@.connected
                    &&& final(self)@ == old(self)@
                    &&& e is Protocol
                    &&& e->Protocol_message@ == keys::not_connected_msg()
                },
            },
    {
        if !self.connected {
            return Err(AtsError::Protocol { message: keys::not_connected_msg_vec() });
        }
        let id = self.next_id;
        self.next_id = self.next_id + 1;
        let msg = crate::rpc::build_request(id as i64, method, params);
        let body = crate::ser::to_bytes(&msg);
        let framed = crate::frame::frame_message(&body);
        Ok(PendingCall { id, frame: framed })
    }

    /// Starts an `invokeCapability` call: params are the capability id and
    /// the argument object, and the request id is the counter's value
    /// before the call, which the counter then moves past.
    pub fn start_invoke_capability(&mut self, capability_id: &Vec<u8>, args: Vec<(Vec<u8>, Json)>)
        -> (r: Result<PendingCall, AtsError>)
        requires
            old(self)@.next_id <= i64::MAX,
        ensures
            match r {
                Ok(call) => {
                    &&& old(self)@.connected
                    &&& final(self)@ == (ClientStateV {
                        next_id: (old(self)@.next_id + 1) as u64,
                        ..old(self)@
                    })
                    &&& call.id == old(self)@.next_id
                    &&& call.frame@ == frame(
                        ser(
                            request_jv(
                                old(self)@.next_id as i64,
                                keys::invoke_capability_method(),
                                seq![
                                    JsonV::Str(capability_id@),
                                    JsonV::Obj(
                                        Seq::new(
                                            args@.len(),
                                            |i: int|
                                                if 0 <= i < args@.len() {
                                                    (args@[i].0@, args@[i].1.jv())
                                                } else {
                                                    (Seq::<u8>::empty(), JsonV::Null)
                                                },
                                        ),
                                    ),
                                ],
                            ),
                        ),
                    )
                },
                Err(e) => {
                    &&& !old(self)@.connected
                    &&& final(self)@ == old(self)@
                    &&& e is Protocol
                    &&& e->Protocol_message@ == keys::not_connected_msg()
                },
            },
    {
        let ghost args_v = Seq::new(
            args@.len(),
            |i: int|
                if 0 <= i < args@.len() {
                    (args@[i].0@, args@[i].1.jv())
                } else {
                    (Seq::<u8>::empty(), JsonV::Null)
                },
        );
        let args_obj = Json::Obj(args);
        assert(args_obj.jv()->Obj_0 =~= args_v);
        let mut params: Vec<Json> = Vec::new();
        params.push(Json::Str(clone_bytes(capability_id)));
        params.push(args_obj);
        assert(params@.len() == 2);
        let r = self.start_request(keys::invoke_capability_method_vec(), params);
        proof {
            if r is Ok {
                assert(Seq::new(
                    2nat,
                    |i: int|
                        if 0 <= i < 2 {
                            params@[i].jv()
                        } else {
                            JsonV::Null
                        },
                ) =~= seq![JsonV::Str(capability_id@), JsonV::Obj(args_v)]);
            }
        }
        r
    }

    /// Starts a `cancelToken` call: the single param is the token id.
    pub fn start_cancel_token(&mut self, token_id: &Vec<u8>) -> (r: Result<PendingCall, AtsError>)
        requires
            old(self)@.next_id <= i64::MAX,
        ensures
            match r {
                Ok(call) => {
                    &&& old(self)@.connected
                    &&& final(self)@ == (ClientStateV {
                        next_id: (old(self)@.next_id + 1) as u64,
                        ..old(self)@
                    })
                    &&& call.id == old(self)@.next_id
                    &&& call.frame@ == frame(
                        ser(
                            request_jv(
                                old(self)@.next_id as i64,
                                keys::cancel_token_method(),
                                seq![JsonV::Str(token_id@)],
                            ),
                        ),
                    )
                },
                Err(e) => {
                    &&& !old(self)@.connected
                    &&& final(self)@ == old(self)@
                    &&& e is Protocol
                    &&& e->Protocol_message@ == keys::not_connected_msg()
                },
            },
    {
        let mut params: Vec<Json> = Vec::new();
        params.push(Json::Str(clone_bytes(token_id)));
        assert(params@.len() == 1);
        let r = self.start_request(keys::cancel_token_method_vec(), params);
        proof {
            if r is Ok {
                assert(Seq::new(
                    1nat,
                    |i: int|
                        if 0 <= i < 1 {
                            params@[i].jv()
                        } else {
                            JsonV::Null
                        },
                ) =~= seq![JsonV::Str(token_id@)]);
            }
        }
        r
    }
}

} // verus!
