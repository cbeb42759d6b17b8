//! The decisions of a client session: where an incoming message goes, when
//! the connection attempt settles, and the requests and subscriptions the
//! client keeps.
use crate::client::{handshake_text, request_text, text_of, handshake_json, request_json, ClientConfig};
use crate::codes::MessageType;
use crate::handlers::{answers, unpicked, HandlerRegistry};
use crate::pending::{distinct_keys, entries_map, PendingRequests, Settlement};
use crate::protocol::{encoded_as, DecodeError, Decoded, Protocol, WireMessage, decoded_as};
use vstd::prelude::*;
use vstd::string::StringExecFns;

verus! {

/// Where an incoming message goes.
#[derive(Clone, Copy, Debug, PartialEq, Eq, Structural)]
pub enum MessageRoute {
    /// The server's answer to the handshake.
    HandshakeReply,
    /// The response to a request.
    Reply,
    /// A message for the `stream` subscribers.
    Stream,
    /// Nothing is done with it.
    Ignore,
}

/// The route of a message by its type code; a message without one counts
/// as code 0.
pub open spec fn route_of(msg_type: Option<u8>) -> MessageRoute {
    let t = match msg_type {
        Some(t) => t,
        None => 0,
    };
    if t == MessageType::HandshakeResponse.code_of() {
        MessageRoute::HandshakeReply
    } else if t == MessageType::Response.code_of() {
        MessageRoute::Reply
    } else if t == MessageType::Stream.code_of() {
        MessageRoute::Stream
    } else {
        MessageRoute::Ignore
    }
}

/// Routes an incoming message by its type code.
pub fn route(msg_type: Option<u8>) -> (r: MessageRoute)
    ensures
        r == route_of(msg_type),
        r == MessageRoute::HandshakeReply <==> msg_type == Some(2u8),
        r == MessageRoute::Reply <==> msg_type == Some(4u8),
        r == MessageRoute::Stream <==> msg_type == Some(5u8),
{
    let t = match msg_type {
        Some(t) => t,
        None => 0,
    };
    if t == 2 {
        MessageRoute::HandshakeReply
    } else if t == 4 {
        MessageRoute::Reply
    } else if t == 5 {
        MessageRoute::Stream
    } else {
        MessageRoute::Ignore
    }
}

/// Only handshake replies (code 2), responses (code 4) and stream messages
/// (code 5) are acted on; every other code, and a message without one, is
/// ignored.
pub proof fn lemma_route_cases(t: u8)
    ensures
        route_of(Some(t)) == MessageRoute::HandshakeReply <==> t == 2,
        route_of(Some(t)) == MessageRoute::Reply <==> t == 4,
        route_of(Some(t)) == MessageRoute::Stream <==> t == 5,
        route_of(Some(t)) == MessageRoute::Ignore <==> (t != 2 && t != 4 && t != 5),
        route_of(None) == MessageRoute::Ignore,
{
}

/// Which of the connection attempt's two callbacks are still unused.
#[derive(Clone, Copy, Debug, PartialEq, Eq, Structural)]
pub struct ConnectState {
    pub can_resolve: bool,
    pub can_reject: bool,
}

/// What settles, or tries to settle, a connection attempt.
pub enum ConnectEvent {
    /// The handshake reply: accepted or not.
    Reply(bool),
    /// The socket reported an error.
    SocketError,
}

/// Which callback of the connection attempt an event calls.
#[derive(Clone, Copy, Debug, PartialEq, Eq, Structural)]
pub enum SignalKind {
    Resolve,
    Reject,
    Nothing,
}

/// The effect of an event on a connection attempt: an acceptance calls the
/// resolve callback, a refusal or a socket error the reject callback, each
/// only while it is unused.
pub open spec fn connect_step(s: ConnectState, e: ConnectEvent) -> (ConnectState, SignalKind) {
    match e {
        ConnectEvent::Reply(true) => if s.can_resolve {
            (ConnectState { can_resolve: false, can_reject: s.can_reject }, SignalKind::Resolve)
        } else {
            (s, SignalKind::Nothing)
        },
        _ => if s.can_reject {
            (ConnectState { can_resolve: s.can_resolve, can_reject: false }, SignalKind::Reject)
        } else {
            (s, SignalKind::Nothing)
        },
    }
}

/// How many times a sequence of events calls each callback, from state `s`.
pub open spec fn connect_calls(s: ConnectState, events: Seq<ConnectEvent>) -> (nat, nat)
    decreases events.len(),
{
    if events.len() == 0 {
        (0, 0)
    } else {
        let (next, kind) = connect_step(s, events[0]);
        let (r, j) = connect_calls(next, events.drop_first());
        (
            if kind == SignalKind::Resolve {
                r + 1
            } else {
                r
            },
            if kind == SignalKind::Reject {
                j + 1
            } else {
                j
            },
        )
    }
}

/// Whatever events come, a connection attempt calls its resolve callback at
/// most once and its reject callback at most once, and neither once it is
/// used.
pub proof fn lemma_connect_settles_once(s: ConnectState, events: Seq<ConnectEvent>)
    ensures
        connect_calls(s, events).0 <= (if s.can_resolve {
            1nat
        } else {
            0nat
        }),
        connect_calls(s, events).1 <= (if s.can_reject {
            1nat
        } else {
            0nat
        }),
    decreases events.len(),
{
    if events.len() > 0 {
        let (next, kind) = connect_step(s, events[0]);
        lemma_connect_settles_once(next, events.drop_first());
    }
}

/// What a connection attempt does: resolve, or reject with a reason.
pub enum ConnectSignal {
    Resolve,
    Reject(String),
    Nothing,
}

/// The kind of a signal.
pub open spec fn signal_kind(s: ConnectSignal) -> SignalKind {
    match s {
        ConnectSignal::Resolve => SignalKind::Resolve,
        ConnectSignal::Reject(_) => SignalKind::Reject,
        ConnectSignal::Nothing => SignalKind::Nothing,
    }
}

/// A pending connection attempt, which holds a resolve and a reject
/// callback and uses each at most once.
pub struct ConnectAttempt {
    can_resolve: bool,
    can_reject: bool,
}

impl View for ConnectAttempt {
    type V = ConnectState;

    closed spec fn view(&self) -> ConnectState {
        ConnectState { can_resolve: self.can_resolve, can_reject: self.can_reject }
    }
}

impl ConnectAttempt {
    /// An attempt whose callbacks are both unused.
    pub fn new() -> (a: Self)
        ensures
            a@ == (ConnectState { can_resolve: true, can_reject: true }),
    {
        ConnectAttempt { can_resolve: true, can_reject: true }
    }

    /// The server answered the handshake. An absent `accepted` counts as a
    /// refusal, and a refusal without an error text gives the reason
    /// "Connection rejected".
    pub fn on_handshake_reply(&mut self, accepted: Option<bool>, error: Option<String>) -> (s:
        ConnectSignal)
        ensures
            (final(self)@, signal_kind(s)) == connect_step(
                old(self)@,
                ConnectEvent::Reply(
                    match accepted {
                        Some(b) => b,
                        None => false,
                    },
                ),
            ),
            s matches ConnectSignal::Reject(reason) ==> reason@ == match error {
                Some(e) => e@,
                None => "Connection rejected"@,
            },
    {
        let ok = match accepted {
            Some(b) => b,
            None => false,
        };
        if ok {
            if self.can_resolve {
                self.can_resolve = false;
                ConnectSignal::Resolve
            } else {
                ConnectSignal::Nothing
            }
        } else if self.can_reject {
            self.can_reject = false;
            let reason = match error {
                Some(e) => e,
                None => String::from_str("Connection rejected"),
            };
            ConnectSignal::Reject(reason)
        } else {
            ConnectSignal::Nothing
        }
    }

    /// The socket reported an error: the attempt is rejected with the
    /// reason "WebSocket error" if its reject callback is unused.
    pub fn on_socket_error(&mut self) -> (s: ConnectSignal)
        ensures
            (final(self)@, signal_kind(s)) == connect_step(old(self)@, ConnectEvent::SocketError),
            s matches ConnectSignal::Reject(reason) ==> reason@ == "WebSocket error"@,
    {
        if self.can_reject {
            self.can_reject = false;
            ConnectSignal::Reject(String::from_str("WebSocket error"))
        } else {
            ConnectSignal::Nothing
        }
    }
}

/// How starting a request turned out.
pub enum RequestStart<C, E> {
    /// The message to send.
    Send(WireMessage),
    /// Refused: the callbacks and the reason to reject them with.
    Refused(C, String),
    /// The parameters could not be written; the request stays recorded.
    Failed(E),
}

/// The state a ZAP client keeps: its settings, its codec, the requests in
/// flight (with callbacks `C`) and the event subscriptions (handlers `H`).
pub struct ZapClient<C, H> {
    config: ClientConfig,
    protocol: Protocol,
    pending: PendingRequests<C>,
    handlers: HandlerRegistry<H>,
}

impl<C, H> ZapClient<C, H> {
    /// The client's settings.
    pub closed spec fn settings(&self) -> ClientConfig {
        self.config
    }

    /// The requests in flight.
    pub closed spec fn requests(&self) -> Map<Seq<char>, C> {
        self.pending@
    }

    /// The event subscriptions.
    pub closed spec fn subscriptions(&self) -> Map<Seq<char>, Seq<H>> {
        self.handlers@
    }

    /// Whether the client writes binary frames.
    pub closed spec fn binary_mode(&self) -> bool {
        self.protocol.is_binary()
    }

    /// A client with the given settings, nothing in flight and no
    /// subscription; its codec is binary exactly when the settings say so.
    pub fn new(config: ClientConfig) -> (c: Self)
        ensures
            c.settings() == config,
            c.binary_mode() == config.binary,
            c.requests() == Map::<Seq<char>, C>::empty(),
            c.subscriptions() == Map::<Seq<char>, Seq<H>>::empty(),
    {
        let protocol = Protocol::new(Some(config.binary));
        ZapClient { config, protocol, pending: PendingRequests::new(), handlers: HandlerRegistry::new() }
    }

    /// The client's identifier.
    pub fn client_id(&self) -> (id: String)
        ensures
            id@ == self.settings().client_id@,
    {
        self.config.client_id.clone()
    }

    /// The client's settings.
    pub fn config(&self) -> (c: &ClientConfig)
        ensures
            *c == self.settings(),
    {
        &self.config
    }

    /// The number of requests in flight.
    pub fn pending_count(&self) -> (n: usize)
        ensures
            n == self.requests().len(),
    {
        self.pending.len()
    }

    /// Whether request `id` is in flight.
    pub fn is_pending(&self, id: &String) -> (b: bool)
        ensures
            b == self.requests().contains_key(id@),
    {
        self.pending.contains(id)
    }

    /// The handshake message, sent once the socket opens.
    pub fn handshake_message(&self) -> (w: WireMessage)
        ensures
            encoded_as(
                w,
                self.binary_mode(),
                MessageType::Handshake.code_of(),
                Some(handshake_text(self.settings())),
            ),
    {
        let text = handshake_json(&self.config);
        self.protocol.encode_handshake(Some(text.as_str()))
    }

    /// Starts a request with the given method and parameters (their JSON
    /// text, or why they have none). Without an open connection the request
    /// is refused with the reason "Not connected" and its callbacks are
    /// handed back. Otherwise its callbacks are recorded under `id`, and the
    /// message to send is returned, or the parameters' error when they
    /// could not be written.
    pub fn request<E>(
        &mut self,
        connected: bool,
        id: String,
        method: &str,
        params: Result<Option<String>, E>,
        callbacks: C,
    ) -> (r: RequestStart<C, E>)
        ensures
            !connected ==> final(self).requests() == old(self).requests(),
            !connected ==> (r matches RequestStart::Refused(c, reason) && c == callbacks && reason@
                == "Not connected"@),
            connected ==> final(self).requests() == old(self).requests().insert(id@, callbacks),
            connected ==> match params {
                Err(e) => r matches RequestStart::Failed(f) && f == e,
                Ok(p) => r matches RequestStart::Send(w) && encoded_as(
                    w,
                    old(self).binary_mode(),
                    MessageType::Request.code_of(),
                    Some(request_text(id@, method@, text_of(p))),
                ),
            },
            final(self).settings() == old(self).settings(),
            final(self).binary_mode() == old(self).binary_mode(),
            final(self).subscriptions() == old(self).subscriptions(),
    {
        if !connected {
            return RequestStart::Refused(callbacks, String::from_str("Not connected"));
        }
        let p = match params {
            Ok(p) => p,
            Err(e) => {
                self.pending.insert(id, callbacks);
                return RequestStart::Failed(e);
            },
        };
        let text = match &p {
            Some(t) => request_json(id.as_str(), method, Some(t.as_str())),
            None => request_json(id.as_str(), method, None),
        };
        let w = self.protocol.encode_request(Some(text.as_str()));
        self.pending.insert(id, callbacks);
        RequestStart::Send(w)
    }

    /// Records callbacks under `id` without sending anything.
    pub fn register(&mut self, id: String, callbacks: C)
        ensures
            final(self).requests() == old(self).requests().insert(id@, callbacks),
            final(self).settings() == old(self).settings(),
            final(self).binary_mode() == old(self).binary_mode(),
            final(self).subscriptions() == old(self).subscriptions(),
    {
        self.pending.insert(id, callbacks);
    }

    /// Handles a response whose `id` member is given (an absent one counts
    /// as the empty identifier): the request it answers, if in flight, is
    /// forgotten and handed back with whether to reject or resolve it.
    pub fn on_reply(&mut self, id: Option<String>, has_error: bool) -> (s: Option<Settlement<C>>)
        ensures
            ({
                let key = match id {
                    Some(i) => i@,
                    None => Seq::<char>::empty(),
                };
                &&& final(self).requests() == old(self).requests().remove(key)
                &&& match s {
                    Some(Settlement::Resolve(c)) => !has_error && old(self).requests().contains_key(
                        key,
                    ) && c == old(self).requests()[key],
                    Some(Settlement::Reject(c)) => has_error && old(self).requests().contains_key(
                        key,
                    ) && c == old(self).requests()[key],
                    None => !old(self).requests().contains_key(key),
                }
            }),
            final(self).settings() == old(self).settings(),
            final(self).binary_mode() == old(self).binary_mode(),
            final(self).subscriptions() == old(self).subscriptions(),
    {
        let key = match id {
            Some(i) => i,
            None => String::new(),
        };
        self.pending.settle(&key, has_error)
    }

    /// Closes the session: every request in flight is forgotten and handed
    /// back, each once, to be rejected.
    pub fn close(&mut self) -> (all: Vec<(String, C)>)
        ensures
            final(self).requests() == Map::<Seq<char>, C>::empty(),
            all@.len() == old(self).requests().len(),
            distinct_keys(all@),
            entries_map(all@) == old(self).requests(),
            final(self).settings() == old(self).settings(),
            final(self).binary_mode() == old(self).binary_mode(),
            final(self).subscriptions() == old(self).subscriptions(),
    {
        self.pending.drain()
    }

    /// Subscribes `handler` to `event`.
    pub fn on(&mut self, event: String, handler: H)
        ensures
            final(self).subscriptions() == old(self).subscriptions().insert(
                event@,
                if old(self).subscriptions().contains_key(event@) {
                    old(self).subscriptions()[event@]
                } else {
                    Seq::<H>::empty()
                }.push(handler),
            ),
            final(self).requests() == old(self).requests(),
            final(self).settings() == old(self).settings(),
            final(self).binary_mode() == old(self).binary_mode(),
    {
        self.handlers.on(event, handler);
    }

    /// Unsubscribes from `event` every handler that `is_target` picks.
    pub fn off<F: Fn(&H) -> bool>(&mut self, event: &String, is_target: F)
        requires
            forall|h: &H| is_target.requires((h,)),
        ensures
            !old(self).subscriptions().contains_key(event@) ==> final(self).subscriptions() == old(self).subscriptions(),
            old(self).subscriptions().contains_key(event@) ==> exists|picked: Seq<bool>|
                answers(is_target, old(self).subscriptions()[event@], picked) && final(self).subscriptions() == old(self).subscriptions().insert(
                    event@,
                    unpicked(old(self).subscriptions()[event@], picked),
                ),
            final(self).requests() == old(self).requests(),
            final(self).settings() == old(self).settings(),
            final(self).binary_mode() == old(self).binary_mode(),
    {
        self.handlers.off(event, is_target);
    }

    /// The handlers subscribed to `event`, if it has a subscription.
    pub fn listeners(&self, event: &String) -> (r: Option<&Vec<H>>)
        ensures
            match r {
                Some(list) => self.subscriptions().contains_key(event@) && list@
                    == self.subscriptions()[event@],
                None => !self.subscriptions().contains_key(event@),
            },
    {
        self.handlers.listeners(event)
    }

    /// Decodes an incoming message with the client's codec.
    pub fn decode(&self, msg: &WireMessage) -> (r: Result<Decoded, DecodeError>)
        ensures
            decoded_as(*msg, r),
    {
        self.protocol.decode(msg)
    }
}

/// Closing a session rejects each request in flight exactly once: the
/// requests handed back are those in flight, none twice, and none is left.
pub proof fn lemma_close_hands_back_all<C>(before: Map<Seq<char>, C>, all: Seq<(String, C)>)
    requires
        before.dom().finite(),
        all.len() == before.len(),
        distinct_keys(all),
        entries_map(all) == before,
    ensures
        forall|id: Seq<char>| #[trigger] before.contains_key(id) <==> exists|i: int|
            0 <= i < all.len() && all[i].0@ == id,
        forall|i: int, j: int|
            0 <= i < all.len() && 0 <= j < all.len() && i != j ==> #[trigger] all[i].0@
                != #[trigger] all[j].0@,
{
    assert forall|id: Seq<char>| #[trigger] before.contains_key(id) <==> exists|i: int|
        0 <= i < all.len() && all[i].0@ == id by {
        if before.contains_key(id) {
            let i = choose|i: int| crate::pending::keyed(all, i, id);
            assert(0 <= i < all.len() && all[i].0@ == id);
        }
        if exists|i: int| 0 <= i < all.len() && all[i].0@ == id {
            let i = choose|i: int| 0 <= i < all.len() && all[i].0@ == id;
            assert(crate::pending::keyed(all, i, id));
        }
    }
}

} // verus!
