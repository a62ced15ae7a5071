//! The broker: a registry, a router and an optional credential record, and
//! the state machine of one connection over them.

use vstd::prelude::*;
use vstd::utf8::encode_utf8;
use crate::codec::frame_spec;
use crate::codec::ContentKind;
use crate::codec::keep_alive;
use crate::codec::keep_alive_frame;
use crate::credential::verify;
use crate::credential::verify_spec;
use crate::credential::CredentialRecord;
use crate::credential::CredentialRecordView;
use crate::dispatch::bad_request_view;
use crate::dispatch::event_stream_head;
use crate::dispatch::index_view;
use crate::dispatch::internal_error_view;
use crate::dispatch::not_found_view;
use crate::dispatch::published_view;
use crate::dispatch::route;
use crate::dispatch::route_spec;
use crate::dispatch::stats_view;
use crate::dispatch::unauthorized_view;
use crate::dispatch::Body;
use crate::dispatch::Method;
use crate::dispatch::Response;
use crate::dispatch::Route;
use crate::dispatch::StreamHead;
use crate::error::SseError;
use crate::registry::closed;
use crate::registry::enrolled;
use crate::registry::entrant;
use crate::registry::has_member;
use crate::registry::holds_random_uuid;
use crate::registry::position;
use crate::registry::subscriptions_view;
use crate::registry::taken;
use crate::registry::without;
use crate::registry::Connection;
use crate::registry::Registry;
use crate::registry::Subscription;
use crate::registry::SubscriptionView;
use crate::router::augmented;
use crate::router::delivered;
use crate::router::published_message;
use crate::router::Router;
use crate::router::RouterView;

verus! {

/// A request as the owner of the transport has read it.
#[derive(Debug)]
pub struct Request {
    pub method: Method,
    pub path: String,
    /// The announced length of the body, if one was announced.
    pub content_length: Option<u64>,
    /// The secret that came with the request, if one came.
    pub secret: Option<String>,
    pub body: Vec<u8>,
}

/// What the check of a publisher's secret came to.
#[derive(Clone, Copy, Debug, PartialEq, Eq, Structural)]
pub enum Authorization {
    /// No record is configured, or the secret matches it.
    Granted,
    /// The secret is missing or does not match.
    Denied,
    /// The configured record cannot be derived with.
    Misconfigured,
}

/// Where a connection stands.
#[derive(Clone, Copy, Debug, PartialEq, Eq, Structural)]
pub enum Phase {
    /// It waits for a request.
    Idle,
    /// It streams frames to the subscriber with this identifier.
    Streaming(u128),
    /// It is over.
    Terminal,
}

/// What happened on a connection.
#[derive(Debug)]
pub enum Event {
    /// A request came in on this connection.
    Request(Request, Connection),
    /// Frames may have been queued for the stream.
    Wake,
    /// Nothing was written to the stream for the keep-alive interval.
    Quiet,
    /// The peer closed the connection.
    Disconnected,
    /// A write to the connection failed.
    WriteFailed,
}

/// A response with the subscriptions that the request made leave the
/// registry, whose connections are to be released.
#[derive(Debug)]
pub struct Reply {
    pub response: Response,
    pub released: Vec<Subscription>,
}

/// What the owner of the transport is to do next.
#[derive(Debug)]
pub enum Action {
    /// Send the response and release the connections.
    Respond(Reply),
    /// Answer with this head, and stream to this subscriber from now on.
    OpenStream(u128, StreamHead),
    /// Write these bytes to the stream.
    Send(Vec<u8>),
    /// Nothing to do now.
    Wait,
    /// Close the connection, and release that of the subscription.
    Close(Option<Subscription>),
}

/// A record, if there is one, as plain values.
pub open spec fn record_view(credential: Option<CredentialRecord>) -> Option<CredentialRecordView> {
    match credential {
        Some(record) => Some(record@),
        None => None,
    }
}

/// A secret, if there is one, as its characters.
pub open spec fn secret_view(secret: Option<String>) -> Option<Seq<char>> {
    match secret {
        Some(text) => Some(text@),
        None => None,
    }
}

/// Whether a publisher with this secret may publish.
pub open spec fn authorize_spec(
    credential: Option<CredentialRecordView>,
    secret: Option<Seq<char>>,
) -> Authorization {
    match credential {
        None => Authorization::Granted,
        Some(record) => match secret {
            None => Authorization::Denied,
            Some(text) => match verify_spec(text, record) {
                Some(true) => Authorization::Granted,
                Some(false) => Authorization::Denied,
                None => Authorization::Misconfigured,
            },
        },
    }
}

/// Whether a body announces a length over the bound.
pub open spec fn declared_too_long(kind: Body, max_body: nat) -> bool {
    kind matches Body::Len(n) && n > max_body
}

/// The status that a publish request is answered with.
pub open spec fn publish_status(
    credential: Option<CredentialRecordView>,
    router: RouterView,
    secret: Option<Seq<char>>,
    kind: Body,
    body: Seq<u8>,
) -> u16 {
    match authorize_spec(credential, secret) {
        Authorization::Denied => 401,
        Authorization::Misconfigured => 500,
        Authorization::Granted => if declared_too_long(kind, router.max_body) || body.len()
            > router.max_body || augmented(body, router.marker_key, router.marker_value)
            is None {
            400
        } else if router.published == u64::MAX {
            500
        } else {
            200
        },
    }
}

/// The broker.
#[derive(Debug)]
pub struct Broker {
    pub registry: Registry,
    pub router: Router,
    /// The record that publishers are checked against, if any.
    pub credential: Option<CredentialRecord>,
}

/// Nothing but the members and the router can change in a broker.
pub open spec fn same_settings(before: Broker, after: Broker) -> bool {
    &&& after.registry.limit() == before.registry.limit()
    &&& after.credential == before.credential
    &&& after.router@.max_body == before.router@.max_body
    &&& after.router@.marker_key == before.router@.marker_key
    &&& after.router@.marker_value == before.router@.marker_value
}

/// Neither the members nor the router have changed.
pub open spec fn untouched(before: Broker, after: Broker) -> bool {
    &&& after.registry.members() == before.registry.members()
    &&& after.router@ == before.router@
}

/// What `on_publish` does and answers.
pub open spec fn publish_post(
    before: Broker,
    secret: Option<Seq<char>>,
    kind: Body,
    body: Seq<u8>,
    after: Broker,
    reply: Reply,
) -> bool {
    let status = publish_status(record_view(before.credential), before.router@, secret, kind, body);
    if status == 200 {
        &&& augmented(body, before.router@.marker_key, before.router@.marker_value) matches Some(
            text,
        )
        &&& reply.response@ == published_view(text)
        &&& delivered(
            before.router@,
            before.registry.members(),
            before.registry.limit(),
            encode_utf8(text),
            after.router@,
            after.registry.members(),
            (before.router@.published + 1) as u64,
            frame_spec(
                published_message((before.router@.published + 1) as u64, encode_utf8(text)),
            ),
            subscriptions_view(reply.released@),
        )
    } else {
        &&& untouched(before, after)
        &&& reply.released@.len() == 0
        &&& reply.response@ == if status == 400 {
            bad_request_view()
        } else if status == 401 {
            unauthorized_view()
        } else {
            internal_error_view()
        }
    }
}

/// What `on_subscribe` does and asks for.
pub open spec fn subscribe_post(
    before: Broker,
    connection: Connection,
    after: Broker,
    next: Phase,
    action: Action,
) -> bool {
    &&& after.router@ == before.router@
    &&& match action {
        Action::OpenStream(id, head) => {
            &&& connection.open
            &&& head == event_stream_head()
            &&& next == Phase::Streaming(id)
            &&& !has_member(before.registry.members(), id)
            &&& after.registry.members() == enrolled(before.registry.members(), id, connection)
        },
        Action::Respond(reply) => {
            &&& connection.open
            &&& holds_random_uuid(before.registry.members())
            &&& next == Phase::Idle
            &&& reply.response@ == internal_error_view()
            &&& reply.released@.len() == 0
            &&& after.registry.members() == before.registry.members()
        },
        Action::Close(released) => {
            &&& !connection.open
            &&& next == Phase::Terminal
            &&& released is None
            &&& after.registry.members() == before.registry.members()
        },
        _ => false,
    }
}

/// What `on_request` does and asks for.
pub open spec fn request_post(
    before: Broker,
    request: Request,
    connection: Connection,
    after: Broker,
    next: Phase,
    action: Action,
) -> bool {
    match route_spec(request.method, request.path@, request.content_length) {
        Route::Index => {
            &&& untouched(before, after)
            &&& next == Phase::Idle
            &&& action matches Action::Respond(reply)
            &&& reply.response@ == index_view()
            &&& reply.released@.len() == 0
        },
        Route::NotFound => {
            &&& untouched(before, after)
            &&& next == Phase::Idle
            &&& action matches Action::Respond(reply)
            &&& reply.response@ == not_found_view()
            &&& reply.released@.len() == 0
        },
        Route::Stats => {
            &&& untouched(before, after)
            &&& next == Phase::Idle
            &&& action matches Action::Respond(reply)
            &&& reply.response@ == stats_view(
                before.registry.members().len(),
                before.router@.published as nat,
            )
            &&& reply.released@.len() == 0
        },
        Route::Subscribe => subscribe_post(before, connection, after, next, action),
        Route::Publish(kind) => {
            &&& next == Phase::Idle
            &&& action matches Action::Respond(reply)
            &&& publish_post(before, secret_view(request.secret), kind, request.body@, after, reply)
        },
    }
}

/// What `on_wake` does and asks for.
pub open spec fn wake_post(before: Broker, id: u128, after: Broker, next: Phase, action: Action) -> bool {
    let members = before.registry.members();
    &&& after.router@ == before.router@
    &&& after.registry.members() == taken(members, id)
    &&& if !has_member(members, id) {
        next == Phase::Terminal && action == Action::Close(None)
    } else if members[position(members, id)].queue.len() == 0 {
        next == Phase::Streaming(id) && action == Action::Wait
    } else {
        &&& next == Phase::Streaming(id)
        &&& action matches Action::Send(frame)
        &&& frame@ == members[position(members, id)].queue[0]
    }
}

/// What `on_quiet` asks for.
pub open spec fn quiet_post(broker: Broker, id: u128, next: Phase, action: Action) -> bool {
    if has_member(broker.registry.members(), id) {
        &&& next == Phase::Streaming(id)
        &&& action matches Action::Send(frame)
        &&& frame@ == keep_alive_frame()
    } else {
        next == Phase::Terminal && action == Action::Close(None)
    }
}

/// What `on_disconnect` does and asks for.
pub open spec fn disconnect_post(
    before: Broker,
    id: u128,
    after: Broker,
    next: Phase,
    action: Action,
) -> bool {
    let members = before.registry.members();
    &&& after.router@ == before.router@
    &&& after.registry.members() == without(members, id)
    &&& next == Phase::Terminal
    &&& action matches Action::Close(released)
    &&& match released {
        Some(subscription) => has_member(members, id) && subscription@ == closed(
            members[position(members, id)],
        ),
        None => !has_member(members, id),
    }
}

/// What `step` does and asks for.
pub open spec fn step_post(
    before: Broker,
    phase: Phase,
    event: Event,
    after: Broker,
    next: Phase,
    action: Action,
) -> bool {
    match phase {
        Phase::Idle => match event {
            Event::Request(request, connection) => request_post(
                before,
                request,
                connection,
                after,
                next,
                action,
            ),
            Event::Wake => untouched(before, after) && next == Phase::Idle && action
                == Action::Wait,
            Event::Quiet => untouched(before, after) && next == Phase::Idle && action
                == Action::Wait,
            Event::Disconnected => untouched(before, after) && next == Phase::Terminal && action
                == Action::Close(None),
            Event::WriteFailed => untouched(before, after) && next == Phase::Terminal && action
                == Action::Close(None),
        },
        Phase::Streaming(id) => match event {
            Event::Request(_, _) => untouched(before, after) && next == Phase::Streaming(id)
                && action == Action::Wait,
            Event::Wake => wake_post(before, id, after, next, action),
            Event::Quiet => untouched(before, after) && quiet_post(before, id, next, action),
            Event::Disconnected => disconnect_post(before, id, after, next, action),
            Event::WriteFailed => disconnect_post(before, id, after, next, action),
        },
        Phase::Terminal => untouched(before, after) && next == Phase::Terminal && action
            == Action::Close(None),
    }
}

impl Broker {
    /// The invariant of the broker: that of its registry.
    pub open spec fn wf(&self) -> bool {
        self.registry.wf()
    }

    /// A broker without subscribers that has published nothing.
    pub fn new(capacity: usize, max_body: usize, credential: Option<CredentialRecord>) -> (broker:
        Broker)
        ensures
            broker.wf(),
            broker.registry.members() == Seq::<SubscriptionView>::empty(),
            broker.registry.limit() == capacity,
            broker.router@ == (RouterView {
                published: 0,
                max_body: max_body as nat,
                marker_key: "test"@,
                marker_value: "test_value"@,
            }),
            broker.credential == credential,
    {
        Broker { registry: Registry::new(capacity), router: Router::new(max_body), credential }
    }

    /// Checks a publisher's secret against the configured record.
    pub fn authorize(&self, secret: &Option<String>) -> (verdict: Authorization)
        ensures
            verdict == authorize_spec(record_view(self.credential), secret_view(*secret)),
    {
        match &self.credential {
            None => Authorization::Granted,
            Some(record) => match secret {
                None => Authorization::Denied,
                Some(text) => match verify(text.as_str(), record) {
                    Ok(true) => Authorization::Granted,
                    Ok(false) => Authorization::Denied,
                    Err(_) => Authorization::Misconfigured,
                },
            },
        }
    }

    /// Whether a body of this kind is worth reading: not where it announces
    /// a length over the bound.
    pub fn accepts(&self, kind: Body) -> (accepted: bool)
        ensures
            accepted == !declared_too_long(kind, self.router@.max_body),
    {
        match kind {
            Body::Len(n) => n <= self.router.max_body() as u64,
            Body::Chunked => true,
        }
    }

    /// Answers a publish request: the secret is checked first, then the body
    /// is published.
    pub fn on_publish(&mut self, secret: &Option<String>, kind: Body, body: &[u8]) -> (reply: Reply)
        requires
            old(self).wf(),
        ensures
            final(self).wf(),
            same_settings(*old(self), *final(self)),
            publish_post(*old(self), secret_view(*secret), kind, body@, *final(self), reply),
    {
        match self.authorize(secret) {
            Authorization::Denied => {
                return Reply { response: Response::unauthorized(), released: Vec::new() };
            },
            Authorization::Misconfigured => {
                return Reply { response: Response::internal_error(), released: Vec::new() };
            },
            Authorization::Granted => {},
        }
        if !self.accepts(kind) {
            return Reply { response: Response::bad_request(), released: Vec::new() };
        }
        match self.router.publish(&mut self.registry, body) {
            Ok(published) => Reply {
                response: Response::published(published.body.as_str()),
                released: published.dropped,
            },
            Err(error) => Reply { response: Response::for_error(&error), released: Vec::new() },
        }
    }

    /// Answers a subscribe request: the connection becomes a subscriber's
    /// stream, whose answer has status 200 and is an event stream. A closed
    /// connection is only closed. On an open one the request fails, with
    /// status 500, only where the identifier drawn is that of a member.
    pub fn on_subscribe(&mut self, connection: Connection) -> (r: (Phase, Action))
        requires
            old(self).wf(),
        ensures
            final(self).wf(),
            same_settings(*old(self), *final(self)),
            subscribe_post(*old(self), connection, *final(self), r.0, r.1),
    {
        match self.registry.register(connection) {
            Ok(id) => (Phase::Streaming(id), Action::OpenStream(id, StreamHead::event_stream())),
            Err(SseError::ConnectionError) => (Phase::Terminal, Action::Close(None)),
            Err(_) => (
                Phase::Idle,
                Action::Respond(
                    Reply { response: Response::internal_error(), released: Vec::new() },
                ),
            ),
        }
    }

    /// Answers a request on an idle connection.
    pub fn on_request(&mut self, request: &Request, connection: Connection) -> (r: (Phase, Action))
        requires
            old(self).wf(),
        ensures
            final(self).wf(),
            same_settings(*old(self), *final(self)),
            request_post(*old(self), *request, connection, *final(self), r.0, r.1),
    {
        match route(request.method, request.path.as_str(), request.content_length) {
            Route::Index => (
                Phase::Idle,
                Action::Respond(Reply { response: Response::index(), released: Vec::new() }),
            ),
            Route::NotFound => (
                Phase::Idle,
                Action::Respond(Reply { response: Response::not_found(), released: Vec::new() }),
            ),
            Route::Stats => (
                Phase::Idle,
                Action::Respond(
                    Reply {
                        response: Response::stats(self.registry.count(), self.router.published()),
                        released: Vec::new(),
                    },
                ),
            ),
            Route::Subscribe => self.on_subscribe(connection),
            Route::Publish(kind) => {
                let reply = self.on_publish(&request.secret, kind, request.body.as_slice());
                (Phase::Idle, Action::Respond(reply))
            },
        }
    }

    /// Looks for a frame to write to a subscriber's stream.
    pub fn on_wake(&mut self, id: u128) -> (r: (Phase, Action))
        requires
            old(self).wf(),
        ensures
            final(self).wf(),
            same_settings(*old(self), *final(self)),
            wake_post(*old(self), id, *final(self), r.0, r.1),
    {
        if !self.registry.contains(id) {
            return (Phase::Terminal, Action::Close(None));
        }
        match self.registry.next_frame(id) {
            Some(frame) => (Phase::Streaming(id), Action::Send(frame)),
            None => (Phase::Streaming(id), Action::Wait),
        }
    }

    /// Keeps an idle stream open with a keep-alive frame, unless its
    /// subscriber has left the registry.
    pub fn on_quiet(&self, id: u128) -> (r: (Phase, Action))
        ensures
            quiet_post(*self, id, r.0, r.1),
    {
        if self.registry.contains(id) {
            (Phase::Streaming(id), Action::Send(keep_alive()))
        } else {
            (Phase::Terminal, Action::Close(None))
        }
    }

    /// Ends a stream whose peer is gone: its subscriber leaves the registry.
    pub fn on_disconnect(&mut self, id: u128) -> (r: (Phase, Action))
        requires
            old(self).wf(),
        ensures
            final(self).wf(),
            same_settings(*old(self), *final(self)),
            disconnect_post(*old(self), id, *final(self), r.0, r.1),
    {
        let released = self.registry.deregister(id);
        (Phase::Terminal, Action::Close(released))
    }

    /// One step of a connection: from where it stands and what happened to
    /// where it stands next and what is to be done.
    pub fn step(&mut self, phase: Phase, event: Event) -> (r: (Phase, Action))
        requires
            old(self).wf(),
        ensures
            final(self).wf(),
            same_settings(*old(self), *final(self)),
            step_post(*old(self), phase, event, *final(self), r.0, r.1),
    {
        match phase {
            Phase::Idle => match event {
                Event::Request(request, connection) => self.on_request(&request, connection),
                Event::Wake => (Phase::Idle, Action::Wait),
                Event::Quiet => (Phase::Idle, Action::Wait),
                Event::Disconnected => (Phase::Terminal, Action::Close(None)),
                Event::WriteFailed => (Phase::Terminal, Action::Close(None)),
            },
            Phase::Streaming(id) => match event {
                Event::Request(_, _) => (Phase::Streaming(id), Action::Wait),
                Event::Wake => self.on_wake(id),
                Event::Quiet => self.on_quiet(id),
                Event::Disconnected => self.on_disconnect(id),
                Event::WriteFailed => self.on_disconnect(id),
            },
            Phase::Terminal => (Phase::Terminal, Action::Close(None)),
        }
    }
}

/// Whether a body comes with its length announced or in chunks makes no
/// difference to what a publish request does and answers, as long as the
/// announced length is that of the body.
pub proof fn body_kind_does_not_matter(
    before: Broker,
    secret: Option<Seq<char>>,
    body: Seq<u8>,
    after: Broker,
    reply: Reply,
)
    requires
        body.len() <= u64::MAX,
    ensures
        publish_post(before, secret, Body::Len(body.len() as u64), body, after, reply)
            == publish_post(before, secret, Body::Chunked, body, after, reply),
{
}

/// A body over the bound is answered with status 400 by a broker that
/// checks no secret, and reaches no subscriber.
pub proof fn oversized_body_reaches_nobody(
    before: Broker,
    secret: Option<Seq<char>>,
    kind: Body,
    body: Seq<u8>,
    after: Broker,
    reply: Reply,
)
    requires
        before.credential is None,
        body.len() > before.router@.max_body,
        publish_post(before, secret, kind, body, after, reply),
    ensures
        reply.response@ == bad_request_view(),
        after.registry.members() == before.registry.members(),
        after.router@.published == before.router@.published,
{
}

/// A subscribe request on an open connection opens a stream, with status
/// 200 and as an event stream, and makes its subscriber one more member,
/// wherever no member has an identifier that a draw can give: on a broker
/// without subscribers above all.
pub proof fn subscribe_opens_a_stream(
    before: Broker,
    connection: Connection,
    after: Broker,
    next: Phase,
    action: Action,
)
    requires
        connection.open,
        !holds_random_uuid(before.registry.members()),
        subscribe_post(before, connection, after, next, action),
    ensures
        action matches Action::OpenStream(id, head) && head.status == 200 && head.content_type
            == ContentKind::EventStream && next == Phase::Streaming(id)
            && after.registry.members().last() == entrant(id, connection),
        after.registry.members().len() == before.registry.members().len() + 1,
{
}

} // verus!
