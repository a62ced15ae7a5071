//! The publish path: a body is checked, marked, framed and handed to every
//! subscriber.

use vstd::prelude::*;
use vstd::utf8::encode_utf8;
use crate::codec::encode;
use crate::codec::frame_spec;
use crate::codec::push_bytes;
use crate::codec::ContentKind;
use crate::codec::Message;
use crate::codec::MessageView;
use crate::error::SseError;
use crate::json::is_null;
use crate::json::is_object;
use crate::json::json_parse;
use crate::json::json_with_member;
use crate::json::parse;
use crate::json::set_member;
use crate::json::text_takes_members;
use crate::json::to_text;
use crate::registry::dropped;
use crate::registry::fanout;
use crate::registry::fanout_step;
use crate::registry::subscriptions_view;
use crate::registry::Offer;
use crate::registry::Registry;
use crate::registry::Subscription;
use crate::registry::SubscriptionView;

verus! {

/// The state of the publish path as plain values.
pub struct RouterView {
    /// The number of messages published so far, which is the id of the last.
    pub published: u64,
    /// The longest body that is accepted, in bytes.
    pub max_body: nat,
    /// The name of the member that marks a body as processed.
    pub marker_key: Seq<char>,
    /// The value of that member.
    pub marker_value: Seq<char>,
}

/// The publish path: it numbers the messages and knows the size bound and
/// the marker.
#[derive(Debug)]
pub struct Router {
    published: u64,
    max_body: usize,
    marker_key: String,
    marker_value: String,
}

impl View for Router {
    type V = RouterView;

    closed spec fn view(&self) -> RouterView {
        RouterView {
            published: self.published,
            max_body: self.max_body as nat,
            marker_key: self.marker_key@,
            marker_value: self.marker_value@,
        }
    }
}

/// What one fan-out did.
#[derive(Debug)]
pub struct Delivery {
    /// The id of the message.
    pub id: u64,
    /// Its frame.
    pub frame: Vec<u8>,
    /// The subscribers whose queue was full: they have left the registry.
    pub dropped: Vec<Subscription>,
}

/// What a publish request came to.
#[derive(Debug)]
pub struct Published {
    /// The id of the message.
    pub id: u64,
    /// The body as it was broadcast, with the marker.
    pub body: String,
    /// The subscribers whose queue was full: they have left the registry.
    pub dropped: Vec<Subscription>,
}

/// The message that a payload is published as.
pub open spec fn published_message(id: u64, payload: Seq<u8>) -> MessageView {
    MessageView { id, event: None, payload, content_type: ContentKind::Json }
}

/// The body with the marker set, where the body is JSON that takes members.
pub open spec fn augmented(body: Seq<u8>, key: Seq<char>, value: Seq<char>) -> Option<Seq<char>> {
    match json_parse(body) {
        Some(text) => if text_takes_members(text) {
            Some(json_with_member(text, key, value))
        } else {
            None
        },
        None => None,
    }
}

/// What `deliver` does to the router and the members when it delivers
/// `payload`, and what it reports.
pub open spec fn delivered(
    router: RouterView,
    members: Seq<SubscriptionView>,
    capacity: nat,
    payload: Seq<u8>,
    router_after: RouterView,
    members_after: Seq<SubscriptionView>,
    id: u64,
    frame: Seq<u8>,
    left: Seq<SubscriptionView>,
) -> bool {
    &&& router.published < u64::MAX
    &&& id == router.published + 1
    &&& router_after == RouterView { published: id, ..router }
    &&& frame == frame_spec(published_message(id, payload))
    &&& members_after == fanout(members, frame, capacity)
    &&& left == dropped(members, capacity)
}

impl Router {
    /// A router that has published nothing, accepts bodies of up to
    /// `max_body` bytes and marks them with `"test": "test_value"`.
    pub fn new(max_body: usize) -> (router: Router)
        ensures
            router@ == (RouterView {
                published: 0,
                max_body: max_body as nat,
                marker_key: "test"@,
                marker_value: "test_value"@,
            }),
    {
        Router {
            published: 0,
            max_body,
            marker_key: String::from_str("test"),
            marker_value: String::from_str("test_value"),
        }
    }

    /// The same router with another marker.
    pub fn with_marker(self, key: &str, value: &str) -> (router: Router)
        ensures
            router@ == (RouterView { marker_key: key@, marker_value: value@, ..self@ }),
    {
        Router {
            published: self.published,
            max_body: self.max_body,
            marker_key: String::from_str(key),
            marker_value: String::from_str(value),
        }
    }

    /// The number of messages published so far.
    pub fn published(&self) -> (n: u64)
        ensures
            n == self@.published,
    {
        self.published
    }

    /// The longest body that is accepted, in bytes.
    pub fn max_body(&self) -> (n: usize)
        ensures
            n == self@.max_body,
    {
        self.max_body
    }

    /// Numbers `payload` as the next message, frames it and offers the frame
    /// to every member of the registry, in the order of a snapshot. A member
    /// whose queue is full leaves the registry and is reported; that stops
    /// neither the delivery to the others nor the call.
    ///
    /// Fails with `InternalError` only when the ids are used up; nothing has
    /// changed then.
    pub fn deliver(&mut self, registry: &mut Registry, payload: &[u8]) -> (r: Result<
        Delivery,
        SseError,
    >)
        requires
            old(registry).wf(),
        ensures
            final(registry).wf(),
            final(registry).limit() == old(registry).limit(),
            match r {
                Ok(delivery) => delivered(
                    old(self)@,
                    old(registry).members(),
                    old(registry).limit(),
                    payload@,
                    final(self)@,
                    final(registry).members(),
                    delivery.id,
                    delivery.frame@,
                    subscriptions_view(delivery.dropped@),
                ),
                Err(error) => {
                    &&& error is InternalError
                    &&& old(self)@.published == u64::MAX
                    &&& final(self)@ == old(self)@
                    &&& final(registry).members() == old(registry).members()
                },
            },
    {
        if self.published == u64::MAX {
            return Err(SseError::InternalError);
        }
        let id: u64 = self.published + 1;
        let mut copy: Vec<u8> = Vec::new();
        push_bytes(&mut copy, payload);
        let message = Message { id, event: None, payload: copy, content_type: ContentKind::Json };
        proof {
            assert(copy@ =~= payload@);
            assert(message@ == published_message(id, payload@));
        }
        let frame = match encode(&message) {
            Ok(frame) => frame,
            Err(error) => {
                return Err(error);
            },
        };
        let handles = registry.snapshot();
        let ghost before = registry.members();
        let ghost capacity = registry.limit();
        let mut left: Vec<Subscription> = Vec::new();
        let n = handles.len();
        let mut k: usize = 0;
        proof {
            assert(before.take(0) =~= Seq::<SubscriptionView>::empty());
            reveal(Seq::filter);
            assert(fanout(before.take(0), frame@, capacity) =~= Seq::<SubscriptionView>::empty());
            assert(dropped(before.take(0), capacity) =~= Seq::<SubscriptionView>::empty());
            assert(before.skip(0) =~= before);
            assert(registry.members() =~= fanout(before.take(0), frame@, capacity) + before.skip(
                0,
            ));
            assert(subscriptions_view(left@) =~= dropped(before.take(0), capacity));
        }
        while k < n
            invariant
                k <= n,
                n == handles@.len(),
                n == before.len(),
                handles@ == crate::registry::ids(before),
                registry.wf(),
                registry.limit() == capacity,
                registry.members() == fanout(before.take(k as int), frame@, capacity)
                    + before.skip(k as int),
                subscriptions_view(left@) == dropped(before.take(k as int), capacity),
            decreases n - k,
        {
            proof {
                fanout_step(before, registry.members(), k as int, frame@, capacity);
            }
            let ghost left_before = left@;
            match registry.offer(handles[k], frame.as_slice()) {
                Offer::Dropped(subscription) => {
                    left.push(subscription);
                    proof {
                        assert(subscriptions_view(left@) =~= subscriptions_view(left_before).push(
                            subscription@,
                        ));
                    }
                },
                Offer::Queued => {},
                Offer::Absent => {},
            }
            k += 1;
        }
        proof {
            assert(before.take(n as int) =~= before);
            assert(before.skip(n as int) =~= Seq::<SubscriptionView>::empty());
            assert(registry.members() =~= fanout(before, frame@, capacity));
        }
        self.published = id;
        Ok(Delivery { id, frame, dropped: left })
    }

    /// Publishes a body: it must be no longer than the bound and must be a
    /// JSON object, or `null`, which counts as the empty object. The marker
    /// is set on it, and the text of the result is delivered as by `deliver`.
    ///
    /// Fails with `PayloadTooLarge` on a body over the bound, with
    /// `ParseError` on one that is no JSON or JSON of another kind, and with
    /// `InternalError` when the ids are used up. A failed call changes
    /// nothing: no subscriber is touched.
    pub fn publish(&mut self, registry: &mut Registry, body: &[u8]) -> (r: Result<
        Published,
        SseError,
    >)
        requires
            old(registry).wf(),
        ensures
            final(registry).wf(),
            final(registry).limit() == old(registry).limit(),
            match r {
                Ok(published) => {
                    &&& body@.len() <= old(self)@.max_body
                    &&& augmented(body@, old(self)@.marker_key, old(self)@.marker_value) == Some(
                        published.body@,
                    )
                    &&& delivered(
                        old(self)@,
                        old(registry).members(),
                        old(registry).limit(),
                        encode_utf8(published.body@),
                        final(self)@,
                        final(registry).members(),
                        published.id,
                        frame_spec(published_message(published.id, encode_utf8(published.body@))),
                        subscriptions_view(published.dropped@),
                    )
                },
                Err(error) => {
                    &&& final(self)@ == old(self)@
                    &&& final(registry).members() == old(registry).members()
                    &&& if body@.len() > old(self)@.max_body {
                        error is PayloadTooLarge
                    } else if augmented(body@, old(self)@.marker_key, old(self)@.marker_value)
                        is None {
                        error is ParseError
                    } else {
                        error is InternalError && old(self)@.published == u64::MAX
                    }
                },
            },
    {
        if body.len() > self.max_body {
            return Err(SseError::PayloadTooLarge);
        }
        let mut value = match parse(body) {
            Ok(value) => value,
            Err(_) => {
                return Err(SseError::ParseError);
            },
        };
        if !is_object(&value) && !is_null(&value) {
            return Err(SseError::ParseError);
        }
        set_member(&mut value, self.marker_key.as_str(), self.marker_value.as_str());
        let text = match to_text(&value) {
            Ok(text) => text,
            Err(_) => {
                return Err(SseError::InternalError);
            },
        };
        match self.deliver(registry, text.as_str().as_bytes()) {
            Ok(delivery) => Ok(Published { id: delivery.id, body: text, dropped: delivery.dropped }),
            Err(error) => Err(error),
        }
    }
}

} // verus!
