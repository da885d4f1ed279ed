//! A channel: the clients that are subscribed to a topic, and who of them is
//! sent what.

use std::collections::HashMap;
use vstd::prelude::*;
#[allow(unused_imports)]
use vstd::std_specs::iter::IteratorSpec;

use crate::account::default_address_format;
use crate::message::{Message, WsResponseMessage};
use crate::round::Round;
#[allow(unused_imports)]
use crate::round::RoundView;
use crate::topic::{Topic, VerbosityLabels};
#[allow(unused_imports)]
use crate::topic::topic_name;

verus! {

broadcast use vstd::std_specs::hash::group_hash_axioms;

/// Seconds between two rounds of a channel: the time that a block takes.
pub const BLOCK_INTERVAL: u64 = 6;

/// The client id that a published response is never sent to.
pub const SKIPPED_ID: usize = 0;

/// Manages the subscriptions to one topic. A client is known by its id and
/// reached at an address of type `A`.
#[verifier::reject_recursive_types(A)]
pub struct Channel<A> {
    topic: Topic,
    sessions: HashMap<usize, A>,
}

/// Subscribes a client to a topic.
pub struct Subscribe<A> {
    /// Client id
    pub id: usize,
    /// Client address
    pub addr: A,
    /// Topic
    pub topic: Topic,
}

/// Takes a client's subscription back.
pub struct Unsubscribe {
    /// Client id
    pub id: usize,
}

/// Tells the server that the channel of a topic is gone.
#[derive(Debug)]
pub struct Remove {
    pub topic: Topic,
}

/// A message on its way to one client.
pub struct Delivery<'a, A> {
    pub id: usize,
    pub addr: &'a A,
    pub message: Message,
}

impl<A> Channel<A> {
    /// What the channel reports on.
    pub closed spec fn topic(&self) -> Topic {
        self.topic
    }

    /// The subscribed clients, and their addresses.
    pub closed spec fn sessions(&self) -> Map<usize, A> {
        self.sessions@
    }

    /// A channel without clients.
    pub fn new(topic: Topic) -> (channel: Channel<A>)
        ensures
            channel.topic() == topic,
            channel.sessions() == Map::<usize, A>::empty(),
    {
        Channel { topic, sessions: HashMap::new() }
    }

    /// What the channel reports on.
    pub fn get_topic(&self) -> (topic: Topic)
        ensures
            topic == self.topic(),
    {
        self.topic
    }

    /// Publishes a message to all clients of the channel but one.
    pub fn publish_message(&self, message: &str, skip_id: usize) -> (deliveries: Vec<
        Delivery<'_, A>,
    >)
        ensures
            goes_to(deliveries@, message@, self.sessions().remove(skip_id)),
    {
        let mut deliveries: Vec<Delivery<'_, A>> = Vec::new();
        let entries = self.sessions.iter();
        let ghost all = entries.remaining();
        for entry in it: entries
            invariant
                it.seq() == all,
                all == vstd::std_specs::hash::spec_hash_map_iter(&self.sessions).remaining(),
                all.no_duplicates(),
                forall|i: int|
                    0 <= i < deliveries@.len() ==> {
                        &&& self.sessions@.contains_key((#[trigger] deliveries@[i]).id)
                        &&& deliveries@[i].id != skip_id
                        &&& *deliveries@[i].addr == self.sessions@[deliveries@[i].id]
                        &&& deliveries@[i].message.0@ == message@
                        &&& exists|k: int|
                            0 <= k < it.index() && (#[trigger] all[k]).0 == &deliveries@[i].id
                    },
                forall|k: int|
                    0 <= k < it.index() && *(#[trigger] all[k]).0 != skip_id ==> exists|i: int|
                        0 <= i < deliveries@.len() && (#[trigger] deliveries@[i]).id == *all[k].0,
                forall|i: int, j: int|
                    0 <= i < j < deliveries@.len() ==> (#[trigger] deliveries@[i]).id != (
                    #[trigger] deliveries@[j]).id,
        {
            let (id, addr) = entry;
            let ghost before = deliveries@;
            if *id != skip_id {
                deliveries.push(Delivery { id: *id, addr, message: Message(message.to_owned()) });
            }
            proof {
                let at = it.index();
                assert forall|k: int| 0 <= k < at + 1 && *(#[trigger] all[k]).0 != skip_id implies exists|
                    i: int,
                | 0 <= i < deliveries@.len() && (#[trigger] deliveries@[i]).id == *all[k].0 by {
                    if k < at {
                        let i = choose|i: int|
                            0 <= i < before.len() && (#[trigger] before[i]).id == *all[k].0;
                        assert(deliveries@[i] == before[i]);
                    } else {
                        assert(deliveries@[before.len() as int].id == *all[k].0);
                    }
                }
            }
        }
        deliveries
    }

    /// Publishes a response to the clients of the channel.
    pub fn publish_response(&self, serialized: &str) -> (deliveries: Vec<Delivery<'_, A>>)
        ensures
            goes_to(deliveries@, serialized@, self.sessions().remove(SKIPPED_ID)),
    {
        self.publish_message(serialized, SKIPPED_ID)
    }

    /// Sends a message to one client alone, if it is subscribed.
    pub fn reply_message(&self, id: usize, message: &str) -> (delivery: Option<Delivery<'_, A>>)
        ensures
            match delivery {
                Some(sent) => {
                    &&& self.sessions().contains_key(id)
                    &&& sent.id == id
                    &&& *sent.addr == self.sessions()[id]
                    &&& sent.message.0@ == message@
                },
                None => !self.sessions().contains_key(id),
            },
    {
        match self.sessions.get(&id) {
            Some(addr) => Some(Delivery { id, addr, message: Message(message.to_owned()) }),
            None => None,
        }
    }

    /// Begins the next round of the channel. Without clients there is none:
    /// the channel is to stop.
    pub fn tick(&self) -> (round: Option<Round>)
        ensures
            match round {
                Some(begun) => {
                    &&& self.sessions() != Map::<usize, A>::empty()
                    &&& begun@ == (RoundView::Connect { topic: self.topic() })
                },
                None => self.sessions() == Map::<usize, A>::empty(),
            },
    {
        proof {
            lemma_no_clients(self.sessions@);
        }
        if self.sessions.len() == 0 {
            None
        } else {
            Some(Round::start(self.topic))
        }
    }

    /// What the server is told when the channel stops.
    pub fn stopping(&self) -> (notice: Remove)
        ensures
            notice.topic == self.topic(),
    {
        Remove { topic: self.topic }
    }

    /// Adds a client to the channel, and confirms it. The confirmation names
    /// the topic with addresses in the given format.
    ///
    /// The new subscription takes the place of the one that the client had, if
    /// any: from then on it is reached at the new address.
    pub fn subscribe_with_format(
        &mut self,
        msg: Subscribe<A>,
        format: u16,
        labels: &VerbosityLabels,
    ) -> (reply: WsResponseMessage<String>)
        ensures
            final(self).topic() == old(self).topic(),
            final(self).sessions() == after_subscribe(old(self).sessions(), msg.id, msg.addr),
            reply.kind@ == "notifications"@,
            reply.result@ == "subscribed to "@ + topic_name(msg.topic, format, *labels),
    {
        let Subscribe { id, addr, topic } = msg;
        self.sessions.insert(id, addr);
        WsResponseMessage {
            kind: "notifications".to_owned(),
            result: "subscribed to ".to_owned().concat(topic.name(format, labels).as_str()),
        }
    }

    /// Adds a client to the channel, and confirms it. The confirmation names
    /// the topic with addresses in the format that the process uses by
    /// default; which one that is, is left unsaid.
    pub fn subscribe(&mut self, msg: Subscribe<A>, labels: &VerbosityLabels) -> (reply:
        WsResponseMessage<String>)
        ensures
            final(self).topic() == old(self).topic(),
            final(self).sessions() == after_subscribe(old(self).sessions(), msg.id, msg.addr),
            reply.kind@ == "notifications"@,
            exists|format: u16|
                reply.result@ == "subscribed to "@ + #[trigger] topic_name(
                    msg.topic,
                    format,
                    *labels,
                ),
            forall|format: u16|
                msg.topic !is Validator ==> reply.result@ == "subscribed to "@
                    + #[trigger] topic_name(msg.topic, format, *labels),
    {
        self.subscribe_with_format(msg, default_address_format(), labels)
    }

    /// Takes a client from the channel; says whether it was subscribed.
    pub fn unsubscribe(&mut self, msg: Unsubscribe) -> (removed: bool)
        ensures
            final(self).topic() == old(self).topic(),
            final(self).sessions() == old(self).sessions().remove(msg.id),
            removed == old(self).sessions().contains_key(msg.id),
    {
        let Unsubscribe { id } = msg;
        let ghost before = self.sessions@;
        let removed = self.sessions.remove(&id).is_some();
        assert(self.sessions@ =~= before.remove(id));
        removed
    }
}

/// The clients after a client subscribed: it is reached at the address that it
/// gave, and at no other.
pub open spec fn after_subscribe<A>(sessions: Map<usize, A>, id: usize, addr: A) -> Map<usize, A> {
    sessions.insert(id, addr)
}

/// Whether deliveries bring a message to each of the given clients, once, at
/// the client's address, and to nobody else.
pub open spec fn goes_to<A>(
    deliveries: Seq<Delivery<'_, A>>,
    message: Seq<char>,
    clients: Map<usize, A>,
) -> bool {
    &&& forall|i: int|
        0 <= i < deliveries.len() ==> {
            &&& clients.contains_key((#[trigger] deliveries[i]).id)
            &&& *deliveries[i].addr == clients[deliveries[i].id]
            &&& deliveries[i].message.0@ == message
        }
    &&& forall|id: usize| #[trigger]
        clients.contains_key(id) ==> exists|i: int|
            0 <= i < deliveries.len() && (#[trigger] deliveries[i]).id == id
    &&& forall|i: int, j: int|
        0 <= i < j < deliveries.len() ==> (#[trigger] deliveries[i]).id != (
        #[trigger] deliveries[j]).id
}

/// There are no clients exactly where none is counted.
proof fn lemma_no_clients<A>(sessions: Map<usize, A>)
    requires
        sessions.dom().finite(),
    ensures
        sessions.len() == 0 <==> sessions == Map::<usize, A>::empty(),
{
    if sessions.len() == 0 {
        assert(sessions.dom() =~= vstd::set::Set::<usize>::empty());
        assert(sessions =~= Map::<usize, A>::empty());
    }
}

} // verus!
