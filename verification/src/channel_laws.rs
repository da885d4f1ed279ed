//! What holds of the clients of a channel.

use vstd::prelude::*;

use crate::channel::{Channel, Delivery, Subscribe, Unsubscribe};
#[allow(unused_imports)]
use crate::channel::{after_subscribe, goes_to, SKIPPED_ID};

verus! {

/// A client that subscribes is subscribed from then on, at the address that it
/// gives; no other client's subscription changes.
pub proof fn law_subscribe_adds_one_client<A>(sessions: Map<usize, A>, id: usize, addr: A)
    ensures
        after_subscribe(sessions, id, addr).dom() == sessions.dom().insert(id),
        after_subscribe(sessions, id, addr)[id] == addr,
        forall|other: usize|
            other != id && #[trigger] sessions.contains_key(other) ==> after_subscribe(
                sessions,
                id,
                addr,
            )[other] == sessions[other],
{
    assert(after_subscribe(sessions, id, addr).dom() =~= sessions.dom().insert(id));
}

/// To subscribe again takes the old subscription back: what is left is the
/// client at the address that it subscribed with last.
pub proof fn law_last_address_stays<A>(sessions: Map<usize, A>, id: usize, first: A, second: A)
    ensures
        after_subscribe(after_subscribe(sessions, id, first), id, second) == after_subscribe(
            sessions,
            id,
            second,
        ),
{
    assert(after_subscribe(after_subscribe(sessions, id, first), id, second) =~= after_subscribe(
        sessions,
        id,
        second,
    ));
}

/// To unsubscribe takes a new subscription back.
pub proof fn law_unsubscribe_undoes_subscribe<A>(sessions: Map<usize, A>, id: usize, addr: A)
    requires
        !sessions.contains_key(id),
    ensures
        after_subscribe(sessions, id, addr).remove(id) == sessions,
{
    assert(after_subscribe(sessions, id, addr).remove(id) =~= sessions);
}

/// A client that unsubscribed can subscribe again, and is then subscribed as if
/// it had not left.
pub proof fn law_subscribe_after_unsubscribe<A>(sessions: Map<usize, A>, id: usize, addr: A)
    ensures
        after_subscribe(sessions.remove(id), id, addr) == after_subscribe(sessions, id, addr),
{
    assert(after_subscribe(sessions.remove(id), id, addr) =~= after_subscribe(sessions, id, addr));
}

/// A channel that loses its last client has none left, and so is to stop.
pub proof fn law_last_client_leaves<A>(sessions: Map<usize, A>, id: usize)
    requires
        forall|other: usize| #[trigger] sessions.contains_key(other) ==> other == id,
    ensures
        sessions.remove(id) == Map::<usize, A>::empty(),
{
    assert(sessions.remove(id) =~= Map::<usize, A>::empty());
}

/// A published response goes to a client exactly where the client is
/// subscribed and its id is not the skipped one, which is zero.
pub proof fn law_published_to_subscribers<A>(
    deliveries: Seq<Delivery<'_, A>>,
    message: Seq<char>,
    sessions: Map<usize, A>,
    id: usize,
)
    requires
        goes_to(deliveries, message, sessions.remove(SKIPPED_ID)),
    ensures
        (exists|i: int| 0 <= i < deliveries.len() && (#[trigger] deliveries[i]).id == id) <==> (
        sessions.contains_key(id) && id != 0),
{
    let clients = sessions.remove(SKIPPED_ID);
    if exists|i: int| 0 <= i < deliveries.len() && (#[trigger] deliveries[i]).id == id {
        let i = choose|i: int| 0 <= i < deliveries.len() && (#[trigger] deliveries[i]).id == id;
        assert(clients.contains_key(deliveries[i].id));
    }
    if sessions.contains_key(id) && id != SKIPPED_ID {
        assert(clients.contains_key(id));
    }
}

/// What is sent to a client is the message itself, at the address that the
/// client is subscribed with, and to no client twice.
pub proof fn law_sent_as_published<A>(
    deliveries: Seq<Delivery<'_, A>>,
    message: Seq<char>,
    clients: Map<usize, A>,
    i: int,
    j: int,
)
    requires
        goes_to(deliveries, message, clients),
        0 <= i < deliveries.len(),
        0 <= j < deliveries.len(),
    ensures
        clients.contains_key(deliveries[i].id),
        *deliveries[i].addr == clients[deliveries[i].id],
        deliveries[i].message.0@ == message,
        deliveries[i].id == deliveries[j].id ==> i == j,
{
    if i < j {
        assert(deliveries[i].id != deliveries[j].id);
    } else if j < i {
        assert(deliveries[j].id != deliveries[i].id);
    }
}

/// A published message goes to finitely many clients, and is sent as many
/// times as there are clients to send it to.
pub proof fn law_one_delivery_each<A>(
    deliveries: Seq<Delivery<'_, A>>,
    message: Seq<char>,
    clients: Map<usize, A>,
)
    requires
        goes_to(deliveries, message, clients),
    ensures
        clients.dom().finite(),
        deliveries.len() == clients.len(),
    decreases deliveries.len(),
{
    if deliveries.len() == 0 {
        assert forall|id: usize| !clients.contains_key(id) by {}
        assert(clients.dom() =~= vstd::set::Set::<usize>::empty());
    } else {
        let last = deliveries.last();
        let front = deliveries.drop_last();
        let others = clients.remove(last.id);
        assert(deliveries[deliveries.len() - 1] == last);
        assert(clients.contains_key(last.id));
        assert(goes_to(front, message, others)) by {
            assert forall|i: int| 0 <= i < front.len() implies {
                &&& others.contains_key((#[trigger] front[i]).id)
                &&& *front[i].addr == others[front[i].id]
                &&& front[i].message.0@ == message
            } by {
                assert(front[i] == deliveries[i]);
                assert(deliveries[i].id != deliveries[deliveries.len() - 1].id);
            }
            assert forall|id: usize| #[trigger] others.contains_key(id) implies exists|i: int|
                0 <= i < front.len() && (#[trigger] front[i]).id == id by {
                assert(clients.contains_key(id));
                let i = choose|i: int|
                    0 <= i < deliveries.len() && (#[trigger] deliveries[i]).id == id;
                assert(front[i] == deliveries[i]);
            }
            assert forall|i: int, j: int| 0 <= i < j < front.len() implies (
            #[trigger] front[i]).id != (#[trigger] front[j]).id by {
                assert(front[i] == deliveries[i] && front[j] == deliveries[j]);
            }
        }
        law_one_delivery_each(front, message, others);
        assert(clients.dom() =~= others.dom().insert(last.id));
    }
}

// ---------------------------------------------------------------------------
// Subscriptions over time
// ---------------------------------------------------------------------------

/// What a client sends to a channel.
pub enum ClientMessage<A> {
    Subscribe(Subscribe<A>),
    Unsubscribe(Unsubscribe),
}

/// The id of the client that sends a message.
pub open spec fn sender<A>(message: ClientMessage<A>) -> usize {
    match message {
        ClientMessage::Subscribe(msg) => msg.id,
        ClientMessage::Unsubscribe(msg) => msg.id,
    }
}

/// Whether a channel is what the handling of a message makes of another.
pub open spec fn handled<A>(
    before: Channel<A>,
    message: ClientMessage<A>,
    after: Channel<A>,
) -> bool {
    &&& after.topic() == before.topic()
    &&& after.sessions() == match message {
        ClientMessage::Subscribe(msg) => after_subscribe(before.sessions(), msg.id, msg.addr),
        ClientMessage::Unsubscribe(msg) => before.sessions().remove(msg.id),
    }
}

/// The last message that a client sent, if it sent any.
pub open spec fn last_message<A>(messages: Seq<ClientMessage<A>>, id: usize) -> Option<
    ClientMessage<A>,
>
    decreases messages.len(),
{
    if messages.len() == 0 {
        None
    } else if sender(messages.last()) == id {
        Some(messages.last())
    } else {
        last_message(messages.drop_last(), id)
    }
}

/// Whether channels follow each other by handling one message after the other.
pub open spec fn handles_all<A>(
    channels: Seq<Channel<A>>,
    messages: Seq<ClientMessage<A>>,
) -> bool {
    &&& channels.len() == messages.len() + 1
    &&& forall|i: int|
        0 <= i < messages.len() ==> handled(
            channels[i],
            #[trigger] messages[i],
            channels[i + 1],
        )
}

/// Whatever messages a channel handles, its topic stays, and of each client
/// the last message decides: it is subscribed where that was a subscription,
/// at the address given there, and not where it unsubscribed. A client that
/// sent nothing is subscribed or not as before.
pub proof fn law_last_message_decides<A>(
    channels: Seq<Channel<A>>,
    messages: Seq<ClientMessage<A>>,
    id: usize,
)
    requires
        handles_all(channels, messages),
    ensures
        channels.last().topic() == channels[0].topic(),
        match last_message(messages, id) {
            Some(ClientMessage::Subscribe(msg)) => {
                &&& channels.last().sessions().contains_key(id)
                &&& channels.last().sessions()[id] == msg.addr
            },
            Some(ClientMessage::Unsubscribe(_)) => !channels.last().sessions().contains_key(id),
            None => {
                &&& channels.last().sessions().contains_key(id)
                    <==> channels[0].sessions().contains_key(id)
                &&& channels[0].sessions().contains_key(id) ==> channels.last().sessions()[id]
                    == channels[0].sessions()[id]
            },
        },
    decreases messages.len(),
{
    if messages.len() > 0 {
        let n = messages.len() - 1;
        let fewer = messages.drop_last();
        let earlier = channels.drop_last();
        assert(handled(channels[n], messages[n], channels[n + 1]));
        assert(handles_all(earlier, fewer)) by {
            assert forall|i: int| 0 <= i < fewer.len() implies handled(
                earlier[i],
                #[trigger] fewer[i],
                earlier[i + 1],
            ) by {
                assert(fewer[i] == messages[i]);
            }
        }
        law_last_message_decides(earlier, fewer, id);
    }
}

/// The clients of a channel that began without any are exactly those whose last
/// message was a subscription.
pub proof fn law_clients_are_the_subscribed<A>(
    channels: Seq<Channel<A>>,
    messages: Seq<ClientMessage<A>>,
)
    requires
        handles_all(channels, messages),
        channels[0].sessions() == Map::<usize, A>::empty(),
    ensures
        channels.last().topic() == channels[0].topic(),
        forall|id: usize| #[trigger]
            channels.last().sessions().contains_key(id) <==> (last_message(messages, id) matches
                Some(last) && last is Subscribe),
{
    law_last_message_decides(channels, messages, 0);
    assert forall|id: usize| #[trigger]
        channels.last().sessions().contains_key(id) <==> (last_message(messages, id) matches
            Some(last) && last is Subscribe) by {
        law_last_message_decides(channels, messages, id);
    }
}

} // verus!
