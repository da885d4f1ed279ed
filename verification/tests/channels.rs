use channel::channel::{Channel, Delivery, Subscribe, Unsubscribe, BLOCK_INTERVAL};
use channel::message::WsResponseMessage;
use channel::cache::Request;
use channel::topic::{Topic, VerbosityLabels};
use channel::account::AccountId;

fn labels() -> VerbosityLabels {
    VerbosityLabels { stats: "st".to_string(), summary: "su".to_string() }
}

fn subscribe(
    channel: &mut Channel<&'static str>,
    id: usize,
    addr: &'static str,
) -> WsResponseMessage<String> {
    channel.subscribe(Subscribe { id, addr, topic: Topic::BestBlock }, &labels())
}

fn sorted(deliveries: Vec<Delivery<'_, &'static str>>) -> Vec<(usize, &'static str, String)> {
    let mut all: Vec<(usize, &'static str, String)> =
        deliveries.into_iter().map(|d| (d.id, *d.addr, d.message.0)).collect();
    all.sort();
    all
}

#[test]
fn messages_go_to_all_but_the_skipped_client() {
    let mut channel = Channel::new(Topic::BestBlock);
    subscribe(&mut channel, 0, "zero");
    subscribe(&mut channel, 3, "three");
    subscribe(&mut channel, 9, "nine");
    assert_eq!(
        sorted(channel.publish_message("hi", 3)),
        vec![(0, "zero", "hi".to_string()), (9, "nine", "hi".to_string())]
    );
    assert_eq!(
        sorted(channel.publish_response("hi")),
        vec![(3, "three", "hi".to_string()), (9, "nine", "hi".to_string())]
    );
    assert_eq!(channel.publish_message("hi", 4).len(), 3);
}

#[test]
fn replies_go_to_one_client() {
    let mut channel = Channel::new(Topic::BestBlock);
    subscribe(&mut channel, 0, "zero");
    subscribe(&mut channel, 3, "three");
    let sent = channel.reply_message(3, "hi").unwrap();
    assert_eq!((sent.id, *sent.addr, sent.message.0.as_str()), (3, "three", "hi"));
    let sent = channel.reply_message(0, "hi").unwrap();
    assert_eq!(*sent.addr, "zero");
    assert!(channel.reply_message(4, "hi").is_none());
}

#[test]
fn last_address_stays() {
    let mut channel = Channel::new(Topic::BestBlock);
    subscribe(&mut channel, 3, "first");
    subscribe(&mut channel, 4, "four");
    let confirmation = subscribe(&mut channel, 3, "second").result;
    let sent = channel.reply_message(3, &confirmation).unwrap();
    assert_eq!((*sent.addr, sent.message.0.as_str()), ("second", "subscribed to best_block"));
    assert_eq!(
        sorted(channel.publish_response("hi")),
        vec![(3, "second", "hi".to_string()), (4, "four", "hi".to_string())]
    );
    assert!(channel.unsubscribe(Unsubscribe { id: 4 }));
    assert!(channel.unsubscribe(Unsubscribe { id: 3 }));
    subscribe(&mut channel, 3, "third");
    assert_eq!(sorted(channel.publish_response("hi")), vec![(3, "third", "hi".to_string())]);
}

#[test]
fn last_message_of_each_client_decides() {
    let mut channel = Channel::new(Topic::NewSession);
    subscribe(&mut channel, 1, "a");
    subscribe(&mut channel, 2, "b");
    channel.unsubscribe(Unsubscribe { id: 1 });
    subscribe(&mut channel, 3, "c");
    channel.unsubscribe(Unsubscribe { id: 4 });
    subscribe(&mut channel, 1, "d");
    channel.unsubscribe(Unsubscribe { id: 3 });
    subscribe(&mut channel, 2, "e");
    assert_eq!(
        sorted(channel.publish_response("hi")),
        vec![(1, "d", "hi".to_string()), (2, "e", "hi".to_string())]
    );
    assert_eq!(channel.get_topic(), Topic::NewSession);
}

#[test]
fn unsubscribed_clients_are_sent_nothing() {
    let mut channel = Channel::new(Topic::BestBlock);
    subscribe(&mut channel, 3, "three");
    subscribe(&mut channel, 4, "four");
    assert!(channel.unsubscribe(Unsubscribe { id: 3 }));
    assert!(!channel.unsubscribe(Unsubscribe { id: 3 }));
    assert!(channel.reply_message(3, "hi").is_none());
    assert_eq!(sorted(channel.publish_response("hi")), vec![(4, "four", "hi".to_string())]);
}

#[test]
fn subscription_is_confirmed_by_the_topic_of_the_request() {
    let mut channel: Channel<&'static str> = Channel::new(Topic::BestBlock);
    let reply = channel
        .subscribe(Subscribe { id: 1, addr: "one", topic: Topic::Parachains(12) }, &labels());
    assert_eq!(reply.kind, "notifications");
    assert_eq!(reply.result, "subscribed to parachains:12");
    let topic = Topic::Validator(AccountId { bytes: [0; 32] });
    let reply =
        channel.subscribe_with_format(Subscribe { id: 2, addr: "two", topic }, 42, &labels());
    assert_eq!(
        reply.result,
        "subscribed to v:5C4hrfjw9DjXZTzV3MwzrrAr9P1MJhSrvWGWqi1eSuyUpnhM"
    );
}

#[test]
fn channel_runs_while_it_has_clients() {
    let mut channel = Channel::new(Topic::NewSession);
    assert!(channel.tick().is_none());
    subscribe(&mut channel, 0, "zero");
    assert!(matches!(channel.tick().unwrap().request(), Request::Connect));
    channel.unsubscribe(Unsubscribe { id: 0 });
    assert!(channel.tick().is_none());
    assert_eq!(channel.get_topic(), Topic::NewSession);
    assert_eq!(channel.stopping().topic, Topic::NewSession);
    assert_eq!(BLOCK_INTERVAL, 6);
}
