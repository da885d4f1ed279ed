use std::collections::BTreeMap;

use channel::account::AccountId;
use channel::cache::{CacheKey, Index, Reply, Request};
use channel::cache_map::CacheMap;
use channel::message::{Payload, WsResponseMessage};
use channel::round::Round;
use channel::topic::{Topic, Verbosity};

type Record = BTreeMap<String, String>;

/// A cache held in memory, under texts that spell the keys out.
struct Memory {
    connects: bool,
    numbers: BTreeMap<String, u32>,
    texts: BTreeMap<String, String>,
    records: BTreeMap<String, Record>,
    members: BTreeMap<String, Vec<String>>,
}

fn memory() -> Memory {
    Memory {
        connects: true,
        numbers: BTreeMap::new(),
        texts: BTreeMap::new(),
        records: BTreeMap::new(),
        members: BTreeMap::new(),
    }
}

fn spelled(key: &CacheKey) -> String {
    match key {
        CacheKey::FinalizedBlock => "finalized".to_string(),
        CacheKey::PushedBlock => "pushed".to_string(),
        CacheKey::BestBlock => "best".to_string(),
        CacheKey::BlockByIndexStats(Index::Num(n)) => format!("stats {}", n),
        CacheKey::BlockByIndexStats(Index::Str(s)) => format!("stats by name {}", s),
        CacheKey::SessionByIndex(Index::Num(n)) => format!("session {}", n),
        CacheKey::SessionByIndex(Index::Str(s)) => format!("session by name {}", s),
        CacheKey::AuthorityKeyByAccountAndSession(account, session) => {
            format!("key of {} in {}", account.bytes[0], session)
        }
        CacheKey::AuthorityRecord(key) => key.clone(),
        CacheKey::AuthorityRecordVerbose(key, verbosity) => format!("{} {:?}", key, verbosity),
        CacheKey::AuthorityKeysBySessionParaOnly(session) => format!("para keys {}", session),
        CacheKey::ParachainsBySession(session) => format!("parachains {}", session),
    }
}

fn record(fields: &[(&str, &str)]) -> Record {
    fields.iter().map(|(k, v)| (k.to_string(), v.to_string())).collect()
}

fn to_cache_map(record: &Record) -> CacheMap {
    let mut map = CacheMap::new();
    for (k, v) in record {
        map.insert(k.clone(), v.clone());
    }
    map
}

fn from_cache_map(map: &CacheMap) -> Record {
    map.fields().iter().cloned().collect()
}

fn from_cache_maps(maps: &[CacheMap]) -> Vec<Record> {
    maps.iter().map(from_cache_map).collect()
}

impl Memory {
    fn number(mut self, key: &str, n: u32) -> Memory {
        self.numbers.insert(key.to_string(), n);
        self
    }

    fn text(mut self, key: &str, text: &str) -> Memory {
        self.texts.insert(key.to_string(), text.to_string());
        self
    }

    fn record(mut self, key: &str, fields: &[(&str, &str)]) -> Memory {
        self.records.insert(key.to_string(), record(fields));
        self
    }

    fn reply(&mut self, request: Request, log: &mut Vec<String>) -> Reply {
        match request {
            Request::Connect => Reply::Connected(self.connects),
            Request::GetNumber(key) => Reply::Number(self.numbers.get(&spelled(&key)).cloned()),
            Request::GetText(key) => Reply::Text(self.texts.get(&spelled(&key)).cloned()),
            Request::GetFields(key) => {
                Reply::Fields(self.records.get(&spelled(&key)).map(to_cache_map))
            }
            Request::GetMembers(key) => Reply::Members(self.members.get(&spelled(&key)).cloned()),
            Request::SetNumber(key, n) => {
                log.push(format!("write {} {}", spelled(&key), n));
                self.numbers.insert(spelled(&key), n);
                Reply::Written
            }
            Request::AuthorityKey(record) => {
                Reply::AuthorityKey(format!("auth {}", record.get("id").unwrap()))
            }
        }
    }

    /// Runs a round to its end.
    fn run(&mut self, topic: Topic) -> (Vec<WsResponseMessage<Payload>>, Vec<String>) {
        let mut messages = Vec::new();
        let mut log = Vec::new();
        let mut round = Some(Round::start(topic));
        while let Some(current) = round {
            let reply = self.reply(current.request(), &mut log);
            assert!(current.is_in_range(&reply));
            let step = current.step(reply);
            for message in step.messages {
                log.push(format!("publish {}", message.kind));
                messages.push(message);
            }
            round = step.next;
        }
        (messages, log)
    }
}

fn blocks(message: &WsResponseMessage<Payload>) -> Vec<Record> {
    match &message.result {
        Payload::Blocks(data) => from_cache_maps(data),
        _ => panic!("not a list of blocks"),
    }
}

fn block(message: &WsResponseMessage<Payload>) -> Record {
    match &message.result {
        Payload::Block(data) => from_cache_map(data),
        _ => panic!("not a block"),
    }
}

fn session(message: &WsResponseMessage<Payload>) -> Record {
    match &message.result {
        Payload::Session(data) => from_cache_map(data),
        _ => panic!("not a session"),
    }
}

fn finalized(block: u32, stats: &str) -> Record {
    record(&[("block_number", &block.to_string()), ("is_finalized", "true"), ("stats", stats)])
}

#[test]
fn finalized_blocks_after_the_last_pushed_one() {
    let mut cache = memory()
        .number("finalized", 9)
        .number("pushed", 7)
        .text("stats 7", "{7}")
        .text("stats 8", "{8}")
        .text("stats 9", "{9}");
    let (messages, log) = cache.run(Topic::FinalizedBlock);
    assert_eq!(log, vec!["publish blocks", "write pushed 9"]);
    assert_eq!(messages.len(), 1);
    assert_eq!(blocks(&messages[0]), vec![finalized(8, "{8}"), finalized(9, "{9}")]);
}

#[test]
fn finalized_blocks_without_stats_are_left_out() {
    let mut cache = memory()
        .number("finalized", 12)
        .number("pushed", 9)
        .text("stats 9", "{9}")
        .text("stats 11", "{11}")
        .text("stats 12", "{12}");
    let (messages, log) = cache.run(Topic::FinalizedBlock);
    assert_eq!(log, vec!["publish blocks", "write pushed 12"]);
    assert_eq!(messages[0].kind, "blocks");
    assert_eq!(blocks(&messages[0]), vec![finalized(11, "{11}"), finalized(12, "{12}")]);
}

#[test]
fn finalized_blocks_without_stats_are_an_empty_list() {
    let mut cache = memory().number("finalized", 12).number("pushed", 11);
    let (messages, log) = cache.run(Topic::FinalizedBlock);
    assert_eq!(log, vec!["publish blocks", "write pushed 12"]);
    assert_eq!(blocks(&messages[0]).len(), 0);
}

#[test]
fn first_finalized_block_goes_out_alone() {
    let mut cache = memory().number("finalized", 12).text("stats 12", "{12}");
    let (messages, log) = cache.run(Topic::FinalizedBlock);
    assert_eq!(log, vec!["publish block", "write pushed 12"]);
    assert_eq!(block(&messages[0]), finalized(12, "{12}"));
    let mut cache = memory().number("finalized", 12);
    let (_, log) = cache.run(Topic::FinalizedBlock);
    assert_eq!(log.len(), 0);
}

#[test]
fn pushed_blocks_are_not_pushed_again() {
    let mut cache = memory().number("finalized", 12).number("pushed", 11).text("stats 12", "{}");
    assert_eq!(cache.run(Topic::FinalizedBlock).1.len(), 2);
    assert_eq!(cache.run(Topic::FinalizedBlock).1.len(), 0);
}

#[test]
fn rounds_join_without_gap() {
    let mut cache = memory().number("pushed", 5).number("finalized", 7);
    for n in 5..11 {
        cache = cache.text(&format!("stats {}", n), "{}");
    }
    let (first, _) = cache.run(Topic::FinalizedBlock);
    cache = cache.number("finalized", 10);
    let (second, _) = cache.run(Topic::FinalizedBlock);
    let mut all = blocks(&first[0]);
    all.extend(blocks(&second[0]));
    let expected: Vec<Record> = (6..11).map(|n| finalized(n, "{}")).collect();
    assert_eq!(all, expected);
}

#[test]
fn stats_that_come_between_rounds_are_published() {
    let mut cache =
        memory().number("pushed", 5).number("finalized", 6).text("stats 6", "{6}");
    let (first, _) = cache.run(Topic::FinalizedBlock);
    assert_eq!(blocks(&first[0]), vec![finalized(6, "{6}")]);
    cache = cache.number("finalized", 8).text("stats 7", "{7}").text("stats 8", "{8}");
    let (second, log) = cache.run(Topic::FinalizedBlock);
    assert_eq!(log, vec!["publish blocks", "write pushed 8"]);
    assert_eq!(blocks(&second[0]), vec![finalized(7, "{7}"), finalized(8, "{8}")]);
}

#[test]
fn stats_that_come_too_late_are_not_published() {
    let mut cache =
        memory().number("pushed", 5).number("finalized", 7).text("stats 7", "{7}");
    let (first, _) = cache.run(Topic::FinalizedBlock);
    assert_eq!(blocks(&first[0]), vec![finalized(7, "{7}")]);
    cache = cache.number("finalized", 8).text("stats 6", "{6}").text("stats 8", "{8}");
    let (second, _) = cache.run(Topic::FinalizedBlock);
    assert_eq!(blocks(&second[0]), vec![finalized(8, "{8}")]);
}

#[test]
fn number_written_is_the_finalized_block_that_was_read() {
    let mut round = Round::start(Topic::FinalizedBlock);
    for reply in [
        Reply::Connected(true),
        Reply::Number(Some(9)),
        Reply::Number(Some(7)),
        Reply::Text(None),
        Reply::Text(Some("{9}".to_string())),
    ] {
        assert!(round.is_in_range(&reply));
        round = round.step(reply).next.unwrap();
    }
    match round.request() {
        Request::SetNumber(CacheKey::PushedBlock, number) => assert_eq!(number, 9),
        _ => panic!("not a write of the block pushed last"),
    }
}

#[test]
fn replies_of_another_kind_end_the_round() {
    let step = Round::start(Topic::BestBlock).step(Reply::Number(Some(1)));
    assert!(step.messages.is_empty() && step.next.is_none());
    let step = Round::Best.step(Reply::Text(Some("1".to_string())));
    assert!(step.messages.is_empty() && step.next.is_none());
    let step = Round::NotePushed { finalized: 3 }.step(Reply::Connected(true));
    assert!(step.messages.is_empty() && step.next.is_none());
}

#[test]
fn first_round_joins_the_next() {
    let mut cache = memory().number("finalized", 5).text("stats 5", "{5}").text("stats 6", "{6}");
    let (first, log) = cache.run(Topic::FinalizedBlock);
    assert_eq!(log, vec!["publish block", "write pushed 5"]);
    assert_eq!(block(&first[0]), finalized(5, "{5}"));
    cache = cache.number("finalized", 6);
    let (second, log) = cache.run(Topic::FinalizedBlock);
    assert_eq!(log, vec!["publish blocks", "write pushed 6"]);
    assert_eq!(blocks(&second[0]), vec![finalized(6, "{6}")]);
    assert_eq!(cache.run(Topic::FinalizedBlock).1.len(), 0);
}

#[test]
fn last_block_number_of_all_is_pushed() {
    let mut cache = memory()
        .number("finalized", u32::MAX)
        .number("pushed", u32::MAX - 1)
        .text("stats 4294967295", "{}");
    let (messages, log) = cache.run(Topic::FinalizedBlock);
    assert_eq!(log, vec!["publish blocks", "write pushed 4294967295"]);
    assert_eq!(blocks(&messages[0]), vec![finalized(u32::MAX, "{}")]);
    assert_eq!(cache.run(Topic::FinalizedBlock).1.len(), 0);
}

#[test]
fn nothing_without_connection_or_finalized_block() {
    let mut cache = memory().number("finalized", 12).number("pushed", 11).number("best", 13);
    cache.connects = false;
    assert_eq!(cache.run(Topic::FinalizedBlock).1.len(), 0);
    assert_eq!(cache.run(Topic::BestBlock).1.len(), 0);
    let mut cache = memory().number("pushed", 11);
    assert_eq!(cache.run(Topic::FinalizedBlock).1.len(), 0);
    assert_eq!(cache.run(Topic::BestBlock).1.len(), 0);
    assert_eq!(cache.run(Topic::NewSession).1.len(), 0);
}

#[test]
fn best_block_is_not_finalized() {
    let mut cache = memory().number("best", 4_000_000_000);
    let (messages, log) = cache.run(Topic::BestBlock);
    assert_eq!(log, vec!["publish block"]);
    assert_eq!(
        block(&messages[0]),
        record(&[("block_number", "4000000000"), ("is_finalized", "false")])
    );
}

#[test]
fn new_session_is_published_with_the_one_before() {
    let mut cache = memory()
        .number("session by name current", 3)
        .record("session 3", &[("current_block", "109"), ("start_block", "100")])
        .record("session 2", &[("is_current", "true"), ("start_block", "50")]);
    let (messages, log) = cache.run(Topic::NewSession);
    assert_eq!(log, vec!["publish session", "publish session"]);
    assert_eq!(
        session(&messages[0]),
        record(&[("is_current", "false"), ("start_block", "50")])
    );
    assert_eq!(
        session(&messages[1]),
        record(&[("current_block", "109"), ("is_current", "true"), ("start_block", "100")])
    );
}

#[test]
fn new_session_without_the_one_before() {
    let mut cache =
        memory().number("session by name current", 3).record("session 3", &[("x", "y")]);
    let (messages, log) = cache.run(Topic::NewSession);
    assert_eq!(log, vec!["publish session"]);
    assert_eq!(session(&messages[0]), record(&[("is_current", "true"), ("x", "y")]));
}

#[test]
fn old_session_is_not_published() {
    let mut cache = memory()
        .number("session by name current", 3)
        .record("session 3", &[("current_block", "110"), ("start_block", "100")])
        .record("session 2", &[("start_block", "50")]);
    assert_eq!(cache.run(Topic::NewSession).1.len(), 0);
    let mut cache = memory().number("session by name current", 3);
    assert_eq!(cache.run(Topic::NewSession).1.len(), 0);
}

#[test]
fn session_blocks_that_are_no_numbers_count_as_zero() {
    let mut cache = memory()
        .number("session by name current", 3)
        .record("session 3", &[("current_block", "+9"), ("start_block", "4294967296")]);
    assert_eq!(cache.run(Topic::NewSession).1.len(), 1);
    let mut cache = memory()
        .number("session by name current", 3)
        .record("session 3", &[("current_block", "10"), ("start_block", " 9")]);
    assert_eq!(cache.run(Topic::NewSession).1.len(), 0);
}

#[test]
fn range_of_block_and_session_numbers() {
    let stats = Reply::Text(None);
    let at = |block| Round::BlockStats { finalized: 7, block, data: Vec::new() };
    assert!(at(u32::MAX - 1).is_in_range(&stats));
    assert!(!at(u32::MAX).is_in_range(&stats));
    let last = Round::BlockStats { finalized: u32::MAX, block: u32::MAX, data: Vec::new() };
    assert!(last.is_in_range(&stats));
    let known = |topic, finalized| Round::Pushed { topic, finalized };
    let pushed = Reply::Number(Some(u32::MAX));
    assert!(known(Topic::FinalizedBlock, u32::MAX).is_in_range(&pushed));
    assert!(!known(Topic::FinalizedBlock, 7).is_in_range(&pushed));
    assert!(known(Topic::Parachains(1), 7).is_in_range(&pushed));
    assert!(known(Topic::FinalizedBlock, 7).is_in_range(&Reply::Number(Some(u32::MAX - 1))));
    let age = |current: &str, start: &str| {
        Reply::Fields(Some(to_cache_map(&record(&[
            ("current_block", current),
            ("start_block", start),
        ]))))
    };
    let round = |current| Round::SessionFields { current };
    assert!(round(1).is_in_range(&age("7", "7")));
    assert!(!round(1).is_in_range(&age("7", "8")));
    assert!(!round(0).is_in_range(&age("7", "7")));
    assert!(round(0).is_in_range(&age("17", "7")));
    assert!(round(0).is_in_range(&Reply::Fields(None)));
}

fn account() -> AccountId {
    AccountId { bytes: [7; 32] }
}

fn validator_cache() -> Memory {
    memory()
        .number("finalized", 12)
        .number("pushed", 12)
        .number("session by name current", 3)
        .record("key of 7 in 3", &[("id", "a")])
        .record("auth a", &[("name", "A"), ("points", "0"), ("session", "2")])
        .record("auth a Stats", &[("points", "1"), ("rank", "1")])
        .record("auth a Summary", &[("rank", "2"), ("sum", "5")])
}

#[test]
fn validator_with_stats_and_summary() {
    let (messages, log) = validator_cache().run(Topic::Validator(account()));
    assert_eq!(log, vec!["publish validator"]);
    match &messages[0].result {
        Payload::Validator(data) => assert_eq!(
            from_cache_map(data),
            record(&[
                ("name", "A"),
                ("points", "1"),
                ("rank", "2"),
                ("session", "3"),
                ("sum", "5")
            ])
        ),
        _ => panic!("not a validator"),
    }
}

#[test]
fn validator_without_stats_or_summary() {
    let mut cache = validator_cache();
    cache.records.remove("auth a Stats");
    cache.records.remove("auth a Summary");
    let (messages, _) = cache.run(Topic::Validator(account()));
    match &messages[0].result {
        Payload::Validator(data) => assert_eq!(
            from_cache_map(data),
            record(&[("name", "A"), ("points", "0"), ("session", "3")])
        ),
        _ => panic!("not a validator"),
    }
}

#[test]
fn validator_rounds_that_publish_nothing() {
    let topic = Topic::Validator(account());
    assert_eq!(validator_cache().number("pushed", 11).run(topic).1.len(), 0);
    assert_eq!(validator_cache().record("key of 7 in 3", &[]).run(topic).1.len(), 0);
    let without = |key: &str| {
        let mut cache = validator_cache();
        cache.numbers.remove(key);
        cache.records.remove(key);
        cache.run(topic).1.len()
    };
    assert_eq!(without("finalized"), 0);
    assert_eq!(without("pushed"), 0);
    assert_eq!(without("session by name current"), 0);
    assert_eq!(without("key of 7 in 3"), 0);
    assert_eq!(without("auth a"), 0);
}

#[test]
fn para_validators_of_a_session() {
    let mut cache = memory()
        .number("finalized", 12)
        .number("pushed", 12)
        .record("a", &[("name", "A")])
        .record("a Summary", &[("sum", "1")])
        .record("c", &[("name", "C")]);
    let keys = vec!["a".to_string(), "b".to_string(), "c".to_string()];
    cache.members.insert("para keys 4".to_string(), keys);
    let topic = Topic::ParaAuthorities(4, Verbosity::Summary);
    let (messages, log) = cache.run(topic);
    assert_eq!(log, vec!["publish validators"]);
    match &messages[0].result {
        Payload::Validators { session, data } => {
            assert_eq!(*session, 4);
            assert_eq!(
                from_cache_maps(data),
                vec![record(&[("name", "A"), ("sum", "1")]), record(&[("name", "C")])]
            );
        }
        _ => panic!("not a list of validators"),
    }
    assert_eq!(cache.run(Topic::ParaAuthorities(5, Verbosity::Summary)).1.len(), 0);
    cache.members.insert("para keys 5".to_string(), Vec::new());
    assert_eq!(cache.run(Topic::ParaAuthorities(5, Verbosity::Summary)).1.len(), 0);
    cache = cache.number("pushed", 13);
    assert_eq!(cache.run(topic).1.len(), 0);
}

#[test]
fn para_validators_all_without_record() {
    let mut cache = memory().number("finalized", 12).number("pushed", 12);
    cache.members.insert("para keys 4".to_string(), vec!["a".to_string()]);
    let (messages, _) = cache.run(Topic::ParaAuthorities(4, Verbosity::Stats));
    match &messages[0].result {
        Payload::Validators { session, data } => {
            assert_eq!(*session, 4);
            assert_eq!(data.len(), 0);
        }
        _ => panic!("not a list of validators"),
    }
}

#[test]
fn parachains_of_a_session() {
    let mut cache = memory()
        .number("finalized", 12)
        .number("pushed", 12)
        .record("parachains 4", &[("2000", "{}")])
        .record("parachains 5", &[]);
    let (messages, log) = cache.run(Topic::Parachains(4));
    assert_eq!(log, vec!["publish parachains"]);
    match &messages[0].result {
        Payload::Parachains(data) => {
            assert_eq!(from_cache_map(data), record(&[("2000", "{}"), ("session", "4")]))
        }
        _ => panic!("not the parachains"),
    }
    assert_eq!(cache.run(Topic::Parachains(5)).1.len(), 0);
    assert_eq!(cache.run(Topic::Parachains(6)).1.len(), 0);
    cache = cache.number("finalized", 13);
    assert_eq!(cache.run(Topic::Parachains(4)).1.len(), 0);
}
