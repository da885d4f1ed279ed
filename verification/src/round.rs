//! One round of a channel: what it reads from the cache, what it decides on
//! each answer, and what it publishes.
//!
//! A round performs no work outside this library. It names the [`Request`] it
//! waits for, takes the [`Reply`], and hands back the responses to publish and
//! the round that goes on from there, if any.

use std::collections::VecDeque;
use vstd::prelude::*;

use crate::account::AccountId;
use crate::cache::{CacheKey, Index, Reply, Request};
#[allow(unused_imports)]
use crate::cache::{records, texts, FieldsView, ReplyView};
use crate::cache_map::CacheMap;
use crate::decimal::{parse_decimal, to_decimal};
use crate::message::{Payload, WsResponseMessage};
#[allow(unused_imports)]
use crate::message::{response, responses, PayloadView, WsResponseMessageView};
use crate::rules::NEW_SESSION_BLOCKS;
#[allow(unused_imports)]
use crate::rules::{
    after_authorities, after_blocks, after_connect, after_pushed, block_record, finalized_record,
    go_on, in_range, number_field, over, publish, publish_and_go_on, request_of,
    session_record, step_of, truth, with_more, with_session,
};
use crate::topic::{BlockNumber, EpochIndex, Topic, Verbosity};

verus! {

/// A round, by what it waits for.
#[derive(Debug)]
pub enum Round {
    /// A connection.
    Connect { topic: Topic },
    /// The number of the finalized block.
    Finalized { topic: Topic },
    /// The number of the block pushed last.
    Pushed { topic: Topic, finalized: BlockNumber },
    /// The stats of one of the finalized blocks to push.
    BlockStats { finalized: BlockNumber, block: BlockNumber, data: Vec<CacheMap> },
    /// The stats of the finalized block, where none was pushed before.
    FirstBlockStats { finalized: BlockNumber },
    /// The finalized block to be noted as the one pushed last.
    NotePushed { finalized: BlockNumber },
    /// The number of the best block.
    Best,
    /// The index of the current session.
    CurrentSession,
    /// The record of the current session.
    SessionFields { current: EpochIndex },
    /// The record of the session before.
    PreviousSessionFields { previous: EpochIndex, fields: CacheMap },
    /// The index of the current session, for a validator.
    ValidatorSession { account: AccountId },
    /// The record that describes the validator's authority key.
    AuthorityKeyFields { account: AccountId, session: EpochIndex },
    /// The text of that key.
    AuthorityKeyText { session: EpochIndex, fields: CacheMap },
    /// The validator's record.
    Authority { session: EpochIndex, key: String },
    /// The stats of the validator.
    AuthorityStats { session: EpochIndex, key: String, fields: CacheMap },
    /// The summary of the validator.
    AuthoritySummary { session: EpochIndex, key: String, fields: CacheMap },
    /// The keys of the para-validators of a session.
    ParaKeys { session: EpochIndex, verbosity: Verbosity },
    /// The record of one of them.
    ParaAuthority {
        session: EpochIndex,
        verbosity: Verbosity,
        key: String,
        rest: VecDeque<String>,
        data: Vec<CacheMap>,
    },
    /// More of the record of that one.
    ParaAuthorityMore {
        session: EpochIndex,
        verbosity: Verbosity,
        key: String,
        rest: VecDeque<String>,
        data: Vec<CacheMap>,
        fields: CacheMap,
    },
    /// The record of the parachains of a session.
    Parachains { session: EpochIndex },
}

/// The model of a [`Round`].
pub enum RoundView {
    Connect { topic: Topic },
    Finalized { topic: Topic },
    Pushed { topic: Topic, finalized: BlockNumber },
    BlockStats { finalized: BlockNumber, block: BlockNumber, data: Seq<FieldsView> },
    FirstBlockStats { finalized: BlockNumber },
    NotePushed { finalized: BlockNumber },
    Best,
    CurrentSession,
    SessionFields { current: EpochIndex },
    PreviousSessionFields { previous: EpochIndex, fields: FieldsView },
    ValidatorSession { account: AccountId },
    AuthorityKeyFields { account: AccountId, session: EpochIndex },
    AuthorityKeyText { session: EpochIndex, fields: FieldsView },
    Authority { session: EpochIndex, key: Seq<char> },
    AuthorityStats { session: EpochIndex, key: Seq<char>, fields: FieldsView },
    AuthoritySummary { session: EpochIndex, key: Seq<char>, fields: FieldsView },
    ParaKeys { session: EpochIndex, verbosity: Verbosity },
    ParaAuthority {
        session: EpochIndex,
        verbosity: Verbosity,
        key: Seq<char>,
        rest: Seq<Seq<char>>,
        data: Seq<FieldsView>,
    },
    ParaAuthorityMore {
        session: EpochIndex,
        verbosity: Verbosity,
        key: Seq<char>,
        rest: Seq<Seq<char>>,
        data: Seq<FieldsView>,
        fields: FieldsView,
    },
    Parachains { session: EpochIndex },
}

impl View for Round {
    type V = RoundView;

    open spec fn view(&self) -> RoundView {
        match self {
            Round::Connect { topic } => RoundView::Connect { topic: *topic },
            Round::Finalized { topic } => RoundView::Finalized { topic: *topic },
            Round::Pushed { topic, finalized } => RoundView::Pushed {
                topic: *topic,
                finalized: *finalized,
            },
            Round::BlockStats { finalized, block, data } => RoundView::BlockStats {
                finalized: *finalized,
                block: *block,
                data: records(data@),
            },
            Round::FirstBlockStats { finalized } => RoundView::FirstBlockStats {
                finalized: *finalized,
            },
            Round::NotePushed { finalized } => RoundView::NotePushed { finalized: *finalized },
            Round::Best => RoundView::Best,
            Round::CurrentSession => RoundView::CurrentSession,
            Round::SessionFields { current } => RoundView::SessionFields { current: *current },
            Round::PreviousSessionFields { previous, fields } => RoundView::PreviousSessionFields {
                previous: *previous,
                fields: fields@,
            },
            Round::ValidatorSession { account } => RoundView::ValidatorSession {
                account: *account,
            },
            Round::AuthorityKeyFields { account, session } => RoundView::AuthorityKeyFields {
                account: *account,
                session: *session,
            },
            Round::AuthorityKeyText { session, fields } => RoundView::AuthorityKeyText {
                session: *session,
                fields: fields@,
            },
            Round::Authority { session, key } => RoundView::Authority {
                session: *session,
                key: key@,
            },
            Round::AuthorityStats { session, key, fields } => RoundView::AuthorityStats {
                session: *session,
                key: key@,
                fields: fields@,
            },
            Round::AuthoritySummary { session, key, fields } => RoundView::AuthoritySummary {
                session: *session,
                key: key@,
                fields: fields@,
            },
            Round::ParaKeys { session, verbosity } => RoundView::ParaKeys {
                session: *session,
                verbosity: *verbosity,
            },
            Round::ParaAuthority { session, verbosity, key, rest, data } =>
                RoundView::ParaAuthority {
                    session: *session,
                    verbosity: *verbosity,
                    key: key@,
                    rest: texts(rest@),
                    data: records(data@),
                },
            Round::ParaAuthorityMore { session, verbosity, key, rest, data, fields } =>
                RoundView::ParaAuthorityMore {
                    session: *session,
                    verbosity: *verbosity,
                    key: key@,
                    rest: texts(rest@),
                    data: records(data@),
                    fields: fields@,
                },
            Round::Parachains { session } => RoundView::Parachains { session: *session },
        }
    }
}

/// What comes of a reply: the responses to publish, in order, and then the
/// round that goes on, unless the round is over.
#[derive(Debug)]
pub struct Step {
    pub messages: Vec<WsResponseMessage<Payload>>,
    pub next: Option<Round>,
}

/// The model of a [`Step`].
pub struct StepView {
    pub messages: Seq<WsResponseMessageView<PayloadView>>,
    pub next: Option<RoundView>,
}

impl View for Step {
    type V = StepView;

    open spec fn view(&self) -> StepView {
        StepView {
            messages: responses(self.messages@),
            next: match self.next {
                Some(round) => Some(round@),
                None => None,
            },
        }
    }
}

// ---------------------------------------------------------------------------
// Running a round
// ---------------------------------------------------------------------------

impl Step {
    /// The round is over.
    fn over() -> (step: Step)
        ensures
            step@ == over(),
    {
        let step = Step { messages: Vec::new(), next: None };
        assert(step@.messages =~= over().messages);
        step
    }

    /// The round goes on; nothing is published.
    fn go_on(round: Round) -> (step: Step)
        ensures
            step@ == go_on(round@),
    {
        let step = Step { messages: Vec::new(), next: Some(round) };
        assert(step@.messages =~= go_on(round@).messages);
        step
    }

    /// A response is published, and the round is over.
    fn publish(payload: Payload) -> (step: Step)
        ensures
            step@ == publish(payload@),
    {
        let mut messages: Vec<WsResponseMessage<Payload>> = Vec::new();
        messages.push(WsResponseMessage::of(payload));
        let step = Step { messages, next: None };
        assert(step@.messages =~= publish(payload@).messages);
        step
    }

    /// A response is published, and the round goes on.
    fn publish_and_go_on(payload: Payload, round: Round) -> (step: Step)
        ensures
            step@ == publish_and_go_on(payload@, round@),
    {
        let mut messages: Vec<WsResponseMessage<Payload>> = Vec::new();
        messages.push(WsResponseMessage::of(payload));
        let step = Step { messages, next: Some(round) };
        assert(step@.messages =~= publish_and_go_on(payload@, round@).messages);
        step
    }
}

/// The text of a truth value.
fn truth_text(b: bool) -> (text: String)
    ensures
        text@ == truth(b),
{
    if b {
        "true".to_owned()
    } else {
        "false".to_owned()
    }
}

/// The record of a block: its number, and whether it is finalized.
fn block_fields(block: BlockNumber, is_finalized: bool) -> (fields: CacheMap)
    ensures
        fields@ == block_record(block, is_finalized),
{
    let mut fields = CacheMap::new();
    fields.insert("block_number".to_owned(), to_decimal(block));
    fields.insert("is_finalized".to_owned(), truth_text(is_finalized));
    fields
}

/// The record of a finalized block, with its stats.
fn finalized_fields(block: BlockNumber, stats: String) -> (fields: CacheMap)
    ensures
        fields@ == finalized_record(block, stats@),
{
    let mut fields = block_fields(block, true);
    fields.insert("stats".to_owned(), stats);
    fields
}

/// The number in a field; zero where there is none.
fn field_number(fields: &CacheMap, name: &str) -> (number: u32)
    ensures
        number == number_field(fields@, name@),
{
    match fields.get(name) {
        Some(text) => match parse_decimal(text.as_str()) {
            Some(number) => number,
            None => 0,
        },
        None => 0,
    }
}

/// The response that reports on a session.
fn session_response(fields: CacheMap, is_current: bool) -> (message: WsResponseMessage<Payload>)
    ensures
        message@ == response(PayloadView::Session(session_record(fields@, is_current))),
{
    let mut fields = fields;
    fields.insert("is_current".to_owned(), truth_text(is_current));
    WsResponseMessage::of(Payload::Session(fields))
}

/// A record with more fields, if there are any more.
fn joined(fields: CacheMap, more: Option<CacheMap>) -> (all: CacheMap)
    ensures
        all@ == with_more(
            fields@,
            match more {
                Some(other) => Some(other@),
                None => None,
            },
        ),
{
    let mut all = fields;
    match more {
        Some(other) => all.extend(other),
        None => {},
    }
    all
}

/// A record with the index of its session.
fn in_session(fields: CacheMap, session: EpochIndex) -> (all: CacheMap)
    ensures
        all@ == with_session(fields@, session),
{
    let mut all = fields;
    all.insert("session".to_owned(), to_decimal(session));
    all
}

/// What follows once a connection stands.
fn connected(topic: Topic) -> (step: Step)
    ensures
        step@ == after_connect(topic),
{
    match topic {
        Topic::BestBlock => Step::go_on(Round::Best),
        Topic::NewSession => Step::go_on(Round::CurrentSession),
        _ => Step::go_on(Round::Finalized { topic }),
    }
}

/// What follows once it is known which block was pushed last, if any was.
fn pushed_known(topic: Topic, finalized: BlockNumber, pushed: Option<BlockNumber>) -> (step: Step)
    requires
        in_range(RoundView::Pushed { topic, finalized }, ReplyView::Number(pushed)),
    ensures
        step@ == after_pushed(topic, finalized, pushed),
{
    match topic {
        Topic::FinalizedBlock => match pushed {
            None => Step::go_on(Round::FirstBlockStats { finalized }),
            Some(last) => if last == finalized {
                Step::over()
            } else {
                let data: Vec<CacheMap> = Vec::new();
                assert(records(data@) =~= Seq::<FieldsView>::empty());
                Step::go_on(Round::BlockStats { finalized, block: last + 1, data })
            },
        },
        _ => match pushed {
            None => Step::over(),
            Some(last) => if last != finalized {
                Step::over()
            } else {
                match topic {
                    Topic::Validator(account) => Step::go_on(Round::ValidatorSession { account }),
                    Topic::ParaAuthorities(session, verbosity) => Step::go_on(
                        Round::ParaKeys { session, verbosity },
                    ),
                    Topic::Parachains(session) => Step::go_on(Round::Parachains { session }),
                    _ => Step::over(),
                }
            },
        },
    }
}

/// What follows once the records of the finalized blocks up to a block, itself
/// among them, are there.
fn blocks_known(finalized: BlockNumber, block: BlockNumber, data: Vec<CacheMap>) -> (step: Step)
    requires
        block == finalized || block < u32::MAX,
    ensures
        step@ == after_blocks(finalized, block, records(data@)),
{
    if block == finalized {
        Step::publish_and_go_on(Payload::Blocks(data), Round::NotePushed { finalized })
    } else {
        Step::go_on(Round::BlockStats { finalized, block: block + 1, data })
    }
}

/// What follows once the records of all para-validators but the rest are
/// there.
fn authorities_known(
    session: EpochIndex,
    verbosity: Verbosity,
    rest: VecDeque<String>,
    data: Vec<CacheMap>,
) -> (step: Step)
    ensures
        step@ == after_authorities(session, verbosity, texts(rest@), records(data@)),
{
    let mut rest = rest;
    let ghost keys = rest@;
    match rest.pop_front() {
        None => Step::publish(Payload::Validators { session, data }),
        Some(key) => {
            assert(texts(rest@) =~= texts(keys).drop_first());
            Step::go_on(Round::ParaAuthority { session, verbosity, key, rest, data })
        },
    }
}

impl Round {
    /// The round that a topic calls for, from its beginning.
    pub fn start(topic: Topic) -> (round: Round)
        ensures
            round@ == (RoundView::Connect { topic }),
    {
        Round::Connect { topic }
    }

    /// The request that the round waits for.
    pub fn request(&self) -> (request: Request)
        ensures
            request@ == request_of(self@),
    {
        match self {
            Round::Connect { .. } => Request::Connect,
            Round::Finalized { .. } => Request::GetNumber(CacheKey::FinalizedBlock),
            Round::Pushed { .. } => Request::GetNumber(CacheKey::PushedBlock),
            Round::BlockStats { block, .. } => Request::GetText(
                CacheKey::BlockByIndexStats(Index::Num(*block as u64)),
            ),
            Round::FirstBlockStats { finalized } => Request::GetText(
                CacheKey::BlockByIndexStats(Index::Num(*finalized as u64)),
            ),
            Round::NotePushed { finalized } => Request::SetNumber(
                CacheKey::PushedBlock,
                *finalized,
            ),
            Round::Best => Request::GetNumber(CacheKey::BestBlock),
            Round::CurrentSession => Request::GetNumber(
                CacheKey::SessionByIndex(Index::Str("current".to_owned())),
            ),
            Round::SessionFields { current } => Request::GetFields(
                CacheKey::SessionByIndex(Index::Num(*current as u64)),
            ),
            Round::PreviousSessionFields { previous, .. } => Request::GetFields(
                CacheKey::SessionByIndex(Index::Num(*previous as u64)),
            ),
            Round::ValidatorSession { .. } => Request::GetNumber(
                CacheKey::SessionByIndex(Index::Str("current".to_owned())),
            ),
            Round::AuthorityKeyFields { account, session } => Request::GetFields(
                CacheKey::AuthorityKeyByAccountAndSession(*account, *session),
            ),
            Round::AuthorityKeyText { fields, .. } => Request::AuthorityKey(fields.duplicate()),
            Round::Authority { key, .. } => Request::GetFields(
                CacheKey::AuthorityRecord(key.clone()),
            ),
            Round::AuthorityStats { key, .. } => Request::GetFields(
                CacheKey::AuthorityRecordVerbose(key.clone(), Verbosity::Stats),
            ),
            Round::AuthoritySummary { key, .. } => Request::GetFields(
                CacheKey::AuthorityRecordVerbose(key.clone(), Verbosity::Summary),
            ),
            Round::ParaKeys { session, .. } => Request::GetMembers(
                CacheKey::AuthorityKeysBySessionParaOnly(*session),
            ),
            Round::ParaAuthority { key, .. } => Request::GetFields(
                CacheKey::AuthorityRecord(key.clone()),
            ),
            Round::ParaAuthorityMore { key, verbosity, .. } => Request::GetFields(
                CacheKey::AuthorityRecordVerbose(key.clone(), *verbosity),
            ),
            Round::Parachains { session } => Request::GetFields(
                CacheKey::ParachainsBySession(*session),
            ),
        }
    }

    /// Whether the 32-bit arithmetic that a reply calls for has a result.
    pub fn is_in_range(&self, reply: &Reply) -> (within: bool)
        ensures
            within == in_range(self@, reply@),
    {
        match self {
            Round::Pushed { topic: Topic::FinalizedBlock, finalized } => match reply {
                Reply::Number(Some(last)) => *last == *finalized || *last < u32::MAX,
                _ => true,
            },
            Round::BlockStats { finalized, block, .. } => *block == *finalized || *block < u32::MAX,
            Round::SessionFields { current } => match reply {
                Reply::Fields(Some(fields)) => {
                    let current_block = field_number(fields, "current_block");
                    let start_block = field_number(fields, "start_block");
                    start_block <= current_block && (current_block - start_block
                        >= NEW_SESSION_BLOCKS || *current > 0)
                },
                _ => true,
            },
            _ => true,
        }
    }

    /// Takes the reply to the round's request, and goes on from there. A reply
    /// of another kind ends the round.
    pub fn step(self, reply: Reply) -> (step: Step)
        requires
            in_range(self@, reply@),
        ensures
            step@ == step_of(self@, reply@),
    {
        match (self, reply) {
            (Round::Connect { topic }, Reply::Connected(true)) => connected(topic),
            (Round::Finalized { topic }, Reply::Number(Some(finalized))) => Step::go_on(
                Round::Pushed { topic, finalized },
            ),
            (Round::Pushed { topic, finalized }, Reply::Number(pushed)) => pushed_known(
                topic,
                finalized,
                pushed,
            ),
            (Round::BlockStats { finalized, block, data }, Reply::Text(stats)) => {
                let mut data = data;
                if let Some(text) = stats {
                    let ghost before = data@;
                    let fields = finalized_fields(block, text);
                    data.push(fields);
                    assert(records(data@) =~= records(before).push(fields@));
                }
                blocks_known(finalized, block, data)
            },
            (Round::FirstBlockStats { finalized }, Reply::Text(Some(stats))) =>
                Step::publish_and_go_on(
                    Payload::Block(finalized_fields(finalized, stats)),
                    Round::NotePushed { finalized },
                ),
            (Round::Best, Reply::Number(Some(block))) => Step::publish(
                Payload::Block(block_fields(block, false)),
            ),
            (Round::CurrentSession, Reply::Number(Some(current))) => Step::go_on(
                Round::SessionFields { current },
            ),
            (Round::SessionFields { current }, Reply::Fields(Some(fields))) => {
                let current_block = field_number(&fields, "current_block");
                let start_block = field_number(&fields, "start_block");
                if current_block - start_block < NEW_SESSION_BLOCKS {
                    Step::go_on(Round::PreviousSessionFields { previous: current - 1, fields })
                } else {
                    Step::over()
                }
            },
            (Round::PreviousSessionFields { fields, .. }, Reply::Fields(previous)) => {
                let mut messages: Vec<WsResponseMessage<Payload>> = Vec::new();
                if let Some(other) = previous {
                    messages.push(session_response(other, false));
                }
                messages.push(session_response(fields, true));
                let step = Step { messages, next: None };
                assert(step@.messages =~= step_of(self@, reply@).messages);
                step
            },
            (Round::ValidatorSession { account }, Reply::Number(Some(session))) => Step::go_on(
                Round::AuthorityKeyFields { account, session },
            ),
            (Round::AuthorityKeyFields { session, .. }, Reply::Fields(Some(fields))) => {
                if fields.is_empty() {
                    Step::over()
                } else {
                    Step::go_on(Round::AuthorityKeyText { session, fields })
                }
            },
            (Round::AuthorityKeyText { session, .. }, Reply::AuthorityKey(key)) => Step::go_on(
                Round::Authority { session, key },
            ),
            (Round::Authority { session, key }, Reply::Fields(Some(fields))) => Step::go_on(
                Round::AuthorityStats { session, key, fields },
            ),
            (Round::AuthorityStats { session, key, fields }, Reply::Fields(more)) => Step::go_on(
                Round::AuthoritySummary { session, key, fields: joined(fields, more) },
            ),
            (Round::AuthoritySummary { session, fields, .. }, Reply::Fields(more)) =>
                Step::publish(Payload::Validator(in_session(joined(fields, more), session))),
            (Round::ParaKeys { session, verbosity }, Reply::Members(Some(keys))) => {
                if keys.len() == 0 {
                    Step::over()
                } else {
                    let rest = queue(keys);
                    let data: Vec<CacheMap> = Vec::new();
                    assert(records(data@) =~= Seq::<FieldsView>::empty());
                    authorities_known(session, verbosity, rest, data)
                }
            },
            (
                Round::ParaAuthority { session, verbosity, key, rest, data },
                Reply::Fields(fields),
            ) => match fields {
                Some(fields) => Step::go_on(
                    Round::ParaAuthorityMore { session, verbosity, key, rest, data, fields },
                ),
                None => authorities_known(session, verbosity, rest, data),
            },
            (
                Round::ParaAuthorityMore { session, verbosity, rest, data, fields, .. },
                Reply::Fields(more),
            ) => {
                let mut data = data;
                let ghost before = data@;
                let all = joined(fields, more);
                data.push(all);
                assert(records(data@) =~= records(before).push(all@));
                authorities_known(session, verbosity, rest, data)
            },
            (Round::Parachains { session }, Reply::Fields(Some(fields))) => {
                if fields.is_empty() {
                    Step::over()
                } else {
                    Step::publish(Payload::Parachains(in_session(fields, session)))
                }
            },
            _ => Step::over(),
        }
    }
}

/// The same strings, to be taken one by one from the front.
fn queue(strings: Vec<String>) -> (all: VecDeque<String>)
    ensures
        all@ == strings@,
{
    let mut all: VecDeque<String> = VecDeque::new();
    let mut i: usize = 0;
    while i < strings.len()
        invariant
            i <= strings@.len(),
            all@ == strings@.take(i as int),
        decreases strings@.len() - i,
    {
        all.push_back(strings[i].clone());
        assert(all@ =~= strings@.take(i as int + 1));
        i += 1;
    }
    assert(all@ =~= strings@);
    all
}

} // verus!
