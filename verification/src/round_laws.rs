//! What holds of whole rounds.
//!
//! The laws speak of a round from its beginning to its end, against a cache
//! that answers each request in some way of its own.

use vstd::prelude::*;

use crate::cache::{CacheKeyView, FieldsView, ReplyView, RequestView};
#[allow(unused_imports)]
use crate::cache::answers;
#[allow(unused_imports)]
use crate::decimal::{decimal, law_number_texts_differ};
use crate::message::{PayloadView, WsResponseMessageView};
#[allow(unused_imports)]
use crate::message::{kind_name, response};
use crate::round::RoundView;
#[allow(unused_imports)]
use crate::rules::{
    block_record, current_session_key, finalized_record, in_range, over, request_of, session_age,
    session_key, session_record, stats_key, step_of, with_more, with_session, NEW_SESSION_BLOCKS,
};
use crate::topic::{BlockNumber, EpochIndex, Topic, Verbosity};

verus! {

// ---------------------------------------------------------------------------
// Every round ends
// ---------------------------------------------------------------------------

/// How many kinds of step lie before a round at most.
pub open spec fn stages_left(round: RoundView) -> nat {
    match round {
        RoundView::Connect { .. } => 9,
        RoundView::Finalized { .. } => 8,
        RoundView::Pushed { .. } => 7,
        RoundView::BlockStats { .. } => 2,
        RoundView::FirstBlockStats { .. } => 2,
        RoundView::NotePushed { .. } => 1,
        RoundView::Best => 1,
        RoundView::CurrentSession => 3,
        RoundView::SessionFields { .. } => 2,
        RoundView::PreviousSessionFields { .. } => 1,
        RoundView::ValidatorSession { .. } => 6,
        RoundView::AuthorityKeyFields { .. } => 5,
        RoundView::AuthorityKeyText { .. } => 4,
        RoundView::Authority { .. } => 3,
        RoundView::AuthorityStats { .. } => 2,
        RoundView::AuthoritySummary { .. } => 1,
        RoundView::ParaKeys { .. } => 2,
        RoundView::ParaAuthority { .. } => 1,
        RoundView::ParaAuthorityMore { .. } => 1,
        RoundView::Parachains { .. } => 1,
    }
}

/// How many steps of its present kind lie before a round at most.
pub open spec fn repeats_left(round: RoundView) -> nat {
    match round {
        RoundView::BlockStats { block, .. } => (u32::MAX - block) as nat,
        RoundView::ParaAuthority { rest, .. } => 2 * rest.len() + 1,
        RoundView::ParaAuthorityMore { rest, .. } => 2 * rest.len(),
        _ => 0,
    }
}

/// Every round ends: each reply, whatever it is, brings a round nearer to its
/// end.
pub proof fn law_every_round_ends(round: RoundView, reply: ReplyView)
    ensures
        step_of(round, reply).next matches Some(next) ==> {
            ||| stages_left(next) < stages_left(round)
            ||| stages_left(next) == stages_left(round) && repeats_left(next) < repeats_left(round)
        },
{
}

/// A reply of another kind than the request ends the round, and nothing is
/// published.
pub proof fn law_other_replies_end_the_round(round: RoundView, reply: ReplyView)
    requires
        !answers(reply, request_of(round)),
    ensures
        step_of(round, reply) == over(),
        step_of(round, reply).messages.len() == 0,
        step_of(round, reply).next is None,
{
}

// ---------------------------------------------------------------------------
// Which rounds a topic calls for
// ---------------------------------------------------------------------------

/// Whether a round can come up for a topic.
pub open spec fn serves(round: RoundView, topic: Topic) -> bool {
    match round {
        RoundView::Connect { topic: t } => t == topic,
        RoundView::Finalized { topic: t } => t == topic && !(topic is BestBlock)
            && !(topic is NewSession),
        RoundView::Pushed { topic: t, .. } => t == topic && !(topic is BestBlock)
            && !(topic is NewSession),
        RoundView::BlockStats { .. } => topic is FinalizedBlock,
        RoundView::FirstBlockStats { .. } => topic is FinalizedBlock,
        RoundView::NotePushed { .. } => topic is FinalizedBlock,
        RoundView::Best => topic is BestBlock,
        RoundView::CurrentSession => topic is NewSession,
        RoundView::SessionFields { .. } => topic is NewSession,
        RoundView::PreviousSessionFields { .. } => topic is NewSession,
        RoundView::ValidatorSession { account } => topic == Topic::Validator(account),
        RoundView::AuthorityKeyFields { account, .. } => topic == Topic::Validator(account),
        RoundView::AuthorityKeyText { .. } => topic is Validator,
        RoundView::Authority { .. } => topic is Validator,
        RoundView::AuthorityStats { .. } => topic is Validator,
        RoundView::AuthoritySummary { .. } => topic is Validator,
        RoundView::ParaKeys { session, verbosity } => topic == Topic::ParaAuthorities(
            session,
            verbosity,
        ),
        RoundView::ParaAuthority { session, verbosity, .. } => topic == Topic::ParaAuthorities(
            session,
            verbosity,
        ),
        RoundView::ParaAuthorityMore { session, verbosity, .. } => topic == Topic::ParaAuthorities(
            session,
            verbosity,
        ),
        RoundView::Parachains { session } => topic == Topic::Parachains(session),
    }
}

/// Whether a payload is a report on a topic.
pub open spec fn reports_on(payload: PayloadView, topic: Topic) -> bool {
    match topic {
        Topic::FinalizedBlock => payload is Block || payload is Blocks,
        Topic::BestBlock => payload is Block,
        Topic::NewSession => payload is Session,
        Topic::Validator(_) => payload is Validator,
        Topic::ParaAuthorities(index, _) => payload matches PayloadView::Validators { session, .. }
            && session == index,
        Topic::Parachains(_) => payload is Parachains,
    }
}

/// A channel reports on its own topic and on nothing else, whatever the cache
/// replies: its round stays one of the topic's rounds, and each response that
/// it publishes is a report on the topic, under the name of its kind.
pub proof fn law_round_keeps_to_its_topic(topic: Topic, round: RoundView, reply: ReplyView)
    requires
        serves(round, topic),
    ensures
        serves(RoundView::Connect { topic }, topic),
        step_of(round, reply).next matches Some(next) ==> serves(next, topic),
        forall|i: int|
            0 <= i < step_of(round, reply).messages.len() ==> {
                let message = #[trigger] step_of(round, reply).messages[i];
                &&& reports_on(message.result, topic)
                &&& message.kind == kind_name(message.result)
            },
{
}

/// The round of a topic once the cache has given some replies, whatever they
/// are; none where the round is over by then.
pub open spec fn after_replies(topic: Topic, replies: Seq<ReplyView>) -> Option<RoundView>
    decreases replies.len(),
{
    if replies.len() == 0 {
        Some(RoundView::Connect { topic })
    } else {
        match after_replies(topic, replies.drop_last()) {
            Some(round) => step_of(round, replies.last()).next,
            None => None,
        }
    }
}

/// The number of the finalized block that a round has read and still holds.
pub open spec fn finalized_read(round: RoundView) -> Option<BlockNumber> {
    match round {
        RoundView::Pushed { finalized, .. } => Some(finalized),
        RoundView::BlockStats { finalized, .. } => Some(finalized),
        RoundView::FirstBlockStats { finalized } => Some(finalized),
        RoundView::NotePushed { finalized } => Some(finalized),
        _ => None,
    }
}

/// A round asks for the finalized block second if at all, and holds no other
/// number as that of the finalized block than the one that came back.
proof fn lemma_finalized_read(topic: Topic, replies: Seq<ReplyView>)
    ensures
        after_replies(topic, replies) matches Some(round) ==> {
            &&& serves(round, topic)
            &&& round is Connect ==> replies.len() == 0
            &&& round is Finalized ==> replies.len() == 1
            &&& finalized_read(round) matches Some(number) ==> {
                &&& replies.len() >= 2
                &&& after_replies(topic, replies.take(1)) == Some(RoundView::Finalized { topic })
                &&& replies[1] == ReplyView::Number(Some(number))
            }
        },
    decreases replies.len(),
{
    if replies.len() > 0 {
        let front = replies.drop_last();
        lemma_finalized_read(topic, front);
        if let Some(before) = after_replies(topic, front) {
            law_round_keeps_to_its_topic(topic, before, replies.last());
            if before is Finalized {
                assert(replies.take(1) =~= front);
            } else if front.len() >= 2 {
                assert(replies.take(1) =~= front.take(1));
            }
        }
    }
}

/// The only thing that a round writes is the number of the block pushed last,
/// and only a round of the finalized blocks writes it. The number written is
/// the one that the cache gave, in the same round, for the finalized block:
/// its reply to the request that the round makes once it is connected.
/// Whatever else the cache replies makes no difference.
pub proof fn law_only_finalized_blocks_write(
    topic: Topic,
    replies: Seq<ReplyView>,
    round: RoundView,
)
    requires
        after_replies(topic, replies) == Some(round),
    ensures
        request_of(RoundView::Finalized { topic }) == RequestView::GetNumber(
            CacheKeyView::FinalizedBlock,
        ),
        request_of(round) matches RequestView::SetNumber(key, number) ==> {
            &&& topic is FinalizedBlock
            &&& key == CacheKeyView::PushedBlock
            &&& replies.len() >= 2
            &&& after_replies(topic, replies.take(1)) == Some(RoundView::Finalized { topic })
            &&& replies[1] == ReplyView::Number(Some(number))
        },
{
    lemma_finalized_read(topic, replies);
}

// ---------------------------------------------------------------------------
// Whole rounds
// ---------------------------------------------------------------------------

/// A cache, by how it answers.
pub struct CacheModel {
    pub connects: bool,
    pub number: spec_fn(CacheKeyView) -> Option<u32>,
    pub text: spec_fn(CacheKeyView) -> Option<Seq<char>>,
    pub fields: spec_fn(CacheKeyView) -> Option<FieldsView>,
    pub members: spec_fn(CacheKeyView) -> Option<Seq<Seq<char>>>,
    /// The text of the authority key that a record describes.
    pub authority_key: spec_fn(FieldsView) -> Seq<char>,
}

/// The reply of a cache to a request.
pub open spec fn reply_of(cache: CacheModel, request: RequestView) -> ReplyView {
    match request {
        RequestView::Connect => ReplyView::Connected(cache.connects),
        RequestView::GetNumber(key) => ReplyView::Number((cache.number)(key)),
        RequestView::GetText(key) => ReplyView::Text((cache.text)(key)),
        RequestView::GetFields(key) => ReplyView::Fields((cache.fields)(key)),
        RequestView::GetMembers(key) => ReplyView::Members((cache.members)(key)),
        RequestView::SetNumber(..) => ReplyView::Written,
        RequestView::AuthorityKey(record) => ReplyView::AuthorityKey((cache.authority_key)(record)),
    }
}

/// A cache answers every request in kind.
pub proof fn law_requests_are_answered(cache: CacheModel, request: RequestView)
    ensures
        answers(reply_of(cache, request), request),
{
}

/// What a round does that can be seen from outside.
pub enum Effect {
    /// A response is published.
    Publish(WsResponseMessageView<PayloadView>),
    /// A number is written to the cache.
    Write(CacheKeyView, BlockNumber),
}

/// The effects of publishing responses.
pub open spec fn published(messages: Seq<WsResponseMessageView<PayloadView>>) -> Seq<Effect> {
    messages.map_values(|m: WsResponseMessageView<PayloadView>| Effect::Publish(m))
}

/// The effects of making a request.
pub open spec fn requested(request: RequestView) -> Seq<Effect> {
    match request {
        RequestView::SetNumber(key, number) => seq![Effect::Write(key, number)],
        _ => Seq::empty(),
    }
}

/// All effects of a round from here to its end, in order.
pub open spec fn course(cache: CacheModel, round: RoundView) -> Seq<Effect>
    decreases stages_left(round), repeats_left(round),
{
    let request = request_of(round);
    let step = step_of(round, reply_of(cache, request));
    requested(request) + published(step.messages) + match step.next {
        Some(next) => course(cache, next),
        None => Seq::empty(),
    }
}

/// All effects of a round of a topic.
pub open spec fn round_effects(cache: CacheModel, topic: Topic) -> Seq<Effect> {
    course(cache, RoundView::Connect { topic })
}

/// The effect of publishing a payload.
pub open spec fn reported(payload: PayloadView) -> Effect {
    Effect::Publish(response(payload))
}

/// The finalized block that a cache knows of.
pub open spec fn finalized_block(cache: CacheModel) -> Option<BlockNumber> {
    (cache.number)(CacheKeyView::FinalizedBlock)
}

/// The block pushed last that a cache knows of.
pub open spec fn pushed_block(cache: CacheModel) -> Option<BlockNumber> {
    (cache.number)(CacheKeyView::PushedBlock)
}

/// Whether no finalized block is left to push.
pub open spec fn all_pushed(cache: CacheModel) -> bool {
    &&& cache.connects
    &&& finalized_block(cache) is Some
    &&& pushed_block(cache) == finalized_block(cache)
}

/// Whether a cache has the stats of a block.
pub open spec fn has_stats(cache: CacheModel, block: BlockNumber) -> bool {
    (cache.text)(stats_key(block)) is Some
}

/// The blocks after one block up to another, itself among them, that have
/// stats.
pub open spec fn blocks_after(cache: CacheModel, last: BlockNumber, to: BlockNumber) -> Seq<
    BlockNumber,
>
    decreases to - last,
{
    if last >= to {
        Seq::empty()
    } else {
        let block = (last + 1) as BlockNumber;
        blocks_from(cache, block, blocks_after(cache, block, to))
    }
}

/// A block, if it has stats, and more blocks.
pub open spec fn blocks_from(
    cache: CacheModel,
    block: BlockNumber,
    more: Seq<BlockNumber>,
) -> Seq<BlockNumber> {
    if has_stats(cache, block) {
        seq![block] + more
    } else {
        more
    }
}

/// The record of a finalized block that has stats.
pub open spec fn record_of(cache: CacheModel, block: BlockNumber) -> FieldsView {
    finalized_record(block, (cache.text)(stats_key(block)).unwrap())
}

/// The records of finalized blocks.
pub open spec fn block_records(cache: CacheModel, blocks: Seq<BlockNumber>) -> Seq<FieldsView> {
    blocks.map_values(|block: BlockNumber| record_of(cache, block))
}

/// What a round of the finalized blocks does.
pub open spec fn finalized_effects(cache: CacheModel) -> Seq<Effect> {
    match (finalized_block(cache), pushed_block(cache)) {
        (Some(finalized), Some(pushed)) => if pushed == finalized {
            Seq::empty()
        } else {
            seq![
                reported(
                    PayloadView::Blocks(
                        block_records(cache, blocks_after(cache, pushed, finalized)),
                    ),
                ),
                Effect::Write(CacheKeyView::PushedBlock, finalized),
            ]
        },
        (Some(finalized), None) => match (cache.text)(stats_key(finalized)) {
            Some(stats) => seq![
                reported(PayloadView::Block(finalized_record(finalized, stats))),
                Effect::Write(CacheKeyView::PushedBlock, finalized),
            ],
            None => Seq::empty(),
        },
        _ => Seq::empty(),
    }
}

/// The blocks to push lie in order: the block pushed last is not beyond the
/// finalized block.
pub open spec fn blocks_in_order(cache: CacheModel) -> bool {
    match (finalized_block(cache), pushed_block(cache)) {
        (Some(finalized), Some(pushed)) => pushed <= finalized,
        _ => true,
    }
}

/// The records of the blocks after one block are read one after the other,
/// published together, and noted.
proof fn lemma_blocks(
    cache: CacheModel,
    finalized: BlockNumber,
    last: BlockNumber,
    data: Seq<FieldsView>,
)
    requires
        last < finalized,
    ensures
        course(
            cache,
            RoundView::BlockStats { finalized, block: (last + 1) as BlockNumber, data },
        ) == seq![
            reported(
                PayloadView::Blocks(
                    data + block_records(cache, blocks_after(cache, last, finalized)),
                ),
            ),
            Effect::Write(CacheKeyView::PushedBlock, finalized),
        ],
    decreases finalized - last,
{
    let block = (last + 1) as BlockNumber;
    let more = if has_stats(cache, block) {
        data.push(record_of(cache, block))
    } else {
        data
    };
    let rest = blocks_after(cache, block, finalized);
    let all = blocks_after(cache, last, finalized);
    assert(more + block_records(cache, rest) =~= data + block_records(cache, all));
    let here = RoundView::BlockStats { finalized, block, data };
    let step = step_of(here, reply_of(cache, request_of(here)));
    if block == finalized {
        assert(more =~= data + block_records(cache, all));
        let noting = RoundView::NotePushed { finalized };
        assert(course(cache, noting) =~= seq![
            Effect::Write(CacheKeyView::PushedBlock, finalized),
        ]);
        assert(published(step.messages) =~= seq![reported(PayloadView::Blocks(more))]);
    } else {
        lemma_blocks(cache, finalized, block, more);
        assert(published(step.messages) =~= Seq::<Effect>::empty());
    }
    assert(course(cache, here) =~= seq![
        reported(PayloadView::Blocks(data + block_records(cache, all))),
        Effect::Write(CacheKeyView::PushedBlock, finalized),
    ]);
}

/// A round of the finalized blocks publishes, in one response, the records of
/// all blocks after the block pushed last up to the finalized block, itself
/// among them, that have stats, and then notes the finalized block as the one
/// pushed last. It does nothing where the two are the same block. Where no
/// block was pushed before, it publishes and notes the finalized block alone.
pub proof fn law_finalized_blocks(cache: CacheModel)
    requires
        cache.connects,
        blocks_in_order(cache),
    ensures
        round_effects(cache, Topic::FinalizedBlock) == finalized_effects(cache),
{
    reveal_with_fuel(course, 5);
    if let (Some(finalized), Some(pushed)) = (finalized_block(cache), pushed_block(cache)) {
        if pushed != finalized {
            lemma_blocks(cache, finalized, pushed, Seq::empty());
            let records = block_records(cache, blocks_after(cache, pushed, finalized));
            assert(Seq::<FieldsView>::empty() + records =~= records);
        }
    }
    assert(round_effects(cache, Topic::FinalizedBlock) =~= finalized_effects(cache));
}

/// What a round of the best block does.
pub open spec fn best_effects(cache: CacheModel) -> Seq<Effect> {
    match (cache.number)(CacheKeyView::BestBlock) {
        Some(block) => seq![reported(PayloadView::Block(block_record(block, false)))],
        None => Seq::empty(),
    }
}

/// A round of the best block publishes the number of the best block, as one
/// that is not finalized.
pub proof fn law_best_block(cache: CacheModel)
    requires
        cache.connects,
    ensures
        round_effects(cache, Topic::BestBlock) == best_effects(cache),
{
    reveal_with_fuel(course, 2);
    assert(round_effects(cache, Topic::BestBlock) =~= best_effects(cache));
}

/// The index and the record of the current session that a cache knows of.
pub open spec fn current_session(cache: CacheModel) -> Option<(EpochIndex, FieldsView)> {
    match (cache.number)(current_session_key()) {
        Some(current) => match (cache.fields)(session_key(current)) {
            Some(fields) => Some((current, fields)),
            None => None,
        },
        None => None,
    }
}

/// The current session does not end before it starts, and is not the first
/// one while it is new.
pub open spec fn session_in_order(cache: CacheModel) -> bool {
    current_session(cache) matches Some((current, fields)) ==> {
        &&& 0 <= session_age(fields)
        &&& session_age(fields) < NEW_SESSION_BLOCKS ==> 0 < current
    }
}

/// What a round of the sessions does.
pub open spec fn session_effects(cache: CacheModel) -> Seq<Effect> {
    match current_session(cache) {
        Some((current, fields)) => if session_age(fields) < NEW_SESSION_BLOCKS {
            let now = reported(PayloadView::Session(session_record(fields, true)));
            match (cache.fields)(session_key((current - 1) as EpochIndex)) {
                Some(before) => seq![
                    reported(PayloadView::Session(session_record(before, false))),
                    now,
                ],
                None => seq![now],
            }
        } else {
            Seq::empty()
        },
        None => Seq::empty(),
    }
}

/// A round of the sessions publishes while the current session is in its
/// first ten blocks, and only then: first the session before, marked as not
/// current, if the cache has it, and then the current session, marked as
/// current.
pub proof fn law_new_session(cache: CacheModel)
    requires
        cache.connects,
        session_in_order(cache),
    ensures
        round_effects(cache, Topic::NewSession) == session_effects(cache),
{
    reveal_with_fuel(course, 4);
    assert(round_effects(cache, Topic::NewSession) =~= session_effects(cache));
}

/// What a round of a validator does.
pub open spec fn validator_effects(cache: CacheModel, topic: Topic) -> Seq<Effect>
    recommends
        topic is Validator,
{
    if !all_pushed(cache) {
        Seq::empty()
    } else {
        match (cache.number)(current_session_key()) {
            None => Seq::empty(),
            Some(session) => match (cache.fields)(
                CacheKeyView::AuthorityKeyByAccountAndSession(topic->Validator_0, session),
            ) {
                None => Seq::empty(),
                Some(described) => {
                    let key = (cache.authority_key)(described);
                    let stats = CacheKeyView::AuthorityRecordVerbose(key, Verbosity::Stats);
                    let summary = CacheKeyView::AuthorityRecordVerbose(key, Verbosity::Summary);
                    match (cache.fields)(CacheKeyView::AuthorityRecord(key)) {
                        Some(fields) if described != Map::<Seq<char>, Seq<char>>::empty() => {
                            let all = with_more(
                                with_more(fields, (cache.fields)(stats)),
                                (cache.fields)(summary),
                            );
                            seq![reported(PayloadView::Validator(with_session(all, session)))]
                        },
                        _ => Seq::empty(),
                    }
                },
            },
        }
    }
}

/// A round of a validator publishes, once no finalized block is left to push,
/// the validator's record in the current session with its stats and its
/// summary, where the validator is an authority of that session.
pub proof fn law_validator(cache: CacheModel, topic: Topic)
    requires
        cache.connects,
        topic is Validator,
    ensures
        round_effects(cache, topic) == validator_effects(cache, topic),
{
    reveal_with_fuel(course, 10);
    assert(round_effects(cache, topic) =~= validator_effects(cache, topic));
}

/// The records of the authorities with the given keys. An authority without a
/// record is left out.
pub open spec fn authority_records(
    cache: CacheModel,
    keys: Seq<Seq<char>>,
    verbosity: Verbosity,
) -> Seq<FieldsView>
    decreases keys.len(),
{
    if keys.len() == 0 {
        Seq::empty()
    } else {
        let rest = authority_records(cache, keys.drop_first(), verbosity);
        match (cache.fields)(CacheKeyView::AuthorityRecord(keys[0])) {
            Some(fields) => seq![
                with_more(
                    fields,
                    (cache.fields)(CacheKeyView::AuthorityRecordVerbose(keys[0], verbosity)),
                ),
            ] + rest,
            None => rest,
        }
    }
}

/// What a round of the para-validators of a session does.
pub open spec fn para_authorities_effects(
    cache: CacheModel,
    session: EpochIndex,
    verbosity: Verbosity,
) -> Seq<Effect> {
    if !all_pushed(cache) {
        Seq::empty()
    } else {
        match (cache.members)(CacheKeyView::AuthorityKeysBySessionParaOnly(session)) {
            Some(keys) if keys.len() > 0 => seq![
                reported(
                    PayloadView::Validators {
                        session,
                        data: authority_records(cache, keys, verbosity),
                    },
                ),
            ],
            _ => Seq::empty(),
        }
    }
}

/// The records of the para-validators are read one after the other, and
/// published together.
proof fn lemma_authorities(
    cache: CacheModel,
    session: EpochIndex,
    verbosity: Verbosity,
    keys: Seq<Seq<char>>,
    data: Seq<FieldsView>,
)
    requires
        keys.len() > 0,
    ensures
        course(
            cache,
            RoundView::ParaAuthority {
                session,
                verbosity,
                key: keys[0],
                rest: keys.drop_first(),
                data,
            },
        ) == seq![
            reported(
                PayloadView::Validators {
                    session,
                    data: data + authority_records(cache, keys, verbosity),
                },
            ),
        ],
    decreases keys.len(),
{
    let key = keys[0];
    let rest = keys.drop_first();
    let here = RoundView::ParaAuthority { session, verbosity, key, rest, data };
    let found = (cache.fields)(CacheKeyView::AuthorityRecord(key));
    let extra = (cache.fields)(CacheKeyView::AuthorityRecordVerbose(key, verbosity));
    let more = match found {
        Some(fields) => data.push(with_more(fields, extra)),
        None => data,
    };
    let all = data + authority_records(cache, keys, verbosity);
    assert(more + authority_records(cache, rest, verbosity) =~= all);
    if rest.len() == 0 {
        assert(authority_records(cache, rest, verbosity) =~= Seq::<FieldsView>::empty());
        assert(more =~= all);
    } else {
        lemma_authorities(cache, session, verbosity, rest, more);
    }
    let expected = seq![reported(PayloadView::Validators { session, data: all })];
    match found {
        Some(fields) => {
            let further = RoundView::ParaAuthorityMore {
                session,
                verbosity,
                key,
                rest,
                data,
                fields,
            };
            assert(course(cache, further) =~= expected);
            assert(course(cache, here) =~= expected);
        },
        None => {
            assert(course(cache, here) =~= expected);
        },
    }
}

/// A round of the para-validators of a session publishes, once no finalized
/// block is left to push, the records of all para-validators of that session
/// in one response, each with what the verbosity adds to it.
pub proof fn law_para_authorities(cache: CacheModel, session: EpochIndex, verbosity: Verbosity)
    requires
        cache.connects,
    ensures
        round_effects(cache, Topic::ParaAuthorities(session, verbosity))
            == para_authorities_effects(cache, session, verbosity),
{
    reveal_with_fuel(course, 5);
    if let Some(keys) = (cache.members)(CacheKeyView::AuthorityKeysBySessionParaOnly(session)) {
        if keys.len() > 0 {
            lemma_authorities(cache, session, verbosity, keys, Seq::empty());
            assert(Seq::<FieldsView>::empty() + authority_records(cache, keys, verbosity)
                =~= authority_records(cache, keys, verbosity));
        }
    }
    assert(round_effects(cache, Topic::ParaAuthorities(session, verbosity))
        =~= para_authorities_effects(cache, session, verbosity));
}

/// What a round of the parachains of a session does.
pub open spec fn parachains_effects(cache: CacheModel, session: EpochIndex) -> Seq<Effect> {
    if !all_pushed(cache) {
        Seq::empty()
    } else {
        match (cache.fields)(CacheKeyView::ParachainsBySession(session)) {
            Some(fields) if fields != Map::<Seq<char>, Seq<char>>::empty() => seq![
                reported(PayloadView::Parachains(with_session(fields, session))),
            ],
            _ => Seq::empty(),
        }
    }
}

/// A round of the parachains of a session publishes, once no finalized block
/// is left to push, the record of the parachains of that session, unless it is
/// empty.
pub proof fn law_parachains(cache: CacheModel, session: EpochIndex)
    requires
        cache.connects,
    ensures
        round_effects(cache, Topic::Parachains(session)) == parachains_effects(cache, session),
{
    reveal_with_fuel(course, 4);
    assert(round_effects(cache, Topic::Parachains(session)) =~= parachains_effects(cache, session));
}

/// Without a connection a round does nothing.
pub proof fn law_no_connection(cache: CacheModel, topic: Topic)
    requires
        !cache.connects,
    ensures
        round_effects(cache, topic) == Seq::<Effect>::empty(),
{
    assert(round_effects(cache, topic) =~= Seq::<Effect>::empty());
}

// ---------------------------------------------------------------------------
// Rounds that follow each other
// ---------------------------------------------------------------------------

/// The records of finalized blocks that effects publish, in order.
pub open spec fn records_in(effects: Seq<Effect>) -> Seq<FieldsView>
    decreases effects.len(),
{
    if effects.len() == 0 {
        Seq::empty()
    } else {
        let first = match effects[0] {
            Effect::Publish(message) => match message.result {
                PayloadView::Block(record) => seq![record],
                PayloadView::Blocks(records) => records,
                _ => Seq::empty(),
            },
            Effect::Write(..) => Seq::empty(),
        };
        first + records_in(effects.drop_first())
    }
}

/// The blocks that a round of the finalized blocks publishes: those after the
/// block pushed last, or the finalized block alone where none was pushed.
pub open spec fn blocks_to_push(
    cache: CacheModel,
    pushed: Option<BlockNumber>,
    finalized: BlockNumber,
) -> Seq<BlockNumber> {
    match pushed {
        Some(last) => blocks_after(cache, last, finalized),
        None => blocks_from(cache, finalized, Seq::empty()),
    }
}

/// A round of the finalized blocks publishes the records of the blocks to push
/// and no other.
proof fn lemma_records_in_round(cache: CacheModel, finalized: BlockNumber)
    requires
        cache.connects,
        finalized_block(cache) == Some(finalized),
        blocks_in_order(cache),
    ensures
        records_in(round_effects(cache, Topic::FinalizedBlock)) == block_records(
            cache,
            blocks_to_push(cache, pushed_block(cache), finalized),
        ),
{
    reveal_with_fuel(records_in, 3);
    law_finalized_blocks(cache);
    assert(records_in(finalized_effects(cache)) =~= block_records(
        cache,
        blocks_to_push(cache, pushed_block(cache), finalized),
    ));
}

/// The blocks after one block up to another are exactly those that lie there
/// and have stats, in ascending order, so that none occurs twice.
pub proof fn law_blocks_ascend(cache: CacheModel, last: BlockNumber, to: BlockNumber)
    ensures
        forall|block: BlockNumber| #[trigger]
            blocks_after(cache, last, to).contains(block) <==> last < block <= to && has_stats(
                cache,
                block,
            ),
        forall|i: int, j: int|
            0 <= i < j < blocks_after(cache, last, to).len() ==> #[trigger] blocks_after(
                cache,
                last,
                to,
            )[i] < #[trigger] blocks_after(cache, last, to)[j],
    decreases to - last,
{
    if last < to {
        let next = (last + 1) as BlockNumber;
        law_blocks_ascend(cache, next, to);
        let rest = blocks_after(cache, next, to);
        let all = blocks_after(cache, last, to);
        assert forall|i: int| 0 <= i < rest.len() implies next < #[trigger] rest[i] by {
            assert(rest.contains(rest[i]));
        }
        if has_stats(cache, next) {
            assert forall|block: BlockNumber| #[trigger] all.contains(block) <==> last < block <= to
                && has_stats(cache, block) by {
                if rest.contains(block) {
                    let i = choose|i: int| 0 <= i < rest.len() && rest[i] == block;
                    assert(all[i + 1] == block);
                }
                if all.contains(block) {
                    let i = choose|i: int| 0 <= i < all.len() && all[i] == block;
                    if i > 0 {
                        assert(rest[i - 1] == block);
                    }
                }
                assert(all[0] == next);
            }
        }
    }
}

/// The records of two finalized blocks differ, whatever their stats are.
pub proof fn law_records_tell_blocks_apart(
    one: BlockNumber,
    one_stats: Seq<char>,
    other: BlockNumber,
    other_stats: Seq<char>,
)
    requires
        one != other,
    ensures
        finalized_record(one, one_stats) != finalized_record(other, other_stats),
{
    reveal_strlit("block_number");
    reveal_strlit("is_finalized");
    reveal_strlit("stats");
    law_number_texts_differ(one as nat, other as nat);
    let name = "block_number"@;
    assert(name[0] == 'b' && "is_finalized"@[0] == 'i');
    assert(finalized_record(one, one_stats)[name] == decimal(one as nat));
    assert(finalized_record(other, other_stats)[name] == decimal(other as nat));
}

/// The blocks after one block up to a second, and then those up to a third,
/// are the blocks after the first up to the third.
proof fn lemma_blocks_join(
    cache: CacheModel,
    last: BlockNumber,
    middle: BlockNumber,
    to: BlockNumber,
)
    requires
        last <= middle <= to,
    ensures
        blocks_after(cache, last, middle) + blocks_after(cache, middle, to) == blocks_after(
            cache,
            last,
            to,
        ),
    decreases middle - last,
{
    if last < middle {
        lemma_blocks_join(cache, (last + 1) as BlockNumber, middle, to);
    }
    assert(blocks_after(cache, last, middle) + blocks_after(cache, middle, to) =~= blocks_after(
        cache,
        last,
        to,
    ));
}

/// Whether two caches hold the same stats of the blocks up to a block.
pub open spec fn same_stats(one: CacheModel, other: CacheModel, to: BlockNumber) -> bool {
    forall|block: BlockNumber|
        block <= to ==> #[trigger] (one.text)(stats_key(block)) == (other.text)(stats_key(block))
}

/// The blocks after a block, and their records, are the same in two caches that
/// hold the same stats.
proof fn lemma_same_stats(one: CacheModel, other: CacheModel, last: BlockNumber, to: BlockNumber)
    requires
        same_stats(one, other, to),
    ensures
        blocks_after(one, last, to) == blocks_after(other, last, to),
        block_records(one, blocks_after(one, last, to)) == block_records(
            other,
            blocks_after(other, last, to),
        ),
    decreases to - last,
{
    if last < to {
        let next = (last + 1) as BlockNumber;
        lemma_same_stats(one, other, next, to);
        assert((one.text)(stats_key(next)) == (other.text)(stats_key(next)));
        let rest = blocks_after(one, next, to);
        if has_stats(one, next) {
            assert(block_records(one, seq![next] + rest) =~= seq![record_of(one, next)]
                + block_records(one, rest));
            assert(block_records(other, seq![next] + rest) =~= seq![record_of(other, next)]
                + block_records(other, rest));
        }
    } else {
        assert(block_records(one, Seq::empty()) =~= block_records(other, Seq::empty()));
    }
}

/// The blocks that a round publishes, and then those of the next round, which
/// finds the first finalized block noted.
pub open spec fn blocks_of_two_rounds(
    before: CacheModel,
    after: CacheModel,
    first: BlockNumber,
    second: BlockNumber,
) -> Seq<BlockNumber> {
    blocks_to_push(before, pushed_block(before), first) + blocks_after(after, first, second)
}

/// No block is published twice from one round to the next, whatever stats come
/// or go between them: after a round that noted the finalized block, the next
/// round publishes exactly the blocks after that one, up to the block that is
/// finalized by then, that have stats by then. The blocks of the first round
/// are at most the first finalized block, those of the second lie above it,
/// and all of them ascend.
pub proof fn law_rounds_join(
    before: CacheModel,
    after: CacheModel,
    first: BlockNumber,
    second: BlockNumber,
)
    requires
        before.connects,
        after.connects,
        blocks_in_order(before),
        finalized_block(before) == Some(first),
        pushed_block(after) == Some(first),
        finalized_block(after) == Some(second),
        first <= second,
    ensures
        records_in(round_effects(before, Topic::FinalizedBlock)) + records_in(
            round_effects(after, Topic::FinalizedBlock),
        ) == block_records(before, blocks_to_push(before, pushed_block(before), first))
            + block_records(after, blocks_after(after, first, second)),
        forall|block: BlockNumber| #[trigger]
            blocks_to_push(before, pushed_block(before), first).contains(block) <==> has_stats(
                before,
                block,
            ) && match pushed_block(before) {
                Some(last) => last < block <= first,
                None => block == first,
            },
        forall|block: BlockNumber| #[trigger]
            blocks_after(after, first, second).contains(block) <==> has_stats(after, block) && first
                < block <= second,
        forall|i: int, j: int|
            0 <= i < j < blocks_of_two_rounds(before, after, first, second).len()
                ==> #[trigger] blocks_of_two_rounds(before, after, first, second)[i]
                < #[trigger] blocks_of_two_rounds(before, after, first, second)[j],
{
    lemma_records_in_round(before, first);
    lemma_records_in_round(after, second);
    law_blocks_ascend(after, first, second);
    let start = blocks_to_push(before, pushed_block(before), first);
    let rest = blocks_after(after, first, second);
    match pushed_block(before) {
        Some(last) => law_blocks_ascend(before, last, first),
        None => {
            if has_stats(before, first) {
                assert(start[0] == first);
            }
        },
    }
    assert forall|i: int| 0 <= i < start.len() implies #[trigger] start[i] <= first by {
        assert(start.contains(start[i]));
    }
    assert forall|i: int| 0 <= i < rest.len() implies first < #[trigger] rest[i] by {
        assert(rest.contains(rest[i]));
    }
}

/// No block is left out from one round to the next: where the stats of the
/// blocks up to the first finalized block are the same in both rounds, the two
/// rounds together publish what one round would have published at the end,
/// from the block pushed last before them; or, where no block was pushed
/// before, the first finalized block and all after it. Stats of later blocks
/// may come between the rounds.
pub proof fn law_two_rounds_as_one(
    before: CacheModel,
    after: CacheModel,
    first: BlockNumber,
    second: BlockNumber,
)
    requires
        before.connects,
        after.connects,
        blocks_in_order(before),
        finalized_block(before) == Some(first),
        pushed_block(after) == Some(first),
        finalized_block(after) == Some(second),
        first <= second,
        same_stats(before, after, first),
    ensures
        records_in(round_effects(before, Topic::FinalizedBlock)) + records_in(
            round_effects(after, Topic::FinalizedBlock),
        ) == block_records(
            after,
            match pushed_block(before) {
                Some(last) => blocks_after(after, last, second),
                None => blocks_from(after, first, blocks_after(after, first, second)),
            },
        ),
{
    law_rounds_join(before, after, first, second);
    let rest = blocks_after(after, first, second);
    let start = blocks_to_push(after, pushed_block(before), first);
    assert(block_records(after, start) + block_records(after, rest) =~= block_records(
        after,
        start + rest,
    ));
    match pushed_block(before) {
        Some(last) => {
            lemma_same_stats(before, after, last, first);
            lemma_blocks_join(after, last, first, second);
        },
        None => {
            assert((before.text)(stats_key(first)) == (after.text)(stats_key(first)));
            assert(block_records(before, start) =~= block_records(after, start));
            assert(start + rest =~= blocks_from(after, first, rest));
        },
    }
}

/// Where every block has its stats, the blocks after one block are all that
/// follow it, one by one.
pub proof fn law_each_block_once(cache: CacheModel, last: BlockNumber, to: BlockNumber)
    requires
        last <= to,
        forall|block: BlockNumber| last < block <= to ==> #[trigger] has_stats(cache, block),
    ensures
        blocks_after(cache, last, to) == Seq::new(
            (to - last) as nat,
            |i: int| (last + 1 + i) as BlockNumber,
        ),
    decreases to - last,
{
    if last < to {
        let next = (last + 1) as BlockNumber;
        assert(has_stats(cache, next));
        law_each_block_once(cache, next, to);
    }
    assert(blocks_after(cache, last, to) =~= Seq::new(
        (to - last) as nat,
        |i: int| (last + 1 + i) as BlockNumber,
    ));
}

/// Once a block is noted as pushed, neither it nor a block before it is pushed
/// again: a round that finds it noted publishes the records of later blocks
/// only, and does nothing where no later block is finalized.
pub proof fn law_pushed_once(cache: CacheModel, pushed: BlockNumber, finalized: BlockNumber)
    requires
        pushed_block(cache) == Some(pushed),
        finalized_block(cache) == Some(finalized),
        pushed <= finalized,
    ensures
        cache.connects ==> records_in(round_effects(cache, Topic::FinalizedBlock))
            == block_records(cache, blocks_after(cache, pushed, finalized)),
        forall|block: BlockNumber| #[trigger]
            blocks_after(cache, pushed, finalized).contains(block) ==> pushed < block,
        pushed == finalized || !cache.connects ==> round_effects(cache, Topic::FinalizedBlock)
            == Seq::<Effect>::empty(),
{
    law_blocks_ascend(cache, pushed, finalized);
    if cache.connects {
        law_finalized_blocks(cache);
        lemma_records_in_round(cache, finalized);
    } else {
        law_no_connection(cache, Topic::FinalizedBlock);
    }
}

/// The topics of validators and parachains wait for the finalized blocks: while
/// one is left to push, their rounds do nothing.
pub proof fn law_others_wait(cache: CacheModel, topic: Topic)
    requires
        !all_pushed(cache),
        topic is Validator || topic is ParaAuthorities || topic is Parachains,
    ensures
        round_effects(cache, topic) == Seq::<Effect>::empty(),
{
    if !cache.connects {
        law_no_connection(cache, topic);
    } else {
        match topic {
            Topic::Validator(_) => law_validator(cache, topic),
            Topic::ParaAuthorities(session, verbosity) => law_para_authorities(
                cache,
                session,
                verbosity,
            ),
            Topic::Parachains(session) => law_parachains(cache, session),
            _ => {},
        }
    }
}

// ---------------------------------------------------------------------------
// Arithmetic
// ---------------------------------------------------------------------------

/// Whether a round that pushes blocks has not gone beyond the finalized block.
pub open spec fn up_to_finalized(round: RoundView) -> bool {
    round matches RoundView::BlockStats { finalized, block, .. } ==> block <= finalized
}

/// Where the block pushed last is not beyond the finalized block, a round that
/// pushes blocks does not go beyond the finalized block, whatever the cache
/// replies, and none of its steps leads out of range.
pub proof fn law_blocks_stay_in_range(round: RoundView, reply: ReplyView)
    requires
        up_to_finalized(round),
        match (round, reply) {
            (RoundView::Pushed { finalized, .. }, ReplyView::Number(Some(pushed))) => pushed
                <= finalized,
            _ => true,
        },
    ensures
        !(round is SessionFields) ==> in_range(round, reply),
        step_of(round, reply).next matches Some(next) ==> up_to_finalized(next),
{
}

} // verus!
