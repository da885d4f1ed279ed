//! The rules of a round: what it asks the cache for, and what it decides on
//! each answer.

use vstd::prelude::*;

use crate::cache::{CacheKeyView, FieldsView, IndexView, ReplyView, RequestView};
#[allow(unused_imports)]
use crate::decimal::{decimal, parsed};
use crate::message::PayloadView;
#[allow(unused_imports)]
use crate::message::response;
use crate::round::{RoundView, StepView};
use crate::topic::{BlockNumber, EpochIndex, Topic, Verbosity};

verus! {

/// For how many blocks from its start on a session counts as new.
pub const NEW_SESSION_BLOCKS: u32 = 10;

// ---------------------------------------------------------------------------
// What a round asks for
// ---------------------------------------------------------------------------

/// The key of the stats of a block.
pub open spec fn stats_key(block: BlockNumber) -> CacheKeyView {
    CacheKeyView::BlockByIndexStats(IndexView::Num(block as u64))
}

/// The key of the index of the current session.
pub open spec fn current_session_key() -> CacheKeyView {
    CacheKeyView::SessionByIndex(IndexView::Str("current"@))
}

/// The key of the record of a session.
pub open spec fn session_key(session: EpochIndex) -> CacheKeyView {
    CacheKeyView::SessionByIndex(IndexView::Num(session as u64))
}

/// The request that a round waits for.
pub open spec fn request_of(round: RoundView) -> RequestView {
    match round {
        RoundView::Connect { .. } => RequestView::Connect,
        RoundView::Finalized { .. } => RequestView::GetNumber(CacheKeyView::FinalizedBlock),
        RoundView::Pushed { .. } => RequestView::GetNumber(CacheKeyView::PushedBlock),
        RoundView::BlockStats { block, .. } => RequestView::GetText(stats_key(block)),
        RoundView::FirstBlockStats { finalized } => RequestView::GetText(stats_key(finalized)),
        RoundView::NotePushed { finalized } => RequestView::SetNumber(
            CacheKeyView::PushedBlock,
            finalized,
        ),
        RoundView::Best => RequestView::GetNumber(CacheKeyView::BestBlock),
        RoundView::CurrentSession => RequestView::GetNumber(current_session_key()),
        RoundView::SessionFields { current } => RequestView::GetFields(session_key(current)),
        RoundView::PreviousSessionFields { previous, .. } => RequestView::GetFields(
            session_key(previous),
        ),
        RoundView::ValidatorSession { .. } => RequestView::GetNumber(current_session_key()),
        RoundView::AuthorityKeyFields { account, session } => RequestView::GetFields(
            CacheKeyView::AuthorityKeyByAccountAndSession(account, session),
        ),
        RoundView::AuthorityKeyText { fields, .. } => RequestView::AuthorityKey(fields),
        RoundView::Authority { key, .. } => RequestView::GetFields(
            CacheKeyView::AuthorityRecord(key),
        ),
        RoundView::AuthorityStats { key, .. } => RequestView::GetFields(
            CacheKeyView::AuthorityRecordVerbose(key, Verbosity::Stats),
        ),
        RoundView::AuthoritySummary { key, .. } => RequestView::GetFields(
            CacheKeyView::AuthorityRecordVerbose(key, Verbosity::Summary),
        ),
        RoundView::ParaKeys { session, .. } => RequestView::GetMembers(
            CacheKeyView::AuthorityKeysBySessionParaOnly(session),
        ),
        RoundView::ParaAuthority { key, .. } => RequestView::GetFields(
            CacheKeyView::AuthorityRecord(key),
        ),
        RoundView::ParaAuthorityMore { key, verbosity, .. } => RequestView::GetFields(
            CacheKeyView::AuthorityRecordVerbose(key, verbosity),
        ),
        RoundView::Parachains { session } => RequestView::GetFields(
            CacheKeyView::ParachainsBySession(session),
        ),
    }
}

// ---------------------------------------------------------------------------
// What a round decides
// ---------------------------------------------------------------------------

/// The text of a truth value.
pub open spec fn truth(b: bool) -> Seq<char> {
    if b {
        "true"@
    } else {
        "false"@
    }
}

/// The record of a block: its number, and whether it is finalized.
pub open spec fn block_record(block: BlockNumber, is_finalized: bool) -> FieldsView {
    Map::<Seq<char>, Seq<char>>::empty().insert("block_number"@, decimal(block as nat)).insert(
        "is_finalized"@,
        truth(is_finalized),
    )
}

/// The record of a finalized block, with its stats.
pub open spec fn finalized_record(block: BlockNumber, stats: Seq<char>) -> FieldsView {
    block_record(block, true).insert("stats"@, stats)
}

/// The record of a session, marked as current or not.
pub open spec fn session_record(fields: FieldsView, is_current: bool) -> FieldsView {
    fields.insert("is_current"@, truth(is_current))
}

/// A record with the index of its session.
pub open spec fn with_session(fields: FieldsView, session: EpochIndex) -> FieldsView {
    fields.insert("session"@, decimal(session as nat))
}

/// A record with more fields, if there are any more.
pub open spec fn with_more(fields: FieldsView, more: Option<FieldsView>) -> FieldsView {
    match more {
        Some(other) => fields.union_prefer_right(other),
        None => fields,
    }
}

/// The number in a field; zero where there is none.
pub open spec fn number_field(fields: FieldsView, name: Seq<char>) -> u32 {
    if fields.contains_key(name) {
        match parsed(fields[name]) {
            Some(number) => number,
            None => 0,
        }
    } else {
        0
    }
}

/// How many blocks a session is old.
pub open spec fn session_age(fields: FieldsView) -> int {
    number_field(fields, "current_block"@) - number_field(fields, "start_block"@)
}

/// Whether the 32-bit arithmetic that a reply calls for has a result: the
/// block after the last one has none, nor has a session that ends before it
/// starts, nor the session before the first.
pub open spec fn in_range(round: RoundView, reply: ReplyView) -> bool {
    match round {
        RoundView::Pushed { topic: Topic::FinalizedBlock, finalized } => match reply {
            ReplyView::Number(Some(last)) => last == finalized || last < u32::MAX,
            _ => true,
        },
        RoundView::BlockStats { finalized, block, .. } => block == finalized || block < u32::MAX,
        RoundView::SessionFields { current } => match reply {
            ReplyView::Fields(Some(fields)) => {
                &&& 0 <= session_age(fields)
                &&& session_age(fields) < NEW_SESSION_BLOCKS ==> 0 < current
            },
            _ => true,
        },
        _ => true,
    }
}

/// The round is over.
pub open spec fn over() -> StepView {
    StepView { messages: Seq::empty(), next: None }
}

/// The round goes on; nothing is published.
pub open spec fn go_on(round: RoundView) -> StepView {
    StepView { messages: Seq::empty(), next: Some(round) }
}

/// A response is published, and the round is over.
pub open spec fn publish(payload: PayloadView) -> StepView {
    StepView { messages: seq![response(payload)], next: None }
}

/// A response is published, and the round goes on.
pub open spec fn publish_and_go_on(payload: PayloadView, round: RoundView) -> StepView {
    StepView { messages: seq![response(payload)], next: Some(round) }
}

/// What follows once a connection stands.
pub open spec fn after_connect(topic: Topic) -> StepView {
    match topic {
        Topic::BestBlock => go_on(RoundView::Best),
        Topic::NewSession => go_on(RoundView::CurrentSession),
        _ => go_on(RoundView::Finalized { topic }),
    }
}

/// What follows once it is known which block was pushed last, if any was.
///
/// The finalized blocks are pushed from the block after that one on. All other
/// topics wait until no finalized block is left to push.
pub open spec fn after_pushed(
    topic: Topic,
    finalized: BlockNumber,
    pushed: Option<BlockNumber>,
) -> StepView {
    match (topic, pushed) {
        (Topic::FinalizedBlock, None) => go_on(RoundView::FirstBlockStats { finalized }),
        (Topic::FinalizedBlock, Some(last)) => if last == finalized {
            over()
        } else {
            go_on(
                RoundView::BlockStats {
                    finalized,
                    block: (last + 1) as BlockNumber,
                    data: Seq::empty(),
                },
            )
        },
        (_, None) => over(),
        (_, Some(last)) => if last != finalized {
            over()
        } else {
            match topic {
                Topic::Validator(account) => go_on(RoundView::ValidatorSession { account }),
                Topic::ParaAuthorities(session, verbosity) => go_on(
                    RoundView::ParaKeys { session, verbosity },
                ),
                Topic::Parachains(session) => go_on(RoundView::Parachains { session }),
                _ => over(),
            }
        },
    }
}

/// What follows once the records of the finalized blocks up to a block, itself
/// among them, are there.
pub open spec fn after_blocks(
    finalized: BlockNumber,
    block: BlockNumber,
    data: Seq<FieldsView>,
) -> StepView {
    if block == finalized {
        publish_and_go_on(PayloadView::Blocks(data), RoundView::NotePushed { finalized })
    } else {
        go_on(RoundView::BlockStats { finalized, block: (block + 1) as BlockNumber, data })
    }
}

/// What follows once the records of all para-validators but the rest are
/// there.
pub open spec fn after_authorities(
    session: EpochIndex,
    verbosity: Verbosity,
    rest: Seq<Seq<char>>,
    data: Seq<FieldsView>,
) -> StepView {
    if rest.len() == 0 {
        publish(PayloadView::Validators { session, data })
    } else {
        go_on(
            RoundView::ParaAuthority {
                session,
                verbosity,
                key: rest[0],
                rest: rest.drop_first(),
                data,
            },
        )
    }
}

/// What comes of a reply to a round. A reply that does not answer the round's
/// request, or leads out of range, ends the round.
pub open spec fn step_of(round: RoundView, reply: ReplyView) -> StepView {
    if !in_range(round, reply) {
        over()
    } else {
        match (round, reply) {
            (RoundView::Connect { topic }, ReplyView::Connected(true)) => after_connect(topic),
            (RoundView::Finalized { topic }, ReplyView::Number(Some(finalized))) => go_on(
                RoundView::Pushed { topic, finalized },
            ),
            (RoundView::Pushed { topic, finalized }, ReplyView::Number(pushed)) => after_pushed(
                topic,
                finalized,
                pushed,
            ),
            (RoundView::BlockStats { finalized, block, data }, ReplyView::Text(stats)) =>
                after_blocks(
                    finalized,
                    block,
                    match stats {
                        Some(text) => data.push(finalized_record(block, text)),
                        None => data,
                    },
                ),
            (RoundView::FirstBlockStats { finalized }, ReplyView::Text(Some(stats))) =>
                publish_and_go_on(
                    PayloadView::Block(finalized_record(finalized, stats)),
                    RoundView::NotePushed { finalized },
                ),
            (RoundView::Best, ReplyView::Number(Some(block))) => publish(
                PayloadView::Block(block_record(block, false)),
            ),
            (RoundView::CurrentSession, ReplyView::Number(Some(current))) => go_on(
                RoundView::SessionFields { current },
            ),
            (RoundView::SessionFields { current }, ReplyView::Fields(Some(fields))) =>
                if session_age(fields) < NEW_SESSION_BLOCKS {
                    go_on(
                        RoundView::PreviousSessionFields {
                            previous: (current - 1) as EpochIndex,
                            fields,
                        },
                    )
                } else {
                    over()
                },
            (RoundView::PreviousSessionFields { fields, .. }, ReplyView::Fields(previous)) =>
                StepView {
                    messages: match previous {
                        Some(other) => seq![
                            response(PayloadView::Session(session_record(other, false))),
                            response(PayloadView::Session(session_record(fields, true))),
                        ],
                        None => seq![response(PayloadView::Session(session_record(fields, true)))],
                    },
                    next: None,
                },
            (RoundView::ValidatorSession { account }, ReplyView::Number(Some(session))) => go_on(
                RoundView::AuthorityKeyFields { account, session },
            ),
            (
                RoundView::AuthorityKeyFields { session, .. },
                ReplyView::Fields(Some(fields)),
            ) => if fields == Map::<Seq<char>, Seq<char>>::empty() {
                over()
            } else {
                go_on(RoundView::AuthorityKeyText { session, fields })
            },
            (RoundView::AuthorityKeyText { session, .. }, ReplyView::AuthorityKey(key)) => go_on(
                RoundView::Authority { session, key },
            ),
            (RoundView::Authority { session, key }, ReplyView::Fields(Some(fields))) => go_on(
                RoundView::AuthorityStats { session, key, fields },
            ),
            (RoundView::AuthorityStats { session, key, fields }, ReplyView::Fields(more)) => go_on(
                RoundView::AuthoritySummary { session, key, fields: with_more(fields, more) },
            ),
            (RoundView::AuthoritySummary { session, fields, .. }, ReplyView::Fields(more)) =>
                publish(
                    PayloadView::Validator(with_session(with_more(fields, more), session)),
                ),
            (RoundView::ParaKeys { session, verbosity }, ReplyView::Members(Some(keys))) =>
                if keys.len() == 0 {
                    over()
                } else {
                    after_authorities(session, verbosity, keys, Seq::empty())
                },
            (
                RoundView::ParaAuthority { session, verbosity, key, rest, data },
                ReplyView::Fields(fields),
            ) => match fields {
                Some(fields) => go_on(
                    RoundView::ParaAuthorityMore { session, verbosity, key, rest, data, fields },
                ),
                None => after_authorities(session, verbosity, rest, data),
            },
            (
                RoundView::ParaAuthorityMore { session, verbosity, rest, data, fields, .. },
                ReplyView::Fields(more),
            ) => after_authorities(session, verbosity, rest, data.push(with_more(fields, more))),
            (RoundView::Parachains { session }, ReplyView::Fields(Some(fields))) =>
                if fields == Map::<Seq<char>, Seq<char>>::empty() {
                    over()
                } else {
                    publish(PayloadView::Parachains(with_session(fields, session)))
                },
            _ => over(),
        }
    }
}

} // verus!
