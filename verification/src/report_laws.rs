//! What a channel publishes, field by field.
//!
//! The laws say which places of the cache a response is made from, and what
//! stands under each name in it. They hold for every content of the cache.

use vstd::prelude::*;

use crate::account::AccountId;
use crate::cache::{CacheKeyView, FieldsView, IndexView, ReplyView, RequestView};
#[allow(unused_imports)]
use crate::decimal::{decimal, law_number_survives_text, parsed};
use crate::message::{PayloadView, WsResponseMessageView};
use crate::round::RoundView;
use crate::round_laws::{CacheModel, Effect};
#[allow(unused_imports)]
use crate::round_laws::{
    authority_records, block_records, blocks_after, course, law_best_block, law_blocks_ascend,
    law_finalized_blocks, law_new_session, law_no_connection, law_para_authorities, law_parachains,
    law_validator, published, record_of, reply_of, round_effects,
};
#[allow(unused_imports)]
use crate::rules::{
    block_record, finalized_record, in_range, number_field, request_of, session_record, step_of,
    with_more, with_session,
};
use crate::topic::{BlockNumber, EpochIndex, Topic, Verbosity};

verus! {

// ---------------------------------------------------------------------------
// Records
// ---------------------------------------------------------------------------

/// Whether a record is another one with one field set: that field has the
/// given value, and every other field is as it was.
pub open spec fn sets_field(
    record: FieldsView,
    fields: FieldsView,
    name: Seq<char>,
    value: Seq<char>,
) -> bool {
    &&& record.contains_key(name)
    &&& record[name] == value
    &&& forall|other: Seq<char>|
        other != name ==> (#[trigger] record.contains_key(other) <==> fields.contains_key(other))
    &&& forall|other: Seq<char>|
        other != name && #[trigger] fields.contains_key(other) ==> record[other] == fields[other]
}

/// Whether a record, if there is one, has a field.
pub open spec fn has(fields: Option<FieldsView>, name: Seq<char>) -> bool {
    match fields {
        Some(record) => record.contains_key(name),
        None => false,
    }
}

/// Whether a record is one record joined with another: it has the fields of
/// both and no more, and where both have a field, the second one's value.
pub open spec fn joins(record: FieldsView, first: FieldsView, second: Option<FieldsView>) -> bool {
    &&& forall|name: Seq<char>| #[trigger]
        record.contains_key(name) <==> first.contains_key(name) || has(second, name)
    &&& forall|name: Seq<char>| #[trigger]
        record.contains_key(name) ==> record[name] == if has(second, name) {
            second.unwrap()[name]
        } else {
            first[name]
        }
}

/// Whether a record is that of a block: its number, whether it is finalized,
/// its stats where there are any, and nothing else.
pub open spec fn describes_block(
    record: FieldsView,
    block: BlockNumber,
    is_finalized: Seq<char>,
    stats: Option<Seq<char>>,
) -> bool {
    &&& record.contains_key("block_number"@)
    &&& record["block_number"@] == decimal(block as nat)
    &&& record.contains_key("is_finalized"@)
    &&& record["is_finalized"@] == is_finalized
    &&& stats matches Some(text) ==> record.contains_key("stats"@) && record["stats"@] == text
    &&& forall|name: Seq<char>| #[trigger]
        record.contains_key(name) ==> name == "block_number"@ || name == "is_finalized"@ || (name
            == "stats"@ && stats is Some)
}

/// Whether a record is that of a validator: the fields of its own record, of
/// its stats and of its summary, of which the later ones prevail, and the
/// index of the session.
pub open spec fn describes_validator(
    record: FieldsView,
    own: FieldsView,
    stats: Option<FieldsView>,
    summary: Option<FieldsView>,
    session: EpochIndex,
) -> bool {
    &&& record.contains_key("session"@)
    &&& record["session"@] == decimal(session as nat)
    &&& forall|name: Seq<char>| #[trigger]
        record.contains_key(name) <==> name == "session"@ || own.contains_key(name) || has(
            stats,
            name,
        ) || has(summary, name)
    &&& forall|name: Seq<char>|
        name != "session"@ && #[trigger] record.contains_key(name) ==> record[name] == if has(
            summary,
            name,
        ) {
            summary.unwrap()[name]
        } else if has(stats, name) {
            stats.unwrap()[name]
        } else {
            own[name]
        }
}

/// Whether a field of a record is read as a number: as the one that its text
/// stands for, or as zero where the field is not there or no number.
pub open spec fn reads_as(fields: FieldsView, name: Seq<char>, number: u32) -> bool {
    if fields.contains_key(name) && parsed(fields[name]) is Some {
        parsed(fields[name]) == Some(number)
    } else {
        number == 0
    }
}

/// The names of the fields of a block's record differ.
proof fn lemma_block_names()
    ensures
        "block_number"@ != "is_finalized"@,
        "block_number"@ != "stats"@,
        "is_finalized"@ != "stats"@,
{
    reveal_strlit("block_number");
    reveal_strlit("is_finalized");
    reveal_strlit("stats");
    assert("block_number"@[0] == 'b' && "is_finalized"@[0] == 'i' && "stats"@[0] == 's');
}

/// A record joined with another has the fields of both; where both have a
/// field, the other's value stays. Nothing is lost to a record without fields.
pub proof fn law_joined_records(fields: FieldsView, more: FieldsView, name: Seq<char>)
    ensures
        with_more(fields, None) == fields,
        with_more(fields, Some(Map::empty())) == fields,
        with_more(fields, Some(more)).contains_key(name) <==> fields.contains_key(name)
            || more.contains_key(name),
        more.contains_key(name) ==> with_more(fields, Some(more))[name] == more[name],
        fields.contains_key(name) && !more.contains_key(name) ==> with_more(
            fields,
            Some(more),
        )[name] == fields[name],
{
    assert(with_more(fields, Some(Map::empty())) =~= fields);
}

/// A record with the index of its session has that index under `session`, as
/// text that is read back as the index, and keeps all other fields. Records of
/// different sessions differ.
pub proof fn law_session_of_a_record(
    fields: FieldsView,
    session: EpochIndex,
    others: FieldsView,
    other: EpochIndex,
)
    ensures
        sets_field(with_session(fields, session), fields, "session"@, decimal(session as nat)),
        parsed(with_session(fields, session)["session"@]) == Some(session),
        session != other ==> with_session(fields, session) != with_session(others, other),
{
    law_number_survives_text(session);
    law_number_survives_text(other);
    assert(with_session(others, other)["session"@] == decimal(other as nat));
}

/// A field that holds the decimal text of a number is read as that number. A
/// field that is not there, or is no number, is read as zero.
pub proof fn law_number_of_a_field(fields: FieldsView, name: Seq<char>, number: u32)
    ensures
        reads_as(fields, name, number) <==> number_field(fields, name) == number,
        fields.contains_key(name) && fields[name] == decimal(number as nat) ==> number_field(
            fields,
            name,
        ) == number,
        !fields.contains_key(name) ==> number_field(fields, name) == 0,
{
    law_number_survives_text(number);
}

/// The record of a block names the block, says whether it is finalized, and
/// says nothing else; that of a finalized block has its stats besides. The
/// number is read back as the block's, so that two blocks have two records.
pub proof fn law_record_of_a_block(block: BlockNumber, other: BlockNumber, stats: Seq<char>)
    ensures
        describes_block(block_record(block, false), block, "false"@, None),
        describes_block(block_record(block, true), block, "true"@, None),
        describes_block(finalized_record(block, stats), block, "true"@, Some(stats)),
        parsed(block_record(block, false)["block_number"@]) == Some(block),
        parsed(finalized_record(block, stats)["block_number"@]) == Some(block),
        block != other ==> block_record(block, false) != block_record(other, false),
{
    lemma_block_names();
    law_number_survives_text(block);
    law_number_survives_text(other);
    assert(block_record(other, false)["block_number"@] == decimal(other as nat));
}

// ---------------------------------------------------------------------------
// Blocks
// ---------------------------------------------------------------------------

/// The stats of a block, as a cache has them under the number of that block.
pub open spec fn stats_of(cache: CacheModel, block: BlockNumber) -> Option<Seq<char>> {
    (cache.text)(CacheKeyView::BlockByIndexStats(IndexView::Num(block as u64)))
}

/// The publishing of one response of a kind.
pub open spec fn report(kind: Seq<char>, payload: PayloadView) -> Effect {
    Effect::Publish(WsResponseMessageView { kind, result: payload })
}

/// Of the stats of a block the round asks for those under its own number, in
/// a first round and in the walk over several blocks.
pub proof fn law_stats_are_the_blocks_own(
    finalized: BlockNumber,
    block: BlockNumber,
    data: Seq<FieldsView>,
)
    ensures
        request_of(RoundView::FirstBlockStats { finalized }) == RequestView::GetText(
            CacheKeyView::BlockByIndexStats(IndexView::Num(finalized as u64)),
        ),
        request_of(RoundView::BlockStats { finalized, block, data })
            == RequestView::GetText(
            CacheKeyView::BlockByIndexStats(IndexView::Num(block as u64)),
        ),
{
}

/// Where no block was pushed before, a round of the finalized blocks publishes
/// the finalized block with the stats that the cache has of this block, and
/// then notes it; without stats it does nothing.
pub proof fn law_first_block_report(cache: CacheModel, finalized: BlockNumber) -> (record:
    FieldsView)
    requires
        cache.connects,
        (cache.number)(CacheKeyView::FinalizedBlock) == Some(finalized),
        (cache.number)(CacheKeyView::PushedBlock) is None,
    ensures
        match stats_of(cache, finalized) {
            Some(stats) => {
                &&& round_effects(cache, Topic::FinalizedBlock).len() == 2
                &&& round_effects(cache, Topic::FinalizedBlock)[0] == report(
                    "block"@,
                    PayloadView::Block(record),
                )
                &&& round_effects(cache, Topic::FinalizedBlock)[1] == Effect::Write(
                    CacheKeyView::PushedBlock,
                    finalized,
                )
                &&& describes_block(record, finalized, "true"@, Some(stats))
            },
            None => round_effects(cache, Topic::FinalizedBlock).len() == 0,
        },
{
    law_finalized_blocks(cache);
    match stats_of(cache, finalized) {
        Some(stats) => {
            law_record_of_a_block(finalized, finalized, stats);
            finalized_record(finalized, stats)
        },
        None => Map::empty(),
    }
}

/// Where a block was pushed before, a round of the finalized blocks publishes
/// one list, and then notes the finalized block. The list has one record for
/// each later block up to the finalized one that has stats, in ascending
/// order, each with the stats that the cache has of this very block. What
/// comes back are these blocks, and the list.
pub proof fn law_blocks_report(
    cache: CacheModel,
    pushed: BlockNumber,
    finalized: BlockNumber,
) -> (shown: (Seq<BlockNumber>, Seq<FieldsView>))
    requires
        cache.connects,
        (cache.number)(CacheKeyView::FinalizedBlock) == Some(finalized),
        (cache.number)(CacheKeyView::PushedBlock) == Some(pushed),
        pushed < finalized,
    ensures
        round_effects(cache, Topic::FinalizedBlock).len() == 2,
        round_effects(cache, Topic::FinalizedBlock)[0] == report(
            "blocks"@,
            PayloadView::Blocks(shown.1),
        ),
        round_effects(cache, Topic::FinalizedBlock)[1] == Effect::Write(
            CacheKeyView::PushedBlock,
            finalized,
        ),
        forall|block: BlockNumber| #[trigger]
            shown.0.contains(block) <==> pushed < block <= finalized && stats_of(
                cache,
                block,
            ) is Some,
        forall|i: int, j: int|
            0 <= i < j < shown.0.len() ==> #[trigger] shown.0[i] < #[trigger] shown.0[j],
        shown.1.len() == shown.0.len(),
        forall|i: int|
            0 <= i < shown.0.len() ==> describes_block(
                #[trigger] shown.1[i],
                shown.0[i],
                "true"@,
                stats_of(cache, shown.0[i]),
            ),
{
    law_finalized_blocks(cache);
    law_blocks_ascend(cache, pushed, finalized);
    let blocks = blocks_after(cache, pushed, finalized);
    let records = block_records(cache, blocks);
    assert forall|i: int| 0 <= i < blocks.len() implies describes_block(
        #[trigger] records[i],
        blocks[i],
        "true"@,
        stats_of(cache, blocks[i]),
    ) by {
        assert(blocks.contains(blocks[i]));
        assert(records[i] == record_of(cache, blocks[i]));
        law_record_of_a_block(blocks[i], blocks[i], stats_of(cache, blocks[i]).unwrap());
    }
    (blocks, records)
}

/// Beyond the finalized block a walk over blocks comes to nothing.
proof fn lemma_beyond_finalized(
    cache: CacheModel,
    finalized: BlockNumber,
    block: BlockNumber,
    data: Seq<FieldsView>,
)
    requires
        block > finalized,
    ensures
        course(cache, RoundView::BlockStats { finalized, block, data }) == Seq::<Effect>::empty(),
    decreases u32::MAX - block,
{
    let here = RoundView::BlockStats { finalized, block, data };
    let step = step_of(here, reply_of(cache, request_of(here)));
    if block < u32::MAX {
        let more = match stats_of(cache, block) {
            Some(stats) => data.push(finalized_record(block, stats)),
            None => data,
        };
        lemma_beyond_finalized(cache, finalized, (block + 1) as BlockNumber, more);
    }
    assert(published(step.messages) =~= Seq::<Effect>::empty());
    assert(course(cache, here) =~= Seq::<Effect>::empty());
}

/// A round of the finalized blocks publishes and writes nothing without a
/// connection, without a finalized block, or where no block later than the
/// one pushed last is finalized.
pub proof fn law_no_blocks_report(cache: CacheModel)
    requires
        ({
            ||| !cache.connects
            ||| (cache.number)(CacheKeyView::FinalizedBlock) is None
            ||| {
                &&& (cache.number)(CacheKeyView::PushedBlock) is Some
                &&& (cache.number)(CacheKeyView::PushedBlock).unwrap() >= (cache.number)(
                    CacheKeyView::FinalizedBlock,
                ).unwrap()
            }
        }),
    ensures
        round_effects(cache, Topic::FinalizedBlock).len() == 0,
{
    if !cache.connects {
        law_no_connection(cache, Topic::FinalizedBlock);
    } else {
        match ((cache.number)(CacheKeyView::FinalizedBlock), (cache.number)(
            CacheKeyView::PushedBlock,
        )) {
            (Some(finalized), Some(pushed)) if pushed > finalized => {
                reveal_with_fuel(course, 4);
                if pushed < u32::MAX {
                    lemma_beyond_finalized(
                        cache,
                        finalized,
                        (pushed + 1) as BlockNumber,
                        Seq::empty(),
                    );
                }
            },
            _ => law_finalized_blocks(cache),
        }
    }
}

/// A round of the best block publishes the number of the best block, for every
/// number, as one that is not finalized; it does nothing without one.
pub proof fn law_best_block_report(cache: CacheModel) -> (record: FieldsView)
    requires
        cache.connects,
    ensures
        match (cache.number)(CacheKeyView::BestBlock) {
            Some(block) => {
                &&& round_effects(cache, Topic::BestBlock).len() == 1
                &&& round_effects(cache, Topic::BestBlock)[0] == report(
                    "block"@,
                    PayloadView::Block(record),
                )
                &&& describes_block(record, block, "false"@, None)
                &&& parsed(record["block_number"@]) == Some(block)
            },
            None => round_effects(cache, Topic::BestBlock).len() == 0,
        },
{
    law_best_block(cache);
    match (cache.number)(CacheKeyView::BestBlock) {
        Some(block) => {
            law_record_of_a_block(block, block, Seq::empty());
            block_record(block, false)
        },
        None => Map::empty(),
    }
}

// ---------------------------------------------------------------------------
// Sessions
// ---------------------------------------------------------------------------

/// A round of the sessions publishes in the first ten blocks of a session, and
/// only then. The age of the session is the difference of the two block
/// numbers in its record. First comes the session before, if the cache has
/// it, marked as not current, and then the current one, marked as current; all
/// other fields stay as the cache has them.
pub proof fn law_session_report(
    cache: CacheModel,
    current: EpochIndex,
    fields: FieldsView,
    current_block: u32,
    start_block: u32,
) -> (records: (FieldsView, FieldsView))
    requires
        cache.connects,
        (cache.number)(CacheKeyView::SessionByIndex(IndexView::Str("current"@))) == Some(current),
        (cache.fields)(CacheKeyView::SessionByIndex(IndexView::Num(current as u64))) == Some(
            fields,
        ),
        reads_as(fields, "current_block"@, current_block),
        reads_as(fields, "start_block"@, start_block),
        start_block <= current_block,
        current_block - start_block < 10 ==> current > 0,
    ensures
        current_block - start_block >= 10 ==> round_effects(cache, Topic::NewSession).len() == 0,
        current_block - start_block < 10 ==> {
            let effects = round_effects(cache, Topic::NewSession);
            let before = (cache.fields)(
                CacheKeyView::SessionByIndex(IndexView::Num((current - 1) as u64)),
            );
            &&& effects.len() == if before is Some {
                2int
            } else {
                1
            }
            &&& effects.last() == report("session"@, PayloadView::Session(records.1))
            &&& sets_field(records.1, fields, "is_current"@, "true"@)
            &&& before matches Some(earlier) ==> {
                &&& effects[0] == report("session"@, PayloadView::Session(records.0))
                &&& sets_field(records.0, earlier, "is_current"@, "false"@)
            }
        },
{
    law_number_of_a_field(fields, "current_block"@, current_block);
    law_number_of_a_field(fields, "start_block"@, start_block);
    law_new_session(cache);
    let before = (cache.fields)(
        CacheKeyView::SessionByIndex(IndexView::Num((current - 1) as u64)),
    );
    match before {
        Some(earlier) => (session_record(earlier, false), session_record(fields, true)),
        None => (Map::empty(), session_record(fields, true)),
    }
}

/// A session whose record says that it started at one block and stands some
/// blocks further on is published where these are less than ten, and only
/// then, however large the numbers are.
pub proof fn law_session_is_new_for_ten_blocks(
    cache: CacheModel,
    current: EpochIndex,
    fields: FieldsView,
    start: u32,
    age: u32,
)
    requires
        cache.connects,
        0 < current,
        start + age <= u32::MAX,
        (cache.number)(CacheKeyView::SessionByIndex(IndexView::Str("current"@))) == Some(current),
        (cache.fields)(CacheKeyView::SessionByIndex(IndexView::Num(current as u64))) == Some(
            fields,
        ),
        fields.contains_key("current_block"@),
        fields["current_block"@] == decimal((start + age) as nat),
        fields.contains_key("start_block"@),
        fields["start_block"@] == decimal(start as nat),
    ensures
        round_effects(cache, Topic::NewSession).len() > 0 <==> age < 10,
{
    law_number_survives_text((start + age) as u32);
    law_number_survives_text(start);
    law_session_report(cache, current, fields, (start + age) as u32, start);
}

/// A round of the sessions does nothing without a connection, a current
/// session or its record.
pub proof fn law_no_session_report(cache: CacheModel)
    requires
        ({
            ||| !cache.connects
            ||| (cache.number)(CacheKeyView::SessionByIndex(IndexView::Str("current"@))) is None
            ||| (cache.fields)(
                CacheKeyView::SessionByIndex(
                    IndexView::Num(
                        (cache.number)(
                            CacheKeyView::SessionByIndex(IndexView::Str("current"@)),
                        ).unwrap() as u64,
                    ),
                ),
            ) is None
        }),
    ensures
        round_effects(cache, Topic::NewSession).len() == 0,
{
    if !cache.connects {
        law_no_connection(cache, Topic::NewSession);
    } else {
        law_new_session(cache);
    }
}

// ---------------------------------------------------------------------------
// Validators and parachains
// ---------------------------------------------------------------------------

/// A round of a validator publishes one record: the validator's own, joined
/// with its stats and its summary, whichever of them the cache has, and with
/// the index of the current session. No field of these is lost.
pub proof fn law_validator_report(
    cache: CacheModel,
    account: AccountId,
    block: BlockNumber,
    session: EpochIndex,
    described: FieldsView,
    own: FieldsView,
) -> (record: FieldsView)
    requires
        cache.connects,
        (cache.number)(CacheKeyView::FinalizedBlock) == Some(block),
        (cache.number)(CacheKeyView::PushedBlock) == Some(block),
        (cache.number)(CacheKeyView::SessionByIndex(IndexView::Str("current"@))) == Some(session),
        (cache.fields)(CacheKeyView::AuthorityKeyByAccountAndSession(account, session)) == Some(
            described,
        ),
        described != Map::<Seq<char>, Seq<char>>::empty(),
        (cache.fields)(CacheKeyView::AuthorityRecord((cache.authority_key)(described))) == Some(
            own,
        ),
    ensures
        round_effects(cache, Topic::Validator(account)).len() == 1,
        round_effects(cache, Topic::Validator(account))[0] == report(
            "validator"@,
            PayloadView::Validator(record),
        ),
        describes_validator(
            record,
            own,
            (cache.fields)(
                CacheKeyView::AuthorityRecordVerbose(
                    (cache.authority_key)(described),
                    Verbosity::Stats,
                ),
            ),
            (cache.fields)(
                CacheKeyView::AuthorityRecordVerbose(
                    (cache.authority_key)(described),
                    Verbosity::Summary,
                ),
            ),
            session,
        ),
        parsed(record["session"@]) == Some(session),
{
    law_validator(cache, Topic::Validator(account));
    law_number_survives_text(session);
    let key = (cache.authority_key)(described);
    let stats = (cache.fields)(CacheKeyView::AuthorityRecordVerbose(key, Verbosity::Stats));
    let summary = (cache.fields)(CacheKeyView::AuthorityRecordVerbose(key, Verbosity::Summary));
    with_session(with_more(with_more(own, stats), summary), session)
}

/// A round of a validator does nothing without a connection, while a finalized
/// block is left to push, without a current session, or where the account has
/// no authority key or no record in it.
pub proof fn law_no_validator_report(cache: CacheModel, account: AccountId)
    requires
        ({
            let session = (cache.number)(
                CacheKeyView::SessionByIndex(IndexView::Str("current"@)),
            );
            let described = (cache.fields)(
                CacheKeyView::AuthorityKeyByAccountAndSession(account, session.unwrap()),
            );
            ||| !cache.connects
            ||| (cache.number)(CacheKeyView::FinalizedBlock) is None
            ||| (cache.number)(CacheKeyView::PushedBlock) != (cache.number)(
                CacheKeyView::FinalizedBlock,
            )
            ||| session is None
            ||| described is None
            ||| described == Some(Map::<Seq<char>, Seq<char>>::empty())
            ||| (cache.fields)(
                CacheKeyView::AuthorityRecord((cache.authority_key)(described.unwrap())),
            ) is None
        }),
    ensures
        round_effects(cache, Topic::Validator(account)).len() == 0,
{
    if !cache.connects {
        law_no_connection(cache, Topic::Validator(account));
    } else {
        law_validator(cache, Topic::Validator(account));
    }
}

/// Whether a cache has the record of an authority.
pub open spec fn has_record(cache: CacheModel) -> spec_fn(Seq<char>) -> bool {
    |key: Seq<char>| (cache.fields)(CacheKeyView::AuthorityRecord(key)) is Some
}

/// The records of authorities are those of the keys that have one, in order,
/// each joined with what the verbosity adds.
proof fn lemma_authority_records(cache: CacheModel, keys: Seq<Seq<char>>, verbosity: Verbosity)
    ensures
        authority_records(cache, keys, verbosity).len() == keys.filter(has_record(cache)).len(),
        forall|i: int|
            0 <= i < keys.filter(has_record(cache)).len() ==> {
                let key = keys.filter(has_record(cache))[i];
                &&& has_record(cache)(key)
                &&& joins(
                    #[trigger] authority_records(cache, keys, verbosity)[i],
                    (cache.fields)(CacheKeyView::AuthorityRecord(key)).unwrap(),
                    (cache.fields)(CacheKeyView::AuthorityRecordVerbose(key, verbosity)),
                )
            },
    decreases keys.len(),
{
    reveal_with_fuel(Seq::filter, 2);
    if keys.len() > 0 {
        let rest = keys.drop_first();
        lemma_authority_records(cache, rest, verbosity);
        let one = seq![keys[0]];
        assert(keys =~= one + rest);
        Seq::filter_distributes_over_add(one, rest, has_record(cache));
        assert(one.drop_last() =~= Seq::<Seq<char>>::empty());
        let found = rest.filter(has_record(cache));
        let all = keys.filter(has_record(cache));
        if has_record(cache)(keys[0]) {
            assert(one.filter(has_record(cache)) =~= one);
            assert forall|i: int| 0 <= i < all.len() implies {
                &&& has_record(cache)(all[i])
                &&& joins(
                    #[trigger] authority_records(cache, keys, verbosity)[i],
                    (cache.fields)(CacheKeyView::AuthorityRecord(all[i])).unwrap(),
                    (cache.fields)(CacheKeyView::AuthorityRecordVerbose(all[i], verbosity)),
                )
            } by {
                if i > 0 {
                    assert(all[i] == found[i - 1]);
                    assert(authority_records(cache, keys, verbosity)[i] == authority_records(
                        cache,
                        rest,
                        verbosity,
                    )[i - 1]);
                }
            }
        } else {
            assert(one.filter(has_record(cache)) =~= Seq::<Seq<char>>::empty());
            assert(all =~= found);
        }
    }
}

/// A round of the para-validators of a session publishes one response, for
/// that session, with one record for each key of a para-validator that has a
/// record, in the order of the keys: the authority's own record, joined with
/// that of the topic's verbosity, if the cache has it. Without keys, without a
/// connection, or while a finalized block is left to push, it does nothing.
pub proof fn law_para_authorities_report(
    cache: CacheModel,
    session: EpochIndex,
    verbosity: Verbosity,
) -> (data: Seq<FieldsView>)
    ensures
        ({
            let effects = round_effects(cache, Topic::ParaAuthorities(session, verbosity));
            let finalized = (cache.number)(CacheKeyView::FinalizedBlock);
            match (cache.members)(CacheKeyView::AuthorityKeysBySessionParaOnly(session)) {
                Some(keys) if cache.connects && finalized is Some && finalized == (cache.number)(
                    CacheKeyView::PushedBlock,
                ) && keys.len() > 0 => {
                    let found = keys.filter(
                        |key: Seq<char>|
                            (cache.fields)(CacheKeyView::AuthorityRecord(key)) is Some,
                    );
                    &&& effects.len() == 1
                    &&& effects[0] == report(
                        "validators"@,
                        PayloadView::Validators { session, data },
                    )
                    &&& data.len() == found.len()
                    &&& forall|i: int|
                        0 <= i < found.len() ==> joins(
                            #[trigger] data[i],
                            (cache.fields)(CacheKeyView::AuthorityRecord(found[i])).unwrap(),
                            (cache.fields)(
                                CacheKeyView::AuthorityRecordVerbose(found[i], verbosity),
                            ),
                        )
                },
                _ => effects.len() == 0,
            }
        }),
{
    let topic = Topic::ParaAuthorities(session, verbosity);
    if !cache.connects {
        law_no_connection(cache, topic);
    } else {
        law_para_authorities(cache, session, verbosity);
    }
    match (cache.members)(CacheKeyView::AuthorityKeysBySessionParaOnly(session)) {
        Some(keys) => {
            lemma_authority_records(cache, keys, verbosity);
            assert(has_record(cache) =~= |key: Seq<char>|
                (cache.fields)(CacheKeyView::AuthorityRecord(key)) is Some);
            authority_records(cache, keys, verbosity)
        },
        None => Seq::empty(),
    }
}

/// A round of the parachains of a session publishes the record that the cache
/// has of the parachains of that session, with the index of the session under
/// `session` and all other fields as they are. Without such a record, or with
/// an empty one, without a connection, or while a finalized block is left to
/// push, it does nothing.
pub proof fn law_parachains_report(cache: CacheModel, session: EpochIndex) -> (record: FieldsView)
    ensures
        ({
            let effects = round_effects(cache, Topic::Parachains(session));
            let finalized = (cache.number)(CacheKeyView::FinalizedBlock);
            match (cache.fields)(CacheKeyView::ParachainsBySession(session)) {
                Some(fields) if cache.connects && finalized is Some && finalized == (cache.number)(
                    CacheKeyView::PushedBlock,
                ) && fields != Map::<Seq<char>, Seq<char>>::empty() => {
                    &&& effects.len() == 1
                    &&& effects[0] == report("parachains"@, PayloadView::Parachains(record))
                    &&& sets_field(record, fields, "session"@, decimal(session as nat))
                    &&& parsed(record["session"@]) == Some(session)
                },
                _ => effects.len() == 0,
            }
        }),
{
    if !cache.connects {
        law_no_connection(cache, Topic::Parachains(session));
    } else {
        law_parachains(cache, session);
    }
    law_number_survives_text(session);
    match (cache.fields)(CacheKeyView::ParachainsBySession(session)) {
        Some(fields) => with_session(fields, session),
        None => Map::empty(),
    }
}

// ---------------------------------------------------------------------------
// Range
// ---------------------------------------------------------------------------

/// A reply leads out of range in three places and nowhere else: where the
/// block after the last 32-bit number would be the next to read, where the
/// current session starts after the block at which it stands, and where a new
/// session has no session before it.
pub proof fn law_range(
    round: RoundView,
    reply: ReplyView,
    fields: FieldsView,
    current_block: u32,
    start_block: u32,
)
    requires
        reads_as(fields, "current_block"@, current_block),
        reads_as(fields, "start_block"@, start_block),
        reply matches ReplyView::Fields(Some(record)) ==> record == fields,
    ensures
        in_range(round, reply) <==> match (round, reply) {
            (
                RoundView::Pushed { topic: Topic::FinalizedBlock, finalized },
                ReplyView::Number(Some(last)),
            ) => last == finalized || last + 1 <= u32::MAX,
            (RoundView::BlockStats { finalized, block, .. }, _) => block == finalized || block + 1
                <= u32::MAX,
            (RoundView::SessionFields { current }, ReplyView::Fields(Some(_))) => start_block
                <= current_block && (start_block + 10 <= current_block || current >= 1),
            _ => true,
        },
{
    law_number_of_a_field(fields, "current_block"@, current_block);
    law_number_of_a_field(fields, "start_block"@, start_block);
}

} // verus!
