//! What the models keep of the values that they stand for.
//!
//! A model has the same kind as its value and the same contents: every number
//! as it is, every text character by character, every list in its order.

use std::collections::VecDeque;
use vstd::prelude::*;

use crate::account::AccountId;
use crate::cache::{
    CacheKey, CacheKeyView, Index, IndexView, Reply, ReplyView, Request, RequestView,
};
#[allow(unused_imports)]
use crate::cache::{records, texts};
use crate::cache_map::CacheMap;
use crate::message::{Payload, PayloadView};
#[allow(unused_imports)]
use crate::message::response;
use crate::round::{Round, RoundView, Step};
use crate::topic::{BlockNumber, EpochIndex, Topic, Verbosity};

verus! {

/// The model of a key names the same place.
pub proof fn law_models_of_keys(
    number: u64,
    text: String,
    account: AccountId,
    session: EpochIndex,
    verbosity: Verbosity,
)
    ensures
        CacheKey::FinalizedBlock@ == CacheKeyView::FinalizedBlock,
        CacheKey::PushedBlock@ == CacheKeyView::PushedBlock,
        CacheKey::BestBlock@ == CacheKeyView::BestBlock,
        CacheKey::BlockByIndexStats(Index::Num(number))@ == CacheKeyView::BlockByIndexStats(
            IndexView::Num(number),
        ),
        CacheKey::BlockByIndexStats(Index::Str(text))@ == CacheKeyView::BlockByIndexStats(
            IndexView::Str(text@),
        ),
        CacheKey::SessionByIndex(Index::Num(number))@ == CacheKeyView::SessionByIndex(
            IndexView::Num(number),
        ),
        CacheKey::SessionByIndex(Index::Str(text))@ == CacheKeyView::SessionByIndex(
            IndexView::Str(text@),
        ),
        CacheKey::AuthorityKeyByAccountAndSession(account, session)@
            == CacheKeyView::AuthorityKeyByAccountAndSession(account, session),
        CacheKey::AuthorityRecord(text)@ == CacheKeyView::AuthorityRecord(text@),
        CacheKey::AuthorityRecordVerbose(text, verbosity)@ == CacheKeyView::AuthorityRecordVerbose(
            text@,
            verbosity,
        ),
        CacheKey::AuthorityKeysBySessionParaOnly(session)@
            == CacheKeyView::AuthorityKeysBySessionParaOnly(session),
        CacheKey::ParachainsBySession(session)@ == CacheKeyView::ParachainsBySession(session),
{
}

/// The model of a request asks for the same thing.
pub proof fn law_models_of_requests(key: CacheKey, number: BlockNumber, record: CacheMap)
    ensures
        Request::Connect@ == RequestView::Connect,
        Request::GetNumber(key)@ == RequestView::GetNumber(key@),
        Request::GetText(key)@ == RequestView::GetText(key@),
        Request::GetFields(key)@ == RequestView::GetFields(key@),
        Request::GetMembers(key)@ == RequestView::GetMembers(key@),
        Request::SetNumber(key, number)@ == RequestView::SetNumber(key@, number),
        Request::AuthorityKey(record)@ == RequestView::AuthorityKey(record@),
{
}

/// The model of a reply says the same thing.
pub proof fn law_models_of_replies(
    connected: bool,
    number: Option<u32>,
    text: String,
    record: CacheMap,
    members: Vec<String>,
)
    ensures
        Reply::Connected(connected)@ == ReplyView::Connected(connected),
        Reply::Number(number)@ == ReplyView::Number(number),
        Reply::Text(None)@ == ReplyView::Text(None),
        Reply::Text(Some(text))@ == ReplyView::Text(Some(text@)),
        Reply::Fields(None)@ == ReplyView::Fields(None),
        Reply::Fields(Some(record))@ == ReplyView::Fields(Some(record@)),
        Reply::Members(None)@ == ReplyView::Members(None),
        Reply::Members(Some(members))@ == ReplyView::Members(
            Some(Seq::new(members@.len(), |i: int| members@[i]@)),
        ),
        Reply::Written@ == ReplyView::Written,
        Reply::AuthorityKey(text)@ == ReplyView::AuthorityKey(text@),
{
    assert(texts(members@) =~= Seq::new(members@.len(), |i: int| members@[i]@));
}

/// The model of a payload has the same records, in the same order.
pub proof fn law_models_of_payloads(record: CacheMap, data: Vec<CacheMap>, session: EpochIndex)
    ensures
        Payload::Block(record)@ == PayloadView::Block(record@),
        Payload::Blocks(data)@ == PayloadView::Blocks(
            Seq::new(data@.len(), |i: int| data@[i]@),
        ),
        Payload::Session(record)@ == PayloadView::Session(record@),
        Payload::Validator(record)@ == PayloadView::Validator(record@),
        (Payload::Validators { session, data })@ == (PayloadView::Validators {
            session,
            data: Seq::new(data@.len(), |i: int| data@[i]@),
        }),
        Payload::Parachains(record)@ == PayloadView::Parachains(record@),
{
    assert(records(data@) =~= Seq::new(data@.len(), |i: int| data@[i]@));
}

/// The model of a round waits for the same thing, and holds the same numbers,
/// texts and records, lists in their order.
pub proof fn law_models_of_rounds(
    topic: Topic,
    number: BlockNumber,
    block: BlockNumber,
    account: AccountId,
    verbosity: Verbosity,
    key: String,
    fields: CacheMap,
    rest: VecDeque<String>,
    data: Vec<CacheMap>,
)
    ensures
        (Round::Connect { topic })@ == (RoundView::Connect { topic }),
        (Round::Finalized { topic })@ == (RoundView::Finalized { topic }),
        (Round::Pushed { topic, finalized: number })@ == (RoundView::Pushed {
            topic,
            finalized: number,
        }),
        (Round::BlockStats { finalized: number, block, data })@ == (RoundView::BlockStats {
            finalized: number,
            block,
            data: Seq::new(data@.len(), |i: int| data@[i]@),
        }),
        (Round::FirstBlockStats { finalized: number })@ == (RoundView::FirstBlockStats {
            finalized: number,
        }),
        (Round::NotePushed { finalized: number })@ == (RoundView::NotePushed {
            finalized: number,
        }),
        Round::Best@ == RoundView::Best,
        Round::CurrentSession@ == RoundView::CurrentSession,
        (Round::SessionFields { current: number })@ == (RoundView::SessionFields {
            current: number,
        }),
        (Round::PreviousSessionFields { previous: number, fields })@ == (
        RoundView::PreviousSessionFields { previous: number, fields: fields@ }),
        (Round::ValidatorSession { account })@ == (RoundView::ValidatorSession { account }),
        (Round::AuthorityKeyFields { account, session: number })@ == (
        RoundView::AuthorityKeyFields { account, session: number }),
        (Round::AuthorityKeyText { session: number, fields })@ == (RoundView::AuthorityKeyText {
            session: number,
            fields: fields@,
        }),
        (Round::Authority { session: number, key })@ == (RoundView::Authority {
            session: number,
            key: key@,
        }),
        (Round::AuthorityStats { session: number, key, fields })@ == (RoundView::AuthorityStats {
            session: number,
            key: key@,
            fields: fields@,
        }),
        (Round::AuthoritySummary { session: number, key, fields })@ == (
        RoundView::AuthoritySummary { session: number, key: key@, fields: fields@ }),
        (Round::ParaKeys { session: number, verbosity })@ == (RoundView::ParaKeys {
            session: number,
            verbosity,
        }),
        (Round::ParaAuthority { session: number, verbosity, key, rest, data })@ == (
        RoundView::ParaAuthority {
            session: number,
            verbosity,
            key: key@,
            rest: Seq::new(rest@.len(), |i: int| rest@[i]@),
            data: Seq::new(data@.len(), |i: int| data@[i]@),
        }),
        (Round::ParaAuthorityMore { session: number, verbosity, key, rest, data, fields })@ == (
        RoundView::ParaAuthorityMore {
            session: number,
            verbosity,
            key: key@,
            rest: Seq::new(rest@.len(), |i: int| rest@[i]@),
            data: Seq::new(data@.len(), |i: int| data@[i]@),
            fields: fields@,
        }),
        (Round::Parachains { session: number })@ == (RoundView::Parachains { session: number }),
{
    assert(records(data@) =~= Seq::new(data@.len(), |i: int| data@[i]@));
    assert(texts(rest@) =~= Seq::new(rest@.len(), |i: int| rest@[i]@));
}

/// The model of a step has the same responses, in the same order, each under
/// the same kind, and goes on where the step goes on.
pub proof fn law_models_of_steps(step: Step, i: int)
    requires
        0 <= i < step.messages@.len(),
    ensures
        step@.messages.len() == step.messages@.len(),
        step@.messages[i].kind == step.messages@[i].kind@,
        step@.messages[i].result == step.messages@[i].result@,
        step@.next is Some <==> step.next is Some,
        step.next matches Some(round) ==> step@.next == Some(round@),
{
}

/// A response goes out under the name of its kind, with its payload as it is.
pub proof fn law_kinds_of_responses(payload: PayloadView)
    ensures
        response(payload).result == payload,
        payload is Block ==> response(payload).kind == "block"@,
        payload is Blocks ==> response(payload).kind == "blocks"@,
        payload is Session ==> response(payload).kind == "session"@,
        payload is Validator ==> response(payload).kind == "validator"@,
        payload is Validators ==> response(payload).kind == "validators"@,
        payload is Parachains ==> response(payload).kind == "parachains"@,
{
}

} // verus!
