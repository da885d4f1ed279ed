//! What a channel asks the cache for, and what it is answered.

use vstd::prelude::*;

use crate::account::AccountId;
use crate::cache_map::CacheMap;
use crate::topic::{BlockNumber, EpochIndex, Verbosity};

verus! {

/// A record of named fields.
pub type FieldsView = Map<Seq<char>, Seq<char>>;

/// How a block or a session is found.
#[derive(Debug)]
pub enum Index {
    Num(u64),
    Str(String),
}

/// The model of an [`Index`].
pub enum IndexView {
    Num(u64),
    Str(Seq<char>),
}

impl View for Index {
    type V = IndexView;

    open spec fn view(&self) -> IndexView {
        match self {
            Index::Num(number) => IndexView::Num(*number),
            Index::Str(text) => IndexView::Str(text@),
        }
    }
}

/// The places in the cache that a channel reads or writes.
#[derive(Debug)]
pub enum CacheKey {
    FinalizedBlock,
    PushedBlock,
    BestBlock,
    BlockByIndexStats(Index),
    SessionByIndex(Index),
    AuthorityKeyByAccountAndSession(AccountId, EpochIndex),
    /// An authority's own record, under the authority's key as it stands.
    AuthorityRecord(String),
    AuthorityRecordVerbose(String, Verbosity),
    AuthorityKeysBySessionParaOnly(EpochIndex),
    ParachainsBySession(EpochIndex),
}

/// The model of a [`CacheKey`].
pub enum CacheKeyView {
    FinalizedBlock,
    PushedBlock,
    BestBlock,
    BlockByIndexStats(IndexView),
    SessionByIndex(IndexView),
    AuthorityKeyByAccountAndSession(AccountId, EpochIndex),
    AuthorityRecord(Seq<char>),
    AuthorityRecordVerbose(Seq<char>, Verbosity),
    AuthorityKeysBySessionParaOnly(EpochIndex),
    ParachainsBySession(EpochIndex),
}

impl View for CacheKey {
    type V = CacheKeyView;

    open spec fn view(&self) -> CacheKeyView {
        match self {
            CacheKey::FinalizedBlock => CacheKeyView::FinalizedBlock,
            CacheKey::PushedBlock => CacheKeyView::PushedBlock,
            CacheKey::BestBlock => CacheKeyView::BestBlock,
            CacheKey::BlockByIndexStats(index) => CacheKeyView::BlockByIndexStats(index@),
            CacheKey::SessionByIndex(index) => CacheKeyView::SessionByIndex(index@),
            CacheKey::AuthorityKeyByAccountAndSession(account, session) =>
                CacheKeyView::AuthorityKeyByAccountAndSession(*account, *session),
            CacheKey::AuthorityRecord(key) => CacheKeyView::AuthorityRecord(key@),
            CacheKey::AuthorityRecordVerbose(key, verbosity) =>
                CacheKeyView::AuthorityRecordVerbose(key@, *verbosity),
            CacheKey::AuthorityKeysBySessionParaOnly(session) =>
                CacheKeyView::AuthorityKeysBySessionParaOnly(*session),
            CacheKey::ParachainsBySession(session) => CacheKeyView::ParachainsBySession(*session),
        }
    }
}

/// What a round of a channel waits for.
#[derive(Debug)]
pub enum Request {
    /// A connection to the cache.
    Connect,
    /// `GET`, read as a number.
    GetNumber(CacheKey),
    /// `GET`, read as text.
    GetText(CacheKey),
    /// `HGETALL`.
    GetFields(CacheKey),
    /// `SMEMBERS`.
    GetMembers(CacheKey),
    /// `SET` to a block number.
    SetNumber(CacheKey, BlockNumber),
    /// The text of the authority key that a record describes.
    AuthorityKey(CacheMap),
}

/// The model of a [`Request`].
pub enum RequestView {
    Connect,
    GetNumber(CacheKeyView),
    GetText(CacheKeyView),
    GetFields(CacheKeyView),
    GetMembers(CacheKeyView),
    SetNumber(CacheKeyView, BlockNumber),
    AuthorityKey(FieldsView),
}

impl View for Request {
    type V = RequestView;

    open spec fn view(&self) -> RequestView {
        match self {
            Request::Connect => RequestView::Connect,
            Request::GetNumber(key) => RequestView::GetNumber(key@),
            Request::GetText(key) => RequestView::GetText(key@),
            Request::GetFields(key) => RequestView::GetFields(key@),
            Request::GetMembers(key) => RequestView::GetMembers(key@),
            Request::SetNumber(key, number) => RequestView::SetNumber(key@, *number),
            Request::AuthorityKey(record) => RequestView::AuthorityKey(record@),
        }
    }
}

/// The answer to a [`Request`]. `None` stands for any failure: of the cache,
/// of the connection, or of reading the value as what was asked for.
#[derive(Debug)]
pub enum Reply {
    /// Whether there is a connection.
    Connected(bool),
    Number(Option<u32>),
    Text(Option<String>),
    Fields(Option<CacheMap>),
    Members(Option<Vec<String>>),
    /// The value was written, or it was not: a round goes on alike.
    Written,
    AuthorityKey(String),
}

/// The model of a [`Reply`].
pub enum ReplyView {
    Connected(bool),
    Number(Option<u32>),
    Text(Option<Seq<char>>),
    Fields(Option<FieldsView>),
    Members(Option<Seq<Seq<char>>>),
    Written,
    AuthorityKey(Seq<char>),
}

/// The texts of a list of strings.
pub open spec fn texts(strings: Seq<String>) -> Seq<Seq<char>> {
    strings.map_values(|s: String| s@)
}

/// The models of a list of records.
pub open spec fn records(maps: Seq<CacheMap>) -> Seq<FieldsView> {
    maps.map_values(|m: CacheMap| m@)
}

impl View for Reply {
    type V = ReplyView;

    open spec fn view(&self) -> ReplyView {
        match self {
            Reply::Connected(connected) => ReplyView::Connected(*connected),
            Reply::Number(number) => ReplyView::Number(*number),
            Reply::Text(None) => ReplyView::Text(None),
            Reply::Text(Some(text)) => ReplyView::Text(Some(text@)),
            Reply::Fields(None) => ReplyView::Fields(None),
            Reply::Fields(Some(record)) => ReplyView::Fields(Some(record@)),
            Reply::Members(None) => ReplyView::Members(None),
            Reply::Members(Some(members)) => ReplyView::Members(Some(texts(members@))),
            Reply::Written => ReplyView::Written,
            Reply::AuthorityKey(key) => ReplyView::AuthorityKey(key@),
        }
    }
}

/// Whether a reply is of the kind that a request asks for.
pub open spec fn answers(reply: ReplyView, request: RequestView) -> bool {
    match request {
        RequestView::Connect => reply is Connected,
        RequestView::GetNumber(_) => reply is Number,
        RequestView::GetText(_) => reply is Text,
        RequestView::GetFields(_) => reply is Fields,
        RequestView::GetMembers(_) => reply is Members,
        RequestView::SetNumber(..) => reply is Written,
        RequestView::AuthorityKey(_) => reply is AuthorityKey,
    }
}

} // verus!
