//! The topics that clients subscribe to, and their names.

use vstd::prelude::*;

use crate::account::{default_address_format, AccountId};
#[allow(unused_imports)]
use crate::account::ss58_address;
#[allow(unused_imports)]
use crate::decimal::{decimal, is_digit, law_number_texts_differ, lemma_decimal_digits};
use crate::decimal::to_decimal;

verus! {

/// The number of a block.
pub type BlockNumber = u32;

/// The index of an epoch, which is also that of a session.
pub type EpochIndex = u32;

/// How much of an authority's record is asked for.
#[derive(Clone, Copy, PartialEq, Eq, Hash, Debug)]
pub enum Verbosity {
    Stats,
    Summary,
}

/// The words by which the cache calls the verbosities.
#[derive(Debug)]
pub struct VerbosityLabels {
    pub stats: String,
    pub summary: String,
}

impl VerbosityLabels {
    /// The word for a verbosity.
    pub open spec fn label(&self, verbosity: Verbosity) -> Seq<char> {
        match verbosity {
            Verbosity::Stats => self.stats@,
            Verbosity::Summary => self.summary@,
        }
    }

    /// The word for a verbosity.
    pub fn label_of(&self, verbosity: Verbosity) -> (label: &str)
        ensures
            label@ == self.label(verbosity),
    {
        match verbosity {
            Verbosity::Stats => self.stats.as_str(),
            Verbosity::Summary => self.summary.as_str(),
        }
    }
}

/// What a channel reports on.
#[derive(Clone, Copy, PartialEq, Eq, Hash, Debug)]
pub enum Topic {
    FinalizedBlock,
    BestBlock,
    NewSession,
    Validator(AccountId),
    ParaAuthorities(EpochIndex, Verbosity),
    Parachains(EpochIndex),
}

/// The name of a topic, with addresses in the given format.
pub open spec fn topic_name(topic: Topic, format: u16, labels: VerbosityLabels) -> Seq<char> {
    match topic {
        Topic::FinalizedBlock => "finalized_block"@,
        Topic::BestBlock => "best_block"@,
        Topic::NewSession => "new_session"@,
        Topic::Validator(account) => "v:"@ + ss58_address(account.bytes@, format),
        Topic::ParaAuthorities(index, verbosity) => "pas:"@ + decimal(index as nat) + ":"@
            + labels.label(verbosity),
        Topic::Parachains(index) => "parachains:"@ + decimal(index as nat),
    }
}

impl Topic {
    /// The name of the topic, with addresses in the given format.
    pub fn name(&self, format: u16, labels: &VerbosityLabels) -> (name: String)
        ensures
            name@ == topic_name(*self, format, *labels),
    {
        match self {
            Topic::FinalizedBlock => "finalized_block".to_owned(),
            Topic::BestBlock => "best_block".to_owned(),
            Topic::NewSession => "new_session".to_owned(),
            Topic::Validator(account) => "v:".to_owned().concat(account.address(format).as_str()),
            Topic::ParaAuthorities(index, verbosity) => "pas:".to_owned().concat(
                to_decimal(*index).as_str(),
            ).concat(":").concat(labels.label_of(*verbosity)),
            Topic::Parachains(index) => "parachains:".to_owned().concat(
                to_decimal(*index).as_str(),
            ),
        }
    }

    /// The name of the topic, with addresses in the format that the process
    /// uses by default. Which format that is, is left unsaid; only the name of
    /// a validator's topic depends on it.
    pub fn to_string(&self, labels: &VerbosityLabels) -> (name: String)
        ensures
            exists|format: u16| name@ == #[trigger] topic_name(*self, format, *labels),
            forall|format: u16|
                self !is Validator ==> name@ == #[trigger] topic_name(*self, format, *labels),
    {
        self.name(default_address_format(), labels)
    }
}

/// The name of a topic says what it is of: of an account the address in the
/// given format, of a session the index in decimal digits, of a verbosity the
/// cache's own word.
pub proof fn law_names_of_topics(
    account: AccountId,
    index: EpochIndex,
    format: u16,
    labels: VerbosityLabels,
)
    ensures
        topic_name(Topic::FinalizedBlock, format, labels) == "finalized_block"@,
        topic_name(Topic::BestBlock, format, labels) == "best_block"@,
        topic_name(Topic::NewSession, format, labels) == "new_session"@,
        topic_name(Topic::Validator(account), format, labels) == "v:"@ + ss58_address(
            account.bytes@,
            format,
        ),
        topic_name(Topic::ParaAuthorities(index, Verbosity::Stats), format, labels) == "pas:"@
            + decimal(index as nat) + ":"@ + labels.stats@,
        topic_name(Topic::ParaAuthorities(index, Verbosity::Summary), format, labels) == "pas:"@
            + decimal(index as nat) + ":"@ + labels.summary@,
        topic_name(Topic::Parachains(index), format, labels) == "parachains:"@ + decimal(
            index as nat,
        ),
{
}

/// The names of para-validator topics tell sessions and verbosities apart.
proof fn lemma_para_names_differ(
    index: EpochIndex,
    label: Seq<char>,
    other_index: EpochIndex,
    other_label: Seq<char>,
)
    requires
        index != other_index || label != other_label,
    ensures
        "pas:"@ + decimal(index as nat) + ":"@ + label != "pas:"@ + decimal(other_index as nat)
            + ":"@ + other_label,
{
    reveal_strlit("pas:");
    reveal_strlit(":");
    let (d, e) = (decimal(index as nat), decimal(other_index as nat));
    let one = "pas:"@ + d + ":"@ + label;
    let other = "pas:"@ + e + ":"@ + other_label;
    lemma_decimal_digits(index as nat);
    lemma_decimal_digits(other_index as nat);
    if one == other {
        if d.len() < e.len() {
            assert(one[4 + d.len() as int] == ':');
            assert(other[4 + d.len() as int] == e[d.len() as int]);
            assert(is_digit(e[d.len() as int]));
        } else if e.len() < d.len() {
            assert(other[4 + e.len() as int] == ':');
            assert(one[4 + e.len() as int] == d[e.len() as int]);
            assert(is_digit(d[e.len() as int]));
        } else {
            assert(one.subrange(4, 4 + d.len() as int) =~= d);
            assert(other.subrange(4, 4 + d.len() as int) =~= e);
            if index != other_index {
                law_number_texts_differ(index as nat, other_index as nat);
            }
            assert(one.skip(5 + d.len() as int) =~= label);
            assert(other.skip(5 + d.len() as int) =~= other_label);
        }
    }
}

/// The name of a topic tells it apart from every other topic, where the cache
/// has different words for the two verbosities, and two validators have
/// different addresses in the format. Which accounts have different addresses
/// is left unsaid: it rests on how addresses are spelled.
pub proof fn law_names_tell_topics_apart(
    one: Topic,
    other: Topic,
    format: u16,
    labels: VerbosityLabels,
)
    requires
        one != other,
        match (one, other) {
            (Topic::Validator(a), Topic::Validator(b)) => ss58_address(a.bytes@, format)
                != ss58_address(b.bytes@, format),
            _ => true,
        },
        labels.stats@ != labels.summary@,
    ensures
        topic_name(one, format, labels) != topic_name(other, format, labels),
{
    reveal_strlit("finalized_block");
    reveal_strlit("best_block");
    reveal_strlit("new_session");
    reveal_strlit("v:");
    reveal_strlit("pas:");
    reveal_strlit("parachains:");
    let (a, b) = (topic_name(one, format, labels), topic_name(other, format, labels));
    match (one, other) {
        (Topic::Validator(x), Topic::Validator(y)) => {
            assert(a.skip(2) =~= ss58_address(x.bytes@, format));
            assert(b.skip(2) =~= ss58_address(y.bytes@, format));
        },
        (Topic::ParaAuthorities(i, v), Topic::ParaAuthorities(j, w)) => {
            lemma_para_names_differ(i, labels.label(v), j, labels.label(w));
        },
        (Topic::Parachains(i), Topic::Parachains(j)) => {
            law_number_texts_differ(i as nat, j as nat);
            assert(a.skip(11) =~= decimal(i as nat));
            assert(b.skip(11) =~= decimal(j as nat));
        },
        (Topic::ParaAuthorities(..), Topic::Parachains(_)) => {
            assert(a[2] == 's' && b[2] == 'r');
        },
        (Topic::Parachains(_), Topic::ParaAuthorities(..)) => {
            assert(a[2] == 'r' && b[2] == 's');
        },
        _ => {
            assert(a[0] != b[0]);
        },
    }
}

} // verus!
