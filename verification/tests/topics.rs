use channel::account::AccountId;
use channel::topic::{Topic, Verbosity, VerbosityLabels};

fn labels() -> VerbosityLabels {
    VerbosityLabels { stats: "st".to_string(), summary: "su".to_string() }
}

#[test]
fn names_of_plain_topics() {
    assert_eq!(Topic::FinalizedBlock.to_string(&labels()), "finalized_block");
    assert_eq!(Topic::BestBlock.to_string(&labels()), "best_block");
    assert_eq!(Topic::NewSession.to_string(&labels()), "new_session");
    assert_eq!(Topic::Parachains(4_294_967_295).to_string(&labels()), "parachains:4294967295");
    assert_eq!(
        Topic::ParaAuthorities(17, Verbosity::Summary).to_string(&labels()),
        "pas:17:su"
    );
    assert_eq!(Topic::ParaAuthorities(0, Verbosity::Stats).to_string(&labels()), "pas:0:st");
}

#[test]
fn name_of_a_validator_topic_is_its_address() {
    let account = AccountId { bytes: [
        0xd4, 0x35, 0x93, 0xc7, 0x15, 0xfd, 0xd3, 0x1c, 0x61, 0x14, 0x1a, 0xbd, 0x04, 0xa9, 0x9f,
        0xd6, 0x82, 0x2c, 0x85, 0x58, 0x85, 0x4c, 0xcd, 0xe3, 0x9a, 0x56, 0x84, 0xe7, 0xa5, 0x6d,
        0xa2, 0x7d,
    ] };
    let topic = Topic::Validator(account);
    assert_eq!(
        topic.name(42, &labels()),
        "v:5GrwvaEF5zXb26Fz9rcQpDWS57CtERHpNehXCPcNoHGKutQY"
    );
    assert_eq!(
        topic.name(0, &labels()),
        "v:15oF4uVJwmo4TdGW7VfQxNLavjCXviqxT9S1MgbjMNHr6Sp5"
    );
    assert_eq!(
        topic.to_string(&labels()),
        "v:5GrwvaEF5zXb26Fz9rcQpDWS57CtERHpNehXCPcNoHGKutQY"
    );
}

#[test]
fn names_tell_validators_apart() {
    let one = Topic::Validator(AccountId { bytes: [1; 32] });
    let other = Topic::Validator(AccountId { bytes: [2; 32] });
    assert_ne!(one.name(42, &labels()), other.name(42, &labels()));
    assert_ne!(one.name(42, &labels()), one.name(2, &labels()));
}
