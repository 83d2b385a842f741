use kotoba::net::{gossipsub_topic, journal_topic, KotobaTransport, PREGEL_GOSSIP_TOPIC};
use kotoba::warrant::ValidationRule;

#[test]
fn plain_topic_gets_kotoba_prefix() {
    assert_eq!(gossipsub_topic("quad/assert"), "kotoba/quad/assert");
}

#[test]
fn leading_slash_is_stripped() {
    assert_eq!(gossipsub_topic("/quad/assert"), "kotoba/quad/assert");
}

#[test]
fn multiple_leading_slashes_stripped() {
    assert_eq!(gossipsub_topic("//pregel/messages"), "kotoba/pregel/messages");
}

#[test]
fn empty_topic_gives_bare_prefix() {
    assert_eq!(gossipsub_topic(""), "kotoba/");
}

#[test]
fn already_kotoba_prefix_not_doubled() {
    let t = gossipsub_topic("pregel/messages");
    assert_eq!(t, "kotoba/pregel/messages");
    assert!(!t.contains("kotoba/kotoba/"), "prefix must not be doubled");
}

#[test]
fn pregel_gossip_topic_has_no_kotoba_prefix() {
    assert!(!PREGEL_GOSSIP_TOPIC.starts_with("kotoba/"));
    assert_eq!(PREGEL_GOSSIP_TOPIC, "pregel/messages");
}

#[test]
fn only_slashes_give_bare_prefix() {
    assert_eq!(gossipsub_topic("///"), "kotoba/");
}

#[test]
fn inner_slashes_are_kept() {
    assert_eq!(gossipsub_topic("/a//b/"), "kotoba/a//b/");
}

#[test]
fn transport_starts_without_peer_id() {
    assert_eq!(KotobaTransport::new().local_peer_id, "");
}

#[test]
fn validation_rule_discriminants_are_stable() {
    assert_eq!(ValidationRule::InvalidSignature.code(), 1);
    assert_eq!(ValidationRule::SeqBreak.code(), 2);
    assert_eq!(ValidationRule::PrevMismatch.code(), 3);
    assert_eq!(ValidationRule::CacaoInvalid.code(), 4);
    assert_eq!(ValidationRule::ProllyInconsistent.code(), 5);
    assert_eq!(ValidationRule::MaxStepsExceeded.code(), 6);
    assert_eq!(ValidationRule::RekeyRevoked.code(), 7);
}

#[test]
fn validation_rule_codes_read_back() {
    for c in 1u8..=7 {
        let r = ValidationRule::from_code(c).expect("known code");
        assert_eq!(r.code(), c);
    }
    assert!(ValidationRule::from_code(0).is_none());
    assert!(ValidationRule::from_code(8).is_none());
}

#[test]
fn journal_topic_strips_gossip_prefix() {
    assert_eq!(journal_topic("kotoba/quad/assert"), "quad/assert");
    assert_eq!(journal_topic("other/topic"), "other/topic");
    assert_eq!(journal_topic("kotoba"), "kotoba");
}

#[test]
fn gossip_topic_roundtrips_to_journal_topic() {
    assert_eq!(journal_topic(&gossipsub_topic("//pregel/messages")), "pregel/messages");
    assert_eq!(journal_topic(&gossipsub_topic("quad/retract")), "quad/retract");
}
