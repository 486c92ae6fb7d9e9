use dominion_protector::records::SecurityLevel;
use dominion_protector::reply::{
    classify_level, parse_ownership, parse_security_level, parse_string_list, strip_reasoning,
    ReplyError,
};

#[test]
fn reasoning_block_is_stripped() {
    assert_eq!(strip_reasoning("<think>anything</think>REST"), Ok("REST".to_string()));
}

#[test]
fn unterminated_reasoning_is_an_error() {
    assert_eq!(strip_reasoning("<think>unterminated"), Err(ReplyError::MissingClosingTag));
}

#[test]
fn reply_without_reasoning_is_kept() {
    assert_eq!(strip_reasoning("plain answer"), Ok("plain answer".to_string()));
    assert_eq!(strip_reasoning(""), Ok(String::new()));
}

#[test]
fn only_first_closing_tag_ends_reasoning() {
    assert_eq!(strip_reasoning("<think>a</think>b</think>c"), Ok("b</think>c".to_string()));
}

#[test]
fn critical_outranks_low() {
    assert_eq!(classify_level("Low at first, then Critical"), Some(SecurityLevel::CriticalRisk));
    assert_eq!(parse_security_level("Critical and Low"), Ok(SecurityLevel::CriticalRisk));
}

#[test]
fn each_keyword_gives_its_level() {
    assert_eq!(classify_level("High Risk"), Some(SecurityLevel::HighRisk));
    assert_eq!(classify_level("Medium"), Some(SecurityLevel::MediumRisk));
    assert_eq!(classify_level("Low Risk"), Some(SecurityLevel::LowRisk));
    assert_eq!(classify_level("Best Practices Compliant"), Some(SecurityLevel::BestPracticesCompliant));
    assert_eq!(classify_level("Unknown"), Some(SecurityLevel::UnknownUnassessed));
    assert_eq!(classify_level("High and Medium"), Some(SecurityLevel::HighRisk));
}

#[test]
fn no_keyword_is_a_classification_failure() {
    assert_eq!(classify_level("nothing to say"), None);
    assert_eq!(parse_security_level("nothing to say"), Err(ReplyError::NoKeyword));
    assert_eq!(parse_security_level("critical in lower case"), Err(ReplyError::NoKeyword));
}

#[test]
fn security_level_after_reasoning() {
    assert_eq!(
        parse_security_level("<think>maybe Critical?</think>Low Risk"),
        Ok(SecurityLevel::LowRisk)
    );
    assert_eq!(parse_security_level("<think>Critical"), Err(ReplyError::MissingClosingTag));
}

#[test]
fn string_list_is_decoded() {
    assert_eq!(
        parse_string_list("[\"A\", \"B\"]"),
        Ok(vec!["A".to_string(), "B".to_string()])
    );
    assert_eq!(parse_string_list("[]"), Ok(vec![]));
    assert_eq!(
        parse_string_list("<think>x</think>[\"only\"]"),
        Ok(vec!["only".to_string()])
    );
}

#[test]
fn malformed_string_list_is_rejected() {
    assert_eq!(parse_string_list("not json"), Err(ReplyError::NotJson));
    assert_eq!(parse_string_list("[1, 2]"), Err(ReplyError::NotJson));
    assert_eq!(parse_string_list("{\"a\": \"b\"}"), Err(ReplyError::NotJson));
}

#[test]
fn ownership_is_decoded() {
    let o = parse_ownership(
        "{\"address_owned\": \"always\", \"shared\": \"when listed\", \"wrapped\": null, \"extra\": \"x\"}",
    )
    .unwrap();
    assert_eq!(o.address_owned, Some("always".to_string()));
    assert_eq!(o.shared, Some("when listed".to_string()));
    assert_eq!(o.wrapped, None);
    assert_eq!(o.object_owned, None);
    assert_eq!(o.immutable, None);
    assert_eq!(o.event, None);
}

#[test]
fn malformed_ownership_is_rejected() {
    assert!(matches!(parse_ownership("[\"a\"]"), Err(ReplyError::NotJson)));
    assert!(matches!(parse_ownership("{\"shared\": 3}"), Err(ReplyError::NotJson)));
    assert!(matches!(parse_ownership("<think>"), Err(ReplyError::MissingClosingTag)));
}
