use mqtt_topics::InvalidTopicError::{ContainsNull, ContainsWildCards, EmptyTopic, TooLong};
use mqtt_topics::{has_wildcards, valid_filter, valid_topic};

#[test]
fn wildcards_are_detected_correctly() {
    assert!(!has_wildcards("a/b/c"));
    assert!(has_wildcards("a/+/c"));
    assert!(has_wildcards("a/b/#"));
}

#[test]
fn topics_are_validated_correctly() {
    assert!(matches!(valid_topic("+wrong"), Err(ContainsWildCards)));
    assert!(matches!(valid_topic("wro#ng"), Err(ContainsWildCards)));
    assert!(matches!(valid_topic("w/r/o/n/g+"), Err(ContainsWildCards)));
    assert!(matches!(valid_topic("wrong/#/path"), Err(ContainsWildCards)));

    // All Topic Names and Topic Filters MUST be at least one character long
    assert!(matches!(valid_topic(""), Err(EmptyTopic)));
    assert!(matches!(valid_topic("_"), Ok(())));

    // Topic Names and Topic Filters MUST NOT include the null character (Unicode U+0000)
    assert!(matches!(valid_topic("string_with_null\0"), Err(ContainsNull)));
    assert!(matches!(valid_topic("string_with_no_null\\0"), Ok(())));

    // Topic Names and Topic Filters are UTF-8 encoded strings,
    // they MUST NOT encode to more than 65535 bytes
    let too_long_topic = String::from_utf8(vec![97; 65535 + 1]).unwrap();
    assert!(matches!(valid_topic(&too_long_topic), Err(TooLong)));
    let longest_topic = String::from_utf8(vec![97; 65535]).unwrap();
    assert!(matches!(valid_topic(&longest_topic), Ok(())));
}

#[test]
fn filters_are_validated_correctly() {
    assert!(!valid_filter("wrong/#/filter"));
    assert!(!valid_filter("wrong/wr#ng/filter"));
    assert!(!valid_filter("wrong/filter#"));
    assert!(valid_filter("correct/filter/#"));
    assert!(!valid_filter("wr/o+/ng"));
    assert!(!valid_filter("wr/+o+/ng"));
    assert!(!valid_filter("wron/+g"));
    assert!(valid_filter("cor/+/rect/+"));
}

#[test]
fn zero_len_subscriptions_are_not_allowed() {
    assert!(!valid_filter(""));
}

#[test]
fn dollar_subscriptions_doesnt_match_dollar_topic() {
    assert!(mqtt_topics::topic::matches("sy$tem/metrics", "sy$tem/+"));
    assert!(!mqtt_topics::topic::matches("$system/metrics", "$system/+"));
    assert!(!mqtt_topics::topic::matches("$system/metrics", "+/+"));
}

#[test]
fn topics_match_with_filters_as_expected() {
    let topic = "a/b/c";
    let filter = "a/b/c";
    assert!(mqtt_topics::topic::matches(topic, filter));

    let topic = "a/b/c";
    let filter = "d/b/c";
    assert!(!mqtt_topics::topic::matches(topic, filter));

    let topic = "a/b/c";
    let filter = "a/b/e";
    assert!(!mqtt_topics::topic::matches(topic, filter));

    let topic = "a/b/c";
    let filter = "a/b/c/d";
    assert!(!mqtt_topics::topic::matches(topic, filter));

    let topic = "a/b/c";
    let filter = "#";
    assert!(mqtt_topics::topic::matches(topic, filter));

    let topic = "a/b/c";
    let filter = "a/b/c/#";
    assert!(mqtt_topics::topic::matches(topic, filter));

    let topic = "a/b/c/d";
    let filter = "a/b/c";
    assert!(!mqtt_topics::topic::matches(topic, filter));

    let topic = "a/b/c/d";
    let filter = "a/b/c/#";
    assert!(mqtt_topics::topic::matches(topic, filter));

    let topic = "a/b/c/d/e/f";
    let filter = "a/b/c/#";
    assert!(mqtt_topics::topic::matches(topic, filter));

    let topic = "a/b/c";
    let filter = "a/+/c";
    assert!(mqtt_topics::topic::matches(topic, filter));
    let topic = "a/b/c/d/e";
    let filter = "a/+/c/+/e";
    assert!(mqtt_topics::topic::matches(topic, filter));

    let topic = "a/b";
    let filter = "a/b/+";
    assert!(!mqtt_topics::topic::matches(topic, filter));

    let filter1 = "a/b/+";
    let filter2 = "a/b/#";
    assert!(mqtt_topics::topic::matches(filter1, filter2));
    assert!(!mqtt_topics::topic::matches(filter2, filter1));

    let filter1 = "a/b/+";
    let filter2 = "#";
    assert!(mqtt_topics::topic::matches(filter1, filter2));

    let filter1 = "a/+/c/d";
    let filter2 = "a/+/+/d";
    assert!(mqtt_topics::topic::matches(filter1, filter2));
    assert!(!mqtt_topics::topic::matches(filter2, filter1));
}

#[test]
fn lone_wildcard_filters_are_valid() {
    assert!(valid_filter("#"));
    assert!(valid_filter("+"));
}

#[test]
fn dollar_topics_do_not_match_even_literal_patterns() {
    assert!(!mqtt_topics::topic::matches("$system/metrics", "$system/metrics"));
    assert!(!mqtt_topics::topic::matches("$sys", "#"));
}

#[test]
fn revalidation_yields_the_same_result() {
    assert!(matches!(valid_topic("a/b/c"), Ok(())));
    assert!(matches!(valid_topic("a/b/c"), Ok(())));
    assert!(matches!(valid_topic("wro#ng"), Err(ContainsWildCards)));
    assert!(matches!(valid_topic("wro#ng"), Err(ContainsWildCards)));
    assert!(valid_filter("a/+/#"));
    assert!(valid_filter("a/+/#"));
    assert!(!valid_filter("a/+b"));
    assert!(!valid_filter("a/+b"));
}

#[test]
fn multibyte_text_is_judged_by_its_utf8_bytes() {
    assert!(matches!(valid_topic("caf\u{e9}/menu"), Ok(())));
    assert!(valid_filter("caf\u{e9}/+"));
    assert!(mqtt_topics::topic::matches("caf\u{e9}/menu", "caf\u{e9}/+"));
    assert!(mqtt_topics::topic::matches("caf\u{e9}/menu", "caf\u{e9}/menu"));
    assert!(!valid_filter("caf\u{e9}#"));
}

#[test]
fn empty_levels_are_distinct_levels() {
    assert!(mqtt_topics::topic::matches("a//c", "a/+/c"));
    assert!(!mqtt_topics::topic::matches("a/c", "a//c"));
    assert!(mqtt_topics::topic::matches("a/b/", "a/b/+"));
    assert!(!mqtt_topics::topic::matches("a/b", "a/b/"));
}
