//! The four operations over topic names and topic filters.

use crate::levels::{contains_byte, level_views, split_bytes, split_levels};
use vstd::prelude::*;
use vstd::string::StringSliceAdditionalSpecFns;

verus! {

/// The reason a candidate topic name was rejected.
#[derive(Debug, Clone, Copy, PartialEq, Eq, Structural)]
pub enum InvalidTopicError {
    /// The name is the empty string.
    EmptyTopic,
    /// The name contains the null byte (U+0000).
    ContainsNull,
    /// The name contains a wildcard marker, `+` or `#`.
    ContainsWildCards,
    /// The UTF-8 encoding of the name is longer than 65535 bytes.
    TooLong,
}

/// The `+` byte, the single-level wildcard marker.
pub const SINGLE_WILDCARD: u8 = 43;

/// The `#` byte, the multi-level wildcard marker.
pub const MULTI_WILDCARD: u8 = 35;

/// The `$` byte, which introduces a system-reserved topic.
pub const DOLLAR: u8 = 36;

/// The null byte, the UTF-8 encoding of U+0000.
pub const NULL: u8 = 0;

/// The greatest UTF-8 byte length a topic name or filter may have.
pub const MAX_TOPIC_LEN: usize = 65535;

/// Whether the byte string holds a wildcard marker, `+` or `#`.
pub open spec fn spec_has_wildcards(s: Seq<u8>) -> bool {
    s.contains(SINGLE_WILDCARD) || s.contains(MULTI_WILDCARD)
}

/// Reports whether a topic name or filter contains a wildcard marker
/// (`+` or `#`) anywhere. No validation is performed.
pub fn has_wildcards(s: &str) -> (found: bool)
    ensures
        found == spec_has_wildcards(s.spec_bytes()),
{
    let bytes = s.as_bytes();
    if contains_byte(bytes, SINGLE_WILDCARD) {
        true
    } else {
        contains_byte(bytes, MULTI_WILDCARD)
    }
}

/// The outcome of validating the byte string `t` as a topic name. The checks
/// stand in a fixed order — wildcards, emptiness, null byte, length — and the
/// first violated one names the reason.
pub open spec fn spec_valid_topic(t: Seq<u8>) -> Result<(), InvalidTopicError> {
    if t.contains(SINGLE_WILDCARD) || t.contains(MULTI_WILDCARD) {
        Err(InvalidTopicError::ContainsWildCards)
    } else if t.len() == 0 {
        Err(InvalidTopicError::EmptyTopic)
    } else if t.contains(NULL) {
        Err(InvalidTopicError::ContainsNull)
    } else if t.len() > MAX_TOPIC_LEN {
        Err(InvalidTopicError::TooLong)
    } else {
        Ok(())
    }
}

/// Validates a concrete topic name: no wildcard marker, non-empty, no null
/// byte, and a UTF-8 encoding of at most 65535 bytes. On rejection the
/// returned reason is the first violated rule, in that fixed order.
pub fn valid_topic(topic: &str) -> (result: Result<(), InvalidTopicError>)
    ensures
        result == spec_valid_topic(topic.spec_bytes()),
{
    let bytes = topic.as_bytes();
    if contains_byte(bytes, SINGLE_WILDCARD) {
        return Err(InvalidTopicError::ContainsWildCards);
    }
    if contains_byte(bytes, MULTI_WILDCARD) {
        return Err(InvalidTopicError::ContainsWildCards);
    }
    if bytes.len() == 0 {
        return Err(InvalidTopicError::EmptyTopic);
    }
    if contains_byte(bytes, NULL) {
        return Err(InvalidTopicError::ContainsNull);
    }
    if bytes.len() > MAX_TOPIC_LEN {
        return Err(InvalidTopicError::TooLong);
    }
    Ok(())
}

/// Whether a level standing before the last one is legal in a filter: it
/// must not contain `#` at all, and if it contains `+` the wildcard must
/// occupy the whole level (so the level's length is exactly 1).
pub open spec fn valid_inner_level(level: Seq<u8>) -> bool {
    &&& !level.contains(MULTI_WILDCARD)
    &&& !(level.len() > 1 && level.contains(SINGLE_WILDCARD))
}

/// Whether the last level of a filter is legal: a level longer or shorter
/// than one byte must not contain a wildcard marker anywhere, while a level
/// that is exactly `#`, exactly `+`, or any single literal byte is allowed.
pub open spec fn valid_last_level(level: Seq<u8>) -> bool {
    !(level.len() != 1 && (level.contains(MULTI_WILDCARD) || level.contains(
        SINGLE_WILDCARD,
    )))
}

/// Whether the byte string `f` is a well-formed topic filter: non-empty,
/// every level before the last a legal inner level, and the last level legal
/// as a last level.
pub open spec fn spec_valid_filter(f: Seq<u8>) -> bool {
    &&& f.len() > 0
    &&& {
        let levels = split_levels(f);
        &&& forall|i: int|
            0 <= i < levels.len() - 1 ==> valid_inner_level(#[trigger] levels[i])
        &&& valid_last_level(levels[levels.len() - 1])
    }
}

/// Validates a topic filter. A filter is accepted exactly when it is
/// non-empty, `#` appears only as the whole last level, and `+` only as a
/// whole level of its own.
pub fn valid_filter(filter: &str) -> (accepted: bool)
    ensures
        accepted == spec_valid_filter(filter.spec_bytes()),
{
    let bytes = filter.as_bytes();
    if bytes.len() == 0 {
        return false;
    }
    let segs = split_bytes(bytes);
    let ghost fv = split_levels(filter.spec_bytes());
    let n = segs.len();
    let mut i: usize = 0;
    while i < n - 1
        invariant
            level_views(segs@) == fv,
            n == segs@.len(),
            1 <= n,
            i <= n - 1,
            fv.len() == n,
            fv == split_levels(filter.spec_bytes()),
            filter.spec_bytes().len() > 0,
            forall|j: int| 0 <= j < i ==> valid_inner_level(#[trigger] fv[j]),
        decreases n - 1 - i,
    {
        let seg = &segs[i];
        if contains_byte(seg.as_slice(), MULTI_WILDCARD) {
            assert(!valid_inner_level(fv[i as int]));
            return false;
        }
        if seg.len() > 1 && contains_byte(seg.as_slice(), SINGLE_WILDCARD) {
            assert(!valid_inner_level(fv[i as int]));
            return false;
        }
        i += 1;
    }
    let last = &segs[n - 1];
    if last.len() != 1 && (contains_byte(last.as_slice(), MULTI_WILDCARD)
        || contains_byte(last.as_slice(), SINGLE_WILDCARD)) {
        assert(!valid_last_level(fv[n - 1]));
        return false;
    }
    true
}

/// Whether a level is exactly the multi-level wildcard `#`.
pub open spec fn is_multi_wildcard(level: Seq<u8>) -> bool {
    level.len() == 1 && level[0] == MULTI_WILDCARD
}

/// Whether a level is exactly the single-level wildcard `+`.
pub open spec fn is_single_wildcard(level: Seq<u8>) -> bool {
    level.len() == 1 && level[0] == SINGLE_WILDCARD
}

/// Whether the subject levels are covered by the pattern levels, walking
/// both in order. A pattern level `#` covers all remaining subject levels; a
/// subject level `#` is covered by nothing but `#`; a pattern level `+`
/// covers exactly one subject level of any content; any other pattern level
/// covers exactly one equal subject level.
pub open spec fn levels_match(subject: Seq<Seq<u8>>, pattern: Seq<Seq<u8>>) -> bool
    decreases pattern.len(),
{
    if pattern.len() == 0 {
        subject.len() == 0
    } else if is_multi_wildcard(pattern[0]) {
        true
    } else if subject.len() == 0 {
        false
    } else if is_multi_wildcard(subject[0]) {
        false
    } else if is_single_wildcard(pattern[0]) || pattern[0] == subject[0] {
        levels_match(subject.skip(1), pattern.skip(1))
    } else {
        false
    }
}

/// Whether the byte string `subject` is covered by the byte string
/// `pattern`. A subject whose first byte is `$` (a system-reserved topic) is
/// covered by no pattern at all; otherwise both are split into levels and
/// walked by `levels_match`.
pub open spec fn spec_matches(subject: Seq<u8>, pattern: Seq<u8>) -> bool {
    if subject.len() > 0 && subject[0] == DOLLAR {
        false
    } else {
        levels_match(split_levels(subject), split_levels(pattern))
    }
}

/// Whether the two level buffers hold the same bytes.
fn level_eq(a: &Vec<u8>, b: &Vec<u8>) -> (equal: bool)
    ensures
        equal == (a@ == b@),
{
    if a.len() != b.len() {
        return false;
    }
    let mut i: usize = 0;
    while i < a.len()
        invariant
            a@.len() == b@.len(),
            i <= a@.len(),
            forall|j: int| 0 <= j < i ==> a@[j] == b@[j],
        decreases a@.len() - i,
    {
        if a[i] != b[i] {
            return false;
        }
        i += 1;
    }
    proof {
        assert(a@ =~= b@);
    }
    true
}

/// Whether the level buffer is exactly the one-byte level `marker`.
fn level_is_marker(level: &Vec<u8>, marker: u8) -> (found: bool)
    ensures
        found == (level@.len() == 1 && level@[0] == marker),
{
    level.len() == 1 && level[0] == marker
}

/// Decides whether `topic` is covered by the pattern `filter`. Neither
/// argument is validated here; that is the caller's duty. The subject may
/// itself be a filter, in which case the call decides whether `filter`
/// subsumes it. A subject whose first byte is `$` matches no pattern.
pub fn matches(topic: &str, filter: &str) -> (covered: bool)
    ensures
        covered == spec_matches(topic.spec_bytes(), filter.spec_bytes()),
{
    let t = topic.as_bytes();
    let f = filter.as_bytes();
    if t.len() > 0 && t[0] == DOLLAR {
        return false;
    }
    let tsegs = split_bytes(t);
    let fsegs = split_bytes(f);
    let ghost tv = split_levels(topic.spec_bytes());
    let ghost fv = split_levels(filter.spec_bytes());
    proof {
        assert(tv.skip(0) =~= tv);
        assert(fv.skip(0) =~= fv);
    }
    let mut i: usize = 0;
    while i < fsegs.len()
        invariant
            level_views(tsegs@) == tv,
            level_views(fsegs@) == fv,
            tv.len() == tsegs@.len(),
            fv.len() == fsegs@.len(),
            i <= fsegs@.len(),
            i <= tsegs@.len(),
            tv == split_levels(topic.spec_bytes()),
            fv == split_levels(filter.spec_bytes()),
            !(topic.spec_bytes().len() > 0 && topic.spec_bytes()[0] == DOLLAR),
            levels_match(tv, fv) == levels_match(tv.skip(i as int), fv.skip(i as int)),
        decreases fsegs@.len() - i,
    {
        proof {
            assert(fv.skip(i as int)[0] == fv[i as int]);
        }
        let fseg = &fsegs[i];
        if level_is_marker(fseg, MULTI_WILDCARD) {
            return true;
        }
        if i == tsegs.len() {
            return false;
        }
        proof {
            assert(tv.skip(i as int)[0] == tv[i as int]);
        }
        let tseg = &tsegs[i];
        if level_is_marker(tseg, MULTI_WILDCARD) {
            return false;
        }
        if level_is_marker(fseg, SINGLE_WILDCARD) || level_eq(fseg, tseg) {
            proof {
                assert(tv.skip(i as int).skip(1) =~= tv.skip(i as int + 1));
                assert(fv.skip(i as int).skip(1) =~= fv.skip(i as int + 1));
            }
            i += 1;
        } else {
            return false;
        }
    }
    proof {
        assert(fv.skip(i as int).len() == 0);
    }
    i == tsegs.len()
}

/// Law: the rejection reasons of topic-name validation, characterized
/// exactly. `EmptyTopic` is reported iff the name is empty;
/// `ContainsWildCards` iff the name holds `+` or `#`; `ContainsNull` iff the
/// name holds the null byte but no wildcard marker; `TooLong` iff the name
/// is longer than 65535 bytes and none of the earlier conditions hold; and
/// the name is accepted iff it breaks none of the four rules.
pub proof fn lemma_topic_rejection_reasons(t: Seq<u8>)
    ensures
        (spec_valid_topic(t) == Err::<(), InvalidTopicError>(InvalidTopicError::EmptyTopic))
            <==> t.len() == 0,
        (spec_valid_topic(t) == Err::<(), InvalidTopicError>(
            InvalidTopicError::ContainsWildCards,
        )) <==> (t.contains(SINGLE_WILDCARD) || t.contains(MULTI_WILDCARD)),
        (spec_valid_topic(t) == Err::<(), InvalidTopicError>(InvalidTopicError::ContainsNull))
            <==> (t.contains(NULL) && !t.contains(SINGLE_WILDCARD) && !t.contains(
            MULTI_WILDCARD,
        )),
        (spec_valid_topic(t) == Err::<(), InvalidTopicError>(InvalidTopicError::TooLong)) <==> (
        t.len() > MAX_TOPIC_LEN && !t.contains(SINGLE_WILDCARD) && !t.contains(MULTI_WILDCARD)
            && !t.contains(NULL)),
        (spec_valid_topic(t) == Ok::<(), InvalidTopicError>(())) <==> (0 < t.len()
            <= MAX_TOPIC_LEN && !t.contains(SINGLE_WILDCARD) && !t.contains(MULTI_WILDCARD)
            && !t.contains(NULL)),
{
}

/// Law: validation and wildcard detection carry no hidden state. Their
/// outcome is a function of the input text alone, so validating the same
/// text a second time yields the same result again.
pub proof fn lemma_validation_deterministic(a: Seq<u8>, b: Seq<u8>)
    requires
        a == b,
    ensures
        spec_valid_topic(a) == spec_valid_topic(b),
        spec_valid_filter(a) == spec_valid_filter(b),
        spec_has_wildcards(a) == spec_has_wildcards(b),
{
}

} // verus!
