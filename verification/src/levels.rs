//! Splitting a topic or filter into its levels.
//!
//! A text value is segmented on the `/` byte: the levels are the (possibly
//! empty) byte runs between consecutive separators. `split_levels` is the
//! mathematical model of that segmentation; `split_bytes` computes it.

use vstd::prelude::*;

verus! {

/// The `/` byte, which separates the levels of a topic or filter.
pub const SEPARATOR: u8 = 47;

/// The levels of `s`, split on the `/` byte. Every byte string has at least
/// one level; an empty string has exactly one, the empty level.
pub open spec fn split_levels(s: Seq<u8>) -> Seq<Seq<u8>>
    decreases s.len(),
{
    if s.len() == 0 {
        seq![Seq::<u8>::empty()]
    } else if s.last() == SEPARATOR {
        split_levels(s.drop_last()).push(Seq::<u8>::empty())
    } else {
        let prefix = split_levels(s.drop_last());
        prefix.drop_last().push(prefix.last().push(s.last()))
    }
}

/// The byte contents of a sequence of level buffers.
pub open spec fn level_views(segs: Seq<Vec<u8>>) -> Seq<Seq<u8>> {
    segs.map_values(|v: Vec<u8>| v@)
}

/// Whether `s` contains the byte `target`.
pub fn contains_byte(s: &[u8], target: u8) -> (found: bool)
    ensures
        found == s@.contains(target),
{
    let mut i: usize = 0;
    while i < s.len()
        invariant
            i <= s@.len(),
            forall|j: int| 0 <= j < i ==> s@[j] != target,
        decreases s@.len() - i,
    {
        if s[i] == target {
            assert(s@.contains(target)) by {
                assert(s@[i as int] == target);
            }
            return true;
        }
        i += 1;
    }
    false
}

/// Splits `s` into its levels; the result holds exactly `split_levels(s@)`.
pub fn split_bytes(s: &[u8]) -> (segs: Vec<Vec<u8>>)
    ensures
        level_views(segs@) == split_levels(s@),
        segs@.len() >= 1,
{
    let mut done: Vec<Vec<u8>> = Vec::new();
    let mut cur: Vec<u8> = Vec::new();
    let mut i: usize = 0;
    while i < s.len()
        invariant
            i <= s@.len(),
            level_views(done@).push(cur@) == split_levels(s@.take(i as int)),
        decreases s@.len() - i,
    {
        let ghost done0 = done@;
        let ghost cur0 = cur@;
        proof {
            assert(s@.take(i as int + 1).drop_last() =~= s@.take(i as int));
            assert(s@.take(i as int + 1).last() == s@[i as int]);
        }
        if s[i] == SEPARATOR {
            done.push(cur);
            cur = Vec::new();
            proof {
                assert(level_views(done@) =~~= level_views(done0).push(cur0));
                assert(level_views(done@).push(cur@) =~~= split_levels(
                    s@.take(i as int + 1),
                ));
            }
        } else {
            let ghost full = split_levels(s@.take(i as int));
            cur.push(s[i]);
            proof {
                assert(full.drop_last() =~~= level_views(done0));
                assert(full.last() == cur0);
                assert(level_views(done@).push(cur@) =~~= split_levels(
                    s@.take(i as int + 1),
                ));
            }
        }
        i += 1;
    }
    proof {
        assert(s@.take(s@.len() as int) =~= s@);
    }
    let ghost done1 = done@;
    let ghost cur1 = cur@;
    done.push(cur);
    proof {
        assert(level_views(done@) =~~= level_views(done1).push(cur1));
    }
    done
}

} // verus!
