//! Pairing a loop-open tag with the loop-close tag that ends its body.
//!
//! The text after a loop-open tag is read as a sequence of loop tags. The tag
//! that closes the loop is the first loop-close tag at which every loop opened
//! after the start has been closed already.

use vstd::prelude::*;
use crate::pattern::{first_tag, lemma_next_tag, next_tag, Tag, TagSpan};

verus! {

/// The loop tags of `s` from position `from` on, in the order of the text.
/// Each tag is looked for where the one before it ended.
pub open spec fn tags_from(s: Seq<char>, from: int) -> Seq<TagSpan>
    decreases s.len() - from,
{
    match next_tag(s, from) {
        Some(t) => if from < t.end <= s.len() {
            seq![t] + tags_from(s, t.end)
        } else {
            seq![t]
        },
        None => Seq::empty(),
    }
}

/// The index of the tag that closes the loop in which the tag at index `k`
/// stands, when `depth` loops opened inside that loop are still open there.
pub open spec fn match_at(tags: Seq<TagSpan>, k: int, depth: nat) -> Option<int>
    decreases tags.len() - k,
{
    if k < 0 || k >= tags.len() {
        None
    } else if tags[k].opening {
        match_at(tags, k + 1, depth + 1)
    } else if depth == 0 {
        Some(k)
    } else {
        match_at(tags, k + 1, (depth - 1) as nat)
    }
}

/// The tag that closes a loop whose body starts at the start of `s`.
pub open spec fn closing_tag(s: Seq<char>) -> Option<TagSpan> {
    let tags = tags_from(s, 0);
    match match_at(tags, 0, 0) {
        Some(k) => Some(tags[k]),
        None => None,
    }
}

/// The number of loops that the first `k` tags leave open: the loop-open tags
/// among them minus the loop-close tags.
pub open spec fn depth_after(tags: Seq<TagSpan>, k: int) -> int
    decreases k,
{
    if k <= 0 {
        0
    } else {
        depth_after(tags, k - 1) + if tags[k - 1].opening {
            1int
        } else {
            -1int
        }
    }
}

/// Whether the first `j` tags are balanced: they close every loop they open,
/// and never close one that they did not open.
pub open spec fn balanced(tags: Seq<TagSpan>, j: int) -> bool {
    &&& depth_after(tags, j) == 0
    &&& forall|i: int| 0 <= i <= j ==> depth_after(tags, i) >= 0
}

/// A match is a loop-close tag at or after the index where the search starts.
pub proof fn lemma_match_bounds(tags: Seq<TagSpan>, k: int, depth: nat)
    requires
        0 <= k,
    ensures
        match_at(tags, k, depth) matches Some(r) ==> k <= r < tags.len() && !tags[r].opening,
    decreases tags.len() - k,
{
    if k < tags.len() {
        if tags[k].opening {
            lemma_match_bounds(tags, k + 1, depth + 1);
        } else if depth > 0 {
            lemma_match_bounds(tags, k + 1, (depth - 1) as nat);
        }
    }
}

/// The search from index `k` at depth `d` ends at index `j` exactly if `j`
/// holds a loop-close tag, the tags from `k` up to `j` take the depth from `d`
/// to zero, and the depth is not below zero anywhere on the way.
pub proof fn lemma_match_from(tags: Seq<TagSpan>, k: int, d: nat, j: int)
    requires
        0 <= k <= j < tags.len(),
    ensures
        match_at(tags, k, d) == Some(j) <==> {
            &&& !tags[j].opening
            &&& d + depth_after(tags, j) - depth_after(tags, k) == 0
            &&& forall|i: int| k <= i <= j ==> d + depth_after(tags, i) - depth_after(tags, k) >= 0
        },
    decreases j - k,
{
    if k == j {
        if tags[j].opening {
            lemma_match_bounds(tags, j + 1, d + 1);
        } else if d > 0 {
            lemma_match_bounds(tags, j + 1, (d - 1) as nat);
        }
    } else {
        assert(depth_after(tags, k + 1) == depth_after(tags, k) + if tags[k].opening {
            1int
        } else {
            -1int
        });
        if tags[k].opening {
            lemma_match_from(tags, k + 1, d + 1, j);
        } else if d > 0 {
            lemma_match_from(tags, k + 1, (d - 1) as nat, j);
        } else {
            assert(d + depth_after(tags, k + 1) - depth_after(tags, k) < 0);
        }
    }
}

/// Nesting: the tag that closes a loop is the loop-close tag before which the
/// tags of the body are balanced. It is never the close of a loop that was
/// opened inside the body, for at such a tag the body's tags leave a loop
/// open, and never a later one, for before a later one the depth falls below
/// zero. This holds at any depth of nesting and for any number of loops side
/// by side.
pub proof fn lemma_closing_tag_balances(s: Seq<char>, j: int)
    requires
        0 <= j < tags_from(s, 0).len(),
    ensures
        match_at(tags_from(s, 0), 0, 0) == Some(j) <==> !tags_from(s, 0)[j].opening && balanced(
            tags_from(s, 0),
            j,
        ),
{
    lemma_match_from(tags_from(s, 0), 0, 0, j);
}

/// The tags of a text lie within it, one after the other.
pub proof fn lemma_tags_from(s: Seq<char>, from: int)
    requires
        0 <= from,
    ensures
        forall|i: int|
            0 <= i < tags_from(s, from).len() ==> from < (#[trigger] tags_from(s, from)[i]).end
                <= s.len() && 0 <= tags_from(s, from)[i].start < tags_from(s, from)[i].end,
    decreases s.len() - from,
{
    match next_tag(s, from) {
        Some(t) => {
            lemma_next_tag(s, from);
            lemma_tags_from(s, t.end);
            assert forall|i: int| 0 <= i < tags_from(s, from).len() implies from < (
            #[trigger] tags_from(s, from)[i]).end <= s.len() && 0 <= tags_from(s, from)[i].start
                < tags_from(s, from)[i].end by {
                if i > 0 {
                    assert(tags_from(s, from)[i] == tags_from(s, t.end)[i - 1]);
                }
            }
        },
        None => {},
    }
}

/// The tag that closes a loop lies within the text.
pub proof fn lemma_closing_tag(s: Seq<char>)
    requires
        closing_tag(s) is Some,
    ensures
        0 <= closing_tag(s)->0.start < closing_tag(s)->0.end <= s.len(),
        !closing_tag(s)->0.opening,
{
    lemma_match_bounds(tags_from(s, 0), 0, 0);
    lemma_tags_from(s, 0);
}

/// Finds the tag that closes a loop whose body starts at the start of `s`.
pub fn find_close(s: &[char]) -> (r: Option<Tag>)
    ensures
        match r {
            Some(t) => closing_tag(s@) == Some(t@),
            None => closing_tag(s@) is None,
        },
{
    let n = s.len();
    let mut pos: usize = 0;
    let mut depth: usize = 0;
    let ghost tags = tags_from(s@, 0);
    let ghost mut k: int = 0;
    loop
        invariant
            n == s@.len(),
            tags == tags_from(s@, 0),
            0 <= k <= tags.len(),
            depth <= pos <= n,
            tags_from(s@, pos as int) == tags.subrange(k, tags.len() as int),
            match_at(tags, k, depth as nat) == match_at(tags, 0, 0),
        decreases n - pos,
    {
        match first_tag(s, pos) {
            None => {
                return None;
            },
            Some(t) => {
                proof {
                    lemma_next_tag(s@, pos as int);
                    let rest = tags.subrange(k, tags.len() as int);
                    assert(rest == seq![t@] + tags_from(s@, t.end as int));
                    assert(rest[0] == t@);
                    assert(tags[k] == t@);
                    assert(tags_from(s@, t.end as int) =~= tags.subrange(k + 1, tags.len() as int))
                        by {
                        assert(rest.subrange(1, rest.len() as int) =~= tags_from(
                            s@,
                            t.end as int,
                        ));
                    }
                }
                if t.opening {
                    depth += 1;
                } else if depth == 0 {
                    return Some(t);
                } else {
                    depth -= 1;
                }
                pos = t.end;
                proof {
                    k = k + 1;
                }
            },
        }
    }
}

} // verus!
