//! Dotted field paths.
//!
//! Stages address the document's trees by strings such as `"SwiftMT.20"` or
//! `"results.0"`.  A `FieldPath` is the validated form: the segments between
//! the dots, in order.

use vstd::prelude::*;

verus! {

/// The index of the first `'.'` in `s`, or `s.len()` if there is none.
pub open spec fn first_dot(s: Seq<char>) -> int
    decreases s.len(),
{
    if s.len() == 0 {
        0
    } else if s[0] == '.' {
        0
    } else {
        1 + first_dot(s.skip(1))
    }
}

/// Where the first dot is known, `first_dot` returns it.
pub proof fn lemma_first_dot_at(s: Seq<char>, i: int)
    requires
        0 <= i <= s.len(),
        forall|m: int| 0 <= m < i ==> #[trigger] s[m] != '.',
        i == s.len() || s[i] == '.',
    ensures
        first_dot(s) == i,
    decreases i,
{
    if s.len() == 0 {
    } else if i == 0 {
    } else {
        assert(s[0] != '.');
        assert forall|m: int| 0 <= m < i - 1 implies #[trigger] s.skip(1)[m] != '.' by {
            assert(s.skip(1)[m] == s[m + 1]);
        }
        if i < s.len() {
            assert(s.skip(1)[i - 1] == s[i]);
        }
        lemma_first_dot_at(s.skip(1), i - 1);
    }
}

/// The segments of a dotted path, in order.  A string without a dot is one
/// segment; each dot ends a segment, so `"a..b"` has an empty middle segment.
pub open spec fn split_dots(s: Seq<char>) -> Seq<Seq<char>>
    decreases s.len(),
{
    let i = first_dot(s);
    if i == s.len() {
        seq![s]
    } else if 0 <= i < s.len() {
        seq![s.take(i)] + split_dots(s.skip(i + 1))
    } else {
        seq![s]
    }
}

/// A name without a dot is one single segment.
pub proof fn lemma_split_dots_plain(s: Seq<char>)
    requires
        forall|m: int| 0 <= m < s.len() ==> #[trigger] s[m] != '.',
    ensures
        split_dots(s) == seq![s],
{
    lemma_first_dot_at(s, s.len() as int);
}

/// A parsed dotted path: its segments in order, none holding a dot.
pub struct FieldPath {
    pub segs: Vec<String>,
}

impl View for FieldPath {
    type V = Seq<Seq<char>>;

    open spec fn view(&self) -> Seq<Seq<char>> {
        Seq::new(self.segs@.len(), |i: int| self.segs@[i]@)
    }
}

impl FieldPath {
    /// Split a dotted path string into its segments.
    pub fn parse(s: &str) -> (r: FieldPath)
        ensures
            r@ == split_dots(s@),
    {
        let n = s.unicode_len();
        let mut segs: Vec<String> = Vec::new();
        let mut start: usize = 0;
        let mut i: usize = 0;
        proof {
            assert(s@.skip(0) =~= s@);
        }
        loop
            invariant_except_break
                split_dots(s@) == Seq::new(segs@.len(), |j: int| segs@[j]@) + split_dots(
                    s@.skip(start as int),
                ),
            invariant
                0 <= start <= i <= n,
                n == s@.len(),
                forall|m: int| start <= m < i ==> #[trigger] s@[m] != '.',
            ensures
                Seq::new(segs@.len(), |j: int| segs@[j]@) == split_dots(s@),
            decreases n - i,
        {
            if i == n {
                let seg = s.substring_char(start, n).to_owned();
                segs.push(seg);
                proof {
                    let tail = s@.skip(start as int);
                    lemma_first_dot_at(tail, tail.len() as int);
                    assert(split_dots(tail) =~= seq![tail]);
                    assert(tail =~= s@.subrange(start as int, n as int));
                    assert(Seq::new(segs@.len(), |j: int| segs@[j]@) =~= Seq::new(
                        (segs@.len() - 1) as nat,
                        |j: int| segs@[j]@,
                    ) + seq![tail]);
                }
                break;
            }
            let c = s.get_char(i);
            if c == '.' {
                let seg = s.substring_char(start, i).to_owned();
                segs.push(seg);
                proof {
                    let tail = s@.skip(start as int);
                    assert forall|m: int| 0 <= m < i - start implies #[trigger] tail[m] != '.' by {
                        assert(tail[m] == s@[start + m]);
                    }
                    assert(tail[i - start] == s@[i as int]);
                    lemma_first_dot_at(tail, i - start);
                    assert(tail.take(i - start) =~= s@.subrange(start as int, i as int));
                    assert(tail.skip(i - start + 1) =~= s@.skip(i + 1));
                    assert(split_dots(tail) == seq![s@.subrange(start as int, i as int)]
                        + split_dots(s@.skip(i + 1)));
                    assert(Seq::new(segs@.len(), |j: int| segs@[j]@) =~= Seq::new(
                        (segs@.len() - 1) as nat,
                        |j: int| segs@[j]@,
                    ) + seq![s@.subrange(start as int, i as int)]);
                }
                start = i + 1;
                i = i + 1;
            } else {
                i = i + 1;
            }
        }
        FieldPath { segs }
    }
}

} // verus!
