//! Small text operations the stages rely on: undoing escaped newlines in a
//! raw payload, printing an index in decimal, and substring containment for
//! stating what an error message names.

use vstd::prelude::*;

verus! {

/// `s` with every `\` `n` pair replaced by a newline character.
pub open spec fn unescaped(s: Seq<char>) -> Seq<char>
    decreases s.len(),
{
    if s.len() == 0 {
        Seq::empty()
    } else if s.len() >= 2 && s[0] == '\\' && s[1] == 'n' {
        seq!['\n'] + unescaped(s.skip(2))
    } else {
        seq![s[0]] + unescaped(s.skip(1))
    }
}

/// Replace every literal backslash-n pair by a newline, as a payload carried
/// inside a JSON string writes line breaks.
#[verifier::loop_isolation(false)]
pub fn unescape_newlines(s: &str) -> (r: String)
    ensures
        r@ == unescaped(s@),
{
    let n = s.unicode_len();
    let mut out = String::new();
    let mut i: usize = 0;
    proof {
        assert(s@.skip(0) =~= s@);
        assert(out@ + unescaped(s@.skip(0)) =~= unescaped(s@));
    }
    while i < n
        invariant
            0 <= i <= n,
            n == s@.len(),
            out@ + unescaped(s@.skip(i as int)) == unescaped(s@),
        decreases n - i,
    {
        let c = s.get_char(i);
        if c == '\\' && i + 1 < n && s.get_char(i + 1) == 'n' {
            out.append("\n");
            proof {
                reveal_strlit("\n");
                assert(s@.skip(i as int)[0] == '\\' && s@.skip(i as int)[1] == 'n');
                assert(s@.skip(i as int).skip(2) =~= s@.skip(i + 2));
                assert(out@ + unescaped(s@.skip(i + 2)) =~= unescaped(s@));
            }
            i = i + 2;
        } else {
            let piece = s.substring_char(i, i + 1);
            out.append(piece);
            proof {
                assert(s@.skip(i as int)[0] == s@[i as int]);
                assert(s@.skip(i as int).skip(1) =~= s@.skip(i + 1));
                assert(piece@ =~= seq![s@[i as int]]);
                assert(out@ + unescaped(s@.skip(i + 1)) =~= unescaped(s@));
            }
            i = i + 1;
        }
    }
    proof {
        assert(s@.skip(n as int) =~= Seq::<char>::empty());
        assert(out@ =~= unescaped(s@));
    }
    out
}

/// The decimal digit character for `d`.
pub open spec fn digit_char(d: nat) -> char {
    if d == 0 {
        '0'
    } else if d == 1 {
        '1'
    } else if d == 2 {
        '2'
    } else if d == 3 {
        '3'
    } else if d == 4 {
        '4'
    } else if d == 5 {
        '5'
    } else if d == 6 {
        '6'
    } else if d == 7 {
        '7'
    } else if d == 8 {
        '8'
    } else {
        '9'
    }
}

/// The decimal text of `n`, most significant digit first.
pub open spec fn dec_str(n: nat) -> Seq<char>
    decreases n,
{
    if n < 10 {
        seq![digit_char(n)]
    } else {
        dec_str(n / 10).push(digit_char(n % 10))
    }
}

fn digit_str(d: usize) -> (r: &'static str)
    requires
        d < 10,
    ensures
        r@ == seq![digit_char(d as nat)],
{
    proof {
        reveal_strlit("0");
        reveal_strlit("1");
        reveal_strlit("2");
        reveal_strlit("3");
        reveal_strlit("4");
        reveal_strlit("5");
        reveal_strlit("6");
        reveal_strlit("7");
        reveal_strlit("8");
        reveal_strlit("9");
    }
    match d {
        0 => "0",
        1 => "1",
        2 => "2",
        3 => "3",
        4 => "4",
        5 => "5",
        6 => "6",
        7 => "7",
        8 => "8",
        _ => "9",
    }
}

/// Print an index in decimal.
pub fn usize_to_string(n: usize) -> (r: String)
    ensures
        r@ == dec_str(n as nat),
    decreases n,
{
    let d = n % 10;
    let q = n / 10;
    let ds = digit_str(d);
    if n < 10 {
        proof {
            assert(n % 10 == n) by (nonlinear_arith)
                requires
                    0 <= n < 10,
            ;
        }
        ds.to_owned()
    } else {
        proof {
            assert(n / 10 < n && n / 10 >= 1) by (nonlinear_arith)
                requires
                    n >= 10,
            ;
        }
        let mut s = usize_to_string(q);
        s.append(ds);
        proof {
            assert(s@ =~= dec_str(n as nat));
        }
        s
    }
}

/// `needle` occurs inside `hay` as a contiguous run.
pub open spec fn contains_seq(hay: Seq<char>, needle: Seq<char>) -> bool {
    exists|k: int|
        0 <= k && k + needle.len() <= hay.len() && #[trigger] hay.subrange(k, k + needle.len())
            == needle
}

/// `needle` stands in `hay` exactly at position `k`.
pub open spec fn occurs_at(hay: Seq<char>, needle: Seq<char>, k: int) -> bool {
    0 <= k && k + needle.len() <= hay.len() && hay.subrange(k, k + needle.len()) == needle
}

/// Extending a text on the right leaves every occurrence where it stands.
pub proof fn lemma_occurs_extend_right(hay: Seq<char>, more: Seq<char>, needle: Seq<char>, k: int)
    requires
        occurs_at(hay, needle, k),
    ensures
        occurs_at(hay + more, needle, k),
{
    assert((hay + more).subrange(k, k + needle.len()) =~= hay.subrange(k, k + needle.len()));
}

/// An occurrence in the appended part stands after the whole old text.
pub proof fn lemma_occurs_in_suffix(hay: Seq<char>, more: Seq<char>, needle: Seq<char>, k: int)
    requires
        occurs_at(more, needle, k),
    ensures
        occurs_at(hay + more, needle, hay.len() + k),
{
    assert((hay + more).subrange(hay.len() + k, hay.len() + k + needle.len()) =~= more.subrange(
        k,
        k + needle.len(),
    ));
}

/// Extending a text on either side keeps everything it contains.
pub proof fn lemma_contains_extend(a: Seq<char>, b: Seq<char>, needle: Seq<char>)
    requires
        contains_seq(a, needle) || contains_seq(b, needle),
    ensures
        contains_seq(a + b, needle),
{
    if contains_seq(a, needle) {
        let k = choose|k: int|
            0 <= k && k + needle.len() <= a.len() && #[trigger] a.subrange(k, k + needle.len())
                == needle;
        assert((a + b).subrange(k, k + needle.len()) =~= a.subrange(k, k + needle.len()));
    } else {
        let k = choose|k: int|
            0 <= k && k + needle.len() <= b.len() && #[trigger] b.subrange(k, k + needle.len())
                == needle;
        assert((a + b).subrange(a.len() + k, a.len() + k + needle.len()) =~= b.subrange(
            k,
            k + needle.len(),
        ));
    }
}

/// A text contains itself.
pub proof fn lemma_contains_self(s: Seq<char>)
    ensures
        contains_seq(s, s),
{
    assert(s.subrange(0, 0 + s.len() as int) =~= s);
}

} // verus!
