//! Character-level string utilities.
//!
//! The security policy and the output-capture bounds are defined over
//! sequences of characters. This module provides the spec-level vocabulary
//! (substring occurrence, lowercasing, blankness, splitting) and the exec
//! functions that compute it.

use vstd::prelude::*;

verus! {

/// `n` occurs in `h` starting at position `i`.
pub open spec fn spec_contains_at(h: Seq<char>, n: Seq<char>, i: int) -> bool {
    &&& 0 <= i
    &&& i + n.len() <= h.len()
    &&& h.subrange(i, i + n.len()) == n
}

/// `n` occurs somewhere in `h`.
pub open spec fn spec_contains(h: Seq<char>, n: Seq<char>) -> bool {
    exists|i: int| spec_contains_at(h, n, i)
}

/// ASCII lowercasing of a single character; everything else is unchanged.
pub open spec fn lower_char(c: char) -> char {
    if 'A' <= c && c <= 'Z' {
        ((c as u32) + 32) as char
    } else {
        c
    }
}

/// The characters that count as whitespace when deciding whether a command
/// string is blank: the Unicode white-space code points.
pub open spec fn is_space_char(c: char) -> bool {
    ||| c == ' '
    ||| c == '\t'
    ||| c == '\n'
    ||| c == '\r'
    ||| c == '\u{b}'
    ||| c == '\u{c}'
    ||| c == '\u{85}'
    ||| c == '\u{a0}'
    ||| c == '\u{1680}'
    ||| ('\u{2000}' <= c && c <= '\u{200a}')
    ||| c == '\u{2028}'
    ||| c == '\u{2029}'
    ||| c == '\u{202f}'
    ||| c == '\u{205f}'
    ||| c == '\u{3000}'
}

/// Every character of `s` is whitespace (vacuously true of the empty string).
pub open spec fn spec_is_blank(s: Seq<char>) -> bool {
    forall|i: int| 0 <= i < s.len() ==> is_space_char(#[trigger] s[i])
}

/// The deep view of a character vector is its view.
pub proof fn lemma_chars_deep_view(v: Vec<char>)
    ensures
        v.deep_view() == v@,
{
    assert(v.deep_view() =~= v@);
}

/// Relies on `String::push`: appends exactly the one character `c`.
#[verifier::external_body]
pub fn push_char(out: &mut String, c: char)
    ensures
        final(out)@ == old(out)@.push(c),
{
    out.push(c);
}

/// The characters of `s`, as an indexable vector.
pub fn str_chars(s: &str) -> (r: Vec<char>)
    ensures
        r@ == s@,
{
    let n = s.unicode_len();
    let mut r: Vec<char> = Vec::new();
    let mut i: usize = 0;
    while i < n
        invariant
            n == s@.len(),
            i <= n,
            r@ == s@.take(i as int),
        decreases n - i,
    {
        r.push(s.get_char(i));
        i = i + 1;
        proof {
            assert(r@ =~= s@.take(i as int));
        }
    }
    proof {
        assert(s@.take(n as int) =~= s@);
    }
    r
}

/// A fresh string holding exactly the characters of `v`.
pub fn chars_to_string(v: &Vec<char>) -> (r: String)
    ensures
        r@ == v@,
{
    let mut r = String::new();
    let mut i: usize = 0;
    while i < v.len()
        invariant
            i <= v@.len(),
            r@ == v@.take(i as int),
        decreases v@.len() - i,
    {
        push_char(&mut r, v[i]);
        i = i + 1;
        proof {
            assert(r@ =~= v@.take(i as int));
        }
    }
    proof {
        assert(v@.take(v@.len() as int) =~= v@);
    }
    r
}

/// `n` occurs in `h` starting at `i`.
fn matches_at(h: &Vec<char>, n: &Vec<char>, i: usize) -> (r: bool)
    requires
        i + n@.len() <= h@.len(),
    ensures
        r == spec_contains_at(h@, n@, i as int),
{
    let hn = h.len();
    let nn = n.len();
    let mut j: usize = 0;
    while j < nn
        invariant
            hn == h@.len(),
            nn == n@.len(),
            i + n@.len() <= h@.len(),
            j <= n@.len(),
            forall|k: int| 0 <= k < j ==> h@[i + k] == n@[k],
        decreases n@.len() - j,
    {
        if h[i + j] != n[j] {
            proof {
                assert(h@.subrange(i as int, i + n@.len())[j as int] != n@[j as int]);
            }
            return false;
        }
        j = j + 1;
    }
    proof {
        assert(h@.subrange(i as int, i + n@.len()) =~= n@);
    }
    true
}

/// Whether `n` occurs anywhere in `h`.
pub fn chars_contain(h: &Vec<char>, n: &Vec<char>) -> (r: bool)
    ensures
        r == spec_contains(h@, n@),
{
    if n.len() > h.len() {
        return false;
    }
    if n.len() == 0 {
        proof {
            assert(spec_contains_at(h@, n@, 0)) by {
                assert(h@.subrange(0, 0) =~= n@);
            }
        }
        return true;
    }
    let bound: usize = h.len() - n.len();
    let mut i: usize = 0;
    while i <= bound
        invariant
            1 <= n@.len() <= h@.len(),
            bound == h@.len() - n@.len(),
            bound < usize::MAX,
            i <= bound + 1,
            forall|k: int| 0 <= k < i ==> !spec_contains_at(h@, n@, k),
        decreases bound + 1 - i,
    {
        if matches_at(h, n, i) {
            return true;
        }
        i = i + 1;
    }
    false
}

/// Whether the single character `c` occurs in `h`.
pub fn chars_contain_char(h: &Vec<char>, c: char) -> (r: bool)
    ensures
        r == h@.contains(c),
{
    let mut i: usize = 0;
    while i < h.len()
        invariant
            i <= h@.len(),
            forall|k: int| 0 <= k < i ==> h@[k] != c,
        decreases h@.len() - i,
    {
        if h[i] == c {
            return true;
        }
        i = i + 1;
    }
    false
}

/// ASCII-lowercases every character of `v`.
pub fn to_lower_chars(v: &Vec<char>) -> (r: Vec<char>)
    ensures
        r@ == v@.map_values(|c: char| lower_char(c)),
{
    let mut r: Vec<char> = Vec::new();
    let mut i: usize = 0;
    while i < v.len()
        invariant
            i <= v@.len(),
            r@ == v@.take(i as int).map_values(|c: char| lower_char(c)),
        decreases v@.len() - i,
    {
        let c = v[i];
        if c >= 'A' && c <= 'Z' {
            let lowered: char = ((c as u8) + 32) as char;
            proof {
                assert(lowered == lower_char(c));
            }
            r.push(lowered);
        } else {
            r.push(c);
        }
        i = i + 1;
        proof {
            assert(r@ =~= v@.take(i as int).map_values(|c: char| lower_char(c)));
        }
    }
    proof {
        assert(v@.take(v@.len() as int) =~= v@);
    }
    r
}

/// Whether every character of `v` is whitespace.
pub fn chars_blank(v: &Vec<char>) -> (r: bool)
    ensures
        r == spec_is_blank(v@),
{
    let mut i: usize = 0;
    while i < v.len()
        invariant
            i <= v@.len(),
            forall|k: int| 0 <= k < i ==> is_space_char(#[trigger] v@[k]),
        decreases v@.len() - i,
    {
        let c = v[i];
        let space = c == ' ' || c == '\t' || c == '\n' || c == '\r' || c == '\u{b}' || c
            == '\u{c}' || c == '\u{85}' || c == '\u{a0}' || c == '\u{1680}' || (c >= '\u{2000}' && c
            <= '\u{200a}') || c == '\u{2028}' || c == '\u{2029}' || c == '\u{202f}' || c
            == '\u{205f}' || c == '\u{3000}';
        if !space {
            return false;
        }
        i = i + 1;
    }
    true
}

/// Splitting `s` at every occurrence of `sep`. A string with `k` separators
/// yields `k + 1` pieces; the empty string yields one empty piece.
pub open spec fn spec_split(s: Seq<char>, sep: char) -> Seq<Seq<char>>
    decreases s.len(),
{
    if s.len() == 0 {
        seq![Seq::<char>::empty()]
    } else if s[0] == sep {
        seq![Seq::<char>::empty()] + spec_split(s.drop_first(), sep)
    } else {
        let rest = spec_split(s.drop_first(), sep);
        seq![seq![s[0]] + rest[0]] + rest.drop_first()
    }
}

/// A split always has at least one piece.
pub proof fn lemma_split_nonempty(s: Seq<char>, sep: char)
    ensures
        spec_split(s, sep).len() >= 1,
    decreases s.len(),
{
    if s.len() != 0 {
        lemma_split_nonempty(s.drop_first(), sep);
    }
}

/// Appending one character extends the last piece, or starts a new one when
/// the character is the separator.
pub proof fn lemma_split_push(s: Seq<char>, c: char, sep: char)
    ensures
        c == sep ==> spec_split(s.push(c), sep) == spec_split(s, sep).push(Seq::<char>::empty()),
        c != sep ==> spec_split(s.push(c), sep) == spec_split(s, sep).drop_last().push(
            spec_split(s, sep).last().push(c),
        ),
    decreases s.len(),
{
    reveal_with_fuel(spec_split, 3);
    lemma_split_nonempty(s, sep);
    if s.len() == 0 {
        assert(s.push(c) =~= seq![c]);
        assert(s.push(c).drop_first() =~= Seq::<char>::empty());
        assert(spec_split(Seq::<char>::empty(), sep) == seq![Seq::<char>::empty()]);
        if c == sep {
            assert(spec_split(s.push(c), sep) =~~= spec_split(s, sep).push(Seq::<char>::empty()));
        } else {
            assert(spec_split(s.push(c), sep) =~~= spec_split(s, sep).drop_last().push(
                spec_split(s, sep).last().push(c),
            ));
        }
    } else {
        let t = s.drop_first();
        lemma_split_nonempty(t, sep);
        lemma_split_push(t, c, sep);
        assert(s.push(c).drop_first() =~= t.push(c));
        assert(s.push(c)[0] == s[0]);
        if s[0] == sep {
            if c == sep {
                assert(spec_split(s.push(c), sep) =~~= spec_split(s, sep).push(
                    Seq::<char>::empty(),
                ));
            } else {
                assert(spec_split(s.push(c), sep) =~~= spec_split(s, sep).drop_last().push(
                    spec_split(s, sep).last().push(c),
                ));
            }
        } else {
            let rest = spec_split(t, sep);
            if c == sep {
                assert(spec_split(t.push(c), sep) == rest.push(Seq::<char>::empty()));
                assert(rest.push(Seq::<char>::empty())[0] == rest[0]);
                assert(rest.push(Seq::<char>::empty()).drop_first() =~~= rest.drop_first().push(
                    Seq::<char>::empty(),
                ));
                assert(spec_split(s.push(c), sep) =~~= spec_split(s, sep).push(
                    Seq::<char>::empty(),
                ));
            } else {
                assert(spec_split(t.push(c), sep) == rest.drop_last().push(rest.last().push(c)));
                if rest.len() == 1 {
                    assert(spec_split(s.push(c), sep) =~~= spec_split(s, sep).drop_last().push(
                        spec_split(s, sep).last().push(c),
                    ));
                } else {
                    assert(rest.drop_last().push(rest.last().push(c))[0] == rest[0]);
                    assert(rest.drop_last().push(rest.last().push(c)).drop_first()
                        =~~= rest.drop_first().drop_last().push(rest.last().push(c)));
                    assert(spec_split(s, sep).last() == rest.last());
                    assert(spec_split(s, sep).drop_last() =~~= seq![seq![s[0]] + rest[0]]
                        + rest.drop_first().drop_last());
                    assert(spec_split(s.push(c), sep) =~~= spec_split(s, sep).drop_last().push(
                        spec_split(s, sep).last().push(c),
                    ));
                }
            }
        }
    }
}

/// Splits `v` at every occurrence of `sep`.
pub fn split_chars(v: &Vec<char>, sep: char) -> (r: Vec<Vec<char>>)
    ensures
        r.deep_view() == spec_split(v@, sep),
{
    let mut done: Vec<Vec<char>> = Vec::new();
    let mut cur: Vec<char> = Vec::new();
    let mut i: usize = 0;
    proof {
        lemma_split_nonempty(v@.take(0), sep);
    }
    while i < v.len()
        invariant
            i <= v@.len(),
            spec_split(v@.take(i as int), sep) == done.deep_view().push(cur@),
        decreases v@.len() - i,
    {
        let c = v[i];
        let ghost pre_done = done.deep_view();
        let ghost pre_cur = cur@;
        proof {
            lemma_split_push(v@.take(i as int), c, sep);
            assert(v@.take(i as int).push(c) =~= v@.take(i + 1));
        }
        if c == sep {
            done.push(cur);
            cur = Vec::new();
            proof {
                assert(done.deep_view() =~~= pre_done.push(pre_cur));
                assert(pre_done.push(pre_cur).drop_last() =~= pre_done);
            }
        } else {
            cur.push(c);
            proof {
                assert(pre_done.push(pre_cur).drop_last() =~= pre_done);
            }
        }
        i = i + 1;
        proof {
            assert(spec_split(v@.take(i as int), sep) =~~= done.deep_view().push(cur@));
        }
    }
    let ghost pre_done = done.deep_view();
    done.push(cur);
    proof {
        assert(v@.take(v@.len() as int) =~= v@);
        assert(done.deep_view() =~~= pre_done.push(cur@));
        assert(done.deep_view() =~~= spec_split(v@, sep));
    }
    done
}

} // verus!
