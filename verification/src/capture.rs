//! Bounded capture of process output.
//!
//! The reporting channel gives each captured stream a strict budget: at most
//! 1000 lines and 32 KiB of UTF-8, with a marker appended whenever a bound is
//! hit. The byte bound is enforced after the line bound, so a single very
//! long line cannot bypass the size cap.

use vstd::prelude::*;
use crate::text::{chars_to_string, push_char, spec_split, split_chars, str_chars};

verus! {

// ===========================================================================
// Line splitting
// ===========================================================================
/// A line piece with its trailing carriage return removed.
pub open spec fn strip_cr(p: Seq<char>) -> Seq<char> {
    if p.len() > 0 && p.last() == '\r' {
        p.drop_last()
    } else {
        p
    }
}

/// The lines of `s`: pieces between newlines, each without its trailing
/// carriage return; a trailing newline ends the last line rather than
/// starting an empty one, and the empty string has no lines.
pub open spec fn spec_lines(s: Seq<char>) -> Seq<Seq<char>> {
    if s.len() == 0 {
        Seq::empty()
    } else {
        let pieces = spec_split(s, '\n');
        let kept = if s.last() == '\n' {
            pieces.drop_last()
        } else {
            pieces
        };
        kept.map_values(|p: Seq<char>| strip_cr(p))
    }
}

/// A copy of `p` without its trailing carriage return, if it has one.
fn copy_strip_cr(p: &Vec<char>) -> (r: Vec<char>)
    ensures
        r@ == strip_cr(p@),
{
    let keep: usize = if p.len() > 0 && p[p.len() - 1] == '\r' {
        p.len() - 1
    } else {
        p.len()
    };
    let mut r: Vec<char> = Vec::new();
    let mut i: usize = 0;
    while i < keep
        invariant
            keep <= p@.len(),
            i <= keep,
            r@ == p@.take(i as int),
        decreases keep - i,
    {
        r.push(p[i]);
        i = i + 1;
        proof {
            assert(r@ =~= p@.take(i as int));
        }
    }
    proof {
        assert(r@ =~= strip_cr(p@));
    }
    r
}

/// The lines of a character vector.
fn lines_of_chars(v: &Vec<char>) -> (r: Vec<Vec<char>>)
    ensures
        r.deep_view() == spec_lines(v@),
{
    if v.len() == 0 {
        let r: Vec<Vec<char>> = Vec::new();
        proof {
            assert(r.deep_view() =~~= spec_lines(v@));
        }
        return r;
    }
    let mut pieces = split_chars(v, '\n');
    proof {
        crate::text::lemma_split_nonempty(v@, '\n');
        assert(pieces@.len() == pieces.deep_view().len());
    }
    if v[v.len() - 1] == '\n' {
        let ghost pre = pieces.deep_view();
        pieces.pop();
        proof {
            assert(pieces.deep_view() =~~= pre.drop_last());
        }
    }
    let ghost kept = pieces.deep_view();
    let mut out: Vec<Vec<char>> = Vec::new();
    let mut i: usize = 0;
    while i < pieces.len()
        invariant
            pieces@.len() == kept.len(),
            kept == pieces.deep_view(),
            i <= kept.len(),
            out.deep_view() == kept.take(i as int).map_values(|p: Seq<char>| strip_cr(p)),
        decreases pieces@.len() - i,
    {
        let stripped = copy_strip_cr(&pieces[i]);
        let ghost pre_out = out.deep_view();
        out.push(stripped);
        i = i + 1;
        proof {
            crate::text::lemma_chars_deep_view(pieces@[i - 1]);
            assert(out.deep_view() =~~= pre_out.push(strip_cr(kept[i - 1])));
            assert(out.deep_view() =~~= kept.take(i as int).map_values(
                |p: Seq<char>| strip_cr(p),
            ));
        }
    }
    proof {
        assert(kept.take(kept.len() as int) =~~= kept);
        assert(out.deep_view() =~~= spec_lines(v@));
    }
    out
}

/// The lines of `s`, as owned strings.
pub fn split_lines(s: &str) -> (r: Vec<String>)
    ensures
        r.deep_view() == spec_lines(s@),
{
    let chars = str_chars(s);
    let pieces = lines_of_chars(&chars);
    let mut r: Vec<String> = Vec::new();
    let mut i: usize = 0;
    while i < pieces.len()
        invariant
            pieces@.len() == pieces.deep_view().len(),
            pieces.deep_view() == spec_lines(s@),
            i <= pieces@.len(),
            r.deep_view() == pieces.deep_view().take(i as int),
        decreases pieces@.len() - i,
    {
        let ghost pre = r.deep_view();
        r.push(chars_to_string(&pieces[i]));
        i = i + 1;
        proof {
            crate::text::lemma_chars_deep_view(pieces@[i - 1]);
            assert(r.deep_view() =~~= pre.push(pieces.deep_view()[i - 1]));
            assert(r.deep_view() =~~= pieces.deep_view().take(i as int));
        }
    }
    proof {
        assert(pieces.deep_view().take(pieces@.len() as int) =~~= pieces.deep_view());
    }
    r
}

/// How many lines `s` has.
pub fn count_lines(s: &str) -> (r: usize)
    ensures
        r == spec_lines(s@).len(),
{
    let lines = split_lines(s);
    lines.len()
}

// ===========================================================================
// UTF-8 length accounting
// ===========================================================================
/// How many bytes the UTF-8 encoding of one character takes.
pub open spec fn utf8_len_char(c: char) -> nat {
    if (c as u32) < 0x80 {
        1
    } else if (c as u32) < 0x800 {
        2
    } else if (c as u32) < 0x10000 {
        3
    } else {
        4
    }
}

/// How many bytes the UTF-8 encoding of `s` takes.
pub open spec fn utf8_len(s: Seq<char>) -> nat
    decreases s.len(),
{
    if s.len() == 0 {
        0
    } else {
        utf8_len_char(s[0]) + utf8_len(s.drop_first())
    }
}

/// One character encodes to its own length.
pub proof fn lemma_utf8_len_singleton(c: char)
    ensures
        utf8_len(seq![c]) == utf8_len_char(c),
{
    assert(seq![c].drop_first() =~= Seq::<char>::empty());
    assert(utf8_len(Seq::<char>::empty()) == 0);
    assert(seq![c][0] == c);
}

/// UTF-8 length splits at any position.
pub proof fn lemma_utf8_len_split(s: Seq<char>, i: int)
    requires
        0 <= i <= s.len(),
    ensures
        utf8_len(s) == utf8_len(s.take(i)) + utf8_len(s.skip(i)),
    decreases i,
{
    if i == 0 {
        assert(s.take(0) =~= Seq::<char>::empty());
        assert(s.skip(0) =~= s);
    } else {
        let t = s.drop_first();
        assert(s.take(i).drop_first() =~= t.take(i - 1));
        assert(s.skip(i) =~= t.skip(i - 1));
        assert(s.take(i)[0] == s[0]);
        lemma_utf8_len_split(t, i - 1);
        assert(utf8_len(s.take(i)) == utf8_len_char(s[0]) + utf8_len(t.take(i - 1)));
    }
}

/// UTF-8 length adds over concatenation.
pub proof fn lemma_utf8_len_concat(a: Seq<char>, b: Seq<char>)
    ensures
        utf8_len(a + b) == utf8_len(a) + utf8_len(b),
{
    lemma_utf8_len_split(a + b, a.len() as int);
    assert((a + b).take(a.len() as int) =~= a);
    assert((a + b).skip(a.len() as int) =~= b);
}

/// The number of bytes one character encodes to.
pub fn char_utf8_len(c: char) -> (r: u8)
    ensures
        r as nat == utf8_len_char(c),
{
    let u = c as u32;
    if u < 0x80 {
        1
    } else if u < 0x800 {
        2
    } else if u < 0x10000 {
        3
    } else {
        4
    }
}

/// The UTF-8 length of `v`, computed exactly up to `cap`: the result is exact
/// when it is at most `cap`, and otherwise only promises to exceed `cap`
/// while staying within `cap + 4`.
fn utf8_len_capped(v: &Vec<char>, cap: usize) -> (r: usize)
    requires
        cap <= 100000,
    ensures
        utf8_len(v@) <= cap ==> r == utf8_len(v@),
        utf8_len(v@) > cap ==> cap < r <= cap + 4 && r <= utf8_len(v@),
{
    let mut acc: usize = 0;
    let mut i: usize = 0;
    while i < v.len()
        invariant
            cap <= 100000,
            i <= v@.len(),
            acc == utf8_len(v@.take(i as int)),
            acc <= cap,
        decreases v@.len() - i,
    {
        let l = char_utf8_len(v[i]);
        proof {
            lemma_utf8_len_split(v@.take(i + 1), i as int);
            assert(v@.take(i + 1).take(i as int) =~= v@.take(i as int));
            assert(v@.take(i + 1).skip(i as int) =~= seq![v@[i as int]]);
            lemma_utf8_len_singleton(v@[i as int]);
        }
        let next = acc + (l as usize);
        i = i + 1;
        if next > cap {
            proof {
                lemma_utf8_len_split(v@, i as int);
            }
            return next;
        }
        acc = next;
    }
    proof {
        assert(v@.take(v@.len() as int) =~= v@);
    }
    acc
}

// ===========================================================================
// Output capping
// ===========================================================================
/// Joining lines with newlines, stopping as soon as the joined text passes
/// 32668 bytes (100 bytes short of the 32 KiB budget, leaving room for the
/// truncation marker). Returns the joined text and whether the cap was hit.
pub open spec fn spec_join_capped(lines: Seq<Seq<char>>, i: int, acc: Seq<char>) -> (Seq<
    char,
>, bool)
    decreases lines.len() - i,
{
    if i < 0 || i >= lines.len() {
        (acc, false)
    } else {
        let acc2 = if i == 0 {
            lines[0]
        } else {
            acc + seq!['\n'] + lines[i]
        };
        if utf8_len(acc2) > 32668 {
            (acc2, true)
        } else {
            spec_join_capped(lines, i + 1, acc2)
        }
    }
}

/// The longest prefix of `s` whose UTF-8 encoding fits in `max` bytes.
pub open spec fn spec_char_truncate(s: Seq<char>, max: int) -> Seq<char>
    decreases s.len(),
{
    if utf8_len(s) <= max {
        s
    } else if s.len() == 0 {
        s
    } else {
        spec_char_truncate(s.drop_last(), max)
    }
}

/// The capped output: at most 1000 lines joined by newlines under the byte
/// cap, a marker when either bound was hit, and a final hard truncation that
/// keeps the whole result within the 32 KiB budget.
pub open spec fn spec_limit_output(s: Seq<char>) -> (Seq<char>, bool) {
    let lines = spec_lines(s);
    let line_capped = lines.len() > 1000;
    let taken = if line_capped {
        lines.take(1000)
    } else {
        lines
    };
    let joined = spec_join_capped(taken, 0, Seq::empty());
    let truncated = line_capped || joined.1;
    let marked = if truncated {
        joined.0 + "\n[Output truncated: exceeded limit]"@
    } else {
        joined.0
    };
    if utf8_len(marked) > 32768 {
        (spec_char_truncate(marked, 32718) + "\n[Output truncated: size limit]"@, truncated)
    } else {
        (marked, truncated)
    }
}

/// Output with more lines than the cap is always marked truncated.
pub proof fn law_line_cap_marks_truncation(s: Seq<char>)
    requires
        spec_lines(s).len() > 1000,
    ensures
        spec_limit_output(s).1 == true,
{
}

/// Prefix UTF-8 lengths grow with the prefix.
proof fn lemma_utf8_len_take_mono(s: Seq<char>, i: int, j: int)
    requires
        0 <= i <= j <= s.len(),
    ensures
        utf8_len(s.take(i)) <= utf8_len(s.take(j)),
{
    lemma_utf8_len_split(s.take(j), i);
    assert(s.take(j).take(i) =~= s.take(i));
}

/// The scan that stops before byte `max` finds exactly the longest fitting
/// prefix.
proof fn lemma_char_truncate_take(s: Seq<char>, max: int, k: int)
    requires
        0 <= k <= s.len(),
        utf8_len(s.take(k)) <= max,
        k == s.len() || utf8_len(s.take(k + 1)) > max,
    ensures
        spec_char_truncate(s, max) == s.take(k),
    decreases s.len(),
{
    if utf8_len(s) <= max {
        if k < s.len() {
            lemma_utf8_len_take_mono(s, k + 1, s.len() as int);
            assert(s.take(s.len() as int) =~= s);
        }
        assert(k == s.len());
        assert(s.take(k) =~= s);
    } else {
        assert(s.len() > 0);
        if k == s.len() {
            assert(s.take(k) =~= s);
        }
        assert(k < s.len());
        let t = s.drop_last();
        assert(t.take(k) =~= s.take(k));
        if k < t.len() {
            assert(t.take(k + 1) =~= s.take(k + 1));
        }
        lemma_char_truncate_take(t, max, k);
    }
}

/// Appends the characters of `src` to `dst`.
fn append_chars(dst: &mut Vec<char>, src: &Vec<char>)
    ensures
        final(dst)@ == old(dst)@ + src@,
{
    let mut i: usize = 0;
    while i < src.len()
        invariant
            i <= src@.len(),
            dst@ == old(dst)@ + src@.take(i as int),
        decreases src@.len() - i,
    {
        dst.push(src[i]);
        i = i + 1;
        proof {
            assert(dst@ =~= old(dst)@ + src@.take(i as int));
        }
    }
    proof {
        assert(old(dst)@ + src@.take(src@.len() as int) =~= old(dst)@ + src@);
    }
}

/// The real command runner lives with the embedding program; what the engine
/// owns of it is the output-capping rule below.
pub struct SystemCommandRunner;

impl SystemCommandRunner {
    /// Caps one captured stream to at most 1000 lines and 32 KiB of UTF-8,
    /// appending a marker when a bound is hit. Returns the capped text and
    /// whether anything was cut.
    pub fn limit_output(s: &str) -> (r: (String, bool))
        ensures
            (r.0@, r.1) == spec_limit_output(s@),
    {
        let chars = str_chars(s);
        let lines = lines_of_chars(&chars);
        let line_capped = lines.len() > 1000;
        let take_n: usize = if line_capped {
            1000
        } else {
            lines.len()
        };
        let ghost taken = if line_capped {
            spec_lines(s@).take(1000)
        } else {
            spec_lines(s@)
        };
        proof {
            assert(lines.deep_view().take(take_n as int) =~~= taken);
        }
        let mut result: Vec<char> = Vec::new();
        let mut byte_capped = false;
        let mut cur_len: usize = 0;
        let mut i: usize = 0;
        while i < take_n
            invariant_except_break
                take_n <= lines@.len(),
                lines@.len() == lines.deep_view().len(),
                taken == lines.deep_view().take(take_n as int),
                taken.len() == take_n,
                i <= take_n,
                cur_len == utf8_len(result@),
                cur_len <= 32668,
                byte_capped == false,
                i == 0 ==> result@ == Seq::<char>::empty(),
                spec_join_capped(taken, 0, Seq::empty()) == spec_join_capped(
                    taken,
                    i as int,
                    result@,
                ),
            ensures
                spec_join_capped(taken, 0, Seq::empty()) == (result@, byte_capped),
            decreases take_n - i,
        {
            let ghost acc_pre = result@;
            if i > 0 {
                result.push('\n');
            }
            append_chars(&mut result, &lines[i]);
            proof {
                crate::text::lemma_chars_deep_view(lines@[i as int]);
                if i > 0 {
                    assert(result@ =~= acc_pre + seq!['\n'] + taken[i as int]);
                    lemma_utf8_len_concat(acc_pre + seq!['\n'], taken[i as int]);
                    lemma_utf8_len_concat(acc_pre, seq!['\n']);
                    lemma_utf8_len_singleton('\n');
                    assert(utf8_len(seq!['\n']) == 1);
                } else {
                    assert(result@ =~= taken[0]);
                }
            }
            let ll = utf8_len_capped(&lines[i], 33000);
            let sep: usize = if i > 0 {
                1
            } else {
                0
            };
            let total = cur_len + sep + ll;
            i = i + 1;
            if ll > 33000 || total > 32668 {
                proof {
                    assert(utf8_len(result@) > 32668);
                    assert(spec_join_capped(taken, i - 1, acc_pre) == (result@, true));
                }
                byte_capped = true;
                break ;
            }
            cur_len = total;
            proof {
                assert(cur_len == utf8_len(result@));
                assert(spec_join_capped(taken, i - 1, acc_pre) == spec_join_capped(
                    taken,
                    i as int,
                    result@,
                ));
            }
        }
        let truncated = line_capped || byte_capped;
        if truncated {
            let marker = str_chars("\n[Output truncated: exceeded limit]");
            append_chars(&mut result, &marker);
        }
        let ghost marked = result@;
        let fl = utf8_len_capped(&result, 32768);
        if fl > 32768 {
            proof {
                assert(utf8_len(marked) > 32768);
            }
            let mut k: usize = 0;
            let mut b: usize = 0;
            while k < result.len()
                invariant_except_break
                    k <= result@.len(),
                    b == utf8_len(result@.take(k as int)),
                    b <= 32718,
                ensures
                    k <= result@.len(),
                    b == utf8_len(result@.take(k as int)),
                    b <= 32718,
                    k == result@.len() || utf8_len(result@.take(k + 1)) > 32718,
                decreases result@.len() - k,
            {
                let l = char_utf8_len(result[k]);
                proof {
                    lemma_utf8_len_split(result@.take(k + 1), k as int);
                    assert(result@.take(k + 1).take(k as int) =~= result@.take(k as int));
                    assert(result@.take(k + 1).skip(k as int) =~= seq![result@[k as int]]);
                    lemma_utf8_len_singleton(result@[k as int]);
                }
                if b + (l as usize) > 32718 {
                    break ;
                }
                b = b + (l as usize);
                k = k + 1;
            }
            proof {
                lemma_char_truncate_take(marked, 32718, k as int);
            }
            result.truncate(k);
            let size_marker = str_chars("\n[Output truncated: size limit]");
            append_chars(&mut result, &size_marker);
            proof {
                assert(result@ == spec_char_truncate(marked, 32718)
                    + "\n[Output truncated: size limit]"@);
            }
            let text = chars_to_string(&result);
            return (text, truncated);
        }
        let text = chars_to_string(&result);
        (text, truncated)
    }
}

} // verus!
