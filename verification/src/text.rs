//! Verified text utilities: decimal rendering of line indices, substring
//! search, substring replacement, and newline splitting.

use vstd::prelude::*;
use vstd::string::StrSliceExecFns;
use vstd::string::StringExecFns;

verus! {

/// `pat` occurs somewhere in `text` as a contiguous run of characters.
pub open spec fn spec_contains(text: Seq<char>, pat: Seq<char>) -> bool {
    exists|i: int|
        0 <= i && i + pat.len() <= text.len() && #[trigger] text.subrange(i, i + pat.len()) == pat
}

/// Character-for-character comparison of `pat` against `text` at offset `i`.
pub fn match_at(text: &str, i: usize, pat: &str) -> (r: bool)
    requires
        i + pat@.len() <= text@.len(),
    ensures
        r == (text@.subrange(i as int, i + pat@.len()) == pat@),
{
    let tlen: usize = text.unicode_len();
    let plen: usize = pat.unicode_len();
    let mut j: usize = 0;
    while j < plen
        invariant
            tlen == text@.len(),
            plen == pat@.len(),
            i + plen <= text@.len(),
            j <= plen,
            forall|k: int| 0 <= k < j ==> text@[i + k] == pat@[k],
        decreases plen - j,
    {
        if text.get_char(i + j) != pat.get_char(j) {
            proof {
                assert(text@.subrange(i as int, i + plen as int)[j as int] == text@[i + j]);
            }
            return false;
        }
        j = j + 1;
    }
    proof {
        assert(text@.subrange(i as int, i + plen as int) =~= pat@);
    }
    true
}

/// Substring search with an exact contract: the result says whether `pat`
/// occurs anywhere in `text`.
pub fn str_contains(text: &str, pat: &str) -> (r: bool)
    ensures
        r == spec_contains(text@, pat@),
{
    let tlen: usize = text.unicode_len();
    let plen: usize = pat.unicode_len();
    if plen > tlen {
        return false;
    }
    if plen == 0 {
        proof {
            assert(text@.subrange(0, 0 + pat@.len() as int) =~= pat@);
        }
        return true;
    }
    let mut i: usize = 0;
    while i <= tlen - plen
        invariant
            tlen == text@.len(),
            plen == pat@.len(),
            1 <= plen <= tlen,
            i <= tlen - plen + 1,
            forall|k: int| 0 <= k < i ==> #[trigger] text@.subrange(k, k + plen as int) != pat@,
        decreases tlen - plen - i + 1,
    {
        if match_at(text, i, pat) {
            proof {
                assert(text@.subrange(i as int, i as int + pat@.len()) == pat@);
            }
            return true;
        }
        i = i + 1;
    }
    false
}

/// The leftmost-first, non-overlapping replacement of `from` by `to`:
/// at each position, a match of `from` is replaced and the scan resumes
/// after it; otherwise one character is kept.  A tail shorter than `from`
/// is kept as it is (as is the whole text when `from` is empty).
pub open spec fn spec_replace(s: Seq<char>, from: Seq<char>, to: Seq<char>) -> Seq<char>
    decreases s.len(),
{
    if from.len() == 0 || s.len() < from.len() {
        s
    } else if s.subrange(0, from.len() as int) == from {
        to + spec_replace(s.skip(from.len() as int), from, to)
    } else {
        seq![s[0]] + spec_replace(s.skip(1), from, to)
    }
}

/// Replaces every non-overlapping occurrence of `from` by `to`, leftmost
/// first, exactly as `spec_replace` describes.
pub fn replace_all(text: &str, from: &str, to: &str) -> (r: String)
    requires
        from@.len() > 0,
    ensures
        r@ == spec_replace(text@, from@, to@),
{
    let tlen: usize = text.unicode_len();
    let flen: usize = from.unicode_len();
    let mut out = String::new();
    if flen > tlen {
        out.append(text);
        return out;
    }
    let mut i: usize = 0;
    proof {
        assert(text@.skip(0) =~= text@);
        assert(out@ + spec_replace(text@, from@, to@) =~= spec_replace(text@, from@, to@));
    }
    while i <= tlen - flen
        invariant
            tlen == text@.len(),
            flen == from@.len(),
            1 <= flen <= tlen,
            i <= tlen,
            out@ + spec_replace(text@.skip(i as int), from@, to@) == spec_replace(
                text@,
                from@,
                to@,
            ),
        decreases tlen - i,
    {
        proof {
            assert(text@.skip(i as int).subrange(0, flen as int) =~= text@.subrange(
                i as int,
                i + flen as int,
            ));
        }
        let ghost out0 = out@;
        if match_at(text, i, from) {
            out.append(to);
            proof {
                assert(text@.skip(i as int).skip(flen as int) =~= text@.skip(i + flen as int));
                assert((out0 + to@) + spec_replace(text@.skip(i + flen as int), from@, to@) =~= out0
                    + (to@ + spec_replace(text@.skip(i + flen as int), from@, to@)));
            }
            i = i + flen;
        } else {
            let c = text.substring_char(i, i + 1);
            out.append(c);
            proof {
                assert(seq![text@.skip(i as int)[0]] =~= text@.subrange(i as int, i + 1));
                assert(text@.skip(i as int).skip(1) =~= text@.skip(i + 1));
                assert((out0 + c@) + spec_replace(text@.skip(i + 1), from@, to@) =~= out0 + (c@
                    + spec_replace(text@.skip(i + 1), from@, to@)));
            }
            i = i + 1;
        }
    }
    let rest = text.substring_char(i, tlen);
    out.append(rest);
    proof {
        assert(text@.skip(i as int) =~= text@.subrange(i as int, tlen as int));
    }
    out
}

/// Index of the first newline character in `s`, or `-1` when `s` holds none.
pub open spec fn spec_find_newline(s: Seq<char>) -> int
    decreases s.len(),
{
    if s.len() == 0 {
        -1
    } else if s[0] == '\n' {
        0
    } else if spec_find_newline(s.drop_first()) < 0 {
        -1
    } else {
        1 + spec_find_newline(s.drop_first())
    }
}

pub proof fn lemma_find_newline_at(s: Seq<char>, n: int)
    requires
        0 <= n < s.len(),
        s[n] == '\n',
        forall|k: int| 0 <= k < n ==> s[k] != '\n',
    ensures
        spec_find_newline(s) == n,
    decreases n,
{
    if n > 0 {
        assert forall|k: int| 0 <= k < n - 1 implies s.drop_first()[k] != '\n' by {
            assert(s[k + 1] != '\n');
        }
        lemma_find_newline_at(s.drop_first(), n - 1);
    }
}

pub proof fn lemma_find_newline_none(s: Seq<char>)
    requires
        forall|k: int| 0 <= k < s.len() ==> s[k] != '\n',
    ensures
        spec_find_newline(s) < 0,
    decreases s.len(),
{
    if s.len() > 0 {
        assert forall|k: int| 0 <= k < s.drop_first().len() implies s.drop_first()[k] != '\n' by {
            assert(s[k + 1] != '\n');
        }
        lemma_find_newline_none(s.drop_first());
    }
}

/// A carriage return at the end of a segment that preceded a newline is not
/// part of the line.
pub open spec fn spec_strip_cr(line: Seq<char>) -> Seq<char> {
    if line.len() > 0 && line.last() == '\r' {
        line.drop_last()
    } else {
        line
    }
}

/// The records of a text, split at newline characters: each newline ends a
/// record (a carriage return just before it is dropped), and a non-empty
/// tail without a final newline is a record of its own.  The empty text has
/// no records.
pub open spec fn spec_lines(s: Seq<char>) -> Seq<Seq<char>>
    decreases s.len(),
{
    if s.len() == 0 {
        Seq::empty()
    } else {
        let n = spec_find_newline(s);
        if 0 <= n < s.len() {
            seq![spec_strip_cr(s.take(n))] + spec_lines(s.skip(n + 1))
        } else {
            seq![s]
        }
    }
}

/// Peeling the first record off a text: a newline-free prefix followed by
/// a newline starts the record list with that prefix (a trailing carriage
/// return stripped), whatever follows the newline.
pub proof fn lemma_lines_peel(u: Seq<char>, v: Seq<char>)
    requires
        forall|k: int| 0 <= k < u.len() ==> u[k] != '\n',
    ensures
        spec_lines(u + seq!['\n'] + v) == seq![spec_strip_cr(u)] + spec_lines(v),
{
    let s = u + seq!['\n'] + v;
    assert(s[u.len() as int] == '\n');
    assert forall|k: int| 0 <= k < u.len() implies s[k] != '\n' by {
        assert(s[k] == u[k]);
    }
    lemma_find_newline_at(s, u.len() as int);
    assert(s.take(u.len() as int) =~= u);
    assert(s.skip(u.len() as int + 1) =~= v);
}

/// The text of each record, in order, without the indices.
pub open spec fn line_texts(r: Seq<(usize, String)>) -> Seq<Seq<char>> {
    r.map_values(|p: (usize, String)| p.1@)
}

/// Splits a text into its records and numbers them from zero, exactly as
/// `spec_lines` describes.
pub fn split_numbered_lines(text: &str) -> (r: Vec<(usize, String)>)
    ensures
        r@.len() == spec_lines(text@).len(),
        forall|i: int| 0 <= i < r@.len() ==> (#[trigger] r@[i]).0 == i,
        forall|i: int| 0 <= i < r@.len() ==> (#[trigger] r@[i]).1@ == spec_lines(text@)[i],
{
    let tlen: usize = text.unicode_len();
    let mut r: Vec<(usize, String)> = Vec::new();
    let mut start: usize = 0;
    proof {
        assert(text@.skip(0) =~= text@);
        assert(line_texts(r@) + spec_lines(text@) =~= spec_lines(text@));
    }
    while start < tlen
        invariant
            tlen == text@.len(),
            start <= tlen,
            spec_lines(text@) == line_texts(r@) + spec_lines(text@.skip(start as int)),
            forall|i: int| 0 <= i < r@.len() ==> (#[trigger] r@[i]).0 == i,
        decreases tlen - start,
    {
        let mut j: usize = start;
        while j < tlen && text.get_char(j) != '\n'
            invariant
                tlen == text@.len(),
                start <= j <= tlen,
                forall|k: int| start <= k < j ==> text@[k] != '\n',
            decreases tlen - j,
        {
            j = j + 1;
        }
        let ghost rem = text@.skip(start as int);
        let ghost r0 = r@;
        if j < tlen {
            let end: usize = if j > start && text.get_char(j - 1) == '\r' {
                j - 1
            } else {
                j
            };
            let line = text.substring_char(start, end).to_owned();
            let idx: usize = r.len();
            r.push((idx, line));
            proof {
                assert forall|k: int| 0 <= k < j - start implies rem[k] != '\n' by {
                    assert(text@[start + k] != '\n');
                }
                lemma_find_newline_at(rem, j - start);
                assert(rem.take(j - start) =~= text@.subrange(start as int, j as int));
                assert(spec_strip_cr(rem.take(j - start)) =~= text@.subrange(
                    start as int,
                    end as int,
                ));
                assert(rem.skip(j - start + 1) =~= text@.skip(j + 1));
                assert(spec_lines(rem) == seq![text@.subrange(start as int, end as int)]
                    + spec_lines(text@.skip(j + 1)));
                assert(line_texts(r0.push((idx, line))) =~= line_texts(r0).push(line@));
                assert(line_texts(r0) + (seq![line@] + spec_lines(text@.skip(j + 1))) =~= (
                line_texts(r0) + seq![line@]) + spec_lines(text@.skip(j + 1)));
                assert(line_texts(r0) + seq![line@] =~= line_texts(r0).push(line@));
            }
            start = j + 1;
        } else {
            let line = text.substring_char(start, tlen).to_owned();
            let idx: usize = r.len();
            r.push((idx, line));
            proof {
                assert forall|k: int| 0 <= k < rem.len() implies rem[k] != '\n' by {
                    assert(text@[start + k] != '\n');
                }
                lemma_find_newline_none(rem);
                assert(rem =~= text@.subrange(start as int, tlen as int));
                assert(spec_lines(rem) == seq![rem]);
                assert(line_texts(r0.push((idx, line))) =~= line_texts(r0).push(line@));
                assert(text@.skip(tlen as int) =~= Seq::<char>::empty());
                assert(line_texts(r0).push(line@) + spec_lines(Seq::<char>::empty())
                    =~= line_texts(r0) + seq![line@]);
                assert(line_texts(r0) + seq![line@] =~= line_texts(r0) + spec_lines(rem));
            }
            start = tlen;
        }
    }
    proof {
        assert(text@.skip(tlen as int) =~= Seq::<char>::empty());
        assert(line_texts(r@) + spec_lines(Seq::<char>::empty()) =~= line_texts(r@));
        assert forall|i: int| 0 <= i < r@.len() implies (#[trigger] r@[i]).1@ == spec_lines(
            text@,
        )[i] by {
            assert(line_texts(r@)[i] == r@[i].1@);
        }
    }
    r
}

/// The decimal digit character for a value below ten.
pub open spec fn spec_digit(d: nat) -> char {
    if d == 0 {
        '0'
    } else if d == 1 {
        '1'
    } else if d == 2 {
        '2'
    } else if d == 3 {
        '3'
    } else if d == 4 {
        '4'
    } else if d == 5 {
        '5'
    } else if d == 6 {
        '6'
    } else if d == 7 {
        '7'
    } else if d == 8 {
        '8'
    } else {
        '9'
    }
}

/// The usual decimal rendering of a natural number, most significant digit
/// first, with no leading zeros (`0` itself renders as `"0"`).
pub open spec fn spec_dec(n: nat) -> Seq<char>
    decreases n,
{
    if n < 10 {
        seq![spec_digit(n)]
    } else {
        spec_dec(n / 10).push(spec_digit(n % 10))
    }
}

/// A decimal rendering is never empty and holds digit characters only:
/// in particular no newline and no carriage return.
pub proof fn lemma_dec_digits(n: nat)
    ensures
        spec_dec(n).len() > 0,
        forall|k: int|
            0 <= k < spec_dec(n).len() ==> #[trigger] spec_dec(n)[k] != '\n' && spec_dec(n)[k]
                != '\r',
    decreases n,
{
    if n >= 10 {
        lemma_dec_digits(n / 10);
        assert forall|k: int| 0 <= k < spec_dec(n).len() implies #[trigger] spec_dec(n)[k] != '\n'
            && spec_dec(n)[k] != '\r' by {
            if k < spec_dec(n / 10).len() {
                assert(spec_dec(n)[k] == spec_dec(n / 10)[k]);
            } else {
                assert(spec_dec(n)[k] == spec_digit(n % 10));
            }
        }
    }
}

fn digit_str(d: usize) -> (r: &'static str)
    requires
        d < 10,
    ensures
        r@ == seq![spec_digit(d as nat)],
{
    let r: &'static str = if d == 0 {
        "0"
    } else if d == 1 {
        "1"
    } else if d == 2 {
        "2"
    } else if d == 3 {
        "3"
    } else if d == 4 {
        "4"
    } else if d == 5 {
        "5"
    } else if d == 6 {
        "6"
    } else if d == 7 {
        "7"
    } else if d == 8 {
        "8"
    } else {
        "9"
    };
    proof {
        reveal_strlit("0");
        reveal_strlit("1");
        reveal_strlit("2");
        reveal_strlit("3");
        reveal_strlit("4");
        reveal_strlit("5");
        reveal_strlit("6");
        reveal_strlit("7");
        reveal_strlit("8");
        reveal_strlit("9");
        assert(r@ =~= seq![spec_digit(d as nat)]);
    }
    r
}

/// Renders an index in decimal, exactly as `spec_dec` describes.
pub fn usize_to_string(n: usize) -> (r: String)
    ensures
        r@ == spec_dec(n as nat),
    decreases n,
{
    if n < 10 {
        let d = digit_str(n);
        d.to_owned()
    } else {
        proof {
            assert(n / 10 < n) by (nonlinear_arith)
                requires
                    n >= 10,
            ;
        }
        let mut r = usize_to_string(n / 10);
        r.append(digit_str(n % 10));
        proof {
            assert(spec_dec((n / 10) as nat) + seq![spec_digit((n % 10) as nat)] =~= spec_dec(
                (n / 10) as nat,
            ).push(spec_digit((n % 10) as nat)));
        }
        r
    }
}

} // verus!
