//! Verified text utilities for the accounting-line grammar: prefix tests,
//! decimal magnitudes, tab search and line splitting.

use vstd::prelude::*;

verus! {

/// `p` is a prefix of `s`.
pub open spec fn spec_starts_with(s: Seq<char>, p: Seq<char>) -> bool {
    p.len() <= s.len() && (forall|i: int| 0 <= i < p.len() ==> s[i] == p[i])
}

/// Character-wise prefix test.
pub fn str_starts_with(s: &str, p: &str) -> (r: bool)
    ensures
        r == spec_starts_with(s@, p@),
{
    let sl = s.unicode_len();
    let pl = p.unicode_len();
    if pl > sl {
        return false;
    }
    let mut i: usize = 0;
    while i < pl
        invariant
            i <= pl,
            pl <= sl,
            sl == s@.len(),
            pl == p@.len(),
            forall|j: int| 0 <= j < i ==> s@[j] == p@[j],
        decreases pl - i,
    {
        if s.get_char(i) != p.get_char(i) {
            return false;
        }
        i = i + 1;
    }
    true
}

/// The two strings hold the same characters.
pub fn str_equal(s: &str, p: &str) -> (r: bool)
    ensures
        r == (s@ == p@),
{
    let sl = s.unicode_len();
    let pl = p.unicode_len();
    if sl != pl {
        return false;
    }
    let r = str_starts_with(s, p);
    proof {
        if r {
            assert(s@ =~= p@);
        }
    }
    r
}

/// A decimal digit.
pub open spec fn is_digit(c: char) -> bool {
    48 <= c as u32 <= 57
}

/// The numeric value of one digit character, 0 for anything else.
pub open spec fn digit_of(c: char) -> nat {
    if is_digit(c) {
        (c as int - 48) as nat
    } else {
        0
    }
}

/// Every character of `s` is a decimal digit.
pub open spec fn all_digits(s: Seq<char>) -> bool {
    forall|i: int| 0 <= i < s.len() ==> is_digit(#[trigger] s[i])
}

/// The value of a digit string, most significant digit first.
pub open spec fn digits_val(s: Seq<char>) -> nat
    decreases s.len(),
{
    if s.len() == 0 {
        0
    } else {
        digits_val(s.drop_last()) * 10 + digit_of(s.last())
    }
}

/// The magnitude a field parses to: the value of a non-empty all-digit
/// string that fits in 64 bits, and 0 for anything malformed.
pub open spec fn spec_parse_u64(s: Seq<char>) -> u64 {
    if s.len() > 0 && all_digits(s) && digits_val(s) <= u64::MAX {
        digits_val(s) as u64
    } else {
        0
    }
}

/// A digit string's value never shrinks as the string grows to the right.
proof fn lemma_digits_val_prefix_le(s: Seq<char>, i: int)
    requires
        0 <= i <= s.len(),
    ensures
        digits_val(s.subrange(0, i)) <= digits_val(s),
    decreases s.len() - i,
{
    if i == s.len() {
        assert(s.subrange(0, i) =~= s);
    } else {
        let a = s.subrange(0, i);
        let b = s.subrange(0, i + 1);
        assert(b.drop_last() =~= a);
        assert(digits_val(b) == digits_val(a) * 10 + digit_of(b.last()));
        assert(digits_val(a) <= digits_val(a) * 10);
        lemma_digits_val_prefix_le(s, i + 1);
    }
}

/// Parses the characters `from..to` of `s` as a decimal magnitude,
/// yielding 0 when the range is malformed or overflows.
pub fn parse_u64_range(s: &str, from: usize, to: usize) -> (r: u64)
    requires
        from <= to <= s@.len(),
    ensures
        r == spec_parse_u64(s@.subrange(from as int, to as int)),
{
    let ghost sub = s@.subrange(from as int, to as int);
    if from == to {
        return 0;
    }
    let mut acc: u64 = 0;
    let mut i: usize = from;
    while i < to
        invariant
            from <= i <= to <= s@.len(),
            forall|j: int| from <= j < i ==> is_digit(#[trigger] s@[j]),
            acc == digits_val(s@.subrange(from as int, i as int)),
            sub == s@.subrange(from as int, to as int),
        decreases to - i,
    {
        let c = s.get_char(i);
        let cv = c as u32;
        if cv < 48 || cv > 57 {
            proof {
                assert(sub[i - from] == s@[i as int]);
                assert(!all_digits(sub));
            }
            return 0;
        }
        let d: u64 = (cv - 48) as u64;
        let ghost pre = s@.subrange(from as int, i as int);
        let ghost cur = s@.subrange(from as int, i as int + 1);
        proof {
            assert(cur.drop_last() =~= pre);
            assert(cur.last() == s@[i as int]);
            assert(digits_val(cur) == digits_val(pre) * 10 + digit_of(s@[i as int]));
            assert(digit_of(s@[i as int]) == d);
        }
        if acc > (u64::MAX - d) / 10 {
            proof {
                assert(acc * 10 + d > u64::MAX) by (nonlinear_arith)
                    requires
                        acc > (u64::MAX - d) / 10,
                        d <= 9,
                        acc >= 0,
                ;
                assert(digits_val(cur) > u64::MAX);
                lemma_digits_val_prefix_le(sub, i as int + 1 - from);
                assert(sub.subrange(0, i as int + 1 - from) =~= cur);
                assert(digits_val(sub) > u64::MAX);
            }
            return 0;
        }
        proof {
            assert(acc * 10 + d <= u64::MAX) by (nonlinear_arith)
                requires
                    acc <= (u64::MAX - d) / 10,
                    d <= 9,
                    acc >= 0,
            ;
        }
        acc = acc * 10 + d;
        i = i + 1;
    }
    proof {
        assert(s@.subrange(from as int, i as int) =~= sub);
        assert(all_digits(sub));
        assert(sub.len() > 0);
    }
    acc
}

/// The position of the first `c` at or after `i`, if any.
pub open spec fn spec_find_from(s: Seq<char>, c: char, i: int) -> Option<int>
    decreases s.len() - i when 0 <= i <= s.len()
{
    if i >= s.len() {
        None
    } else if s[i] == c {
        Some(i)
    } else {
        spec_find_from(s, c, i + 1)
    }
}

/// `spec_find_from` returns the first occurrence.
pub proof fn lemma_find_from_some(s: Seq<char>, c: char, k: int)
    requires
        0 <= k < s.len(),
        s[k] == c,
        forall|j: int| 0 <= j < k ==> s[j] != c,
    ensures
        spec_find_from(s, c, 0) == Some(k),
{
    lemma_find_from_some_rec(s, c, 0, k);
}

proof fn lemma_find_from_some_rec(s: Seq<char>, c: char, i: int, k: int)
    requires
        0 <= i <= k < s.len(),
        s[k] == c,
        forall|j: int| i <= j < k ==> s[j] != c,
    ensures
        spec_find_from(s, c, i) == Some(k),
    decreases k - i,
{
    if i < k {
        lemma_find_from_some_rec(s, c, i + 1, k);
    }
}

/// When `c` never occurs, `spec_find_from` returns nothing.
pub proof fn lemma_find_from_none(s: Seq<char>, c: char)
    requires
        forall|j: int| 0 <= j < s.len() ==> s[j] != c,
    ensures
        spec_find_from(s, c, 0) == None::<int>,
{
    lemma_find_from_none_rec(s, c, 0);
}

proof fn lemma_find_from_none_rec(s: Seq<char>, c: char, i: int)
    requires
        0 <= i <= s.len(),
        forall|j: int| i <= j < s.len() ==> s[j] != c,
    ensures
        spec_find_from(s, c, i) == None::<int>,
    decreases s.len() - i,
{
    if i < s.len() {
        lemma_find_from_none_rec(s, c, i + 1);
    }
}

/// The position of the first tab character, if any.
pub fn find_tab(s: &str) -> (r: Option<usize>)
    ensures
        r matches Some(p) ==> spec_find_from(s@, '\t', 0) == Some(p as int) && p < s@.len(),
        r is None ==> spec_find_from(s@, '\t', 0) == None::<int>,
{
    let n = s.unicode_len();
    let mut i: usize = 0;
    while i < n
        invariant
            i <= n,
            n == s@.len(),
            forall|j: int| 0 <= j < i ==> s@[j] != '\t',
        decreases n - i,
    {
        if s.get_char(i) == '\t' {
            proof {
                lemma_find_from_some(s@, '\t', i as int);
            }
            return Some(i);
        }
        i = i + 1;
    }
    proof {
        lemma_find_from_none(s@, '\t');
    }
    None
}

/// The text split at newlines: each line without its terminator, and no
/// trailing empty line for text that ends in a newline.
pub open spec fn spec_lines(t: Seq<char>) -> Seq<Seq<char>>
    decreases t.len(),
{
    if t.len() == 0 {
        Seq::<Seq<char>>::empty()
    } else {
        match spec_find_from(t, '\n', 0) {
            None => seq![t],
            Some(p) => if 0 <= p < t.len() {
                seq![t.subrange(0, p)] + spec_lines(t.subrange(p + 1, t.len() as int))
            } else {
                seq![t]
            },
        }
    }
}

/// Splits accounting text into its lines.
pub fn split_lines(t: &str) -> (r: Vec<String>)
    ensures
        r.deep_view() == spec_lines(t@),
{
    let n = t.unicode_len();
    let mut out: Vec<String> = Vec::new();
    let mut start: usize = 0;
    let mut i: usize = 0;
    proof {
        assert(t@.subrange(0, n as int) =~= t@);
        assert(out.deep_view() =~= Seq::<Seq<char>>::empty());
        assert(out.deep_view() + spec_lines(t@) =~= spec_lines(t@));
    }
    while i < n
        invariant
            start <= i <= n,
            n == t@.len(),
            forall|j: int| start <= j < i ==> t@[j] != '\n',
            spec_lines(t@) == out.deep_view() + spec_lines(t@.subrange(start as int, n as int)),
        decreases n - i,
    {
        if t.get_char(i) == '\n' {
            let line = String::from_str(t.substring_char(start, i));
            let ghost prev = out.deep_view();
            let ghost rest = t@.subrange(start as int, n as int);
            proof {
                assert(rest.len() > 0);
                assert(rest[i as int - start] == '\n');
                assert(forall|j: int| 0 <= j < i as int - start ==> rest[j] != '\n');
                lemma_find_from_some(rest, '\n', i as int - start);
                assert(rest.subrange(0, i as int - start) =~= t@.subrange(
                    start as int,
                    i as int,
                ));
                assert(rest.subrange(i as int - start + 1, rest.len() as int) =~= t@.subrange(
                    i as int + 1,
                    n as int,
                ));
                assert(spec_lines(rest) == seq![t@.subrange(start as int, i as int)] + spec_lines(
                    t@.subrange(i as int + 1, n as int),
                ));
            }
            out.push(line);
            proof {
                assert(out.deep_view() =~= prev.push(line@));
            }
            start = i + 1;
            i = i + 1;
            proof {
                assert(spec_lines(t@) =~= out.deep_view() + spec_lines(
                    t@.subrange(start as int, n as int),
                ));
            }
        } else {
            i = i + 1;
        }
    }
    if start < n {
        let line = String::from_str(t.substring_char(start, n));
        let ghost prev = out.deep_view();
        let ghost rest = t@.subrange(start as int, n as int);
        proof {
            lemma_find_from_none(rest, '\n');
            assert(spec_lines(rest) == seq![rest]);
        }
        out.push(line);
        proof {
            assert(out.deep_view() =~= prev.push(line@));
            assert(out.deep_view() =~= spec_lines(t@));
        }
    } else {
        proof {
            assert(t@.subrange(start as int, n as int).len() == 0);
            assert(out.deep_view() =~= out.deep_view() + spec_lines(
                t@.subrange(start as int, n as int),
            ));
        }
    }
    out
}

} // verus!
