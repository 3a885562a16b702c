//! Verified fixed-width text rendering: decimal conversion and padding.

use vstd::prelude::*;

verus! {

/// The character for one decimal digit.
pub open spec fn spec_digit_char(d: nat) -> char {
    if d == 0 {
        '0'
    } else if d == 1 {
        '1'
    } else if d == 2 {
        '2'
    } else if d == 3 {
        '3'
    } else if d == 4 {
        '4'
    } else if d == 5 {
        '5'
    } else if d == 6 {
        '6'
    } else if d == 7 {
        '7'
    } else if d == 8 {
        '8'
    } else {
        '9'
    }
}

/// The decimal digit string of `n`, most significant digit first.
pub open spec fn spec_udec(n: nat) -> Seq<char>
    decreases n,
{
    if n < 10 {
        seq![spec_digit_char(n)]
    } else {
        spec_udec(n / 10).push(spec_digit_char(n % 10))
    }
}

/// The decimal string of a possibly negative value.
pub open spec fn spec_idec(v: int) -> Seq<char> {
    if v < 0 {
        seq!['-'] + spec_udec((-v) as nat)
    } else {
        spec_udec(v as nat)
    }
}

/// `n` spaces.
pub open spec fn spec_spaces(n: nat) -> Seq<char>
    decreases n,
{
    if n == 0 {
        Seq::<char>::empty()
    } else {
        spec_spaces((n - 1) as nat).push(' ')
    }
}

/// `s` right-aligned in a field of `w` characters; wider strings are kept whole.
pub open spec fn spec_pad_left(s: Seq<char>, w: nat) -> Seq<char> {
    if s.len() >= w {
        s
    } else {
        spec_spaces((w - s.len()) as nat) + s
    }
}

/// `s` left-aligned in a field of `w` characters; wider strings are kept whole.
pub open spec fn spec_pad_right(s: Seq<char>, w: nat) -> Seq<char> {
    if s.len() >= w {
        s
    } else {
        s + spec_spaces((w - s.len()) as nat)
    }
}

fn digit_str(d: u64) -> (r: &'static str)
    requires
        d < 10,
    ensures
        r@ == seq![spec_digit_char(d as nat)],
{
    let r: &'static str = if d == 0 {
        "0"
    } else if d == 1 {
        "1"
    } else if d == 2 {
        "2"
    } else if d == 3 {
        "3"
    } else if d == 4 {
        "4"
    } else if d == 5 {
        "5"
    } else if d == 6 {
        "6"
    } else if d == 7 {
        "7"
    } else if d == 8 {
        "8"
    } else {
        "9"
    };
    proof {
        reveal_strlit("0");
        reveal_strlit("1");
        reveal_strlit("2");
        reveal_strlit("3");
        reveal_strlit("4");
        reveal_strlit("5");
        reveal_strlit("6");
        reveal_strlit("7");
        reveal_strlit("8");
        reveal_strlit("9");
        assert(r@ =~= seq![spec_digit_char(d as nat)]);
    }
    r
}

/// Appends the decimal digits of `n` to `buf`.
pub fn push_u64(buf: &mut String, n: u64)
    ensures
        final(buf)@ == old(buf)@ + spec_udec(n as nat),
    decreases n,
{
    if n < 10 {
        buf.append(digit_str(n));
        assert(final(buf)@ =~= old(buf)@ + spec_udec(n as nat));
    } else {
        push_u64(buf, n / 10);
        buf.append(digit_str(n % 10));
        assert(final(buf)@ =~= old(buf)@ + spec_udec(n as nat));
    }
}

/// Appends the decimal digits of `v`, with a leading minus sign when negative.
pub fn push_i64(buf: &mut String, v: i64)
    ensures
        final(buf)@ == old(buf)@ + spec_idec(v as int),
{
    if v < 0 {
        let m: u64 = (-(v as i128)) as u64;
        buf.append("-");
        push_u64(buf, m);
        proof {
            reveal_strlit("-");
            assert("-"@ =~= seq!['-']);
            assert(final(buf)@ =~= old(buf)@ + spec_idec(v as int));
        }
    } else {
        push_u64(buf, v as u64);
    }
}

/// Appends `n` spaces to `buf`.
pub fn push_spaces(buf: &mut String, n: usize)
    ensures
        final(buf)@ == old(buf)@ + spec_spaces(n as nat),
{
    let mut i: usize = 0;
    while i < n
        invariant
            i <= n,
            buf@ == old(buf)@ + spec_spaces(i as nat),
        decreases n - i,
    {
        buf.append(" ");
        i = i + 1;
        proof {
            reveal_strlit(" ");
            assert(" "@ =~= seq![' ']);
            assert(buf@ =~= old(buf)@ + spec_spaces(i as nat));
        }
    }
}

/// Appends `n` right-aligned in a `width`-character field.
pub fn push_u64_padded(buf: &mut String, n: u64, width: usize)
    ensures
        final(buf)@ == old(buf)@ + spec_pad_left(spec_udec(n as nat), width as nat),
{
    let mut t = String::new();
    push_u64(&mut t, n);
    assert(t@ =~= spec_udec(n as nat));
    let l = t.as_str().unicode_len();
    if l < width {
        push_spaces(buf, width - l);
    }
    buf.append(t.as_str());
    assert(final(buf)@ =~= old(buf)@ + spec_pad_left(spec_udec(n as nat), width as nat));
}

/// Appends `v` right-aligned in a `width`-character field.
pub fn push_i64_padded(buf: &mut String, v: i64, width: usize)
    ensures
        final(buf)@ == old(buf)@ + spec_pad_left(spec_idec(v as int), width as nat),
{
    let mut t = String::new();
    push_i64(&mut t, v);
    assert(t@ =~= spec_idec(v as int));
    let l = t.as_str().unicode_len();
    if l < width {
        push_spaces(buf, width - l);
    }
    buf.append(t.as_str());
    assert(final(buf)@ =~= old(buf)@ + spec_pad_left(spec_idec(v as int), width as nat));
}

/// Appends `s` left-aligned in a `width`-character field.
pub fn push_str_padded_right(buf: &mut String, s: &str, width: usize)
    ensures
        final(buf)@ == old(buf)@ + spec_pad_right(s@, width as nat),
{
    let l = s.unicode_len();
    buf.append(s);
    if l < width {
        push_spaces(buf, width - l);
    }
    assert(final(buf)@ =~= old(buf)@ + spec_pad_right(s@, width as nat));
}

} // verus!
