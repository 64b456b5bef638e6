//! Numbers as text.

use vstd::prelude::*;

verus! {

/// The character of the digit `d`, in lower case.
pub open spec fn digit_char(d: nat) -> char {
    if d == 0 {
        '0'
    } else if d == 1 {
        '1'
    } else if d == 2 {
        '2'
    } else if d == 3 {
        '3'
    } else if d == 4 {
        '4'
    } else if d == 5 {
        '5'
    } else if d == 6 {
        '6'
    } else if d == 7 {
        '7'
    } else if d == 8 {
        '8'
    } else if d == 9 {
        '9'
    } else if d == 10 {
        'a'
    } else if d == 11 {
        'b'
    } else if d == 12 {
        'c'
    } else if d == 13 {
        'd'
    } else if d == 14 {
        'e'
    } else {
        'f'
    }
}

/// The hexadecimal digits of `n`, most significant first and without
/// leading zeros; the single digit zero for zero.
pub open spec fn hex_digits(n: nat) -> Seq<char>
    decreases n,
{
    if n < 16 {
        seq![digit_char(n)]
    } else {
        hex_digits(n / 16).push(digit_char(n % 16))
    }
}

/// The decimal digits of `n`, most significant first and without leading
/// zeros; the single digit zero for zero.
pub open spec fn decimal_digits(n: nat) -> Seq<char>
    decreases n,
{
    if n < 10 {
        seq![digit_char(n)]
    } else {
        decimal_digits(n / 10).push(digit_char(n % 10))
    }
}

/// The digits of `n` to the base `base`, which is sixteen or ten.
pub open spec fn digits(n: nat, base: nat) -> Seq<char> {
    if base == 16 {
        hex_digits(n)
    } else {
        decimal_digits(n)
    }
}

/// `text` behind as many zeros as it lacks to be `width` characters long.
pub open spec fn zero_padded(text: Seq<char>, width: nat) -> Seq<char> {
    if text.len() >= width {
        text
    } else {
        Seq::new((width - text.len()) as nat, |i: int| '0') + text
    }
}

/// The decimal text of a signed number.
pub open spec fn signed_decimal(n: int) -> Seq<char> {
    if n < 0 {
        seq!['-'] + digits((-n) as nat, 10)
    } else {
        digits(n as nat, 10)
    }
}

/// The digits of `low_first`, read from its last to its first.
pub open spec fn digits_reversed(low_first: Seq<u8>) -> Seq<char> {
    Seq::new(low_first.len(), |i: int| digit_char(low_first[low_first.len() - 1 - i] as nat))
}

fn push_digit(out: &mut String, d: u8)
    requires
        d < 16,
    ensures
        final(out)@ == old(out)@.push(digit_char(d as nat)),
{
    proof {
        reveal_strlit("0");
        reveal_strlit("1");
        reveal_strlit("2");
        reveal_strlit("3");
        reveal_strlit("4");
        reveal_strlit("5");
        reveal_strlit("6");
        reveal_strlit("7");
        reveal_strlit("8");
        reveal_strlit("9");
        reveal_strlit("a");
        reveal_strlit("b");
        reveal_strlit("c");
        reveal_strlit("d");
        reveal_strlit("e");
        reveal_strlit("f");
    }
    let text = if d == 0 {
        "0"
    } else if d == 1 {
        "1"
    } else if d == 2 {
        "2"
    } else if d == 3 {
        "3"
    } else if d == 4 {
        "4"
    } else if d == 5 {
        "5"
    } else if d == 6 {
        "6"
    } else if d == 7 {
        "7"
    } else if d == 8 {
        "8"
    } else if d == 9 {
        "9"
    } else if d == 10 {
        "a"
    } else if d == 11 {
        "b"
    } else if d == 12 {
        "c"
    } else if d == 13 {
        "d"
    } else if d == 14 {
        "e"
    } else {
        "f"
    };
    out.append(text);
    assert(out@ =~= old(out)@.push(digit_char(d as nat)));
}

/// Appends the digits of `n` to the base `base`, behind as many zeros as
/// they lack to be `width` characters long.
pub fn push_number(out: &mut String, n: u64, base: u64, width: usize)
    requires
        base == 10 || base == 16,
    ensures
        final(out)@ == old(out)@ + zero_padded(digits(n as nat, base as nat), width as nat),
{
    let mut low_first: Vec<u8> = Vec::new();
    let mut left = n;
    assert(digits_reversed(low_first@) =~= Seq::<char>::empty());
    assert(digits(left as nat, base as nat) + Seq::<char>::empty() =~= digits(
        left as nat,
        base as nat,
    ));
    while left >= base
        invariant
            base == 10 || base == 16,
            digits(n as nat, base as nat) == digits(left as nat, base as nat) + digits_reversed(
                low_first@,
            ),
            forall|i: int| 0 <= i < low_first@.len() ==> #[trigger] low_first@[i] < 16,
        decreases left,
    {
        let ghost before = low_first@;
        let digit = (left % base) as u8;
        low_first.push(digit);
        proof {
            assert(digits(left as nat, base as nat) == digits(
                (left / base) as nat,
                base as nat,
            ).push(digit_char(digit as nat)));
            assert(digits_reversed(low_first@) =~= seq![digit_char(digit as nat)]
                + digits_reversed(before));
            assert(digits((left / base) as nat, base as nat).push(digit_char(digit as nat))
                + digits_reversed(before) =~= digits((left / base) as nat, base as nat)
                + digits_reversed(low_first@));
        }
        left = left / base;
    }
    let ghost before = low_first@;
    low_first.push(left as u8);
    proof {
        assert(digits_reversed(low_first@) =~= seq![digit_char(left as nat)] + digits_reversed(
            before,
        ));
        assert(digits(n as nat, base as nat) == digits_reversed(low_first@));
    }
    let ghost text = digits(n as nat, base as nat);
    let mut padded = low_first.len();
    proof {
        reveal_strlit("0");
        assert(out@ =~= old(out)@ + Seq::new(0nat, |i: int| '0'));
    }
    while padded < width
        invariant
            low_first@.len() <= padded,
            padded <= width || padded == low_first@.len(),
            out@ == old(out)@ + Seq::new((padded - low_first@.len()) as nat, |i: int| '0'),
        decreases width - padded,
    {
        proof {
            reveal_strlit("0");
        }
        out.append("0");
        padded = padded + 1;
        assert(out@ =~= old(out)@ + Seq::new((padded - low_first@.len()) as nat, |i: int| '0'));
    }
    let ghost start = out@;
    assert(start + text =~= old(out)@ + zero_padded(text, width as nat));
    let mut remaining = low_first.len();
    assert(start =~= start + text.take(0));
    while remaining > 0
        invariant
            remaining <= low_first@.len(),
            text == digits_reversed(low_first@),
            forall|i: int| 0 <= i < low_first@.len() ==> #[trigger] low_first@[i] < 16,
            out@ == start + text.take(low_first@.len() - remaining),
        decreases remaining,
    {
        remaining = remaining - 1;
        push_digit(out, low_first[remaining]);
        assert(out@ =~= start + text.take(low_first@.len() - remaining));
    }
    assert(text.take(low_first@.len() as int) =~= text);
}

/// Appends the decimal text of a signed number.
pub fn push_signed(out: &mut String, n: i32)
    ensures
        final(out)@ == old(out)@ + signed_decimal(n as int),
{
    if n < 0 {
        proof {
            reveal_strlit("-");
        }
        out.append("-");
        let ghost with_sign = out@;
        let positive = (-(n as i64)) as u64;
        push_number(out, positive, 10, 0);
        assert(out@ =~= old(out)@ + signed_decimal(n as int));
    } else {
        push_number(out, n as u64, 10, 0);
    }
}

} // verus!
