//! Decimal notation and small text helpers shared by keys, file names and
//! the report.

use vstd::prelude::*;

verus! {

/// The character that writes the decimal digit `d`.
pub open spec fn digit_char(d: int) -> char {
    if d == 0 {
        '0'
    } else if d == 1 {
        '1'
    } else if d == 2 {
        '2'
    } else if d == 3 {
        '3'
    } else if d == 4 {
        '4'
    } else if d == 5 {
        '5'
    } else if d == 6 {
        '6'
    } else if d == 7 {
        '7'
    } else if d == 8 {
        '8'
    } else {
        '9'
    }
}

/// Decimal notation of `n`, without leading zeros (`0` is written "0").
pub open spec fn decimal(n: nat) -> Seq<char>
    decreases n,
{
    if n < 10 {
        seq![digit_char(n as int)]
    } else {
        decimal(n / 10).push(digit_char((n % 10) as int))
    }
}

/// Decimal notation of an integer: a minus sign before negative numbers.
pub open spec fn signed_decimal(i: int) -> Seq<char> {
    if i < 0 {
        seq!['-'] + decimal((-i) as nat)
    } else {
        decimal(i as nat)
    }
}

/// Decimal notation padded with a zero to at least two digits.
pub open spec fn two_digit(n: nat) -> Seq<char> {
    if n < 10 {
        seq!['0'] + decimal(n)
    } else {
        decimal(n)
    }
}

/// `count` copies of `c`.
pub open spec fn repeated(c: char, count: nat) -> Seq<char> {
    Seq::new(count, |i: int| c)
}

/// Distinct digits are written by distinct characters.
pub proof fn lemma_digit_char_injective(a: int, b: int)
    requires
        0 <= a < 10,
        0 <= b < 10,
        digit_char(a) == digit_char(b),
    ensures
        a == b,
{
}

/// A decimal notation is never empty, holds no hyphen, has two digits or
/// more from ten on, and starts with a zero only for the number zero.
pub proof fn lemma_decimal_shape(n: nat)
    ensures
        decimal(n).len() >= 1,
        forall|i: int| 0 <= i < decimal(n).len() ==> #[trigger] decimal(n)[i] != '-',
        n >= 10 ==> decimal(n).len() >= 2,
        n > 0 ==> decimal(n)[0] != '0',
    decreases n,
{
    if n >= 10 {
        lemma_decimal_shape(n / 10);
        let head = decimal(n / 10);
        let d = (n % 10) as int;
        assert(decimal(n) == head.push(digit_char(d)));
        assert forall|i: int| 0 <= i < decimal(n).len() implies #[trigger] decimal(n)[i]
            != '-' by {
            if i < head.len() {
                assert(decimal(n)[i] == head[i]);
            } else {
                assert(decimal(n)[i] == digit_char(d));
            }
        }
        assert(decimal(n)[0] == head[0]);
    }
}

/// Two numbers with the same decimal notation are the same number.
pub proof fn lemma_decimal_injective(a: nat, b: nat)
    requires
        decimal(a) == decimal(b),
    ensures
        a == b,
    decreases a,
{
    lemma_decimal_shape(a);
    lemma_decimal_shape(b);
    if a < 10 {
        if b >= 10 {
            lemma_decimal_shape(b / 10);
            assert(decimal(b).len() == decimal(b / 10).len() + 1);
            assert(false);
        }
        assert(decimal(a)[0] == digit_char(a as int));
        assert(decimal(b)[0] == digit_char(b as int));
        lemma_digit_char_injective(a as int, b as int);
    } else {
        if b < 10 {
            lemma_decimal_shape(a / 10);
            assert(decimal(a).len() == decimal(a / 10).len() + 1);
            assert(false);
        }
        let ha = decimal(a / 10);
        let hb = decimal(b / 10);
        let da = digit_char((a % 10) as int);
        let db = digit_char((b % 10) as int);
        assert(decimal(a) == ha.push(da));
        assert(decimal(b) == hb.push(db));
        assert(ha.len() == hb.len());
        assert(ha.push(da).drop_last() == ha);
        assert(hb.push(db).drop_last() == hb);
        assert(ha == hb);
        assert(ha.push(da).last() == da);
        assert(hb.push(db).last() == db);
        lemma_digit_char_injective((a % 10) as int, (b % 10) as int);
        lemma_decimal_injective(a / 10, b / 10);
    }
}

/// Two integers with the same signed decimal notation are the same integer.
pub proof fn lemma_signed_decimal_injective(a: int, b: int)
    requires
        signed_decimal(a) == signed_decimal(b),
    ensures
        a == b,
{
    let na = if a < 0 { (-a) as nat } else { a as nat };
    let nb = if b < 0 { (-b) as nat } else { b as nat };
    lemma_decimal_shape(na);
    lemma_decimal_shape(nb);
    if a < 0 {
        assert(signed_decimal(a)[0] == '-');
        if b >= 0 {
            assert(signed_decimal(b)[0] == decimal(nb)[0]);
            assert(false);
        }
        assert((seq!['-'] + decimal(na)).subrange(1, 1 + decimal(na).len() as int) == decimal(na));
        assert((seq!['-'] + decimal(nb)).subrange(1, 1 + decimal(nb).len() as int) == decimal(nb));
        assert(signed_decimal(a).len() == 1 + decimal(na).len());
        assert(signed_decimal(b).len() == 1 + decimal(nb).len());
        lemma_decimal_injective(na, nb);
    } else {
        if b < 0 {
            assert(signed_decimal(b)[0] == '-');
            assert(signed_decimal(a)[0] == decimal(na)[0]);
            assert(false);
        }
        lemma_decimal_injective(na, nb);
    }
}

/// Two numbers with the same two-digit notation are the same number.
pub proof fn lemma_two_digit_injective(a: nat, b: nat)
    requires
        two_digit(a) == two_digit(b),
    ensures
        a == b,
{
    lemma_decimal_shape(a);
    lemma_decimal_shape(b);
    if a < 10 && b < 10 {
        assert((seq!['0'] + decimal(a))[1] == decimal(a)[0]);
        assert((seq!['0'] + decimal(b))[1] == decimal(b)[0]);
        lemma_digit_char_injective(a as int, b as int);
    } else if a < 10 {
        assert(two_digit(a)[0] == '0');
        assert(two_digit(b)[0] == decimal(b)[0]);
        assert(false);
    } else if b < 10 {
        assert(two_digit(b)[0] == '0');
        assert(two_digit(a)[0] == decimal(a)[0]);
        assert(false);
    } else {
        lemma_decimal_injective(a, b);
    }
}

/// The two-digit notation holds digits only and at least two of them.
pub proof fn lemma_two_digit_shape(n: nat)
    ensures
        two_digit(n).len() >= 2,
        forall|i: int| 0 <= i < two_digit(n).len() ==> #[trigger] two_digit(n)[i] != '-',
{
    lemma_decimal_shape(n);
    if n < 10 {
        assert forall|i: int| 0 <= i < two_digit(n).len() implies #[trigger] two_digit(n)[i]
            != '-' by {
            if i >= 1 {
                assert(two_digit(n)[i] == decimal(n)[i - 1]);
            }
        }
    }
}

/// The text of one decimal digit.
fn digit_text(d: u64) -> (r: &'static str)
    requires
        d < 10,
    ensures
        r@ == seq![digit_char(d as int)],
{
    proof {
        reveal_strlit("0");
        reveal_strlit("1");
        reveal_strlit("2");
        reveal_strlit("3");
        reveal_strlit("4");
        reveal_strlit("5");
        reveal_strlit("6");
        reveal_strlit("7");
        reveal_strlit("8");
        reveal_strlit("9");
    }
    let r = if d == 0 {
        "0"
    } else if d == 1 {
        "1"
    } else if d == 2 {
        "2"
    } else if d == 3 {
        "3"
    } else if d == 4 {
        "4"
    } else if d == 5 {
        "5"
    } else if d == 6 {
        "6"
    } else if d == 7 {
        "7"
    } else if d == 8 {
        "8"
    } else {
        "9"
    };
    assert(r@ =~= seq![digit_char(d as int)]);
    r
}

/// Appends the decimal notation of `n` to `out`.
pub fn push_decimal(out: &mut String, n: u64)
    ensures
        final(out)@ == old(out)@ + decimal(n as nat),
    decreases n,
{
    if n >= 10 {
        push_decimal(out, n / 10);
    }
    out.append(digit_text(n % 10));
    proof {
        if n >= 10 {
            assert(out@ =~= old(out)@ + decimal(n as nat));
        } else {
            assert(out@ =~= old(out)@ + decimal(n as nat));
        }
    }
}

/// Appends the signed decimal notation of `i` to `out`.
pub fn push_signed_decimal(out: &mut String, i: i64)
    requires
        i > i64::MIN,
    ensures
        final(out)@ == old(out)@ + signed_decimal(i as int),
{
    if i < 0 {
        proof {
            reveal_strlit("-");
        }
        out.append("-");
        let m: i64 = -i;
        push_decimal(out, m as u64);
        assert(out@ =~= old(out)@ + signed_decimal(i as int));
    } else {
        push_decimal(out, i as u64);
    }
}

/// Appends the decimal notation of `n`, padded with a zero to two digits.
pub fn push_two_digit(out: &mut String, n: u64)
    ensures
        final(out)@ == old(out)@ + two_digit(n as nat),
{
    if n < 10 {
        proof {
            reveal_strlit("0");
        }
        out.append("0");
    }
    push_decimal(out, n);
    assert(out@ =~= old(out)@ + two_digit(n as nat));
}

/// Appends `count` copies of the one-character text `unit`.
pub fn push_repeated(out: &mut String, unit: &str, count: usize)
    requires
        unit@.len() == 1,
    ensures
        final(out)@ == old(out)@ + repeated(unit@[0], count as nat),
{
    let mut i: usize = 0;
    while i < count
        invariant
            i <= count,
            unit@.len() == 1,
            out@ == old(out)@ + repeated(unit@[0], i as nat),
        decreases count - i,
    {
        out.append(unit);
        i = i + 1;
        assert(out@ =~= old(out)@ + repeated(unit@[0], i as nat));
    }
}

} // verus!
