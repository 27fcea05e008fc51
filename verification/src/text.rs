//! Rendering of the numbers and shapes that identifiers and diagnostics
//! are made of.

use vstd::prelude::*;

verus! {

/// The text of one decimal digit.
pub open spec fn digit_text(d: nat) -> Seq<char> {
    if d == 0 {
        "0"@
    } else if d == 1 {
        "1"@
    } else if d == 2 {
        "2"@
    } else if d == 3 {
        "3"@
    } else if d == 4 {
        "4"@
    } else if d == 5 {
        "5"@
    } else if d == 6 {
        "6"@
    } else if d == 7 {
        "7"@
    } else if d == 8 {
        "8"@
    } else {
        "9"@
    }
}

/// The decimal text of a natural number, without leading zeros.
pub open spec fn decimal(n: nat) -> Seq<char>
    decreases n,
{
    if n < 10 {
        digit_text(n)
    } else {
        decimal(n / 10) + digit_text(n % 10)
    }
}

/// The decimal text of an integer, with a leading minus where it is negative.
pub open spec fn signed_decimal(i: int) -> Seq<char> {
    if i < 0 {
        "-"@ + decimal((-i) as nat)
    } else {
        decimal(i as nat)
    }
}

/// The dimensions of a shape, separated by a comma and a space.
pub open spec fn dimensions_text(shape: Seq<u64>) -> Seq<char>
    decreases shape.len(),
{
    if shape.len() == 0 {
        Seq::empty()
    } else if shape.len() == 1 {
        decimal(shape[0] as nat)
    } else {
        dimensions_text(shape.drop_last()) + ", "@ + decimal(shape.last() as nat)
    }
}

/// A shape as a bracketed list of its dimensions.
pub open spec fn shape_text(shape: Seq<u64>) -> Seq<char> {
    "["@ + dimensions_text(shape) + "]"@
}

/// Whether a character is a decimal digit.
pub open spec fn is_digit(c: char) -> bool {
    '0' <= c <= '9'
}

/// One digit is one character, a different one for each.
proof fn lemma_digit_text(d: nat)
    requires
        d < 10,
    ensures
        digit_text(d).len() == 1,
        is_digit(digit_text(d)[0]),
        digit_text(d)[0] as int == '0' as int + d,
{
    reveal_strlit("0");
    reveal_strlit("1");
    reveal_strlit("2");
    reveal_strlit("3");
    reveal_strlit("4");
    reveal_strlit("5");
    reveal_strlit("6");
    reveal_strlit("7");
    reveal_strlit("8");
    reveal_strlit("9");
}

/// The decimal text of a number is made of digits.
pub proof fn lemma_decimal_is_digits(n: nat)
    ensures
        decimal(n).len() >= 1,
        forall|i: int| 0 <= i < decimal(n).len() ==> is_digit(#[trigger] decimal(n)[i]),
    decreases n,
{
    if n < 10 {
        lemma_digit_text(n);
    } else {
        lemma_decimal_is_digits(n / 10);
        lemma_digit_text(n % 10);
    }
}

/// Numbers of one decimal text are equal.
pub proof fn lemma_decimal_injective(a: nat, b: nat)
    requires
        decimal(a) == decimal(b),
    ensures
        a == b,
    decreases a,
{
    if a < 10 {
        lemma_digit_text(a);
    } else {
        lemma_digit_text(a % 10);
        lemma_decimal_is_digits(a / 10);
    }
    if b < 10 {
        lemma_digit_text(b);
    } else {
        lemma_digit_text(b % 10);
        lemma_decimal_is_digits(b / 10);
    }
    if a >= 10 && b >= 10 {
        assert(decimal(a).last() == digit_text(a % 10)[0]);
        assert(decimal(b).last() == digit_text(b % 10)[0]);
        assert(decimal(a / 10) =~= decimal(a).drop_last());
        assert(decimal(b / 10) =~= decimal(b).drop_last());
        lemma_decimal_injective(a / 10, b / 10);
    }
}

fn digit_str(d: u64) -> (text: &'static str)
    requires
        d < 10,
    ensures
        text@ == digit_text(d as nat),
{
    if d == 0 {
        "0"
    } else if d == 1 {
        "1"
    } else if d == 2 {
        "2"
    } else if d == 3 {
        "3"
    } else if d == 4 {
        "4"
    } else if d == 5 {
        "5"
    } else if d == 6 {
        "6"
    } else if d == 7 {
        "7"
    } else if d == 8 {
        "8"
    } else {
        "9"
    }
}

/// Appends the decimal text of `n`.
pub fn push_decimal(out: &mut String, n: u64)
    ensures
        final(out)@ == old(out)@ + decimal(n as nat),
    decreases n,
{
    if n < 10 {
        out.append(digit_str(n));
    } else {
        push_decimal(out, n / 10);
        out.append(digit_str(n % 10));
        assert(decimal(n as nat) == decimal((n / 10) as nat) + digit_text((n % 10) as nat));
        assert(out@ =~= old(out)@ + decimal(n as nat));
    }
}

/// Appends the decimal text of `i`.
pub fn push_signed(out: &mut String, i: i64)
    ensures
        final(out)@ == old(out)@ + signed_decimal(i as int),
{
    if i < 0 {
        out.append("-");
        let magnitude: u64 = (-(i as i128)) as u64;
        push_decimal(out, magnitude);
        assert(out@ =~= old(out)@ + signed_decimal(i as int));
    } else {
        push_decimal(out, i as u64);
    }
}

/// Appends a shape as a bracketed list.
pub fn push_shape(out: &mut String, shape: &Vec<u64>)
    ensures
        final(out)@ == old(out)@ + shape_text(shape@),
{
    let ghost start = out@;
    out.append("[");
    let mut i: usize = 0;
    while i < shape.len()
        invariant
            i <= shape@.len(),
            out@ == start + "["@ + dimensions_text(shape@.take(i as int)),
        decreases shape@.len() - i,
    {
        let ghost before = out@;
        if i > 0 {
            out.append(", ");
        }
        push_decimal(out, shape[i]);
        proof {
            let next = shape@.take(i + 1);
            assert(next.drop_last() =~= shape@.take(i as int));
            assert(next.last() == shape@[i as int]);
            if i == 0 {
                assert(dimensions_text(shape@.take(0)) =~= Seq::<char>::empty());
                assert(next[0] == shape@[0]);
                assert(out@ =~= start + "["@ + dimensions_text(next));
            } else {
                assert(out@ =~= start + "["@ + dimensions_text(next));
            }
        }
        i += 1;
    }
    out.append("]");
    assert(shape@.take(shape@.len() as int) =~= shape@);
    assert(out@ =~= start + shape_text(shape@));
}

/// Whether an owned text equals a given one.
pub fn text_is(text: &String, other: &str) -> (same: bool)
    ensures
        same == (text@ == other@),
{
    *text == other.to_owned()
}

/// Whether two shapes are the same list of dimensions.
pub fn shapes_equal(a: &Vec<u64>, b: &Vec<u64>) -> (same: bool)
    ensures
        same == (a@ == b@),
{
    if a.len() != b.len() {
        return false;
    }
    let mut i: usize = 0;
    while i < a.len()
        invariant
            i <= a@.len(),
            a@.len() == b@.len(),
            forall|j: int| 0 <= j < i ==> a@[j] == b@[j],
        decreases a@.len() - i,
    {
        if a[i] != b[i] {
            return false;
        }
        i += 1;
    }
    assert(a@ =~= b@);
    true
}

/// The number that a text of digits stands for, the first digit counting most.
pub open spec fn decimal_value(text: Seq<char>) -> int
    decreases text.len(),
{
    if text.len() == 0 {
        0
    } else {
        10 * decimal_value(text.drop_last()) + (text.last() as int - '0' as int)
    }
}

/// The decimal text of a number stands for that number, and does not begin with
/// a zero unless that is all of it.
pub proof fn law_decimal_stands_for_its_number(n: nat)
    ensures
        decimal_value(decimal(n)) == n,
        decimal(n).len() > 1 ==> decimal(n)[0] != '0',
    decreases n,
{
    if n < 10 {
        lemma_digit_text(n);
        assert(decimal(n).drop_last() =~= Seq::<char>::empty());
        assert(decimal_value(Seq::<char>::empty()) == 0);
    } else {
        law_decimal_stands_for_its_number(n / 10);
        lemma_decimal_is_digits(n / 10);
        lemma_digit_text(n % 10);
        assert(decimal(n).drop_last() =~= decimal(n / 10));
        assert(decimal(n).last() == digit_text(n % 10)[0]);
        assert(decimal(n)[0] == decimal(n / 10)[0]);
        if n / 10 < 10 {
            lemma_digit_text(n / 10);
        } else {
            lemma_decimal_is_digits(n / 10 / 10);
            lemma_digit_text(n / 10 % 10);
        }
    }
}

/// A negative number has a minus before the text of what it is short of zero.
pub proof fn law_signs_are_told(i: int)
    ensures
        i >= 0 ==> decimal_value(signed_decimal(i)) == i,
        i < 0 ==> signed_decimal(i)[0] == '-' && decimal_value(signed_decimal(i).drop_first()) == -i,
{
    if i < 0 {
        reveal_strlit("-");
        law_decimal_stands_for_its_number((-i) as nat);
        assert(signed_decimal(i).drop_first() =~= decimal((-i) as nat));
    } else {
        law_decimal_stands_for_its_number(i as nat);
    }
}

/// A shape is told as its dimensions in order, in brackets.
pub proof fn law_shapes_are_told_in_order(shape: Seq<u64>, dimension: u64)
    ensures
        shape_text(Seq::empty()) == "[]"@,
        shape_text(seq![dimension]) == "["@ + decimal(dimension as nat) + "]"@,
        shape.len() > 0 ==> shape_text(shape.push(dimension)) == shape_text(shape).drop_last()
            + ", "@ + decimal(dimension as nat) + "]"@,
{
    reveal_strlit("[]");
    reveal_strlit("[");
    reveal_strlit("]");
    assert(shape_text(Seq::empty()) =~= "[]"@);
    if shape.len() > 0 {
        let longer = shape.push(dimension);
        assert(longer.drop_last() =~= shape);
        assert(shape_text(longer) =~= shape_text(shape).drop_last() + ", "@ + decimal(
            dimension as nat,
        ) + "]"@);
    }
}

} // verus!
