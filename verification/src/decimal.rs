//! Decimal text of natural numbers.

use vstd::prelude::*;

verus! {

/// The character of a decimal digit.
pub open spec fn digit_char(d: nat) -> char {
    (('0' as u32) + d) as char
}

/// Whether a character is a decimal digit.
pub open spec fn is_digit(c: char) -> bool {
    '0' <= c <= '9'
}

/// The digits of `n` in base ten, most significant first, without leading zeros.
pub open spec fn decimal(n: nat) -> Seq<char>
    decreases n,
{
    if n < 10 {
        seq![digit_char(n)]
    } else {
        decimal(n / 10).push(digit_char(n % 10))
    }
}

/// The decimal text of a number is made of digits, and there is at least one.
pub proof fn lemma_decimal_digits(n: nat)
    ensures
        decimal(n).len() >= 1,
        forall|i: int| 0 <= i < decimal(n).len() ==> is_digit(#[trigger] decimal(n)[i]),
    decreases n,
{
    if n >= 10 {
        lemma_decimal_digits(n / 10);
    }
}

/// Different numbers have different decimal texts.
pub proof fn law_decimal_is_injective(a: nat, b: nat)
    requires
        decimal(a) == decimal(b),
    ensures
        a == b,
    decreases a,
{
    lemma_decimal_digits(a / 10);
    lemma_decimal_digits(b / 10);
    assert(decimal(a).last() == digit_char(a % 10));
    assert(decimal(b).last() == digit_char(b % 10));
    assert(a % 10 == b % 10);
    if a >= 10 && b >= 10 {
        assert(decimal(a).drop_last() =~= decimal(a / 10));
        assert(decimal(b).drop_last() =~= decimal(b / 10));
        law_decimal_is_injective(a / 10, b / 10);
    }
}

/// The last character of a decimal text is the digit of the remainder by ten, and what stands before
/// it is the decimal text of a tenth of the number, where there is more than one digit.
pub proof fn law_decimal_is_made_digit_by_digit(n: nat)
    ensures
        decimal(n).len() >= 1,
        decimal(n).last() as int == 48 + n % 10,
        decimal(n).len() == 1 <==> n < 10,
        n >= 10 ==> decimal(n).drop_last() == decimal(n / 10),
{
    lemma_decimal_digits(n / 10);
    if n >= 10 {
        assert(decimal(n).drop_last() =~= decimal(n / 10));
    }
}

/// The number that a text stands for when it is read from left to right, where each further
/// character makes what was read ten times as much and adds its distance from `'0'`.
pub open spec fn value_of(text: Seq<char>) -> int
    decreases text.len(),
{
    if text.len() == 0 {
        0
    } else {
        10 * value_of(text.drop_last()) + (text.last() as int - 48)
    }
}

/// A text is a number as people write it: it has digits and nothing else, and does not begin with
/// a zero unless that is all of it.
pub open spec fn is_numeral(text: Seq<char>) -> bool {
    &&& text.len() >= 1
    &&& forall|i: int| 0 <= i < text.len() ==> '0' <= #[trigger] text[i] && text[i] <= '9'
    &&& text.len() >= 2 ==> text[0] != '0'
}

/// A further digit makes a number ten times as much and adds itself; without digits there is
/// nothing. A further digit behind a numeral makes a numeral unless the numeral is a lone zero.
pub proof fn law_numeral_grows_by_digits(text: Seq<char>, c: char)
    ensures
        value_of(Seq::<char>::empty()) == 0,
        value_of(text.push(c)) == 10 * value_of(text) + (c as int - 48),
        is_numeral(seq![c]) <==> 48 <= c as int <= 57,
        is_numeral(text) ==> (is_numeral(text.push(c)) <==> 48 <= c as int <= 57 && text[0] as int
            != 48),
{
    assert(text.push(c).drop_last() =~= text);
    let one = seq![c];
    assert(one[0] == c);
    if is_numeral(text) {
        let more = text.push(c);
        assert(more[text.len() as int] == c);
        assert(more[0] == text[0]);
        assert(forall|i: int| 0 <= i < text.len() ==> more[i] == #[trigger] text[i]);
    }
}

/// The decimal text of a number is a numeral that stands for that number.
pub proof fn law_decimal_is_read_back(n: nat)
    ensures
        is_numeral(decimal(n)),
        value_of(decimal(n)) == n,
        n > 0 ==> decimal(n)[0] != '0',
    decreases n,
{
    reveal_with_fuel(value_of, 2);
    lemma_decimal_digits(n);
    if n >= 10 {
        law_decimal_is_read_back(n / 10);
        let text = decimal(n);
        assert(text.drop_last() =~= decimal(n / 10));
        assert(text[0] == decimal(n / 10)[0]);
    } else {
        assert(decimal(n).drop_last() =~= Seq::<char>::empty());
    }
}

/// A numeral that does not begin with a zero stands for a positive number.
proof fn lemma_numeral_is_positive(text: Seq<char>)
    requires
        text.len() >= 1,
        forall|i: int| 0 <= i < text.len() ==> '0' <= #[trigger] text[i] && text[i] <= '9',
        text[0] != '0',
    ensures
        value_of(text) > 0,
    decreases text.len(),
{
    reveal_with_fuel(value_of, 2);
    let rest = text.drop_last();
    if text.len() >= 2 {
        assert forall|i: int| 0 <= i < rest.len() implies '0' <= #[trigger] rest[i] && rest[i]
            <= '9' by {
            assert(rest[i] == text[i]);
        }
        assert(rest[0] == text[0]);
        lemma_numeral_is_positive(rest);
        assert('0' <= text[text.len() - 1]);
    } else {
        assert(rest =~= Seq::<char>::empty());
        assert(text.last() == text[0]);
    }
}

/// Every numeral is the decimal text of the number that it stands for.
pub proof fn law_numeral_is_decimal(text: Seq<char>)
    requires
        is_numeral(text),
    ensures
        value_of(text) >= 0,
        decimal(value_of(text) as nat) == text,
    decreases text.len(),
{
    reveal_with_fuel(value_of, 2);
    let rest = text.drop_last();
    let last = text[text.len() - 1];
    assert('0' <= last && last <= '9');
    if text.len() >= 2 {
        assert forall|i: int| 0 <= i < rest.len() implies '0' <= #[trigger] rest[i] && rest[i]
            <= '9' by {
            assert(rest[i] == text[i]);
        }
        assert(rest[0] == text[0]);
        assert(is_numeral(rest));
        lemma_numeral_is_positive(rest);
        law_numeral_is_decimal(rest);
        let n = value_of(text) as nat;
        assert(n / 10 == value_of(rest) as nat && n % 10 == last as nat - 48);
        assert(decimal(n) =~= rest.push(last));
        assert(text =~= rest.push(last));
    } else {
        assert(rest =~= Seq::<char>::empty());
        assert(decimal(value_of(text) as nat) =~= text);
    }
}

/// The decimal text of a digit.
fn digit_text(d: u32) -> (text: &'static str)
    requires
        d < 10,
    ensures
        text@ == seq![digit_char(d as nat)],
{
    proof {
        reveal_strlit("0");
        reveal_strlit("1");
        reveal_strlit("2");
        reveal_strlit("3");
        reveal_strlit("4");
        reveal_strlit("5");
        reveal_strlit("6");
        reveal_strlit("7");
        reveal_strlit("8");
        reveal_strlit("9");
    }
    match d {
        0 => "0",
        1 => "1",
        2 => "2",
        3 => "3",
        4 => "4",
        5 => "5",
        6 => "6",
        7 => "7",
        8 => "8",
        _ => "9",
    }
}

/// The decimal text of a number.
pub fn decimal_text(n: u32) -> (text: String)
    ensures
        text@ == decimal(n as nat),
        is_numeral(text@),
        value_of(text@) == n,
    decreases n,
{
    proof {
        law_decimal_is_read_back(n as nat);
    }
    if n < 10 {
        digit_text(n).to_owned()
    } else {
        let mut text = decimal_text(n / 10);
        text.append(digit_text(n % 10));
        assert(text@ =~= decimal(n as nat));
        text
    }
}

} // verus!
