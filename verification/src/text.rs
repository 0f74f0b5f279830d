//! Numbers as text.

use vstd::prelude::*;

verus! {

/// The digits of every base up to sixteen.
pub const DIGITS: &'static str = "0123456789abcdef";

/// The digit of value `d`.
pub open spec fn digit_char(d: int) -> char {
    DIGITS@[d]
}

/// A number in base ten, without leading zeros.
pub open spec fn decimal(n: nat) -> Seq<char>
    decreases n,
{
    if n < 10 {
        seq![digit_char(n as int)]
    } else {
        decimal(n / 10).push(digit_char((n % 10) as int))
    }
}

/// The last `width` digits of a number in base sixteen.
pub open spec fn hexadecimal(n: nat, width: nat) -> Seq<char>
    decreases width,
{
    if width == 0 {
        Seq::empty()
    } else {
        hexadecimal(n / 16, (width - 1) as nat).push(digit_char((n % 16) as int))
    }
}

/// Numbers in base ten, with a comma and a space between any two.
pub open spec fn joined(values: Seq<u8>) -> Seq<char>
    decreases values.len(),
{
    if values.len() == 0 {
        Seq::empty()
    } else if values.len() == 1 {
        decimal(values[0] as nat)
    } else {
        joined(values.drop_last()) + ", "@ + decimal(values.last() as nat)
    }
}

/// A list of numbers in brackets.
pub open spec fn bracketed(values: Seq<u8>) -> Seq<char> {
    "["@ + joined(values) + "]"@
}

/// The digit of value `d` as text.
fn digit_text(d: u16) -> (text: &'static str)
    requires
        d < 16,
    ensures
        text@ == seq![digit_char(d as int)],
{
    proof {
        reveal_strlit("0123456789abcdef");
    }
    let text = DIGITS.substring_char(d as usize, d as usize + 1);
    assert(text@ =~= seq![digit_char(d as int)]);
    text
}

/// A number in base ten.
pub fn decimal_text(n: u16) -> (text: String)
    ensures
        text@ == decimal(n as nat),
    decreases n,
{
    let mut text = if n < 10 {
        String::new()
    } else {
        decimal_text(n / 10)
    };
    let ghost before = text@;
    text.append(digit_text(n % 10));
    assert(text@ =~= before.push(digit_char((n % 10) as int)));
    if n < 10 {
        assert(text@ =~= seq![digit_char(n as int)]);
    }
    text
}

/// The last `width` digits of a number in base sixteen.
pub fn hexadecimal_text(n: u16, width: u8) -> (text: String)
    ensures
        text@ == hexadecimal(n as nat, width as nat),
    decreases width,
{
    if width == 0 {
        return String::new();
    }
    let mut text = hexadecimal_text(n / 16, width - 1);
    let ghost before = text@;
    text.append(digit_text(n % 16));
    assert(text@ =~= before.push(digit_char((n % 16) as int)));
    text
}

/// A list of numbers in brackets.
pub fn bracketed_text(values: &Vec<u8>) -> (text: String)
    ensures
        text@ == bracketed(values@),
{
    let mut text = "[".to_owned();
    let mut at: usize = 0;
    assert(text@ + joined(values@.take(0)) =~= text@);
    while at < values.len()
        invariant
            at <= values@.len(),
            text@ == "["@ + joined(values@.take(at as int)),
        decreases values@.len() - at,
    {
        let ghost grown = values@.take(at + 1);
        assert(grown.drop_last() =~= values@.take(at as int));
        let ghost before = joined(values@.take(at as int));
        if at > 0 {
            text.append(", ");
        }
        text.append(decimal_text(values[at] as u16).as_str());
        assert(text@ =~= "["@ + joined(grown));
        at = at + 1;
    }
    assert(values@.take(at as int) =~= values@);
    text.append("]");
    text
}

/// The value of a digit of any base up to sixteen.
pub open spec fn digit_value(digit: char) -> int {
    if '0' <= digit <= '9' {
        digit as int - '0' as int
    } else {
        digit as int - 'a' as int + 10
    }
}

/// The character is a digit of the base.
pub open spec fn is_digit(digit: char, base: int) -> bool {
    &&& '0' <= digit <= '9' || 'a' <= digit <= 'f'
    &&& digit_value(digit) < base
}

/// The number that a text of digits stands for, the most significant first.
pub open spec fn value_of(text: Seq<char>, base: int) -> int
    decreases text.len(),
{
    if text.len() == 0 {
        0
    } else {
        value_of(text.drop_last(), base) * base + digit_value(text.last())
    }
}

/// The text is the way to write `n` in base ten: digits only, no leading zero
/// but for zero itself, and read as a number it is `n`.
pub open spec fn is_decimal_of(text: Seq<char>, n: int) -> bool {
    &&& text.len() > 0
    &&& forall|i: int| 0 <= i < text.len() ==> is_digit(#[trigger] text[i], 10)
    &&& text.len() > 1 ==> text[0] != '0'
    &&& value_of(text, 10) == n
}

/// The text is the way to write `n` in base sixteen with `width` digits: read
/// as a number it is `n`.
pub open spec fn is_hexadecimal_of(text: Seq<char>, n: int, width: int) -> bool {
    &&& text.len() == width
    &&& forall|i: int| 0 <= i < text.len() ==> is_digit(#[trigger] text[i], 16)
    &&& value_of(text, 16) == n
}

proof fn lemma_digit_has_its_value(d: int)
    requires
        0 <= d < 16,
    ensures
        digit_value(digit_char(d)) == d,
        is_digit(digit_char(d), 16),
        d < 10 ==> is_digit(digit_char(d), 10),
        digit_char(d) == '0' ==> d == 0,
{
    reveal_strlit("0123456789abcdef");
}

/// A number in base ten is written as one writes it.
pub proof fn lemma_decimal_is_written(n: nat)
    ensures
        is_decimal_of(decimal(n), n as int),
        n > 0 ==> decimal(n)[0] != '0',
    decreases n,
{
    if n < 10 {
        lemma_digit_has_its_value(n as int);
        assert(decimal(n).drop_last() =~= Seq::<char>::empty());
        assert(value_of(Seq::<char>::empty(), 10) == 0);
    } else {
        lemma_decimal_is_written(n / 10);
        lemma_digit_has_its_value((n % 10) as int);
        assert(decimal(n).drop_last() =~= decimal(n / 10));
        assert(n / 10 > 0);
    }
}

/// Sixteen to the power of `width`.
pub open spec fn sixteens(width: nat) -> nat
    decreases width,
{
    if width == 0 {
        1
    } else {
        16 * sixteens((width - 1) as nat)
    }
}

/// A number in base sixteen is written as one writes it, where the width has
/// room for it.
pub proof fn lemma_hexadecimal_is_written(n: nat, width: nat)
    requires
        n < sixteens(width),
    ensures
        is_hexadecimal_of(hexadecimal(n, width), n as int, width as int),
    decreases width,
{
    if width > 0 {
        lemma_hexadecimal_is_written(n / 16, (width - 1) as nat);
        lemma_digit_has_its_value((n % 16) as int);
        assert(hexadecimal(n, width).drop_last() =~= hexadecimal(n / 16, (width - 1) as nat));
    }
}

/// A number's text in base ten reads back as the number and has no leading
/// zero, so it is the only such text.
pub proof fn law_decimal_text_reads_back(n: u16, text: String)
    requires
        call_ensures(decimal_text, (n,), text),
    ensures
        is_decimal_of(text@, n as int),
{
    lemma_decimal_is_written(n as nat);
}

/// A number's text in base sixteen has the width that was asked for and reads
/// back as the number, wherever the width has room for it.
pub proof fn law_hexadecimal_text_reads_back(n: u16, width: u8, text: String)
    requires
        call_ensures(hexadecimal_text, (n, width), text),
    ensures
        text@.len() == width,
        n < sixteens(width as nat) ==> is_hexadecimal_of(text@, n as int, width as int),
{
    lemma_hexadecimal_has_its_width(n as nat, width as nat);
    if n < sixteens(width as nat) {
        lemma_hexadecimal_is_written(n as nat, width as nat);
    }
}

proof fn lemma_hexadecimal_has_its_width(n: nat, width: nat)
    ensures
        hexadecimal(n, width).len() == width,
    decreases width,
{
    if width > 0 {
        lemma_hexadecimal_has_its_width(n / 16, (width - 1) as nat);
    }
}

proof fn lemma_wider_number_ends_the_same(n: nat, width: nat)
    ensures
        hexadecimal(n, width + 1).skip(1) == hexadecimal(n, width),
    decreases width,
{
    lemma_hexadecimal_has_its_width(n, width);
    lemma_hexadecimal_has_its_width(n, width + 1);
    if width > 0 {
        lemma_wider_number_ends_the_same(n / 16, (width - 1) as nat);
        assert(hexadecimal(n, width + 1).skip(1) =~= hexadecimal(n / 16, width).skip(1).push(
            digit_char((n % 16) as int),
        ));
    } else {
        assert(hexadecimal(n, width + 1).skip(1) =~= hexadecimal(n, width));
    }
}

/// A number written with one digit more ends in the same digits: a width that
/// has no room for a number keeps its last ones.
pub proof fn law_wider_number_ends_in_the_same_digits(
    n: u16,
    width: u8,
    text: String,
    wider: String,
)
    requires
        width < u8::MAX,
        call_ensures(hexadecimal_text, (n, width), text),
        call_ensures(hexadecimal_text, (n, (width + 1) as u8), wider),
    ensures
        wider@.skip(1) == text@,
{
    lemma_wider_number_ends_the_same(n as nat, width as nat);
}

proof fn lemma_joined_lists_are_joined(left: Seq<u8>, right: Seq<u8>)
    requires
        left.len() > 0,
        right.len() > 0,
    ensures
        joined(left + right) == joined(left) + ", "@ + joined(right),
    decreases right.len(),
{
    let all = left + right;
    assert(all.drop_last() =~= left + right.drop_last());
    assert(all.last() == right.last());
    if right.len() == 1 {
        assert(all.drop_last() =~= left);
    } else {
        lemma_joined_lists_are_joined(left, right.drop_last());
    }
    assert(joined(all) =~= joined(left) + ", "@ + joined(right));
}

/// The text of a list that is two lists one after the other is their texts
/// with a comma and a space in place of the brackets between them.
pub proof fn law_bracketed_lists_are_joined(
    left: Vec<u8>,
    right: Vec<u8>,
    both: Vec<u8>,
    left_text: String,
    right_text: String,
    text: String,
)
    requires
        left@.len() > 0,
        right@.len() > 0,
        both@ == left@ + right@,
        call_ensures(bracketed_text, (&left,), left_text),
        call_ensures(bracketed_text, (&right,), right_text),
        call_ensures(bracketed_text, (&both,), text),
    ensures
        text@ == left_text@.drop_last() + ", "@ + right_text@.drop_first(),
{
    reveal_strlit("[");
    reveal_strlit("]");
    lemma_joined_lists_are_joined(left@, right@);
    assert(left_text@.drop_last() =~= "["@ + joined(left@));
    assert(right_text@.drop_first() =~= joined(right@) + "]"@);
    assert(text@ =~= left_text@.drop_last() + ", "@ + right_text@.drop_first());
}

/// The text of a list of one number is the number in brackets, and that of an
/// empty list the brackets alone.
pub proof fn law_short_lists_are_bracketed(
    values: Vec<u8>,
    number: String,
    text: String,
)
    requires
        call_ensures(bracketed_text, (&values,), text),
        values@.len() == 1 ==> call_ensures(decimal_text, (values@[0] as u16,), number),
    ensures
        values@.len() == 0 ==> text@ == "[]"@,
        values@.len() == 1 ==> text@ == "["@ + number@ + "]"@,
{
    if values@.len() == 0 {
        reveal_strlit("[");
        reveal_strlit("]");
        reveal_strlit("[]");
        assert(text@ =~= "[]"@);
    }
}

} // verus!
