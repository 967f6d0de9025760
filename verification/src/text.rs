//! Unsigned numbers written in decimal, and white space around them.

use std::num::ParseIntError;

use vstd::prelude::*;
use vstd::string::*;

verus! {

/// `std::num::ParseIntError`, the reason why a text is not a number. Nothing
/// is known of what is inside.
#[verifier::external_type_specification]
#[verifier::external_body]
pub struct ExParseIntError(ParseIntError);

/// Whether `c` has the Unicode property `White_Space`.
pub open spec fn is_white_space(c: char) -> bool {
    ||| '\u{9}' <= c <= '\u{d}'
    ||| c == ' '
    ||| c == '\u{85}'
    ||| c == '\u{a0}'
    ||| c == '\u{1680}'
    ||| '\u{2000}' <= c <= '\u{200a}'
    ||| c == '\u{2028}'
    ||| c == '\u{2029}'
    ||| c == '\u{202f}'
    ||| c == '\u{205f}'
    ||| c == '\u{3000}'
}

/// `s` without the white space at its two ends.
pub open spec fn trimmed(s: Seq<char>) -> Seq<char>
    decreases s.len(),
{
    if s.len() == 0 {
        s
    } else if is_white_space(s.first()) {
        trimmed(s.drop_first())
    } else if is_white_space(s.last()) {
        trimmed(s.drop_last())
    } else {
        s
    }
}

pub open spec fn is_digit(c: char) -> bool {
    '0' <= c <= '9'
}

pub open spec fn all_digits(s: Seq<char>) -> bool {
    forall|i: int| 0 <= i < s.len() ==> is_digit(#[trigger] s[i])
}

/// The number that a sequence of decimal digits stands for.
pub open spec fn digits_value(digits: Seq<char>) -> nat
    decreases digits.len(),
{
    if digits.len() == 0 {
        0
    } else {
        10 * digits_value(digits.drop_last()) + (digits.last() as nat - '0' as nat) as nat
    }
}

/// The number that `s` stands for: decimal digits, at least one, with an
/// optional `+` in front, and nothing else.
pub open spec fn unsigned_value(s: Seq<char>) -> Option<nat> {
    let digits = if s.len() > 0 && s.first() == '+' {
        s.drop_first()
    } else {
        s
    };
    if digits.len() > 0 && all_digits(digits) {
        Some(digits_value(digits))
    } else {
        None
    }
}

/// Calls `str::trim`, which cuts off the white space at both ends.
#[verifier::external_body]
pub(crate) fn trim(s: &str) -> (r: &str)
    ensures
        r@ == trimmed(s@),
{
    s.trim()
}

/// Calls `u64::from_str`, which reads decimal digits after an optional `+`
/// and refuses everything else, a number that does not fit included.
#[verifier::external_body]
fn parse_u64(s: &str) -> (r: Result<u64, ParseIntError>)
    ensures
        match unsigned_value(s@) {
            Some(v) => if v <= u64::MAX {
                r is Ok && r->Ok_0 == v
            } else {
                r is Err
            },
            None => r is Err,
        },
{
    s.parse::<u64>()
}

/// Calls `usize::from_str`, which reads decimal digits after an optional `+`
/// and refuses everything else, a number that does not fit included.
#[verifier::external_body]
fn parse_usize(s: &str) -> (r: Result<usize, ParseIntError>)
    ensures
        match unsigned_value(s@) {
            Some(v) => if v <= usize::MAX {
                r is Ok && r->Ok_0 == v
            } else {
                r is Err
            },
            None => r is Err,
        },
{
    s.parse::<usize>()
}

/// Whether `cause` is the error with which `u64::from_str` refuses `text`.
pub closed spec fn is_u64_refusal(text: Seq<char>, cause: ParseIntError) -> bool {
    exists|s: &str|
        #![trigger call_ensures(parse_u64, (s,), Err(cause))]
        s@ == text && call_ensures(parse_u64, (s,), Err(cause))
}

/// Whether `cause` is the error with which `usize::from_str` refuses `text`.
pub closed spec fn is_usize_refusal(text: Seq<char>, cause: ParseIntError) -> bool {
    exists|s: &str|
        #![trigger call_ensures(parse_usize, (s,), Err(cause))]
        s@ == text && call_ensures(parse_usize, (s,), Err(cause))
}

/// Reads a number; where the text is refused, the error is the parser's own.
pub(crate) fn read_u64(s: &str) -> (r: Result<u64, ParseIntError>)
    ensures
        match r {
            Ok(n) => unsigned_value(s@) == Some(n as nat),
            Err(cause) => {
                &&& unsigned_value(s@) is None || unsigned_value(s@)->Some_0 > u64::MAX
                &&& is_u64_refusal(s@, cause)
            },
        },
{
    parse_u64(s)
}

/// Reads a number; where the text is refused, the error is the parser's own.
pub(crate) fn read_usize(s: &str) -> (r: Result<usize, ParseIntError>)
    ensures
        match r {
            Ok(n) => unsigned_value(s@) == Some(n as nat),
            Err(cause) => {
                &&& unsigned_value(s@) is None || unsigned_value(s@)->Some_0 > usize::MAX
                &&& is_usize_refusal(s@, cause)
            },
        },
{
    parse_usize(s)
}

/// White space in front of a text and behind it is cut off.
pub proof fn law_surrounding_white_space_is_ignored(
    before: Seq<char>,
    s: Seq<char>,
    after: Seq<char>,
)
    requires
        forall|i: int| 0 <= i < before.len() ==> is_white_space(#[trigger] before[i]),
        forall|i: int| 0 <= i < after.len() ==> is_white_space(#[trigger] after[i]),
    ensures
        trimmed(before + s + after) == trimmed(s),
    decreases before.len() + after.len(),
{
    if before.len() > 0 {
        let whole = before + s + after;
        assert(whole.first() == before[0]);
        assert(whole.drop_first() =~= before.drop_first() + s + after);
        assert forall|i: int| 0 <= i < before.drop_first().len() implies is_white_space(
            #[trigger] before.drop_first()[i],
        ) by {
            assert(before.drop_first()[i] == before[i + 1]);
        }
        law_surrounding_white_space_is_ignored(before.drop_first(), s, after);
    } else if after.len() > 0 {
        assert(before + s + after =~= (s + after.drop_last()).push(after.last()));
        assert(is_white_space(after[after.len() - 1]));
        lemma_trailing_white_space(s + after.drop_last(), after.last());
        assert forall|i: int| 0 <= i < after.drop_last().len() implies is_white_space(
            #[trigger] after.drop_last()[i],
        ) by {
            assert(after.drop_last()[i] == after[i]);
        }
        law_surrounding_white_space_is_ignored(before, s, after.drop_last());
        assert(before + s + after.drop_last() =~= s + after.drop_last());
    } else {
        assert(before + s + after =~= s);
    }
}

proof fn lemma_trailing_white_space(s: Seq<char>, c: char)
    requires
        is_white_space(c),
    ensures
        trimmed(s.push(c)) == trimmed(s),
    decreases s.len(),
{
    let longer = s.push(c);
    if s.len() == 0 {
        assert(longer.drop_first() =~= s);
    } else if is_white_space(s.first()) {
        assert(longer.drop_first() =~= s.drop_first().push(c));
        lemma_trailing_white_space(s.drop_first(), c);
    } else {
        assert(longer.drop_last() =~= s);
    }
}

/// The digit character for a number below ten.
pub open spec fn digit_char(n: nat) -> char {
    (n + '0' as nat) as char
}

/// A number written in decimal, without leading zeros.
pub open spec fn decimal(n: nat) -> Seq<char>
    decreases n,
{
    if n < 10 {
        seq![digit_char(n)]
    } else {
        decimal(n / 10).push(digit_char(n % 10))
    }
}

proof fn lemma_decimal_digits(n: nat)
    ensures
        decimal(n).len() > 0,
        all_digits(decimal(n)),
        digits_value(decimal(n)) == n,
    decreases n,
{
    if n < 10 {
        assert(decimal(n).drop_last() =~= Seq::empty());
        assert(digits_value(Seq::<char>::empty()) == 0);
    } else {
        lemma_decimal_digits(n / 10);
        assert(decimal(n).drop_last() =~= decimal(n / 10));
    }
}

/// A number that is written in decimal is read back as the same number.
pub proof fn law_decimal_is_read_back(n: nat)
    ensures
        unsigned_value(decimal(n)) == Some(n),
{
    lemma_decimal_digits(n);
    assert(is_digit(decimal(n)[0]));
}

fn digit_text(digit: u64) -> (r: &'static str)
    requires
        digit < 10,
    ensures
        r@ == seq![digit_char(digit as nat)],
{
    proof {
        reveal_strlit("0");
        reveal_strlit("1");
        reveal_strlit("2");
        reveal_strlit("3");
        reveal_strlit("4");
        reveal_strlit("5");
        reveal_strlit("6");
        reveal_strlit("7");
        reveal_strlit("8");
        reveal_strlit("9");
    }
    let r = match digit {
        0 => "0",
        1 => "1",
        2 => "2",
        3 => "3",
        4 => "4",
        5 => "5",
        6 => "6",
        7 => "7",
        8 => "8",
        _ => "9",
    };
    assert(r@ =~= seq![digit_char(digit as nat)]);
    r
}

/// Writes a number in decimal.
pub fn to_decimal(n: u64) -> (r: String)
    ensures
        r@ == decimal(n as nat),
    decreases n,
{
    if n < 10 {
        digit_text(n).to_owned()
    } else {
        let mut r = to_decimal(n / 10);
        r.append(digit_text(n % 10));
        assert(r@ =~= decimal((n / 10) as nat).push(digit_char((n % 10) as nat)));
        r
    }
}

/// The error that a refused text comes with is what the parser answered for
/// that very text.
proof fn law_refusal_is_the_parsers(text: Seq<char>, cause: ParseIntError)
    ensures
        is_u64_refusal(text, cause) ==> exists|s: &str|
            s@ == text && #[trigger] call_ensures(parse_u64, (s,), Err(cause)),
        is_usize_refusal(text, cause) ==> exists|s: &str|
            s@ == text && #[trigger] call_ensures(parse_usize, (s,), Err(cause)),
{
}

/// Trimming takes nothing but white space off the two ends, and all of it: the
/// text is what is left with white space around it, and what is left neither
/// begins nor ends with white space.
pub proof fn law_trimming_takes_off_white_space(s: Seq<char>) -> (r: (Seq<char>, Seq<char>))
    ensures
        s == r.0 + trimmed(s) + r.1,
        forall|i: int| 0 <= i < r.0.len() ==> is_white_space(#[trigger] r.0[i]),
        forall|i: int| 0 <= i < r.1.len() ==> is_white_space(#[trigger] r.1[i]),
        trimmed(s).len() > 0 ==> !is_white_space(trimmed(s).first()) && !is_white_space(
            trimmed(s).last(),
        ),
    decreases s.len(),
{
    if s.len() == 0 {
        assert(s =~= s + s + s);
        (s, s)
    } else if is_white_space(s.first()) {
        let (before, after) = law_trimming_takes_off_white_space(s.drop_first());
        let longer = seq![s.first()] + before;
        assert(s =~= seq![s.first()] + s.drop_first());
        assert(s =~= longer + trimmed(s) + after);
        assert forall|i: int| 0 <= i < longer.len() implies is_white_space(#[trigger] longer[i]) by {
            if i > 0 {
                assert(longer[i] == before[i - 1]);
            }
        }
        (longer, after)
    } else if is_white_space(s.last()) {
        let (before, after) = law_trimming_takes_off_white_space(s.drop_last());
        let longer = after.push(s.last());
        assert(s =~= s.drop_last().push(s.last()));
        assert(s =~= before + trimmed(s) + longer);
        assert forall|i: int| 0 <= i < longer.len() implies is_white_space(#[trigger] longer[i]) by {
            if i < after.len() {
                assert(longer[i] == after[i]);
            }
        }
        (before, longer)
    } else {
        let none = Seq::<char>::empty();
        assert(s =~= none + s + none);
        (none, none)
    }
}

/// A number is written with digits only, and without zeros in front.
pub proof fn law_decimal_has_no_leading_zeros(n: nat)
    ensures
        all_digits(decimal(n)),
        n == 0 ==> decimal(n) == seq!['0'],
        n > 0 ==> decimal(n).first() != '0',
    decreases n,
{
    lemma_decimal_digits(n);
    if n >= 10 {
        law_decimal_has_no_leading_zeros(n / 10);
        lemma_decimal_digits(n / 10);
    } else {
        assert(decimal(n)[0] == digit_char(n));
        assert(decimal(n) =~= seq![digit_char(n)]);
    }
}

/// One more digit behind a number makes it ten times as large, plus the digit.
/// A sign in front makes no difference, and neither do zeros. Nothing but
/// digits makes a number.
pub proof fn law_numbers_are_read_digit_by_digit(digits: Seq<char>, c: char)
    requires
        digits.len() > 0,
        all_digits(digits),
    ensures
        unsigned_value(digits) is Some,
        is_digit(c) ==> unsigned_value(digits.push(c)) == Some(
            (10 * unsigned_value(digits)->Some_0 + (c as int - '0' as int)) as nat,
        ),
        !is_digit(c) ==> unsigned_value(digits.push(c)) is None,
        unsigned_value(seq!['+'] + digits) == unsigned_value(digits),
        unsigned_value(seq!['0'] + digits) == unsigned_value(digits),
{
    let longer = digits.push(c);
    assert(is_digit(digits[0]));
    assert(longer.first() == digits[0]);
    assert(longer.drop_last() =~= digits);
    if is_digit(c) {
        assert(all_digits(longer)) by {
            assert forall|i: int| 0 <= i < longer.len() implies is_digit(#[trigger] longer[i]) by {
                if i < digits.len() {
                    assert(longer[i] == digits[i]);
                }
            }
        }
    } else {
        assert(!is_digit(longer[digits.len() as int]));
    }
    let signed = seq!['+'] + digits;
    assert(signed.first() == '+');
    assert(signed.drop_first() =~= digits);
    lemma_leading_zero(digits);
}

proof fn lemma_leading_zero(digits: Seq<char>)
    requires
        all_digits(digits),
    ensures
        all_digits(seq!['0'] + digits),
        (seq!['0'] + digits).first() == '0',
        digits_value(seq!['0'] + digits) == digits_value(digits),
    decreases digits.len(),
{
    let longer = seq!['0'] + digits;
    assert forall|i: int| 0 <= i < longer.len() implies is_digit(#[trigger] longer[i]) by {
        if i > 0 {
            assert(longer[i] == digits[i - 1]);
        }
    }
    if digits.len() == 0 {
        assert(longer.drop_last() =~= Seq::empty());
        assert(digits_value(Seq::<char>::empty()) == 0);
    } else {
        assert forall|i: int| 0 <= i < digits.drop_last().len() implies is_digit(
            #[trigger] digits.drop_last()[i],
        ) by {
            assert(digits.drop_last()[i] == digits[i]);
        }
        lemma_leading_zero(digits.drop_last());
        assert(longer.drop_last() =~= seq!['0'] + digits.drop_last());
    }
}

} // verus!
