//! Text building blocks: decimal digits, concatenation and byte-wise order.

use vstd::prelude::*;
use vstd::string::*;
use vstd::utf8::*;

verus! {

/// The character of one decimal digit.
pub open spec fn digit(d: nat) -> char {
    if d == 0 {
        '0'
    } else if d == 1 {
        '1'
    } else if d == 2 {
        '2'
    } else if d == 3 {
        '3'
    } else if d == 4 {
        '4'
    } else if d == 5 {
        '5'
    } else if d == 6 {
        '6'
    } else if d == 7 {
        '7'
    } else if d == 8 {
        '8'
    } else {
        '9'
    }
}

/// The decimal digits of `n`, most significant first, without leading zeros.
pub open spec fn decimal(n: nat) -> Seq<char>
    decreases n,
{
    if n < 10 {
        seq![digit(n)]
    } else {
        decimal(n / 10).push(digit(n % 10))
    }
}

/// The decimal digits of `n` with a leading minus sign for a negative number.
pub open spec fn signed_decimal(n: int) -> Seq<char> {
    if n < 0 {
        seq!['-'] + decimal((-n) as nat)
    } else {
        decimal(n as nat)
    }
}

fn digit_text(d: u128) -> (text: &'static str)
    requires
        d < 10,
    ensures
        text@ == seq![digit(d as nat)],
{
    proof {
        reveal_strlit("0");
        reveal_strlit("1");
        reveal_strlit("2");
        reveal_strlit("3");
        reveal_strlit("4");
        reveal_strlit("5");
        reveal_strlit("6");
        reveal_strlit("7");
        reveal_strlit("8");
        reveal_strlit("9");
    }
    if d == 0 {
        "0"
    } else if d == 1 {
        "1"
    } else if d == 2 {
        "2"
    } else if d == 3 {
        "3"
    } else if d == 4 {
        "4"
    } else if d == 5 {
        "5"
    } else if d == 6 {
        "6"
    } else if d == 7 {
        "7"
    } else if d == 8 {
        "8"
    } else {
        "9"
    }
}

/// Writes `n` in decimal.
pub fn decimal_text(n: u128) -> (text: String)
    ensures
        text@ == decimal(n as nat),
    decreases n,
{
    if n < 10 {
        digit_text(n).to_owned()
    } else {
        let mut text = decimal_text(n / 10);
        text.append(digit_text(n % 10));
        text
    }
}

/// Writes `n` in decimal, with a minus sign when it is negative.
pub fn signed_decimal_text(n: i64) -> (text: String)
    ensures
        text@ == signed_decimal(n as int),
{
    if n < 0 {
        proof {
            reveal_strlit("-");
        }
        let magnitude: u128 = (-(n as i128)) as u128;
        let mut text = "-".to_owned();
        assert(text@ =~= seq!['-']);
        text.append(decimal_text(magnitude).as_str());
        text
    } else {
        decimal_text(n as u128)
    }
}

/// `left` followed by `right`.
pub fn joined(left: &str, right: &str) -> (text: String)
    ensures
        text@ == left@ + right@,
{
    let mut text = left.to_owned();
    text.append(right);
    text
}

/// The optional text held by an optional string.
pub open spec fn optional_text(value: Option<String>) -> Option<Seq<char>> {
    match value {
        Some(text) => Some(text@),
        None => None,
    }
}

/// Copies an optional string.
pub fn clone_optional_text(value: &Option<String>) -> (copy: Option<String>)
    ensures
        copy == *value,
{
    match value {
        Some(text) => Some(text.clone()),
        None => None,
    }
}

/// Whether two texts are equal.
pub fn same_text(left: &str, right: &str) -> (same: bool)
    ensures
        same == (left@ == right@),
{
    let a = left.as_bytes();
    let b = right.as_bytes();
    proof {
        encode_utf8_decode_utf8(left@);
        encode_utf8_decode_utf8(right@);
    }
    if a.len() != b.len() {
        return false;
    }
    let mut i: usize = 0;
    while i < a.len()
        invariant
            i <= a.len(),
            a.len() == b.len(),
            a@ == left.spec_bytes(),
            b@ == right.spec_bytes(),
            forall|j: int| 0 <= j < i ==> a@[j] == b@[j],
        decreases a.len() - i,
    {
        if a[i] != b[i] {
            return false;
        }
        i += 1;
    }
    assert(a@ =~= b@);
    true
}

/// Whether two optional texts are equal.
pub fn same_optional_text(left: &Option<String>, right: &Option<String>) -> (same: bool)
    ensures
        same == (optional_text(*left) == optional_text(*right)),
{
    match (left, right) {
        (Some(a), Some(b)) => same_text(a.as_str(), b.as_str()),
        (None, None) => true,
        _ => false,
    }
}

/// Lexicographic order on byte strings: a proper prefix comes first.
pub open spec fn bytes_at_most(a: Seq<u8>, b: Seq<u8>) -> bool
    decreases a.len(),
{
    if a.len() == 0 {
        true
    } else if b.len() == 0 {
        false
    } else if a[0] != b[0] {
        a[0] < b[0]
    } else {
        bytes_at_most(a.drop_first(), b.drop_first())
    }
}

/// Order of two texts: by their UTF-8 bytes.
pub open spec fn text_at_most(a: Seq<char>, b: Seq<char>) -> bool {
    bytes_at_most(encode_utf8(a), encode_utf8(b))
}

proof fn bytes_order_total(a: Seq<u8>, b: Seq<u8>)
    ensures
        bytes_at_most(a, b) || bytes_at_most(b, a),
    decreases a.len(),
{
    if a.len() > 0 && b.len() > 0 && a[0] == b[0] {
        bytes_order_total(a.drop_first(), b.drop_first());
    }
}

proof fn bytes_order_transitive(a: Seq<u8>, b: Seq<u8>, c: Seq<u8>)
    requires
        bytes_at_most(a, b),
        bytes_at_most(b, c),
    ensures
        bytes_at_most(a, c),
    decreases a.len(),
{
    if a.len() > 0 && b.len() > 0 && c.len() > 0 && a[0] == b[0] && b[0] == c[0] {
        bytes_order_transitive(a.drop_first(), b.drop_first(), c.drop_first());
    }
}

proof fn bytes_order_antisymmetric(a: Seq<u8>, b: Seq<u8>)
    requires
        bytes_at_most(a, b),
        bytes_at_most(b, a),
    ensures
        a == b,
    decreases a.len(),
{
    if a.len() == 0 || b.len() == 0 {
        assert(a =~= b);
    } else {
        bytes_order_antisymmetric(a.drop_first(), b.drop_first());
        assert(a =~= seq![a[0]] + a.drop_first());
        assert(b =~= seq![b[0]] + b.drop_first());
    }
}

/// Of two texts one comes no later than the other.
pub proof fn text_order_total(a: Seq<char>, b: Seq<char>)
    ensures
        text_at_most(a, b) || text_at_most(b, a),
{
    bytes_order_total(encode_utf8(a), encode_utf8(b));
}

/// Text order is transitive.
pub proof fn text_order_transitive(a: Seq<char>, b: Seq<char>, c: Seq<char>)
    requires
        text_at_most(a, b),
        text_at_most(b, c),
    ensures
        text_at_most(a, c),
{
    bytes_order_transitive(encode_utf8(a), encode_utf8(b), encode_utf8(c));
}

/// Two texts that come no later than each other are the same text.
pub proof fn text_order_antisymmetric(a: Seq<char>, b: Seq<char>)
    requires
        text_at_most(a, b),
        text_at_most(b, a),
    ensures
        a == b,
{
    bytes_order_antisymmetric(encode_utf8(a), encode_utf8(b));
    encode_utf8_decode_utf8(a);
    encode_utf8_decode_utf8(b);
}

/// Whether `left` comes no later than `right`.
pub fn text_precedes(left: &str, right: &str) -> (precedes: bool)
    ensures
        precedes == text_at_most(left@, right@),
{
    let a = left.as_bytes();
    let b = right.as_bytes();
    let mut i: usize = 0;
    assert(a@.skip(0) =~= a@);
    assert(b@.skip(0) =~= b@);
    while i < a.len() && i < b.len()
        invariant
            i <= a.len(),
            i <= b.len(),
            bytes_at_most(a@, b@) == bytes_at_most(a@.skip(i as int), b@.skip(i as int)),
            a@ == left.spec_bytes(),
            b@ == right.spec_bytes(),
        decreases a.len() - i,
    {
        if a[i] != b[i] {
            return a[i] < b[i];
        }
        assert(a@.skip(i as int).drop_first() =~= a@.skip(i + 1));
        assert(b@.skip(i as int).drop_first() =~= b@.skip(i + 1));
        i += 1;
    }
    i == a.len()
}

/// Calls `str::strip_prefix`: what stands behind the prefix, if the text starts with it.
#[verifier::external_body]
pub(crate) fn without_prefix(text: &str, prefix: &str) -> (rest: Option<String>)
    ensures
        rest is Some <==> prefix@.is_prefix_of(text@),
        rest matches Some(r) ==> text@ == prefix@ + r@,
{
    text.strip_prefix(prefix).map(|rest| rest.to_owned())
}

/// The text consists of decimal digits, at least one.
pub open spec fn all_digits(text: Seq<char>) -> bool {
    text.len() > 0 && forall|i: int| 0 <= i < text.len() ==> '0' <= #[trigger] text[i] <= '9'
}

/// The number that a text of decimal digits denotes.
pub open spec fn digits_value(text: Seq<char>) -> nat
    decreases text.len(),
{
    if text.len() == 0 {
        0
    } else {
        digits_value(text.drop_last()) * 10 + (text.last() as nat - '0' as nat) as nat
    }
}

/// The number that a text denotes: an optional plus sign, then digits, and not too large.
pub open spec fn parsed_u64(text: Seq<char>) -> Option<u64> {
    let digits = if text.len() > 0 && text[0] == '+' {
        text.drop_first()
    } else {
        text
    };
    if all_digits(digits) && digits_value(digits) <= u64::MAX {
        Some(digits_value(digits) as u64)
    } else {
        None
    }
}

/// The text of the error that `str::parse::<u64>` gives for a text that is no number.
pub uninterp spec fn parse_refusal(text: Seq<char>) -> Seq<char>;

/// Calls `str::parse::<u64>`: an optional plus sign followed by digits is read as a number, unless
/// it is too large; anything else is refused, with a text that depends on the input alone.
#[verifier::external_body]
pub(crate) fn parse_u64(text: &str) -> (parsed: Result<u64, String>)
    ensures
        parsed is Ok <==> parsed_u64(text@) is Some,
        parsed matches Ok(value) ==> parsed_u64(text@) == Some(value),
        parsed matches Err(reason) ==> reason@ == parse_refusal(text@),
{
    text.parse::<u64>().map_err(|error| error.to_string())
}

/// What `<str as Debug>::fmt` writes for a text: the text in quotes, with what cannot be printed
/// escaped.
pub uninterp spec fn quoted(text: Seq<char>) -> Seq<char>;

/// Calls `<str as Debug>::fmt`: what it writes depends on the text alone.
#[verifier::external_body]
pub(crate) fn quoted_text(text: &str) -> (quote: String)
    ensures
        quote@ == quoted(text@),
{
    format!("{text:?}")
}

/// Different numbers have different decimal digits.
pub proof fn decimal_is_injective(a: nat, b: nat)
    requires
        decimal(a) == decimal(b),
    ensures
        a == b,
    decreases a,
{
    decimal_is_not_empty(a / 10);
    decimal_is_not_empty(b / 10);
    if a < 10 && b < 10 {
        assert(decimal(a)[0] == digit(a));
        assert(decimal(b)[0] == digit(b));
        digit_is_injective(a, b);
    } else if a < 10 {
        assert(decimal(a).len() == 1);
        assert(decimal(b) == decimal(b / 10).push(digit(b % 10)));
    } else if b < 10 {
        assert(decimal(b).len() == 1);
        assert(decimal(a) == decimal(a / 10).push(digit(a % 10)));
    } else {
        assert(decimal(a).last() == digit(a % 10));
        assert(decimal(b).last() == digit(b % 10));
        assert(decimal(a).drop_last() =~= decimal(a / 10));
        assert(decimal(b).drop_last() =~= decimal(b / 10));
        decimal_is_injective(a / 10, b / 10);
        digit_is_injective(a % 10, b % 10);
        assert(a == 10 * (a / 10) + a % 10);
        assert(b == 10 * (b / 10) + b % 10);
    }
}

proof fn digit_is_injective(a: nat, b: nat)
    requires
        a < 10,
        b < 10,
        digit(a) == digit(b),
    ensures
        a == b,
{
}

proof fn decimal_is_not_empty(n: nat)
    ensures
        decimal(n).len() > 0,
{
}

/// A number that was written in decimal is read back as itself.
pub proof fn decimals_are_read_back(n: u64)
    ensures
        parsed_u64(decimal(n as nat)) == Some(n),
{
    decimal_is_read_back(n as nat);
}

/// The decimal digits of a number denote it; they are digits, and no needless zero leads them.
pub proof fn decimal_is_read_back(n: nat)
    ensures
        all_digits(decimal(n)),
        digits_value(decimal(n)) == n,
        n > 0 ==> decimal(n)[0] != '0',
        decimal(n)[0] != '+',
    decreases n,
{
    if n < 10 {
        assert(decimal(n).drop_last() =~= Seq::empty());
        assert(digits_value(Seq::<char>::empty()) == 0);
        assert(decimal(n).last() == digit(n));
    } else {
        decimal_is_read_back(n / 10);
        assert(decimal(n).drop_last() =~= decimal(n / 10));
        assert(decimal(n).last() == digit(n % 10));
        assert(decimal(n)[0] == decimal(n / 10)[0]);
        assert forall|i: int| 0 <= i < decimal(n).len() implies '0' <= #[trigger] decimal(n)[i]
            <= '9' by {
            if i < decimal(n / 10).len() {
                assert(decimal(n)[i] == decimal(n / 10)[i]);
            }
        }
        assert(n == 10 * (n / 10) + n % 10);
    }
}

/// A negative number is written as a minus sign before the digits of its magnitude, and a number
/// that is not negative without a sign.
pub proof fn only_negative_numbers_have_a_sign(n: int)
    ensures
        n < 0 ==> signed_decimal(n)[0] == '-' && digits_value(signed_decimal(n).drop_first()) == -n,
        n >= 0 ==> signed_decimal(n)[0] != '-' && digits_value(signed_decimal(n)) == n,
{
    if n < 0 {
        decimal_is_read_back((-n) as nat);
        assert(signed_decimal(n).drop_first() =~= decimal((-n) as nat));
    } else {
        decimal_is_read_back(n as nat);
        assert('0' <= decimal(n as nat)[0]);
    }
}

/// Byte strings are ordered by their first difference, and a proper prefix comes first.
pub proof fn bytes_are_ordered_by_the_first_difference(a: Seq<u8>, b: Seq<u8>, k: int)
    requires
        0 <= k <= a.len(),
        k <= b.len(),
        a.take(k) == b.take(k),
    ensures
        k == a.len() ==> bytes_at_most(a, b),
        k == b.len() && k < a.len() ==> !bytes_at_most(a, b),
        k < a.len() && k < b.len() && a[k] < b[k] ==> bytes_at_most(a, b) && !bytes_at_most(b, a),
    decreases k,
{
    if k > 0 {
        assert(a.take(k)[0] == a[0]);
        assert(b.take(k)[0] == b[0]);
        let x = a.drop_first();
        let y = b.drop_first();
        assert forall|i: int| 0 <= i < k - 1 implies x[i] == y[i] by {
            assert(a.take(k)[i + 1] == a[i + 1]);
            assert(b.take(k)[i + 1] == b[i + 1]);
        }
        assert(x.take(k - 1) =~= y.take(k - 1));
        bytes_are_ordered_by_the_first_difference(x, y, k - 1);
    }
}

/// A text is read as a number only where it consists of digits, behind a plus sign at most.
pub proof fn only_digits_are_numbers(text: Seq<char>, i: int)
    requires
        parsed_u64(text) is Some,
        0 <= i < text.len(),
    ensures
        '0' <= text[i] <= '9' || (i == 0 && text[0] == '+' && text.len() > 1),
{
    if text[0] == '+' {
        let digits = text.drop_first();
        if i > 0 {
            assert(digits[i - 1] == text[i]);
        }
    }
}

} // verus!
