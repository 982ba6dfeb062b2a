//! Text as sequences of characters: the small pieces of string work the rest of the
//! library is built from.
use vstd::prelude::*;

verus! {

/// `String::push`: the character goes to the end of the string.
pub assume_specification[ String::push ](s: &mut String, c: char)
    ensures
        final(s)@ == old(s)@.push(c),
;

/// Characters as a string.
pub(crate) fn text_of(chars: &Vec<char>) -> (r: String)
    ensures
        r@ == chars@,
{
    let mut r = String::new();
    let mut i: usize = 0;
    while i < chars.len()
        invariant
            i <= chars.len(),
            r@ == chars@.take(i as int),
        decreases chars.len() - i,
    {
        r.push(chars[i]);
        i = i + 1;
        proof {
            assert(chars@.take(i as int) =~= chars@.take(i - 1).push(chars@[i - 1]));
        }
    }
    proof {
        assert(chars@.take(i as int) =~= chars@);
    }
    r
}

/// `==` of two string slices: they are equal when they hold the same characters.
#[verifier::external_body]
pub(crate) fn same_text(a: &str, b: &str) -> (r: bool)
    ensures
        r == (a@ == b@),
{
    a == b
}

/// `<` of two string slices: the lexicographic order of their code points.
#[verifier::external_body]
pub(crate) fn text_less(a: &str, b: &str) -> (r: bool)
    ensures
        r == before(a@, b@),
{
    a < b
}

/// `{:?}` of a string slice: the quoted, escaped spelling the `Debug` format gives it.
#[verifier::external_body]
pub(crate) fn quoted(s: &str) -> (r: String)
    ensures
        r@ == quoted_text(s@),
{
    format!("{s:?}")
}

/// The quoted, escaped spelling the `Debug` format gives a text.
pub uninterp spec fn quoted_text(s: Seq<char>) -> Seq<char>;

/// The lexicographic order of two texts by code point.
pub open spec fn before(a: Seq<char>, b: Seq<char>) -> bool
    decreases a.len(),
{
    if b.len() == 0 {
        false
    } else if a.len() == 0 {
        true
    } else if a[0] == b[0] {
        before(a.drop_first(), b.drop_first())
    } else {
        a[0] < b[0]
    }
}

/// No text comes before itself.
pub proof fn before_irreflexive(a: Seq<char>)
    ensures
        !before(a, a),
    decreases a.len(),
{
    if a.len() > 0 {
        before_irreflexive(a.drop_first());
    }
}

/// Two different texts are ordered one way or the other.
pub proof fn before_total(a: Seq<char>, b: Seq<char>)
    requires
        a != b,
    ensures
        before(a, b) || before(b, a),
    decreases a.len(),
{
    if a.len() > 0 && b.len() > 0 {
        if a[0] == b[0] {
            if a.drop_first() == b.drop_first() {
                assert(a =~= seq![a[0]] + a.drop_first());
                assert(b =~= seq![b[0]] + b.drop_first());
            }
            before_total(a.drop_first(), b.drop_first());
        } else {
            assert(a[0] < b[0] || b[0] < a[0]);
        }
    } else if a.len() == 0 && b.len() == 0 {
        assert(a =~= b);
    }
}

/// The order is transitive.
pub proof fn before_transitive(a: Seq<char>, b: Seq<char>, c: Seq<char>)
    requires
        before(a, b),
        before(b, c),
    ensures
        before(a, c),
    decreases a.len(),
{
    if a.len() > 0 && b.len() > 0 && c.len() > 0 && a[0] == b[0] && b[0] == c[0] {
        before_transitive(a.drop_first(), b.drop_first(), c.drop_first());
    }
}

/// The characters of a string.
pub fn chars_of(s: &str) -> (r: Vec<char>)
    ensures
        r@ == s@,
{
    let mut out: Vec<char> = Vec::new();
    for c in it: s.chars()
        invariant
            out@ == it.seq().take(it.index()),
            it.seq() == s@,
    {
        out.push(c);
    }
    out
}

/// The decimal digit of a number below ten.
pub open spec fn digit(n: nat) -> char {
    ((48 + n) as u8) as char
}

/// A natural number in decimal, without leading zeros.
pub open spec fn decimal_text(n: nat) -> Seq<char>
    decreases n,
{
    if n < 10 {
        seq![digit(n)]
    } else {
        decimal_text(n / 10).push(digit(n % 10))
    }
}

/// An integer in decimal, with a minus sign when it is negative.
pub open spec fn integer_text(n: int) -> Seq<char> {
    if n < 0 {
        seq!['-'] + decimal_text((-n) as nat)
    } else {
        decimal_text(n as nat)
    }
}

fn push_decimal(out: &mut Vec<char>, n: u64)
    ensures
        final(out)@ == old(out)@ + decimal_text(n as nat),
    decreases n,
{
    if n >= 10 {
        push_decimal(out, n / 10);
    }
    let d: u8 = (n % 10) as u8;
    let c: char = (48u8 + d) as char;
    out.push(c);
}

/// A natural number in decimal.
pub fn decimal(n: u64) -> (r: String)
    ensures
        r@ == decimal_text(n as nat),
{
    let mut out: Vec<char> = Vec::new();
    push_decimal(&mut out, n);
    text_of(&out)
}

/// An integer in decimal.
pub fn integer(n: i64) -> (r: String)
    ensures
        r@ == integer_text(n as int),
{
    let mut out: Vec<char> = Vec::new();
    if n < 0 {
        out.push('-');
        if n == i64::MIN {
            push_decimal(&mut out, 9223372036854775808u64);
        } else {
            push_decimal(&mut out, (-n) as u64);
        }
    } else {
        push_decimal(&mut out, n as u64);
    }
    text_of(&out)
}

/// A number below a hundred, in two digits.
pub open spec fn two_digits(n: nat) -> Seq<char> {
    if n < 10 {
        seq!['0'] + decimal_text(n)
    } else {
        decimal_text(n)
    }
}

/// A natural number in decimal, with a leading zero when it has a single digit.
pub fn padded(n: u64) -> (r: String)
    ensures
        r@ == two_digits(n as nat),
{
    let mut out: Vec<char> = Vec::new();
    if n < 10 {
        out.push('0');
    }
    push_decimal(&mut out, n);
    text_of(&out)
}

/// `parts`, with `separator` between each two.
pub open spec fn joined(parts: Seq<Seq<char>>, separator: Seq<char>) -> Seq<char>
    decreases parts.len(),
{
    if parts.len() == 0 {
        seq![]
    } else if parts.len() == 1 {
        parts[0]
    } else {
        joined(parts.drop_last(), separator) + separator + parts.last()
    }
}

/// The contents of each string of a list.
pub open spec fn texts(parts: Seq<String>) -> Seq<Seq<char>> {
    parts.map_values(|p: String| p@)
}

/// `parts`, with `separator` between each two.
pub fn join(parts: &Vec<String>, separator: &str) -> (r: String)
    ensures
        r@ == joined(texts(parts@), separator@),
{
    let mut out = String::new();
    let mut i: usize = 0;
    while i < parts.len()
        invariant
            i <= parts.len(),
            out@ == joined(texts(parts@).take(i as int), separator@),
        decreases parts.len() - i,
    {
        if i > 0 {
            out.append(separator);
        }
        out.append(parts[i].as_str());
        proof {
            let whole = texts(parts@);
            assert(whole.take(i + 1).drop_last() =~= whole.take(i as int));
            assert(whole.take(i + 1).last() == parts[i as int]@);
            if i == 0 {
                assert(seq![] + parts[0]@ =~= parts[0]@);
            }
        }
        i += 1;
    }
    proof {
        assert(texts(parts@).take(i as int) =~= texts(parts@));
    }
    out
}

// ---- Numbers read -------------------------------------------------------------------------------

/// The number that digits spell.
pub open spec fn digits_value(digits: Seq<char>) -> nat
    decreases digits.len(),
{
    if digits.len() == 0 {
        0
    } else {
        10 * digits_value(digits.drop_last()) + (digits.last() as nat - '0' as nat) as nat
    }
}

/// The digits of a number, without its sign.
pub open spec fn unsigned_part(text: Seq<char>) -> Seq<char> {
    if text.len() > 0 && (text[0] == '-' || text[0] == '+') {
        text.skip(1)
    } else {
        text
    }
}

/// The 64-bit integer a text spells: an optional sign, and then digits and nothing else.
pub open spec fn integer_in(text: Seq<char>) -> Option<i64> {
    let digits = unsigned_part(text);
    let size = digits_value(digits) as int;
    let value = if text.len() > 0 && text[0] == '-' {
        -size
    } else {
        size
    };
    if digits.len() == 0 || exists|i: int|
        0 <= i < digits.len() && !('0' <= #[trigger] digits[i] <= '9') {
        None
    } else if i64::MIN <= value <= i64::MAX {
        Some(value as i64)
    } else {
        None
    }
}

/// What `i64::from_str` says of a text that spells no 64-bit integer.
pub uninterp spec fn number_fault(text: Seq<char>) -> Seq<char>;

/// `i64::from_str`: it takes an optional sign followed by digits alone, as far as the number
/// fits 64 bits. Its error is displayed, and named rather than spelled out.
#[verifier::external_body]
pub(crate) fn read_integer(text: &str) -> (r: Result<i64, String>)
    ensures
        match r {
            Ok(v) => integer_in(text@) == Some(v),
            Err(e) => integer_in(text@) is None && e@ == number_fault(text@),
        },
{
    text.parse::<i64>().map_err(|e| e.to_string())
}

/// A number in decimal spells that number, digit by digit.
pub proof fn decimals_read_back(n: nat)
    ensures
        digits_value(decimal_text(n)) == n,
        decimal_text(n).len() > 0,
        forall|i: int|
            0 <= i < decimal_text(n).len() ==> '0' <= #[trigger] decimal_text(n)[i] <= '9',
    decreases n,
{
    let text = decimal_text(n);
    if n < 10 {
        assert(text.drop_last() =~= seq![]);
        assert(digits_value(text.drop_last()) == 0);
    } else {
        decimals_read_back(n / 10);
        assert(text.drop_last() =~= decimal_text(n / 10));
    }
}

/// A 64-bit integer in decimal reads back as that integer, its sign with it.
pub proof fn integers_read_back(n: i64)
    ensures
        integer_in(integer_text(n as int)) == Some(n),
{
    let text = integer_text(n as int);
    if n < 0 {
        decimals_read_back((-n) as nat);
        assert(text.skip(1) =~= decimal_text((-n) as nat));
    } else {
        decimals_read_back(n as nat);
        assert('0' <= decimal_text(n as nat)[0]);
    }
}

/// A number below a hundred takes two digits, which say it; a longer one takes what it needs.
pub proof fn numbers_are_padded_to_two_digits(n: u64, r: String)
    requires
        call_ensures(padded, (n,), r),
    ensures
        digits_value(r@) == n,
        n < 100 ==> r@.len() == 2,
        n >= 10 ==> r@[0] != '0',
        forall|i: int| 0 <= i < r@.len() ==> '0' <= #[trigger] r@[i] <= '9',
{
    decimals_read_back(n as nat);
    if n < 10 {
        let text = seq!['0'] + decimal_text(n as nat);
        assert(text.drop_last() =~= seq!['0']);
        assert(seq!['0'].drop_last() =~= seq![]);
        reveal_with_fuel(digits_value, 3);
    } else {
        no_zero_leads(n as nat);
        if n < 100 {
            assert(decimal_text(n as nat / 10).len() == 1);
        }
    }
}

proof fn no_zero_leads(n: nat)
    requires
        n > 0,
    ensures
        decimal_text(n).len() > 0,
        decimal_text(n)[0] != '0',
    decreases n,
{
    if n >= 10 {
        no_zero_leads(n / 10);
    }
}

} // verus!
