//! Building blocks of the canonical JSON text that is hashed and signed:
//! decimal numbers and quoted strings.

use vstd::prelude::*;
use vstd::string::StringExecFns;

verus! {

/// The character that writes the digit `d`.
pub open spec fn digit_char(d: nat) -> char {
    if d == 0 {
        '0'
    } else if d == 1 {
        '1'
    } else if d == 2 {
        '2'
    } else if d == 3 {
        '3'
    } else if d == 4 {
        '4'
    } else if d == 5 {
        '5'
    } else if d == 6 {
        '6'
    } else if d == 7 {
        '7'
    } else if d == 8 {
        '8'
    } else {
        '9'
    }
}

/// The decimal numeral of `n`, without sign or leading zeros.
pub open spec fn decimal(n: nat) -> Seq<char>
    decreases n,
{
    if n < 10 {
        seq![digit_char(n)]
    } else {
        decimal(n / 10).push(digit_char(n % 10))
    }
}

/// The character that writes the hexadecimal digit `d` in lower case.
pub open spec fn hex_digit_char(d: nat) -> char {
    if d < 10 {
        digit_char(d)
    } else if d == 10 {
        'a'
    } else if d == 11 {
        'b'
    } else if d == 12 {
        'c'
    } else if d == 13 {
        'd'
    } else if d == 14 {
        'e'
    } else {
        'f'
    }
}

/// How one character stands inside a JSON string literal: the quote, the
/// backslash and the control characters below U+0020 are escaped, the five
/// common ones by a letter and the others by their code; every other
/// character stands for itself.
pub open spec fn json_escape(c: char) -> Seq<char> {
    if c == '"' {
        seq!['\\', '"']
    } else if c == '\\' {
        seq!['\\', '\\']
    } else if c == '\u{08}' {
        seq!['\\', 'b']
    } else if c == '\u{09}' {
        seq!['\\', 't']
    } else if c == '\u{0a}' {
        seq!['\\', 'n']
    } else if c == '\u{0c}' {
        seq!['\\', 'f']
    } else if c == '\u{0d}' {
        seq!['\\', 'r']
    } else if (c as nat) < 0x20 {
        seq!['\\', 'u', '0', '0', hex_digit_char(c as nat / 16), hex_digit_char(c as nat % 16)]
    } else {
        seq![c]
    }
}

/// The characters of `text`, each as it stands inside a JSON string literal.
pub open spec fn json_escaped(text: Seq<char>) -> Seq<char>
    decreases text.len(),
{
    if text.len() == 0 {
        Seq::empty()
    } else {
        json_escape(text[0]) + json_escaped(text.drop_first())
    }
}

/// The JSON string literal for `text`: the escaped text between double
/// quotes.
pub open spec fn json_string_literal(text: Seq<char>) -> Seq<char> {
    seq!['"'] + json_escaped(text) + seq!['"']
}

/// Calls `serde_json::to_string` on a string slice. Trusted: the result is
/// the text between double quotes, with the quote, the backslash and the
/// control characters below U+0020 escaped as [`json_escape`] says and every
/// other character copied. Serialising a string slice into memory has no
/// failing path, so the fallback value is never produced.
#[verifier::external_body]
pub(crate) fn json_string(text: &str) -> (literal: String)
    ensures
        literal@ == json_string_literal(text@),
{
    serde_json::to_string(text).unwrap_or_default()
}

fn digit_str(d: u64) -> (s: &'static str)
    requires
        d < 10,
    ensures
        s@ == seq![digit_char(d as nat)],
{
    proof {
        reveal_strlit("0");
        reveal_strlit("1");
        reveal_strlit("2");
        reveal_strlit("3");
        reveal_strlit("4");
        reveal_strlit("5");
        reveal_strlit("6");
        reveal_strlit("7");
        reveal_strlit("8");
        reveal_strlit("9");
    }
    if d == 0 {
        "0"
    } else if d == 1 {
        "1"
    } else if d == 2 {
        "2"
    } else if d == 3 {
        "3"
    } else if d == 4 {
        "4"
    } else if d == 5 {
        "5"
    } else if d == 6 {
        "6"
    } else if d == 7 {
        "7"
    } else if d == 8 {
        "8"
    } else {
        "9"
    }
}

/// Appends the decimal numeral of `n` to `out`.
pub fn push_decimal(out: &mut String, n: u64)
    ensures
        final(out)@ == old(out)@ + decimal(n as nat),
    decreases n,
{
    if n >= 10 {
        push_decimal(out, n / 10);
    }
    out.append(digit_str(n % 10));
}

/// Escapes can be told apart: where two texts that each start with the
/// escape of a character are equal, the characters are the same and so is
/// what follows.
pub proof fn lemma_escape_delimits(c: char, d: char, after_c: Seq<char>, after_d: Seq<char>)
    requires
        json_escape(c) + after_c == json_escape(d) + after_d,
    ensures
        c == d,
        after_c == after_d,
{
    let left = json_escape(c) + after_c;
    let right = json_escape(d) + after_d;
    assert(left[0] == json_escape(c)[0] && right[0] == json_escape(d)[0]);
    if json_escape(c).len() >= 2 {
        assert(left[1] == json_escape(c)[1]);
    }
    if json_escape(d).len() >= 2 {
        assert(right[1] == json_escape(d)[1]);
    }
    if json_escape(c).len() == 6 {
        assert(left[4] == json_escape(c)[4] && left[5] == json_escape(c)[5]);
    }
    if json_escape(d).len() == 6 {
        assert(right[4] == json_escape(d)[4] && right[5] == json_escape(d)[5]);
    }
    assert(c == d);
    assert(after_c =~= left.subrange(json_escape(c).len() as int, left.len() as int));
    assert(after_d =~= right.subrange(json_escape(d).len() as int, right.len() as int));
}

/// The closing quote ends a string literal: where two texts that each start
/// with an escaped text and a quote are equal, the escaped texts are the
/// same and so is what follows the quote.
pub proof fn lemma_escaped_delimits(
    a: Seq<char>,
    b: Seq<char>,
    after_a: Seq<char>,
    after_b: Seq<char>,
)
    requires
        json_escaped(a) + seq!['"'] + after_a == json_escaped(b) + seq!['"'] + after_b,
    ensures
        a == b,
        after_a == after_b,
    decreases a.len() + b.len(),
{
    let left = json_escaped(a) + seq!['"'] + after_a;
    let right = json_escaped(b) + seq!['"'] + after_b;
    if a.len() == 0 && b.len() == 0 {
        assert(after_a =~= left.subrange(1, left.len() as int));
        assert(after_b =~= right.subrange(1, right.len() as int));
        assert(a =~= b);
    } else if a.len() == 0 {
        assert(left[0] == '"');
        assert(right[0] == json_escape(b[0])[0]);
    } else if b.len() == 0 {
        assert(right[0] == '"');
        assert(left[0] == json_escape(a[0])[0]);
    } else {
        let rest_a = json_escaped(a.drop_first()) + seq!['"'] + after_a;
        let rest_b = json_escaped(b.drop_first()) + seq!['"'] + after_b;
        assert(left =~= json_escape(a[0]) + rest_a);
        assert(right =~= json_escape(b[0]) + rest_b);
        lemma_escape_delimits(a[0], b[0], rest_a, rest_b);
        lemma_escaped_delimits(a.drop_first(), b.drop_first(), after_a, after_b);
        assert(a =~= seq![a[0]] + a.drop_first());
        assert(b =~= seq![b[0]] + b.drop_first());
    }
}

/// A string literal can be told apart from what follows it: where two
/// texts that each start with a literal are equal, the literals write the
/// same text and what follows them is the same.
pub proof fn lemma_literal_delimits(
    a: Seq<char>,
    b: Seq<char>,
    after_a: Seq<char>,
    after_b: Seq<char>,
)
    requires
        json_string_literal(a) + after_a == json_string_literal(b) + after_b,
    ensures
        a == b,
        after_a == after_b,
{
    let left = json_string_literal(a) + after_a;
    let right = json_string_literal(b) + after_b;
    let inner_a = json_escaped(a) + seq!['"'] + after_a;
    let inner_b = json_escaped(b) + seq!['"'] + after_b;
    assert(left =~= seq!['"'] + inner_a);
    assert(right =~= seq!['"'] + inner_b);
    assert(inner_a =~= left.subrange(1, left.len() as int));
    assert(inner_b =~= right.subrange(1, right.len() as int));
    lemma_escaped_delimits(a, b, after_a, after_b);
}

/// Whether `c` is one of the ten decimal digits.
pub open spec fn is_decimal_digit(c: char) -> bool {
    '0' <= c && c <= '9'
}

/// A decimal numeral is one or more decimal digits.
pub proof fn lemma_decimal_is_digits(n: nat)
    ensures
        decimal(n).len() >= 1,
        forall|i: int| 0 <= i < decimal(n).len() ==> is_decimal_digit(#[trigger] decimal(n)[i]),
    decreases n,
{
    if n >= 10 {
        lemma_decimal_is_digits(n / 10);
    }
}

/// Different numbers have different decimal numerals.
pub proof fn lemma_decimal_injective(n: nat, m: nat)
    requires
        decimal(n) == decimal(m),
    ensures
        n == m,
    decreases n,
{
    if n >= 10 {
        lemma_decimal_is_digits(n / 10);
        assert(decimal(n).len() >= 2);
        if m >= 10 {
            assert(decimal(n / 10) =~= decimal(n).drop_last());
            assert(decimal(m / 10) =~= decimal(m).drop_last());
            assert(digit_char(n % 10) == decimal(n).last());
            assert(digit_char(m % 10) == decimal(m).last());
            lemma_decimal_injective(n / 10, m / 10);
        } else {
            assert(decimal(m).len() == 1);
        }
    } else {
        assert(decimal(n).len() == 1);
        assert(decimal(n)[0] == digit_char(n));
        if m >= 10 {
            lemma_decimal_is_digits(m / 10);
            assert(decimal(m).len() >= 2);
        } else {
            assert(decimal(m)[0] == digit_char(m));
        }
    }
}

/// A decimal numeral ends where the digits end: where two texts that each
/// start with a numeral, followed by something that is no digit, are equal,
/// the numbers are the same and so is what follows.
pub proof fn lemma_decimal_delimits(n: nat, m: nat, after_n: Seq<char>, after_m: Seq<char>)
    requires
        decimal(n) + after_n == decimal(m) + after_m,
        after_n.len() > 0 && !is_decimal_digit(after_n[0]),
        after_m.len() > 0 && !is_decimal_digit(after_m[0]),
    ensures
        n == m,
        after_n == after_m,
{
    let left = decimal(n) + after_n;
    let right = decimal(m) + after_m;
    let length_n = decimal(n).len() as int;
    let length_m = decimal(m).len() as int;
    lemma_decimal_is_digits(n);
    lemma_decimal_is_digits(m);
    if length_n < length_m {
        assert(left[length_n] == after_n[0]);
        assert(right[length_n] == decimal(m)[length_n]);
    }
    if length_m < length_n {
        assert(right[length_m] == after_m[0]);
        assert(left[length_m] == decimal(n)[length_m]);
    }
    assert(decimal(n) =~= left.subrange(0, length_n));
    assert(decimal(m) =~= right.subrange(0, length_m));
    assert(after_n =~= left.subrange(length_n, left.len() as int));
    assert(after_m =~= right.subrange(length_m, right.len() as int));
    lemma_decimal_injective(n, m);
}

/// What follows a common beginning: where two texts that start alike are
/// equal, so are their remainders.
pub proof fn lemma_same_beginning(start: Seq<char>, a: Seq<char>, b: Seq<char>)
    requires
        start + a == start + b,
    ensures
        a == b,
{
    assert(a =~= (start + a).subrange(start.len() as int, (start + a).len() as int));
    assert(b =~= (start + b).subrange(start.len() as int, (start + b).len() as int));
}

/// Concatenation can be regrouped.
pub proof fn lemma_regroup(a: Seq<char>, b: Seq<char>, c: Seq<char>)
    ensures
        (a + b) + c == a + (b + c),
{
    assert((a + b) + c =~= a + (b + c));
}

} // verus!
