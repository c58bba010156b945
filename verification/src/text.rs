//! Text building blocks: appending characters, decimal rendering of
//! integers, equality and prefix tests on string slices, and the byte-wise
//! ordering of strings.

use vstd::prelude::*;
use vstd::string::*;
use vstd::utf8::*;

verus! {

/// `String::push` of the standard library appends one character to the end
/// of the string and changes nothing else.
pub assume_specification[ String::push ](s: &mut String, c: char)
    ensures
        final(s)@ == old(s)@.push(c),
;

/// The character that writes the decimal digit `d`.
pub open spec fn digit_char(d: int) -> char {
    if d == 0 {
        '0'
    } else if d == 1 {
        '1'
    } else if d == 2 {
        '2'
    } else if d == 3 {
        '3'
    } else if d == 4 {
        '4'
    } else if d == 5 {
        '5'
    } else if d == 6 {
        '6'
    } else if d == 7 {
        '7'
    } else if d == 8 {
        '8'
    } else {
        '9'
    }
}

/// The decimal numeral of `n`, without sign and without leading zeros.
pub open spec fn decimal(n: nat) -> Seq<char>
    decreases n,
{
    if n < 10 {
        seq![digit_char(n as int)]
    } else {
        decimal(n / 10).push(digit_char((n % 10) as int))
    }
}

/// The decimal numeral of `n`, padded on the left with zeros to `width`
/// digits; it holds the `width` low digits of `n`.
pub open spec fn decimal_padded(n: nat, width: nat) -> Seq<char>
    decreases width,
{
    if width == 0 {
        Seq::<char>::empty()
    } else {
        decimal_padded(n / 10, (width - 1) as nat).push(digit_char((n % 10) as int))
    }
}

pub fn digit_of(d: u8) -> (c: char)
    requires
        d < 10,
    ensures
        c == digit_char(d as int),
{
    if d == 0 {
        '0'
    } else if d == 1 {
        '1'
    } else if d == 2 {
        '2'
    } else if d == 3 {
        '3'
    } else if d == 4 {
        '4'
    } else if d == 5 {
        '5'
    } else if d == 6 {
        '6'
    } else if d == 7 {
        '7'
    } else if d == 8 {
        '8'
    } else {
        '9'
    }
}

/// Appends the decimal numeral of `n` to `out`.
pub fn push_decimal(out: &mut String, n: u128)
    ensures
        final(out)@ == old(out)@ + decimal(n as nat),
    decreases n,
{
    if n >= 10 {
        push_decimal(out, n / 10);
    }
    let d: u8 = (n % 10) as u8;
    out.push(digit_of(d));
    proof {
        if n >= 10 {
            assert(final(out)@ =~= old(out)@ + decimal(n as nat));
        } else {
            assert(final(out)@ =~= old(out)@ + decimal(n as nat));
        }
    }
}

/// Appends the `width` low decimal digits of `n` to `out`, zero-padded.
pub fn push_decimal_padded(out: &mut String, n: u128, width: u32)
    ensures
        final(out)@ == old(out)@ + decimal_padded(n as nat, width as nat),
    decreases width,
{
    if width > 0 {
        push_decimal_padded(out, n / 10, width - 1);
        let d: u8 = (n % 10) as u8;
        out.push(digit_of(d));
    }
    proof {
        assert(final(out)@ =~= old(out)@ + decimal_padded(n as nat, width as nat));
    }
}

/// The decimal numeral of `n` as a fresh string.
pub fn decimal_string(n: u64) -> (r: String)
    ensures
        r@ == decimal(n as nat),
{
    let mut out = String::new();
    push_decimal(&mut out, n as u128);
    proof {
        assert(out@ =~= decimal(n as nat));
    }
    out
}

/// Two string slices hold the same characters exactly when their UTF-8
/// bytes agree.
pub proof fn lemma_bytes_decide_text(a: Seq<char>, b: Seq<char>)
    ensures
        (encode_utf8(a) == encode_utf8(b)) <==> (a == b),
{
    encode_utf8_decode_utf8(a);
    encode_utf8_decode_utf8(b);
}

/// Whether two string slices hold the same text.
pub fn str_eq(a: &str, b: &str) -> (r: bool)
    ensures
        r == (a@ == b@),
{
    let x = a.as_bytes();
    let y = b.as_bytes();
    proof {
        lemma_bytes_decide_text(a@, b@);
    }
    if x.len() != y.len() {
        return false;
    }
    let mut i: usize = 0;
    while i < x.len()
        invariant
            i <= x.len(),
            x.len() == y.len(),
            x@ == encode_utf8(a@),
            y@ == encode_utf8(b@),
            (encode_utf8(a@) == encode_utf8(b@)) <==> (a@ == b@),
            forall|j: int| 0 <= j < i ==> x@[j] == y@[j],
        decreases x.len() - i,
    {
        if x[i] != y[i] {
            return false;
        }
        i += 1;
    }
    proof {
        assert(x@ =~= y@);
    }
    true
}

/// The texts that a list of strings holds, in order.
pub open spec fn texts(items: Seq<String>) -> Seq<Seq<char>> {
    Seq::new(items.len(), |i: int| items[i]@)
}

/// The digits of `v` as a decimal fraction of `width` places, with trailing
/// zeros dropped but for the first place.
pub open spec fn fraction_digits(v: nat, width: nat) -> Seq<char>
    decreases width,
{
    if width > 1 && v % 10 == 0 {
        fraction_digits(v / 10, (width - 1) as nat)
    } else {
        decimal_padded(v, width)
    }
}

/// Appends the digits of `v` as a decimal fraction of `width` places, with
/// trailing zeros dropped but for the first place.
pub fn push_fraction(out: &mut String, v: u128, width: u32)
    ensures
        final(out)@ == old(out)@ + fraction_digits(v as nat, width as nat),
{
    let mut rest: u128 = v;
    let mut places: u32 = width;
    while places > 1 && rest % 10 == 0
        invariant
            fraction_digits(rest as nat, places as nat) == fraction_digits(v as nat, width as nat),
        decreases places,
    {
        rest = rest / 10;
        places = places - 1;
    }
    push_decimal_padded(out, rest, places);
}

/// The byte-wise dictionary order: `a` comes no later than `b`. It is the
/// order in which the standard library compares strings by their UTF-8
/// bytes.
pub open spec fn lex_le(a: Seq<u8>, b: Seq<u8>) -> bool
    decreases a.len(),
{
    if a.len() == 0 {
        true
    } else if b.len() == 0 {
        false
    } else if a[0] < b[0] {
        true
    } else if a[0] > b[0] {
        false
    } else {
        lex_le(a.drop_first(), b.drop_first())
    }
}

/// The text `a` comes no later than the text `b` in byte-wise dictionary
/// order.
pub open spec fn text_le(a: Seq<char>, b: Seq<char>) -> bool {
    lex_le(encode_utf8(a), encode_utf8(b))
}

/// Of two byte strings, one comes no later than the other.
pub proof fn lemma_lex_total(a: Seq<u8>, b: Seq<u8>)
    ensures
        lex_le(a, b) || lex_le(b, a),
    decreases a.len(),
{
    if a.len() > 0 && b.len() > 0 && a[0] == b[0] {
        lemma_lex_total(a.drop_first(), b.drop_first());
    }
}

/// The dictionary order is transitive.
pub proof fn lemma_lex_transitive(a: Seq<u8>, b: Seq<u8>, c: Seq<u8>)
    requires
        lex_le(a, b),
        lex_le(b, c),
    ensures
        lex_le(a, c),
    decreases a.len(),
{
    if a.len() > 0 && b.len() > 0 && c.len() > 0 && a[0] == b[0] && b[0] == c[0] {
        lemma_lex_transitive(a.drop_first(), b.drop_first(), c.drop_first());
    }
}

/// Two byte strings that come no later than each other are equal.
pub proof fn lemma_lex_antisymmetric(a: Seq<u8>, b: Seq<u8>)
    requires
        lex_le(a, b),
        lex_le(b, a),
    ensures
        a == b,
    decreases a.len(),
{
    if a.len() > 0 && b.len() > 0 {
        lemma_lex_antisymmetric(a.drop_first(), b.drop_first());
        assert(a =~= seq![a[0]] + a.drop_first());
        assert(b =~= seq![b[0]] + b.drop_first());
    } else {
        assert(a =~= b);
    }
}

/// Whether `a` comes no later than `b` in byte-wise dictionary order.
pub fn str_le(a: &str, b: &str) -> (r: bool)
    ensures
        r == text_le(a@, b@),
{
    let x = a.as_bytes();
    let y = b.as_bytes();
    let mut i: usize = 0;
    proof {
        assert(x@.skip(0) =~= x@);
        assert(y@.skip(0) =~= y@);
    }
    while i < x.len() && i < y.len()
        invariant
            i <= x.len(),
            i <= y.len(),
            x@ == encode_utf8(a@),
            y@ == encode_utf8(b@),
            lex_le(x@, y@) == lex_le(x@.skip(i as int), y@.skip(i as int)),
        decreases x.len() - i,
    {
        proof {
            assert(x@.skip(i as int).drop_first() =~= x@.skip(i as int + 1));
            assert(y@.skip(i as int).drop_first() =~= y@.skip(i as int + 1));
            assert(x@.skip(i as int)[0] == x@[i as int]);
            assert(y@.skip(i as int)[0] == y@[i as int]);
        }
        if x[i] < y[i] {
            return true;
        }
        if x[i] > y[i] {
            return false;
        }
        i += 1;
    }
    proof {
        assert(x@.skip(i as int).len() == x@.len() - i);
        assert(y@.skip(i as int).len() == y@.len() - i);
    }
    i >= x.len()
}

/// A copy of a list of strings.
pub fn clone_texts(items: &Vec<String>) -> (r: Vec<String>)
    ensures
        texts(r@) == texts(items@),
{
    let mut out: Vec<String> = Vec::new();
    let mut i: usize = 0;
    while i < items.len()
        invariant
            i <= items@.len(),
            out@.len() == i,
            forall|j: int| 0 <= j < i ==> out@[j]@ == items@[j]@,
        decreases items@.len() - i,
    {
        out.push(items[i].clone());
        i += 1;
    }
    proof {
        assert(texts(out@) =~= texts(items@));
    }
    out
}

/// Whether `text` begins with `prefix`.
pub fn starts_with(text: &str, prefix: &str) -> (r: bool)
    ensures
        r == prefix@.is_prefix_of(text@),
{
    let n = prefix.unicode_len();
    if text.unicode_len() < n {
        return false;
    }
    let mut i: usize = 0;
    while i < n
        invariant
            i <= n,
            n == prefix@.len(),
            n <= text@.len(),
            forall|j: int| 0 <= j < i ==> text@[j] == prefix@[j],
        decreases n - i,
    {
        if text.get_char(i) != prefix.get_char(i) {
            proof {
                assert(text@.subrange(0, n as int)[i as int] == text@[i as int]);
            }
            return false;
        }
        i += 1;
    }
    proof {
        assert(prefix@ =~= text@.subrange(0, n as int));
    }
    true
}

/// What follows the first `count` characters of `text`.
pub fn skip_chars(text: &str, count: usize) -> (r: &str)
    requires
        count <= text@.len(),
    ensures
        r@ == text@.skip(count as int),
{
    let n = text.unicode_len();
    let r = text.substring_char(count, n);
    proof {
        assert(r@ =~= text@.skip(count as int));
    }
    r
}

/// A quotient rounded to the nearest integer, a tie going to the even one.
pub open spec fn rounded_quotient(n: nat, d: nat) -> nat {
    let whole = n / d;
    let rest = n % d;
    if 2 * rest > d || (2 * rest == d && whole % 2 == 1) {
        whole + 1
    } else {
        whole
    }
}

/// `n / d` rounded to the nearest integer, a tie going to the even one.
pub fn rounded_div(n: u128, d: u128) -> (r: u128)
    requires
        0 < d <= u64::MAX,
        n < u128::MAX,
    ensures
        r == rounded_quotient(n as nat, d as nat),
{
    let whole: u128 = n / d;
    let rest: u128 = n % d;
    if 2 * rest > d || (2 * rest == d && whole % 2 == 1) {
        whole + 1
    } else {
        whole
    }
}

} // verus!
