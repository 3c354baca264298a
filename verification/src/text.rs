//! Helpers for building and comparing text.

use vstd::prelude::*;
use vstd::std_specs::iter::IteratorSpec;

verus! {

/// `String::push` of the standard library: the character is appended at the end.
pub assume_specification[ String::push ](s: &mut String, c: char)
    ensures
        final(s)@ == old(s)@.push(c),
;

/// The decimal digit for a value below ten.
pub open spec fn digit_char(d: nat) -> char
    recommends
        d < 10,
{
    if d == 0 {
        '0'
    } else if d == 1 {
        '1'
    } else if d == 2 {
        '2'
    } else if d == 3 {
        '3'
    } else if d == 4 {
        '4'
    } else if d == 5 {
        '5'
    } else if d == 6 {
        '6'
    } else if d == 7 {
        '7'
    } else if d == 8 {
        '8'
    } else {
        '9'
    }
}

/// The decimal numeral of a natural number, without leading zeros.
pub open spec fn decimal(n: nat) -> Seq<char>
    decreases n,
{
    if n < 10 {
        seq![digit_char(n)]
    } else {
        decimal(n / 10).push(digit_char(n % 10))
    }
}

/// The decimal numeral of an integer, with a leading minus sign when negative.
pub open spec fn signed_decimal(n: int) -> Seq<char> {
    if n < 0 {
        seq!['-'] + decimal((-n) as nat)
    } else {
        decimal(n as nat)
    }
}

fn digit(d: u64) -> (c: char)
    requires
        d < 10,
    ensures
        c == digit_char(d as nat),
{
    if d == 0 {
        '0'
    } else if d == 1 {
        '1'
    } else if d == 2 {
        '2'
    } else if d == 3 {
        '3'
    } else if d == 4 {
        '4'
    } else if d == 5 {
        '5'
    } else if d == 6 {
        '6'
    } else if d == 7 {
        '7'
    } else if d == 8 {
        '8'
    } else {
        '9'
    }
}

/// Appends the decimal numeral of `n` to `out`.
pub fn push_decimal(out: &mut String, n: u64)
    ensures
        final(out)@ == old(out)@ + decimal(n as nat),
    decreases n,
{
    if n < 10 {
        out.push(digit(n));
        assert(final(out)@ =~= old(out)@ + decimal(n as nat));
    } else {
        push_decimal(out, n / 10);
        out.push(digit(n % 10));
        assert(out@ =~= old(out)@ + decimal(n as nat));
    }
}

/// Appends the decimal numeral of the signed integer `n` to `out`.
pub fn push_signed_decimal(out: &mut String, n: i64)
    ensures
        final(out)@ == old(out)@ + signed_decimal(n as int),
{
    if n < 0 {
        out.push('-');
        let m: u64 = if n == i64::MIN {
            9223372036854775808u64
        } else {
            (-n) as u64
        };
        push_decimal(out, m);
        assert(out@ =~= old(out)@ + signed_decimal(n as int));
    } else {
        push_decimal(out, n as u64);
    }
}

/// Appends every character of `s` to `out`.
pub fn push_text(out: &mut String, s: &String)
    ensures
        final(out)@ == old(out)@ + s@,
{
    out.append(s.as_str());
}

/// A fresh string with the same characters as `s`.
pub fn text_of(s: &str) -> (r: String)
    ensures
        r@ == s@,
{
    String::from_str(s)
}

/// The upper-case form of a text, as the standard library's Unicode tables
/// give it.
pub uninterp spec fn uppercase(s: Seq<char>) -> Seq<char>;

/// The lower-case form of a text, as the standard library's Unicode tables
/// give it.
pub uninterp spec fn lowercase(s: Seq<char>) -> Seq<char>;

/// `str::to_uppercase` of the standard library: the result is a function of
/// the text's characters alone.
pub assume_specification[ str::to_uppercase ](s: &str) -> (r: String)
    ensures
        r@ == uppercase(s@),
;

/// `str::to_lowercase` of the standard library: the result is a function of
/// the text's characters alone.
pub assume_specification[ str::to_lowercase ](s: &str) -> (r: String)
    ensures
        r@ == lowercase(s@),
;

/// The number of bytes of a text in UTF-8.
pub open spec fn utf8_len(s: Seq<char>) -> nat {
    vstd::utf8::encode_utf8(s).len()
}

/// The texts of `parts` in order, with `sep` between neighbours.
pub open spec fn join_with(parts: Seq<Seq<char>>, sep: Seq<char>) -> Seq<char>
    decreases parts.len(),
{
    if parts.len() == 0 {
        Seq::empty()
    } else if parts.len() == 1 {
        parts[0]
    } else {
        join_with(parts.drop_last(), sep) + sep + parts.last()
    }
}

/// The text of one character.
pub fn char_text(c: char) -> (r: String)
    ensures
        r@ == seq![c],
{
    let mut r = String::new();
    r.push(c);
    assert(r@ =~= seq![c]);
    r
}

/// The texts of `parts` in order, with `sep` between neighbours.
pub fn join_texts(parts: &Vec<String>, sep: &str) -> (r: String)
    ensures
        r@ == join_with(parts.deep_view(), sep@),
{
    let mut r = String::new();
    let mut i: usize = 0;
    while i < parts.len()
        invariant
            i <= parts.len(),
            r@ == join_with(parts.deep_view().take(i as int), sep@),
        decreases parts.len() - i,
    {
        let ghost before = parts.deep_view().take(i as int);
        let ghost after = parts.deep_view().take(i + 1);
        assert(after.drop_last() =~= before);
        assert(after.last() == parts[i as int]@);
        if i > 0 {
            r.append(sep);
        }
        r.append(parts[i].as_str());
        assert(r@ =~= join_with(after, sep@));
        i += 1;
    }
    assert(parts.deep_view().take(parts.len() as int) =~= parts.deep_view());
    r
}

/// The characters of a text.
pub fn chars_of(s: &str) -> (r: Vec<char>)
    ensures
        r@ == s@,
{
    let mut rest = s.chars();
    let mut v: Vec<char> = Vec::new();
    assert(v@ + rest.remaining() =~= s@);
    loop
        invariant
            rest.obeys_prophetic_iter_laws(),
            rest.decrease() is Some,
            v@ + rest.remaining() == s@,
        decreases rest.decrease()->0,
    {
        let ghost before = rest.remaining();
        match rest.next() {
            Some(c) => {
                v.push(c);
                assert(v@ + rest.remaining() =~= s@) by {
                    assert(before =~= seq![c] + before.drop_first());
                }
            },
            None => {
                assert(v@ =~= s@);
                return v;
            },
        }
    }
}

/// The order of texts: character by character, a text before every text
/// that it begins.
pub open spec fn text_lt(a: Seq<char>, b: Seq<char>) -> bool
    decreases a.len(),
{
    if b.len() == 0 {
        false
    } else if a.len() == 0 {
        true
    } else if a[0] != b[0] {
        a[0] < b[0]
    } else {
        text_lt(a.skip(1), b.skip(1))
    }
}

/// No text comes before itself.
pub proof fn lemma_text_lt_irreflexive(a: Seq<char>)
    ensures
        !text_lt(a, a),
    decreases a.len(),
{
    if a.len() > 0 {
        lemma_text_lt_irreflexive(a.skip(1));
    }
}

/// The order of texts is transitive.
pub proof fn lemma_text_lt_transitive(a: Seq<char>, b: Seq<char>, c: Seq<char>)
    requires
        text_lt(a, b),
        text_lt(b, c),
    ensures
        text_lt(a, c),
    decreases a.len(),
{
    if a.len() > 0 && b.len() > 0 && c.len() > 0 {
        if a[0] == b[0] && b[0] == c[0] {
            lemma_text_lt_transitive(a.skip(1), b.skip(1), c.skip(1));
        }
    }
}

/// Of two different texts one comes before the other.
pub proof fn lemma_text_lt_total(a: Seq<char>, b: Seq<char>)
    ensures
        text_lt(a, b) || text_lt(b, a) || a == b,
    decreases a.len(),
{
    if a.len() > 0 && b.len() > 0 {
        if a[0] == b[0] {
            lemma_text_lt_total(a.skip(1), b.skip(1));
            if a.skip(1) == b.skip(1) {
                assert(a =~= seq![a[0]] + a.skip(1));
                assert(b =~= seq![b[0]] + b.skip(1));
            }
        }
    } else if a.len() == 0 && b.len() == 0 {
        assert(a =~= b);
    }
}

/// Whether one text comes before another.
pub fn text_less(a: &str, b: &str) -> (r: bool)
    ensures
        r == text_lt(a@, b@),
{
    let x = chars_of(a);
    let y = chars_of(b);
    let mut i: usize = 0;
    assert(x@.skip(0) =~= x@);
    assert(y@.skip(0) =~= y@);
    loop
        invariant
            i <= x.len(),
            i <= y.len(),
            x@ == a@,
            y@ == b@,
            text_lt(a@, b@) == text_lt(x@.skip(i as int), y@.skip(i as int)),
        decreases x.len() - i,
    {
        if i >= y.len() {
            return false;
        }
        if i >= x.len() {
            return true;
        }
        if x[i] != y[i] {
            return x[i] < y[i];
        }
        assert(x@.skip(i as int).skip(1) =~= x@.skip(i + 1));
        assert(y@.skip(i as int).skip(1) =~= y@.skip(i + 1));
        i += 1;
    }
}

} // verus!
