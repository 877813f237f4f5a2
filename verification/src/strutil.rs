//! Small string building blocks: comparison and concatenation on `str`,
//! decimal formatting, and hexadecimal byte-string encoding.

use vstd::prelude::*;

verus! {

/// Relies on `str`'s `PartialEq`: string slices compare by their characters.
#[verifier::external_body]
pub fn str_eq(a: &str, b: &str) -> (r: bool)
    ensures
        r == (a@ == b@),
{
    a == b
}

/// Relies on `String::push_str`: appends the slice onto the end.
#[verifier::external_body]
pub fn push_str(s: &mut String, t: &str)
    ensures
        final(s)@ == old(s)@ + t@,
{
    s.push_str(t)
}

/// Relies on `String::push`: appends the character onto the end.
#[verifier::external_body]
pub fn push_char(s: &mut String, c: char)
    ensures
        final(s)@ == old(s)@.push(c),
{
    s.push(c)
}

/// Relies on `str::chars`: yields the characters of the slice in order.
#[verifier::external_body]
pub fn str_chars(s: &str) -> (r: Vec<char>)
    ensures
        r@ == s@,
{
    s.chars().collect()
}

/// Builds a string out of characters.
pub fn chars_to_string(v: &[char]) -> (r: String)
    ensures
        r@ == v@,
{
    let mut s = String::new();
    let mut i: usize = 0;
    while i < v.len()
        invariant
            0 <= i <= v@.len(),
            s@ == v@.take(i as int),
        decreases v@.len() - i,
    {
        push_char(&mut s, v[i]);
        proof {
            assert(v@.take(i + 1) =~= v@.take(i as int).push(v@[i as int]));
        }
        i += 1;
    }
    proof {
        assert(v@.take(v@.len() as int) =~= v@);
    }
    s
}

/// The lower-case form of an ASCII letter; other characters are unchanged.
pub open spec fn ascii_lower_char(c: char) -> char {
    if 'A' <= c && c <= 'Z' {
        (((c as u8) + 32) as char)
    } else {
        c
    }
}

/// Relies on `str::eq_ignore_ascii_case`: an ASCII case-insensitive match.
#[verifier::external_body]
pub fn str_eq_ignore_ascii_case(a: &str, b: &str) -> (r: bool)
    ensures
        r == (a@.map_values(|c: char| ascii_lower_char(c)) == b@.map_values(
            |c: char| ascii_lower_char(c),
        )),
{
    a.eq_ignore_ascii_case(b)
}

/// The character for one decimal digit.
pub open spec fn digit_char(d: nat) -> char {
    ((48 + d) as u8) as char
}

/// The decimal digits of a number, most significant first.
pub open spec fn dec_digits(n: nat) -> Seq<char>
    decreases n,
{
    if n < 10 {
        seq![digit_char(n)]
    } else {
        dec_digits(n / 10).push(digit_char(n % 10))
    }
}

/// Formats a number in decimal.
pub fn u64_to_string(n: u64) -> (s: String)
    ensures
        s@ == dec_digits(n as nat),
    decreases n,
{
    if n < 10 {
        let mut s = String::new();
        push_char(&mut s, (48 + (n as u8)) as char);
        proof {
            assert(s@ =~= seq![digit_char(n as nat)]);
        }
        s
    } else {
        let mut s = u64_to_string(n / 10);
        push_char(&mut s, (48 + ((n % 10) as u8)) as char);
        s
    }
}

/// Character sequences joined with commas.
pub open spec fn join_commas(parts: Seq<Seq<char>>) -> Seq<char>
    decreases parts.len(),
{
    if parts.len() == 0 {
        Seq::empty()
    } else if parts.len() == 1 {
        parts[0]
    } else {
        join_commas(parts.drop_last()) + seq![','] + parts.last()
    }
}

/// Joins strings with commas.
pub fn join_with_commas(parts: &Vec<String>) -> (r: String)
    ensures
        r@ == join_commas(parts@.map_values(|s: String| s@)),
{
    let ghost view = parts@.map_values(|s: String| s@);
    let mut s = String::new();
    let mut i: usize = 0;
    proof {
        assert(view.take(0) =~= Seq::<Seq<char>>::empty());
    }
    while i < parts.len()
        invariant
            0 <= i <= parts@.len(),
            view == parts@.map_values(|s: String| s@),
            s@ == join_commas(view.take(i as int)),
        decreases parts@.len() - i,
    {
        if i > 0 {
            push_char(&mut s, ',');
        }
        push_str(&mut s, parts[i].as_str());
        proof {
            assert(view.take(i + 1).drop_last() =~= view.take(i as int));
            assert(view.take(i + 1).last() == view[i as int]);
            if i == 0 {
                assert(s@ =~= view[0]);
            } else {
                assert(s@ =~= join_commas(view.take(i as int)) + seq![','] + view[i as int]);
            }
        }
        i += 1;
    }
    proof {
        assert(view.take(parts@.len() as int) =~= view);
    }
    s
}

/// The character for one hexadecimal digit, lower case.
pub open spec fn hex_digit(d: nat) -> char {
    if d < 10 {
        ((48 + d) as u8) as char
    } else {
        ((87 + d) as u8) as char
    }
}

/// The hexadecimal encoding of a byte sequence: two lower-case digits per
/// byte, high nibble first.
pub open spec fn hex_of(bs: Seq<u8>) -> Seq<char>
    decreases bs.len(),
{
    if bs.len() == 0 {
        Seq::empty()
    } else {
        seq![hex_digit((bs[0] / 16) as nat), hex_digit((bs[0] % 16) as nat)] + hex_of(
            bs.drop_first(),
        )
    }
}

/// Relies on `hex::encode`: two lower-case hexadecimal digits per byte,
/// high nibble first.
#[verifier::external_body]
fn hex_encode(b: &[u8]) -> (r: String)
    ensures
        r@ == hex_of(b@),
{
    hex::encode(b)
}

/// Encodes bytes as a literal byte string: `\x` followed by the
/// hexadecimal digits of the bytes.
pub fn format_bytes(bytes: &Vec<u8>) -> (s: String)
    ensures
        s@ == "\\x"@ + hex_of(bytes@),
{
    let mut s = "\\x".to_owned();
    let enc = hex_encode(bytes.as_slice());
    push_str(&mut s, enc.as_str());
    s
}

} // verus!
