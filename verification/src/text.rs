//! Text helpers: building strings character by character, decimal
//! rendering of integers, ASCII case folding, and the few standard-library
//! string conversions that the rest of the crate relies on.
use vstd::prelude::*;

verus! {

/// The character for a decimal digit `d` (`0 <= d < 10`).
pub open spec fn digit_char(d: nat) -> char {
    (48 + d) as char
}

/// Decimal rendering of a natural number, without leading zeros.
pub open spec fn decimal(n: nat) -> Seq<char>
    decreases n,
{
    if n < 10 {
        seq![digit_char(n)]
    } else {
        decimal(n / 10).push(digit_char(n % 10))
    }
}

/// The decimal renderings of `bs`, separated by `", "`.
pub open spec fn joined_decimals(bs: Seq<u8>) -> Seq<char>
    decreases bs.len(),
{
    if bs.len() == 0 {
        Seq::empty()
    } else if bs.len() == 1 {
        decimal(bs[0] as nat)
    } else {
        joined_decimals(bs.drop_last()) + seq![',', ' '] + decimal(bs.last() as nat)
    }
}

/// The list notation of a byte sequence, e.g. `[1, 2, 3]`.
pub open spec fn byte_list(bs: Seq<u8>) -> Seq<char> {
    seq!['['] + joined_decimals(bs) + seq![']']
}

/// ASCII lower-casing of one character; other characters are unchanged.
pub open spec fn ascii_lower_char(c: char) -> char {
    if 'A' <= c && c <= 'Z' {
        ((c as u32) + 32) as char
    } else {
        c
    }
}

/// ASCII upper-casing of one character; other characters are unchanged.
pub open spec fn ascii_upper_char(c: char) -> char {
    if 'a' <= c && c <= 'z' {
        ((c as u32) - 32) as char
    } else {
        c
    }
}

/// ASCII lower-casing of a whole string.
pub open spec fn ascii_lower(s: Seq<char>) -> Seq<char> {
    Seq::new(s.len(), |i: int| ascii_lower_char(s[i]))
}

/// ASCII upper-casing of a whole string.
pub open spec fn ascii_upper(s: Seq<char>) -> Seq<char> {
    Seq::new(s.len(), |i: int| ascii_upper_char(s[i]))
}

/// Whether every character of `s` is ASCII.
pub open spec fn all_ascii(s: Seq<char>) -> bool {
    forall|i: int| 0 <= i < s.len() ==> (s[i] as u32) < 128
}

/// The concatenation of a list of texts, in order.
pub open spec fn pieces_text(ps: Seq<Seq<char>>) -> Seq<char>
    decreases ps.len(),
{
    if ps.len() == 0 {
        Seq::empty()
    } else {
        pieces_text(ps.drop_last()) + ps.last()
    }
}

/// What `str::to_lowercase` returns for a string (Unicode case mapping).
pub uninterp spec fn unicode_lowercase(s: Seq<char>) -> Seq<char>;

/// What `str::to_uppercase` returns for a string (Unicode case mapping).
pub uninterp spec fn unicode_uppercase(s: Seq<char>) -> Seq<char>;

/// What `String::from_utf8_lossy` yields for a byte sequence: the UTF-8
/// decoding, with every invalid sequence replaced by U+FFFD.
pub uninterp spec fn utf8_lossy_decode(bytes: Seq<u8>) -> Seq<char>;

/// `String::push`: appends one character.
#[verifier::external_body]
pub(crate) fn push_char(s: &mut String, c: char)
    ensures
        final(s)@ == old(s)@.push(c),
{
    s.push(c);
}

/// `str::to_lowercase`. The result is named by `unicode_lowercase`; on ASCII
/// input the Unicode mapping only turns `A`..`Z` into `a`..`z`, which the
/// second clause states.
#[verifier::external_body]
pub(crate) fn to_lowercase(s: &str) -> (r: String)
    ensures
        r@ == unicode_lowercase(s@),
        all_ascii(s@) ==> r@ == ascii_lower(s@),
{
    s.to_lowercase()
}

/// `str::to_uppercase`. The result is named by `unicode_uppercase`; on ASCII
/// input the Unicode mapping only turns `a`..`z` into `A`..`Z`, which the
/// second clause states.
#[verifier::external_body]
pub(crate) fn to_uppercase(s: &str) -> (r: String)
    ensures
        r@ == unicode_uppercase(s@),
        all_ascii(s@) ==> r@ == ascii_upper(s@),
{
    s.to_uppercase()
}

/// `String::from_utf8_lossy`, turned into an owned string. The result is
/// named by `utf8_lossy_decode`; of the decoding only this is stated: ASCII
/// bytes, valid UTF-8 each, decode to the characters with their codes.
#[verifier::external_body]
pub(crate) fn utf8_lossy(bytes: &[u8]) -> (r: String)
    ensures
        r@ == utf8_lossy_decode(bytes@),
        (forall|i: int| 0 <= i < bytes@.len() ==> bytes@[i] < 128) ==> r@ == Seq::new(
            bytes@.len(),
            |i: int| (bytes@[i] as u32) as char,
        ),
{
    String::from_utf8_lossy(bytes).into_owned()
}

/// Appends a string slice.
pub fn push_str(s: &mut String, t: &str)
    ensures
        final(s)@ == old(s)@ + t@,
{
    s.append(t);
}

/// An owned copy of a string slice.
pub fn owned(t: &str) -> (r: String)
    ensures
        r@ == t@,
{
    String::from_str(t)
}

/// The characters of a string slice.
pub fn chars_of(s: &str) -> (v: Vec<char>)
    ensures
        v@ == s@,
{
    let mut out: Vec<char> = Vec::new();
    let n = s.unicode_len();
    let mut i: usize = 0;
    while i < n
        invariant
            n == s@.len(),
            i <= n,
            out@ == s@.subrange(0, i as int),
        decreases n - i,
    {
        let c = s.get_char(i);
        out.push(c);
        i = i + 1;
    }
    proof {
        assert(s@.subrange(0, n as int) =~= s@);
    }
    out
}

/// A string holding the given characters.
pub fn string_of_chars(cs: &[char]) -> (s: String)
    ensures
        s@ == cs@,
{
    let mut s = String::new();
    let mut i: usize = 0;
    while i < cs.len()
        invariant
            i <= cs@.len(),
            s@ == cs@.subrange(0, i as int),
        decreases cs@.len() - i,
    {
        push_char(&mut s, cs[i]);
        proof {
            assert(cs@.subrange(0, i + 1) =~= cs@.subrange(0, i as int).push(cs@[i as int]));
        }
        i = i + 1;
    }
    proof {
        assert(cs@.subrange(0, cs@.len() as int) =~= cs@);
    }
    s
}

/// Whether two string slices hold the same characters.
pub fn str_eq(a: &str, b: &str) -> (r: bool)
    ensures
        r == (a@ == b@),
{
    let x = owned(a);
    let y = owned(b);
    x == y
}

/// Whether a string slice is empty.
pub fn str_is_empty(a: &str) -> (r: bool)
    ensures
        r == (a@.len() == 0),
{
    a.unicode_len() == 0
}

/// ASCII lower-casing of a string slice.
pub fn ascii_lowercase(s: &str) -> (r: String)
    ensures
        r@ == ascii_lower(s@),
{
    let cs = chars_of(s);
    let mut out: Vec<char> = Vec::new();
    let mut i: usize = 0;
    while i < cs.len()
        invariant
            cs@ == s@,
            i <= cs@.len(),
            out@ == ascii_lower(cs@).subrange(0, i as int),
        decreases cs@.len() - i,
    {
        let c = cs[i];
        let l = if 'A' <= c && c <= 'Z' {
            lower_letter(c)
        } else {
            c
        };
        out.push(l);
        proof {
            assert(ascii_lower(cs@).subrange(0, i + 1) =~= ascii_lower(cs@).subrange(0, i as int).push(l));
        }
        i = i + 1;
    }
    proof {
        assert(ascii_lower(cs@).subrange(0, cs@.len() as int) =~= ascii_lower(s@));
    }
    string_of_chars(out.as_slice())
}

fn lower_letter(c: char) -> (r: char)
    requires
        'A' <= c && c <= 'Z',
    ensures
        r == ascii_lower_char(c),
{
    let u: u32 = (c as u32) + 32;
    let b: u8 = u as u8;
    b as char
}

/// The character of a decimal digit.
fn digit(d: usize) -> (c: char)
    requires
        d < 10,
    ensures
        c == digit_char(d as nat),
{
    let b: u8 = (d as u8) + 48;
    b as char
}

/// Appends the decimal rendering of `n`.
pub fn push_decimal(s: &mut String, n: usize)
    ensures
        final(s)@ == old(s)@ + decimal(n as nat),
    decreases n,
{
    if n >= 10 {
        push_decimal(s, n / 10);
    }
    let c = digit(n % 10);
    push_char(s, c);
    proof {
        if n >= 10 {
            assert(decimal(n as nat) == decimal((n / 10) as nat).push(digit_char((n % 10) as nat)));
        } else {
            assert(decimal(n as nat) == seq![digit_char(n as nat)]);
        }
        assert(final(s)@ =~= old(s)@ + decimal(n as nat));
    }
}

/// The decimal rendering of `n`.
pub fn decimal_string(n: usize) -> (s: String)
    ensures
        s@ == decimal(n as nat),
{
    let mut s = String::new();
    push_decimal(&mut s, n);
    proof {
        assert(s@ =~= decimal(n as nat));
    }
    s
}

/// Appends the list notation of the bytes, e.g. `[1, 2, 3]`.
pub fn push_byte_list(s: &mut String, bs: &[u8])
    ensures
        final(s)@ == old(s)@ + byte_list(bs@),
{
    let ghost start = s@;
    push_char(s, '[');
    let mut i: usize = 0;
    while i < bs.len()
        invariant
            i <= bs@.len(),
            s@ == start + seq!['['] + joined_decimals(bs@.subrange(0, i as int)),
        decreases bs@.len() - i,
    {
        let ghost before = s@;
        if i > 0 {
            push_char(s, ',');
            push_char(s, ' ');
        }
        push_decimal(s, bs[i] as usize);
        proof {
            let pre = bs@.subrange(0, i as int);
            let nxt = bs@.subrange(0, i + 1);
            assert(nxt.drop_last() =~= pre);
            assert(nxt.last() == bs@[i as int]);
            if i == 0 {
                assert(pre =~= Seq::<u8>::empty());
                assert(joined_decimals(pre) =~= Seq::<char>::empty());
            }
            assert(s@ =~= start + seq!['['] + joined_decimals(nxt));
        }
        i = i + 1;
    }
    push_char(s, ']');
    proof {
        assert(bs@.subrange(0, bs@.len() as int) =~= bs@);
        assert(s@ =~= start + byte_list(bs@));
    }
}

} // verus!
