//! The outside crates this library computes with: regular expressions,
//! JSON comparison, URL-encoded form decoding, text diffs, terminal
//! colours, random mock identifiers and HTTP status-code validation. Each function here makes one
//! call into its crate and states what the crate guarantees of the result;
//! where the result takes more than a few lines to describe, it is given a
//! name and the callers' contracts are stated over that name.
use colored::Colorize;
use rand::Rng;
use vstd::prelude::*;

verus! {

/// Whether `regex::Regex::new` accepts the pattern.
pub uninterp spec fn regex_compiles(pattern: Seq<char>) -> bool;

/// What `regex::Regex::is_match` answers for the compiled `pattern` on `text`.
pub uninterp spec fn regex_finds(pattern: Seq<char>, text: Seq<char>) -> bool;

/// Whether `serde_json::from_str::<serde_json::Value>` accepts the text.
pub uninterp spec fn json_parses(text: Seq<char>) -> bool;

/// Whether the JSON values parsed from the two texts are equal
/// (`serde_json::Value`'s `==`).
pub uninterp spec fn json_equal(left: Seq<char>, right: Seq<char>) -> bool;

/// Whether `assert_json_diff::assert_json_matches_no_panic`, in the
/// `Inclusive` compare mode, accepts the value parsed from `actual` as
/// containing the value parsed from `expected`.
pub uninterp spec fn json_includes(actual: Seq<char>, expected: Seq<char>) -> bool;

/// The key/value pairs that `serde_urlencoded::from_str` decodes from a text,
/// in the order in which they occur, or `None` where it reports an error.
pub uninterp spec fn urlencoded_pairs(text: Seq<char>) -> Option<Seq<(Seq<char>, Seq<char>)>>;

/// The kind of one change of a text diff.
#[derive(PartialEq, Eq, Structural, Clone, Copy, Debug)]
pub enum ChangeKind {
    Equal,
    Delete,
    Insert,
}

/// The changes of `similar::TextDiff::from_lines(old, new)`, in the order
/// of `iter_all_changes`, each with its tag and its text.
pub uninterp spec fn line_diff(old: Seq<char>, new: Seq<char>) -> Seq<(ChangeKind, Seq<char>)>;

/// The changes of `similar::TextDiff::from_words(old, new)`, in the order
/// of `iter_all_changes`, each with its tag and its text.
pub uninterp spec fn word_diff(old: Seq<char>, new: Seq<char>) -> Seq<(ChangeKind, Seq<char>)>;

/// The views of a list of string pairs.
pub open spec fn pairs_view(v: Seq<(String, String)>) -> Seq<(Seq<char>, Seq<char>)> {
    Seq::new(v.len(), |i: int| (v[i].0@, v[i].1@))
}

/// The views of a list of diff changes.
pub open spec fn changes_view(v: Seq<(ChangeKind, String)>) -> Seq<(ChangeKind, Seq<char>)> {
    Seq::new(v.len(), |i: int| (v[i].0, v[i].1@))
}

/// Whether a character is an ASCII letter or digit.
pub open spec fn is_alphanumeric(c: char) -> bool {
    ('0' <= c && c <= '9') || ('a' <= c && c <= 'z') || ('A' <= c && c <= 'Z')
}

/// Compiles `pattern` with `regex::Regex::new` and, if that succeeds, tests
/// `text` with `is_match`. `None` stands for a pattern that the crate rejects.
#[verifier::external_body]
pub(crate) fn regex_is_match(pattern: &str, text: &str) -> (r: Option<bool>)
    ensures
        r == (if regex_compiles(pattern@) {
            Some(regex_finds(pattern@, text@))
        } else {
            None::<bool>
        }),
{
    match regex::Regex::new(pattern) {
        Ok(re) => Some(re.is_match(text)),
        Err(_) => None,
    }
}

/// Parses both texts with `serde_json::from_str` and compares the two
/// values with `==`. `None` stands for a text that does not parse.
#[verifier::external_body]
pub(crate) fn json_texts_equal(expected: &str, actual: &str) -> (r: Option<bool>)
    ensures
        r == (if json_parses(expected@) && json_parses(actual@) {
            Some(json_equal(expected@, actual@))
        } else {
            None::<bool>
        }),
{
    let e = serde_json::from_str::<serde_json::Value>(expected);
    let a = serde_json::from_str::<serde_json::Value>(actual);
    match (e, a) {
        (Ok(e), Ok(a)) => Some(e == a),
        _ => None,
    }
}

/// Parses both texts with `serde_json::from_str` and asks
/// `assert_json_diff::assert_json_matches_no_panic`, in the `Inclusive`
/// mode, whether `actual` contains `expected`. `None` stands for a text
/// that does not parse.
#[verifier::external_body]
pub(crate) fn json_text_includes(actual: &str, expected: &str) -> (r: Option<bool>)
    ensures
        r == (if json_parses(expected@) && json_parses(actual@) {
            Some(json_includes(actual@, expected@))
        } else {
            None::<bool>
        }),
{
    let e = serde_json::from_str::<serde_json::Value>(expected);
    let a = serde_json::from_str::<serde_json::Value>(actual);
    match (e, a) {
        (Ok(e), Ok(a)) => {
            let config = assert_json_diff::Config::new(assert_json_diff::CompareMode::Inclusive);
            Some(assert_json_diff::assert_json_matches_no_panic(&a, &e, config).is_ok())
        },
        _ => None,
    }
}

/// `serde_urlencoded::from_str`, decoding the text into its key/value
/// pairs in order of occurrence.
#[verifier::external_body]
pub(crate) fn urlencoded_decode(text: &str) -> (r: Option<Vec<(String, String)>>)
    ensures
        match r {
            Some(v) => urlencoded_pairs(text@) == Some(pairs_view(v@)),
            None => urlencoded_pairs(text@) is None,
        },
{
    serde_urlencoded::from_str::<Vec<(String, String)>>(text).ok()
}

/// The texts of a list of diff changes.
pub open spec fn change_texts(cs: Seq<(ChangeKind, Seq<char>)>) -> Seq<Seq<char>> {
    Seq::new(cs.len(), |i: int| cs[i].1)
}

/// The line changes of `similar::TextDiff::from_lines(old, new)`. For two
/// equal texts the diff (Myers, after taking the common prefix, which is
/// all of it) is one equal run: every change is `Equal`, and the lines,
/// which `tokenize_lines` cuts so that they cover the text, give it back.
#[verifier::external_body]
pub(crate) fn diff_lines(old: &str, new: &str) -> (r: Vec<(ChangeKind, String)>)
    ensures
        changes_view(r@) == line_diff(old@, new@),
        old@ == new@ ==> (forall|i: int| 0 <= i < r@.len() ==> (#[trigger] r@[i]).0 == ChangeKind::Equal),
        old@ == new@ ==> crate::text::pieces_text(change_texts(changes_view(r@))) == old@,
{
    let diff = similar::TextDiff::from_lines(old, new);
    let mut out = Vec::new();
    for c in diff.iter_all_changes() {
        let kind = match c.tag() {
            similar::ChangeTag::Equal => ChangeKind::Equal,
            similar::ChangeTag::Delete => ChangeKind::Delete,
            similar::ChangeTag::Insert => ChangeKind::Insert,
        };
        out.push((kind, c.value().to_string()));
    }
    out
}

/// The word changes of `similar::TextDiff::from_words(old, new)`.
#[verifier::external_body]
pub(crate) fn diff_words(old: &str, new: &str) -> (r: Vec<(ChangeKind, String)>)
    ensures
        changes_view(r@) == word_diff(old@, new@),
{
    let diff = similar::TextDiff::from_words(old, new);
    let mut out = Vec::new();
    for c in diff.iter_all_changes() {
        let kind = match c.tag() {
            similar::ChangeTag::Equal => ChangeKind::Equal,
            similar::ChangeTag::Delete => ChangeKind::Delete,
            similar::ChangeTag::Insert => ChangeKind::Insert,
        };
        out.push((kind, c.value().to_string()));
    }
    out
}

/// The colourings of the pieces of a difference.
#[derive(PartialEq, Eq, Structural, Clone, Copy, Debug)]
pub enum Paint {
    Red,
    Green,
    BlackOnGreen,
    BrightGreen,
}

/// What `colored` writes for `text.red()` when it colours.
pub uninterp spec fn red_text(text: Seq<char>) -> Seq<char>;

/// What `colored` writes for `text.green()` when it colours.
pub uninterp spec fn green_text(text: Seq<char>) -> Seq<char>;

/// What `colored` writes for `text.black().on_green()` when it colours.
pub uninterp spec fn black_on_green_text(text: Seq<char>) -> Seq<char>;

/// What `colored` writes for `text.bright_green()` when it colours.
pub uninterp spec fn bright_green_text(text: Seq<char>) -> Seq<char>;

/// The coloured form of `text` in colouring `p`.
pub open spec fn painted(p: Paint, text: Seq<char>) -> Seq<char> {
    match p {
        Paint::Red => red_text(text),
        Paint::Green => green_text(text),
        Paint::BlackOnGreen => black_on_green_text(text),
        Paint::BrightGreen => bright_green_text(text),
    }
}

/// Whether `text` holds the reset sequence `ESC [ 0 m`.
pub open spec fn has_reset(text: Seq<char>) -> bool {
    exists|i: int|
        0 <= i && i + 4 <= text.len() && #[trigger] text.subrange(i, i + 4) == seq!['\x1B', '[', '0', 'm']
}

/// `text` between the escape sequence that selects SGR `codes` and the reset sequence.
pub open spec fn sgr_wrapped(codes: Seq<char>, text: Seq<char>) -> Seq<char> {
    seq!['\x1B', '['] + codes + seq!['m'] + text + seq!['\x1B', '[', '0', 'm']
}

// `colored` decides whether to colour from `set_override` or else from
// NO_COLOR, CLICOLOR_FORCE, CLICOLOR and whether stdout is a terminal; the
// `Display` of a `ColoredString` then writes the text unchanged, or the style's
// escape sequence, the text (with the style repeated after each inner reset)
// and the reset sequence. The contracts below hold where that decision does
// not change while one string is written.

/// `colored`'s `text.red().to_string()`: the text as it is, or in red.
#[verifier::external_body]
pub(crate) fn paint_red(text: &str) -> (r: String)
    ensures
        r@ == text@ || r@ == red_text(text@),
        r@ == red_text(text@) && !has_reset(text@) ==> r@ == sgr_wrapped(seq!['3', '1'], text@),
{
    text.red().to_string()
}

/// `colored`'s `text.green().to_string()`: the text as it is, or in green.
#[verifier::external_body]
pub(crate) fn paint_green(text: &str) -> (r: String)
    ensures
        r@ == text@ || r@ == green_text(text@),
        r@ == green_text(text@) && !has_reset(text@) ==> r@ == sgr_wrapped(seq!['3', '2'], text@),
{
    text.green().to_string()
}

/// `colored`'s `text.black().on_green().to_string()`: the text as it is, or
/// black on green.
#[verifier::external_body]
pub(crate) fn paint_black_on_green(text: &str) -> (r: String)
    ensures
        r@ == text@ || r@ == black_on_green_text(text@),
        r@ == black_on_green_text(text@) && !has_reset(text@) ==> r@ == sgr_wrapped(
            seq!['4', '2', ';', '3', '0'],
            text@,
        ),
{
    text.black().on_green().to_string()
}

/// `colored`'s `text.bright_green().to_string()`: the text as it is, or in
/// bright green.
#[verifier::external_body]
pub(crate) fn paint_bright_green(text: &str) -> (r: String)
    ensures
        r@ == text@ || r@ == bright_green_text(text@),
        r@ == bright_green_text(text@) && !has_reset(text@) ==> r@ == sgr_wrapped(seq!['9', '2'], text@),
{
    text.bright_green().to_string()
}

/// `len` characters drawn with `rand::thread_rng` from the
/// `rand::distributions::Alphanumeric` distribution. Which characters come
/// out is left open; only their number and their alphabet are stated.
#[verifier::external_body]
pub(crate) fn random_alphanumeric(len: usize) -> (id: String)
    ensures
        id@.len() == len,
        forall|i: int| 0 <= i < len ==> is_alphanumeric(#[trigger] id@[i]),
{
    rand::thread_rng().sample_iter(&rand::distributions::Alphanumeric).map(char::from).take(len).collect()
}

/// `http::StatusCode::from_u16`, which accepts exactly the codes from 100 to
/// 999, followed by `as_u16`, which gives the code back.
#[verifier::external_body]
pub(crate) fn status_code(code: u16) -> (r: Option<u16>)
    ensures
        r == (if 100 <= code && code <= 999 {
            Some(code)
        } else {
            None::<u16>
        }),
{
    match http::StatusCode::from_u16(code) {
        Ok(s) => Some(s.as_u16()),
        Err(_) => None,
    }
}

} // verus!
