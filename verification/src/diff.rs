//! The textual difference between a mock and the last unmatched request.
use crate::backends::{
    change_texts, changes_view, diff_lines, diff_words, line_diff, paint_black_on_green, paint_bright_green,
    paint_green, paint_red, painted, word_diff, ChangeKind, Paint,
};
use crate::matcher::strings_view;
use crate::text::{chars_of, owned, pieces_text, push_char, push_str, string_of_chars};
use vstd::prelude::*;

verus! {

/// A text with every `"\r\n"` replaced by `"\n"`, scanning from the left.
pub open spec fn clean_line_breaks(s: Seq<char>) -> Seq<char>
    decreases s.len(),
{
    if s.len() == 0 {
        Seq::empty()
    } else if s.len() >= 2 && s[0] == '\r' && s[1] == '\n' {
        seq!['\n'] + clean_line_breaks(s.skip(2))
    } else {
        seq![s[0]] + clean_line_breaks(s.skip(1))
    }
}

/// Replaces every `"\r\n"` with `"\n"` (see `clean_line_breaks`).
pub fn clean(s: &str) -> (r: String)
    ensures
        r@ == clean_line_breaks(s@),
{
    let cs = chars_of(s);
    let mut out: Vec<char> = Vec::new();
    let mut i: usize = 0;
    proof {
        assert(s@.skip(0) =~= s@);
        assert(out@ + clean_line_breaks(s@) =~= clean_line_breaks(s@));
    }
    while i < cs.len()
        invariant
            cs@ == s@,
            i <= cs@.len(),
            clean_line_breaks(s@) == out@ + clean_line_breaks(s@.skip(i as int)),
        decreases cs@.len() - i,
    {
        let ghost rest = s@.skip(i as int);
        if i + 1 < cs.len() && cs[i] == '\r' && cs[i + 1] == '\n' {
            out.push('\n');
            proof {
                assert(rest[0] == '\r' && rest[1] == '\n');
                assert(rest.skip(2) =~= s@.skip(i + 2));
            }
            i = i + 2;
        } else {
            out.push(cs[i]);
            proof {
                assert(rest[0] == cs@[i as int]);
                assert(rest.skip(1) =~= s@.skip(i + 1));
            }
            i = i + 1;
        }
    }
    proof {
        assert(s@.skip(cs@.len() as int) =~= Seq::<char>::empty());
    }
    string_of_chars(out.as_slice())
}

/// The segments that the word changes `ws[..n]` contribute: unchanged
/// words in green, inserted words black on green, deleted words not at all.
pub open spec fn word_segments(ws: Seq<(ChangeKind, Seq<char>)>, n: int) -> Seq<(Option<Paint>, Seq<char>)>
    decreases n,
{
    if n <= 0 || n > ws.len() {
        Seq::empty()
    } else {
        word_segments(ws, n - 1) + match ws[n - 1].0 {
            ChangeKind::Equal => seq![(Some(Paint::Green), ws[n - 1].1)],
            ChangeKind::Insert => seq![(Some(Paint::BlackOnGreen), ws[n - 1].1)],
            ChangeKind::Delete => Seq::empty(),
        }
    }
}

/// The segments that the `i`-th line change contributes: an unchanged line
/// uncoloured, a deleted line in red, a line inserted right after a deleted
/// one word by word, any other inserted line in bright green.
pub open spec fn line_segments(cs: Seq<(ChangeKind, Seq<char>)>, i: int) -> Seq<(Option<Paint>, Seq<char>)> {
    match cs[i].0 {
        ChangeKind::Equal => seq![(None::<Paint>, cs[i].1)],
        ChangeKind::Delete => seq![(Some(Paint::Red), cs[i].1)],
        ChangeKind::Insert => if i > 0 && cs[i - 1].0 == ChangeKind::Delete {
            let ws = word_diff(cs[i - 1].1, cs[i].1);
            word_segments(ws, ws.len() as int)
        } else {
            seq![(Some(Paint::BrightGreen), cs[i].1)]
        },
    }
}

/// The segments of the first `n` line changes.
pub open spec fn all_segments(cs: Seq<(ChangeKind, Seq<char>)>, n: int) -> Seq<(Option<Paint>, Seq<char>)>
    decreases n,
{
    if n <= 0 || n > cs.len() {
        Seq::empty()
    } else {
        all_segments(cs, n - 1) + line_segments(cs, n - 1)
    }
}

/// The segments of the difference between an expected and an actual text:
/// those of the line diff of the two texts, line breaks normalized.
pub open spec fn diff_segments(expected: Seq<char>, actual: Seq<char>) -> Seq<(Option<Paint>, Seq<char>)> {
    let cs = line_diff(clean_line_breaks(expected), clean_line_breaks(actual));
    all_segments(cs, cs.len() as int)
}

/// The texts of a list of segments.
pub open spec fn segment_texts(segs: Seq<(Option<Paint>, Seq<char>)>) -> Seq<Seq<char>> {
    Seq::new(segs.len(), |i: int| segs[i].1)
}

/// Whether `out` is how a segment is shown: an uncoloured segment as it is,
/// a coloured one as it is or in its colouring, as `colored` decides.
pub open spec fn shown_as(seg: (Option<Paint>, Seq<char>), out: Seq<char>) -> bool {
    match seg.0 {
        None => out == seg.1,
        Some(p) => out == seg.1 || out == painted(p, seg.1),
    }
}

/// Whether `outs` shows `segs`, one output per segment.
pub open spec fn shows(segs: Seq<(Option<Paint>, Seq<char>)>, outs: Seq<Seq<char>>) -> bool {
    outs.len() == segs.len() && forall|i: int| 0 <= i < segs.len() ==> #[trigger] shown_as(segs[i], outs[i])
}

/// Whether `r` is a difference between an expected and an actual text: the
/// segments of their difference, each shown as `colored` decides, followed
/// by a line break.
pub open spec fn is_difference(expected: Seq<char>, actual: Seq<char>, r: Seq<char>) -> bool {
    exists|outs: Seq<Seq<char>>| #[trigger] shows(diff_segments(expected, actual), outs) && r == pieces_text(outs) + seq!['\n']
}

/// The difference with no colouring.
pub open spec fn spec_compare(expected: Seq<char>, actual: Seq<char>) -> Seq<char> {
    pieces_text(segment_texts(diff_segments(expected, actual))) + seq!['\n']
}

/// Showing one more segment.
proof fn lemma_shows_push(
    segs: Seq<(Option<Paint>, Seq<char>)>,
    outs: Seq<Seq<char>>,
    seg: (Option<Paint>, Seq<char>),
    out: Seq<char>,
)
    requires
        shows(segs, outs),
        shown_as(seg, out),
    ensures
        shows(segs.push(seg), outs.push(out)),
{
    assert forall|i: int| 0 <= i < segs.len() + 1 implies #[trigger] shown_as(segs.push(seg)[i], outs.push(out)[i]) by {
        if i < segs.len() {
            assert(segs.push(seg)[i] == segs[i]);
            assert(outs.push(out)[i] == outs[i]);
        }
    }
}

/// The views of a list of strings, one more pushed.
proof fn lemma_strings_push(v: Seq<String>, s: String)
    ensures
        strings_view(v.push(s)) == strings_view(v).push(s@),
{
    assert(strings_view(v.push(s)) =~= strings_view(v).push(s@));
}

/// Shows the word changes of a line inserted after a deleted one, one
/// output per segment (see `word_segments`).
fn push_word_pieces(
    pieces: &mut Vec<String>,
    Ghost(segs): Ghost<Seq<(Option<Paint>, Seq<char>)>>,
    old_line: &str,
    new_line: &str,
)
    requires
        shows(segs, strings_view(old(pieces)@)),
    ensures
        shows(
            segs + word_segments(word_diff(old_line@, new_line@), word_diff(old_line@, new_line@).len() as int),
            strings_view(final(pieces)@),
        ),
{
    let ws = diff_words(old_line, new_line);
    let ghost wv = changes_view(ws@);
    let mut j: usize = 0;
    proof {
        assert(segs + word_segments(wv, 0) =~= segs);
    }
    while j < ws.len()
        invariant
            wv == changes_view(ws@),
            wv == word_diff(old_line@, new_line@),
            j <= ws@.len(),
            shows(segs + word_segments(wv, j as int), strings_view(pieces@)),
        decreases ws@.len() - j,
    {
        let change = &ws[j];
        let ghost done = segs + word_segments(wv, j as int);
        let ghost before = pieces@;
        proof {
            assert(wv[j as int] == (change.0, change.1@));
        }
        match change.0 {
            ChangeKind::Equal => {
                let p = paint_green(change.1.as_str());
                proof {
                    lemma_strings_push(before, p);
                    lemma_shows_push(done, strings_view(before), (Some(Paint::Green), change.1@), p@);
                    assert(segs + word_segments(wv, j + 1) =~= done.push((Some(Paint::Green), change.1@)));
                }
                pieces.push(p);
            },
            ChangeKind::Insert => {
                let p = paint_black_on_green(change.1.as_str());
                proof {
                    lemma_strings_push(before, p);
                    lemma_shows_push(done, strings_view(before), (Some(Paint::BlackOnGreen), change.1@), p@);
                    assert(segs + word_segments(wv, j + 1) =~= done.push((Some(Paint::BlackOnGreen), change.1@)));
                }
                pieces.push(p);
            },
            ChangeKind::Delete => {
                proof {
                    assert(segs + word_segments(wv, j + 1) =~= done);
                }
            },
        }
        j = j + 1;
    }
}

/// The concatenation of the pieces.
fn join_pieces(pieces: &Vec<String>) -> (r: String)
    ensures
        r@ == pieces_text(strings_view(pieces@)),
{
    let ghost pv = strings_view(pieces@);
    let mut r = String::new();
    let mut i: usize = 0;
    proof {
        assert(pv.take(0) =~= Seq::<Seq<char>>::empty());
    }
    while i < pieces.len()
        invariant
            pv == strings_view(pieces@),
            i <= pieces@.len(),
            r@ == pieces_text(pv.take(i as int)),
        decreases pieces@.len() - i,
    {
        push_str(&mut r, pieces[i].as_str());
        proof {
            assert(pv.take(i + 1).drop_last() =~= pv.take(i as int));
            assert(pv.take(i + 1).last() == pieces@[i as int]@);
        }
        i = i + 1;
    }
    proof {
        assert(pv.take(pieces@.len() as int) =~= pv);
    }
    r
}

/// Where every line change is `Equal`, the segments are the lines, uncoloured.
proof fn lemma_equal_segments(cs: Seq<(ChangeKind, Seq<char>)>, n: int)
    requires
        0 <= n <= cs.len(),
        forall|i: int| 0 <= i < cs.len() ==> (#[trigger] cs[i]).0 == ChangeKind::Equal,
    ensures
        all_segments(cs, n) == Seq::new(n as nat, |i: int| (None::<Paint>, cs[i].1)),
    decreases n,
{
    if n > 0 {
        lemma_equal_segments(cs, n - 1);
        assert(cs[n - 1].0 == ChangeKind::Equal);
        assert(all_segments(cs, n) =~= Seq::new(n as nat, |i: int| (None::<Paint>, cs[i].1)));
    }
}

/// The difference between an expected and an actual text (see
/// `is_difference`); with no colouring it is `spec_compare`. Two texts that
/// are equal once line breaks are normalized differ by nothing: the
/// difference is the normalized text, uncoloured, and a line break.
pub fn compare(expected: &str, actual: &str) -> (r: String)
    ensures
        is_difference(expected@, actual@, r@),
        clean_line_breaks(expected@) == clean_line_breaks(actual@) ==> r@ == clean_line_breaks(expected@) + seq![
            '\n',
        ],
{
    let clean_expected = clean(expected);
    let clean_actual = clean(actual);
    let changes = diff_lines(clean_expected.as_str(), clean_actual.as_str());
    let ghost cv = changes_view(changes@);
    let mut pieces: Vec<String> = Vec::new();
    let mut i: usize = 0;
    proof {
        assert(strings_view(pieces@) =~= Seq::<Seq<char>>::empty());
    }
    while i < changes.len()
        invariant
            cv == changes_view(changes@),
            cv == line_diff(clean_expected@, clean_actual@),
            i <= changes@.len(),
            shows(all_segments(cv, i as int), strings_view(pieces@)),
        decreases changes@.len() - i,
    {
        let change = &changes[i];
        let ghost done = all_segments(cv, i as int);
        let ghost before = pieces@;
        proof {
            assert(cv[i as int] == (change.0, change.1@));
            assert(all_segments(cv, i + 1) == done + line_segments(cv, i as int));
        }
        let mut after_delete = false;
        if i > 0 {
            let prev = &changes[i - 1];
            proof {
                assert(cv[i - 1] == (prev.0, prev.1@));
            }
            match prev.0 {
                ChangeKind::Delete => {
                    after_delete = true;
                },
                _ => {},
            }
        }
        match change.0 {
            ChangeKind::Equal => {
                let p = owned(change.1.as_str());
                proof {
                    lemma_strings_push(before, p);
                    lemma_shows_push(done, strings_view(before), (None::<Paint>, change.1@), p@);
                    assert(done + line_segments(cv, i as int) =~= done.push((None::<Paint>, change.1@)));
                }
                pieces.push(p);
            },
            ChangeKind::Delete => {
                let p = paint_red(change.1.as_str());
                proof {
                    lemma_strings_push(before, p);
                    lemma_shows_push(done, strings_view(before), (Some(Paint::Red), change.1@), p@);
                    assert(done + line_segments(cv, i as int) =~= done.push((Some(Paint::Red), change.1@)));
                }
                pieces.push(p);
            },
            ChangeKind::Insert => {
                if after_delete {
                    let prev = &changes[i - 1];
                    push_word_pieces(&mut pieces, Ghost(done), prev.1.as_str(), change.1.as_str());
                } else {
                    let p = paint_bright_green(change.1.as_str());
                    proof {
                        lemma_strings_push(before, p);
                        lemma_shows_push(done, strings_view(before), (Some(Paint::BrightGreen), change.1@), p@);
                        assert(done + line_segments(cv, i as int) =~= done.push((Some(Paint::BrightGreen), change.1@)));
                    }
                    pieces.push(p);
                }
            },
        }
        i = i + 1;
    }
    let mut result = join_pieces(&pieces);
    push_char(&mut result, '\n');
    proof {
        assert(result@ =~= pieces_text(strings_view(pieces@)) + seq!['\n']);
        assert(shows(diff_segments(expected@, actual@), strings_view(pieces@)));
        if clean_expected@ == clean_actual@ {
            assert forall|k: int| 0 <= k < cv.len() implies (#[trigger] cv[k]).0 == ChangeKind::Equal by {
                assert(changes@[k].0 == ChangeKind::Equal);
                assert(cv[k] == (changes@[k].0, changes@[k].1@));
            }
            lemma_equal_segments(cv, cv.len() as int);
            let segs = all_segments(cv, cv.len() as int);
            let outs = strings_view(pieces@);
            assert forall|k: int| 0 <= k < outs.len() implies outs[k] == change_texts(cv)[k] by {
                assert(shown_as(segs[k], outs[k]));
            }
            assert(outs =~= change_texts(cv));
        }
    }
    result
}

} // verus!
