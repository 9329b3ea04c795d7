//! Markdown-style inline markup: `**` toggles bold, `~~` strikethrough,
//! a single `*` italic; everything else is plain text. One renderer
//! rewrites the markers into Whatsapp's inline notation, the other
//! strips them and reports the marked spans as ranges measured in
//! grapheme clusters.

use unicode_segmentation::UnicodeSegmentation;
use vstd::prelude::*;

verus! {

/// How many grapheme clusters `s` segments into, per the Unicode
/// extended grapheme cluster rules. A function of the characters alone.
pub uninterp spec fn grapheme_count_of(s: Seq<char>) -> nat;

/// Relies on unicode_segmentation's `graphemes(true)`: it splits a
/// string into its non-empty extended grapheme clusters, a function of
/// the characters alone, so the count is at most the character count and
/// zero exactly for the empty string.
#[verifier::external_body]
fn grapheme_len(s: &str) -> (r: usize)
    ensures
        r == grapheme_count_of(s@),
        r <= s@.len(),
        s@.len() == 0 ==> r == 0,
{
    s.graphemes(true).count()
}

/// Whether a style marker begins at the start of `s`.
pub open spec fn starts_marker(s: Seq<char>) -> bool {
    s.len() > 0 && (s[0] == '*' || (s.len() >= 2 && s[0] == '~' && s[1] == '~'))
}

/// The markup rewritten into Whatsapp's inline notation: `**` becomes
/// `*`, `~~` becomes `~`, a single `*` becomes `_`, text is kept.
pub open spec fn whatsapp_format(s: Seq<char>) -> Seq<char>
    decreases s.len(),
{
    if s.len() == 0 {
        Seq::empty()
    } else if s.len() >= 2 && s[0] == '*' && s[1] == '*' {
        seq!['*'] + whatsapp_format(s.skip(2))
    } else if s.len() >= 2 && s[0] == '~' && s[1] == '~' {
        seq!['~'] + whatsapp_format(s.skip(2))
    } else if s[0] == '*' {
        seq!['_'] + whatsapp_format(s.skip(1))
    } else {
        seq![s[0]] + whatsapp_format(s.skip(1))
    }
}

/// The text with all style markers removed.
pub open spec fn plain_text(s: Seq<char>) -> Seq<char>
    decreases s.len(),
{
    if s.len() == 0 {
        Seq::empty()
    } else if s.len() >= 2 && s[0] == '*' && s[1] == '*' {
        plain_text(s.skip(2))
    } else if s.len() >= 2 && s[0] == '~' && s[1] == '~' {
        plain_text(s.skip(2))
    } else if s[0] == '*' {
        plain_text(s.skip(1))
    } else {
        seq![s[0]] + plain_text(s.skip(1))
    }
}

/// Length of the maximal marker-free prefix of `s`.
pub open spec fn run_len(s: Seq<char>) -> nat
    decreases s.len(),
{
    if s.len() == 0 || starts_marker(s) {
        0
    } else {
        1 + run_len(s.drop_first())
    }
}

/// The marker-free prefix never overruns the string, and is non-empty
/// wherever no marker starts.
proof fn lemma_run_len_bounds(s: Seq<char>)
    ensures
        run_len(s) <= s.len(),
        s.len() > 0 && !starts_marker(s) ==> run_len(s) >= 1,
    decreases s.len(),
{
    if s.len() > 0 && !starts_marker(s) {
        lemma_run_len_bounds(s.drop_first());
    }
}

/// An inline style.
#[derive(Debug, Clone, Copy, PartialEq, Eq, Structural)]
pub enum TextStyle {
    Bold,
    Italic,
    Strikethrough,
}

/// A styled span of the plain text, measured in grapheme clusters.
#[derive(Debug, Clone, Copy, PartialEq, Eq, Structural)]
pub struct FormatRange {
    pub start: u32,
    pub length: u32,
    pub style: TextStyle,
}

/// The styled spans of `s`. `pos` is the grapheme position reached so
/// far; `bold`, `italic` and `strike` hold the start position of a span
/// whose opening marker was seen but not yet closed. A second marker of a
/// style closes its span; an unclosed marker produces no span.
pub open spec fn format_ranges(
    s: Seq<char>,
    pos: int,
    bold: Option<int>,
    italic: Option<int>,
    strike: Option<int>,
) -> Seq<(int, int, TextStyle)>
    decreases s.len(),
    via format_ranges_decreases
{
    if s.len() == 0 {
        Seq::empty()
    } else if s.len() >= 2 && s[0] == '*' && s[1] == '*' {
        match bold {
            Some(st) => seq![(st, pos - st, TextStyle::Bold)] + format_ranges(
                s.skip(2),
                pos,
                None,
                italic,
                strike,
            ),
            None => format_ranges(s.skip(2), pos, Some(pos), italic, strike),
        }
    } else if s.len() >= 2 && s[0] == '~' && s[1] == '~' {
        match strike {
            Some(st) => seq![(st, pos - st, TextStyle::Strikethrough)] + format_ranges(
                s.skip(2),
                pos,
                bold,
                italic,
                None,
            ),
            None => format_ranges(s.skip(2), pos, bold, italic, Some(pos)),
        }
    } else if s[0] == '*' {
        match italic {
            Some(st) => seq![(st, pos - st, TextStyle::Italic)] + format_ranges(
                s.skip(1),
                pos,
                bold,
                None,
                strike,
            ),
            None => format_ranges(s.skip(1), pos, bold, Some(pos), strike),
        }
    } else {
        format_ranges(
            s.skip(run_len(s) as int),
            pos + grapheme_count_of(s.take(run_len(s) as int)),
            bold,
            italic,
            strike,
        )
    }
}

#[via_fn]
proof fn format_ranges_decreases(
    s: Seq<char>,
    pos: int,
    bold: Option<int>,
    italic: Option<int>,
    strike: Option<int>,
) {
    lemma_run_len_bounds(s);
}

/// A marker-free prefix passes into the plain text unchanged.
proof fn lemma_plain_text_run(s: Seq<char>, r: int)
    requires
        0 <= r <= s.len(),
        forall|q: int| 0 <= q < r ==> !starts_marker(#[trigger] s.skip(q)),
    ensures
        plain_text(s) == s.take(r) + plain_text(s.skip(r)),
    decreases r,
{
    if r == 0 {
        assert(s.skip(0) =~= s);
        assert(s.take(0) + plain_text(s) =~= plain_text(s));
    } else {
        assert(s.skip(0) =~= s);
        assert(!starts_marker(s));
        assert(s.len() > 0);
        assert(plain_text(s) == seq![s[0]] + plain_text(s.skip(1)));
        let t = s.skip(1);
        assert forall|q: int| 0 <= q < r - 1 implies !starts_marker(#[trigger] t.skip(q)) by {
            assert(t.skip(q) =~= s.skip(q + 1));
        }
        lemma_plain_text_run(t, r - 1);
        assert(t.skip(r - 1) =~= s.skip(r));
        assert(seq![s[0]] + (t.take(r - 1) + plain_text(s.skip(r))) =~= s.take(r) + plain_text(
            s.skip(r),
        ));
    }
}

/// The maximal marker-free prefix ends exactly where the first marker
/// starts (or at the end of the string).
proof fn lemma_run_len_exact(s: Seq<char>, r: int)
    requires
        0 <= r <= s.len(),
        forall|q: int| 0 <= q < r ==> !starts_marker(#[trigger] s.skip(q)),
        r == s.len() || starts_marker(s.skip(r)),
    ensures
        run_len(s) == r,
    decreases r,
{
    assert(s.skip(0) =~= s);
    if r == 0 {
    } else {
        assert(!starts_marker(s));
        let t = s.drop_first();
        assert(t =~= s.skip(1));
        assert forall|q: int| 0 <= q < r - 1 implies !starts_marker(#[trigger] t.skip(q)) by {
            assert(t.skip(q) =~= s.skip(q + 1));
        }
        assert(t.skip(r - 1) =~= s.skip(r));
        lemma_run_len_exact(t, r - 1);
    }
}

/// Whether an executable range list matches the spec-level spans.
pub open spec fn ranges_match(rs: Seq<FormatRange>, spans: Seq<(int, int, TextStyle)>) -> bool {
    &&& rs.len() == spans.len()
    &&& (forall|i: int|
        0 <= i < rs.len() ==> {
            &&& (#[trigger] rs[i]).start == spans[i].0
            &&& rs[i].length == spans[i].1
            &&& rs[i].style == spans[i].2
        })
}

/// Spec view of an open-span marker position.
pub open spec fn opt_pos(o: Option<u32>) -> Option<int> {
    match o {
        Some(v) => Some(v as int),
        None => None,
    }
}

/// Strip the markup from `message` and report the styled spans, measured
/// in grapheme clusters of the plain text.
pub fn parse_message_with_format(message: &str) -> (r: (String, Vec<FormatRange>))
    requires
        message@.len() <= u32::MAX,
    ensures
        r.0@ == plain_text(message@),
        ranges_match(r.1@, format_ranges(message@, 0, None, None, None)),
{
    let n = message.unicode_len();
    let mut out = String::new();
    let mut ranges: Vec<FormatRange> = Vec::new();
    let mut pos: u32 = 0;
    let mut bold: Option<u32> = None;
    let mut italic: Option<u32> = None;
    let mut strike: Option<u32> = None;
    let ghost full_spans = format_ranges(message@, 0, None, None, None);
    let ghost mut done_spans: Seq<(int, int, TextStyle)> = Seq::empty();
    proof {
        assert(message@.skip(0) =~= message@);
        assert(done_spans + full_spans =~= full_spans);
    }
    let mut i: usize = 0;
    while i < n
        invariant
            i <= n,
            n == message@.len(),
            n <= u32::MAX,
            pos <= i,
            out@ + plain_text(message@.skip(i as int)) == plain_text(message@),
            full_spans == format_ranges(message@, 0, None, None, None),
            full_spans == done_spans + format_ranges(
                message@.skip(i as int),
                pos as int,
                opt_pos(bold),
                opt_pos(italic),
                opt_pos(strike),
            ),
            ranges_match(ranges@, done_spans),
            bold is Some ==> bold.unwrap() <= pos,
            italic is Some ==> italic.unwrap() <= pos,
            strike is Some ==> strike.unwrap() <= pos,
        decreases n - i,
    {
        let ghost rest = message@.skip(i as int);
        let ghost pre_out = out@;
        let ghost pre_spans = done_spans;
        let ghost tail = format_ranges(
            rest,
            pos as int,
            opt_pos(bold),
            opt_pos(italic),
            opt_pos(strike),
        );
        proof {
            assert(rest[0] == message@[i as int]);
            if i + 1 < n {
                assert(rest[1] == message@[i + 1]);
            }
            assert(rest.skip(1) =~= message@.skip(i + 1));
            if i + 2 <= n {
                assert(rest.skip(2) =~= message@.skip(i + 2));
            }
        }
        let c = message.get_char(i);
        if c == '*' && i + 1 < n && message.get_char(i + 1) == '*' {
            match bold {
                Some(st) => {
                    ranges.push(FormatRange { start: st, length: pos - st, style: TextStyle::Bold });
                    proof {
                        done_spans = pre_spans + seq![
                            (st as int, pos - st, TextStyle::Bold),
                        ];
                        assert((pre_spans + seq![(st as int, pos - st, TextStyle::Bold)]) + format_ranges(
                            message@.skip(i + 2),
                            pos as int,
                            opt_pos(None),
                            opt_pos(italic),
                            opt_pos(strike),
                        ) =~= pre_spans + (seq![(st as int, pos - st, TextStyle::Bold)]
                            + format_ranges(
                            message@.skip(i + 2),
                            pos as int,
                            opt_pos(None),
                            opt_pos(italic),
                            opt_pos(strike),
                        )));
                    }
                    bold = None;
                },
                None => {
                    bold = Some(pos);
                },
            }
            i += 2;
        } else if c == '~' && i + 1 < n && message.get_char(i + 1) == '~' {
            match strike {
                Some(st) => {
                    ranges.push(
                        FormatRange { start: st, length: pos - st, style: TextStyle::Strikethrough },
                    );
                    proof {
                        done_spans = pre_spans + seq![
                            (st as int, pos - st, TextStyle::Strikethrough),
                        ];
                        assert((pre_spans + seq![(st as int, pos - st, TextStyle::Strikethrough)])
                            + format_ranges(
                            message@.skip(i + 2),
                            pos as int,
                            opt_pos(bold),
                            opt_pos(italic),
                            opt_pos(None),
                        ) =~= pre_spans + (seq![(st as int, pos - st, TextStyle::Strikethrough)]
                            + format_ranges(
                            message@.skip(i + 2),
                            pos as int,
                            opt_pos(bold),
                            opt_pos(italic),
                            opt_pos(None),
                        )));
                    }
                    strike = None;
                },
                None => {
                    strike = Some(pos);
                },
            }
            i += 2;
        } else if c == '*' {
            match italic {
                Some(st) => {
                    ranges.push(
                        FormatRange { start: st, length: pos - st, style: TextStyle::Italic },
                    );
                    proof {
                        done_spans = pre_spans + seq![
                            (st as int, pos - st, TextStyle::Italic),
                        ];
                        assert((pre_spans + seq![(st as int, pos - st, TextStyle::Italic)])
                            + format_ranges(
                            message@.skip(i + 1),
                            pos as int,
                            opt_pos(bold),
                            opt_pos(None),
                            opt_pos(strike),
                        ) =~= pre_spans + (seq![(st as int, pos - st, TextStyle::Italic)]
                            + format_ranges(
                            message@.skip(i + 1),
                            pos as int,
                            opt_pos(bold),
                            opt_pos(None),
                            opt_pos(strike),
                        )));
                    }
                    italic = None;
                },
                None => {
                    italic = Some(pos);
                },
            }
            i += 1;
        } else {
            proof {
                assert(!starts_marker(rest));
            }
            let mut j: usize = i;
            let mut scanning = true;
            while j < n && scanning
                invariant
                    i <= j <= n,
                    n == message@.len(),
                    forall|q: int| i <= q < j ==> !starts_marker(#[trigger] message@.skip(q)),
                    !scanning ==> j < n && starts_marker(message@.skip(j as int)),
                decreases (n - j) + (if scanning {
                    1int
                } else {
                    0int
                }),
            {
                let ghost at = message@.skip(j as int);
                proof {
                    assert(at[0] == message@[j as int]);
                    if j + 1 < n {
                        assert(at[1] == message@[j + 1]);
                    }
                }
                let c2 = message.get_char(j);
                let marker = if c2 == '*' {
                    true
                } else if c2 == '~' && j + 1 < n {
                    message.get_char(j + 1) == '~'
                } else {
                    false
                };
                if marker {
                    scanning = false;
                } else {
                    proof {
                        assert(!starts_marker(at));
                    }
                    j += 1;
                }
            }
            proof {
                assert forall|q: int| 0 <= q < j - i implies !starts_marker(
                    #[trigger] rest.skip(q),
                ) by {
                    assert(rest.skip(q) =~= message@.skip(i + q));
                }
                if j < n {
                    assert(rest.skip(j - i) =~= message@.skip(j as int));
                }
                lemma_run_len_exact(rest, j - i);
                lemma_plain_text_run(rest, j - i);
            }
            let piece = message.substring_char(i, j);
            proof {
                assert(piece@ =~= rest.take(j - i));
            }
            let g = grapheme_len(piece);
            out.append(piece);
            proof {
                assert((pre_out + rest.take(j - i)) + plain_text(rest.skip(j - i)) =~= pre_out + (
                rest.take(j - i) + plain_text(rest.skip(j - i))));
                assert(rest.skip(j - i) =~= message@.skip(j as int));
            }
            pos = pos + (g as u32);
            i = j;
        }
    }
    proof {
        assert(message@.skip(n as int) =~= Seq::<char>::empty());
        assert(out@ + Seq::<char>::empty() =~= out@);
        assert(done_spans + Seq::<(int, int, TextStyle)>::empty() =~= done_spans);
    }
    (out, ranges)
}

/// Rewrite the markup into Whatsapp's inline notation.
pub fn parse_message_with_whatsapp_format(message: &str) -> (r: String)
    ensures
        r@ == whatsapp_format(message@),
{
    let n = message.unicode_len();
    let mut out = String::new();
    proof {
        assert(message@.skip(0) =~= message@);
        reveal_strlit("*");
        reveal_strlit("_");
        reveal_strlit("~");
        assert("*"@ =~= seq!['*']);
        assert("_"@ =~= seq!['_']);
        assert("~"@ =~= seq!['~']);
    }
    let mut i: usize = 0;
    while i < n
        invariant
            i <= n,
            n == message@.len(),
            out@ + whatsapp_format(message@.skip(i as int)) == whatsapp_format(message@),
            "*"@ == seq!['*'],
            "_"@ == seq!['_'],
            "~"@ == seq!['~'],
        decreases n - i,
    {
        let ghost rest = message@.skip(i as int);
        let ghost pre = out@;
        proof {
            assert(rest[0] == message@[i as int]);
            if i + 1 < n {
                assert(rest[1] == message@[i + 1]);
            }
            assert(rest.skip(1) =~= message@.skip(i + 1));
            if i + 2 <= n {
                assert(rest.skip(2) =~= message@.skip(i + 2));
            }
        }
        let c = message.get_char(i);
        if c == '*' {
            if i + 1 < n && message.get_char(i + 1) == '*' {
                out.append("*");
                proof {
                    assert((pre + seq!['*']) + whatsapp_format(message@.skip(i + 2)) =~= pre + (
                    seq!['*'] + whatsapp_format(message@.skip(i + 2))));
                }
                i += 2;
            } else {
                out.append("_");
                proof {
                    assert((pre + seq!['_']) + whatsapp_format(message@.skip(i + 1)) =~= pre + (
                    seq!['_'] + whatsapp_format(message@.skip(i + 1))));
                }
                i += 1;
            }
        } else if c == '~' && i + 1 < n && message.get_char(i + 1) == '~' {
            out.append("~");
            proof {
                assert((pre + seq!['~']) + whatsapp_format(message@.skip(i + 2)) =~= pre + (
                seq!['~'] + whatsapp_format(message@.skip(i + 2))));
            }
            i += 2;
        } else {
            let piece = message.substring_char(i, i + 1);
            proof {
                assert(piece@ =~= seq![message@[i as int]]);
            }
            out.append(piece);
            proof {
                assert((pre + seq![message@[i as int]]) + whatsapp_format(message@.skip(i + 1))
                    =~= pre + (seq![message@[i as int]] + whatsapp_format(message@.skip(i + 1))));
            }
            i += 1;
        }
    }
    proof {
        assert(message@.skip(n as int) =~= Seq::<char>::empty());
        assert(out@ + Seq::<char>::empty() =~= out@);
    }
    out
}

} // verus!
