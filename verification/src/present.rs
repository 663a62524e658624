//! Laying out the groups of a lookup as styled text.
//!
//! A gloss may hold emphasis markers. Only the outermost pair is honoured:
//! what stands between the first opening marker and the last closing marker
//! is emphasized as one span, and every marker is taken out of the text.
//! Two separate emphasized passages in one gloss therefore come out as a
//! single span that also covers what stands between them.

use crate::aggregate::{GroupModel, WordGroup};
use crate::decode::{LookupRecord, RecordModel};
use crate::text::{
    chars_of, find_first, find_last, first_occurrence, last_occurrence,
    lemma_first_occurrence_is_leftmost, lemma_last_occurrence_is_rightmost, matches_at, occurs_at,
};
use vstd::prelude::*;
use vstd::string::*;

verus! {

/// The marker that opens an emphasized passage: `<em>`.
pub open spec fn opening_marker() -> Seq<char> {
    seq!['<', 'e', 'm', '>']
}

/// The marker that closes an emphasized passage: `</em>`.
pub open spec fn closing_marker() -> Seq<char> {
    seq!['<', '/', 'e', 'm', '>']
}

/// `text` with every marker taken out, opening and closing alike.
pub open spec fn without_markers(text: Seq<char>) -> Seq<char>
    decreases text.len(),
{
    if text.len() == 0 {
        text
    } else if occurs_at(text, 0, opening_marker()) {
        without_markers(text.skip(4))
    } else if occurs_at(text, 0, closing_marker()) {
        without_markers(text.skip(5))
    } else {
        seq![text[0]] + without_markers(text.skip(1))
    }
}

/// A gloss in three parts, as plain values.
pub struct EmphasisModel {
    pub before: Seq<char>,
    pub emphasized: Seq<char>,
    pub after: Seq<char>,
}

/// The three parts of a gloss.
///
/// A gloss without an opening marker is all `before`, unchanged. Otherwise
/// the parts are what stands before the first opening marker, between it and
/// the last closing marker, and after that, each with its markers taken out.
/// Where no closing marker follows the first opening marker, nothing is
/// emphasized.
pub open spec fn emphasis_of(gloss: Seq<char>) -> EmphasisModel {
    match first_occurrence(gloss, opening_marker()) {
        None => EmphasisModel { before: gloss, emphasized: Seq::empty(), after: Seq::empty() },
        Some(open) => match last_occurrence(gloss, closing_marker()) {
            Some(close) if close > open => EmphasisModel {
                before: without_markers(gloss.subrange(0, open)),
                emphasized: without_markers(gloss.subrange(open + 4, close)),
                after: without_markers(gloss.subrange(close + 5, gloss.len() as int)),
            },
            _ => EmphasisModel {
                before: without_markers(gloss.subrange(0, open)),
                emphasized: Seq::empty(),
                after: without_markers(gloss.subrange(open + 4, gloss.len() as int)),
            },
        },
    }
}

/// The characters of `text` from position `start` up to `end`, both taken no
/// further than the end of the text; nothing where `end` is not after
/// `start`.
pub open spec fn char_range(text: Seq<char>, start: int, end: int) -> Seq<char> {
    if end <= start {
        Seq::empty()
    } else {
        let from = if start < text.len() {
            start
        } else {
            text.len() as int
        };
        let to = if end < text.len() {
            end
        } else {
            text.len() as int
        };
        text.subrange(from, to)
    }
}

/// `substring` of the crate of that name, on `str`. It counts characters, not
/// bytes: the result runs from character `start` up to character `end`, each
/// taken as the end of the text where it lies beyond it, and is empty where
/// `end` is not after `start`. It does not panic.
#[verifier::external_body]
fn substring<'a>(text: &'a str, start: usize, end: usize) -> (part: &'a str)
    ensures
        part@ == char_range(text@, start as int, end as int),
{
    substring::Substring::substring(text, start, end)
}

/// Taking the markers out of a text is the same as taking them out of two
/// pieces of it, where the cut stands at the start of a marker.
pub proof fn lemma_without_markers_split(text: Seq<char>, cut: int)
    requires
        0 <= cut <= text.len(),
        cut < text.len() ==> text[cut] == '<',
    ensures
        without_markers(text) == without_markers(text.take(cut)) + without_markers(text.skip(cut)),
    decreases text.len(),
{
    let head = text.take(cut);
    let tail = text.skip(cut);
    if cut == 0 {
        assert(tail =~= text);
        assert(without_markers(head) =~= Seq::<char>::empty());
        assert(without_markers(text) =~= without_markers(head) + without_markers(tail));
    } else if occurs_at(text, 0, opening_marker()) {
        assert(text.subrange(0, 4)[1] == 'e' && text.subrange(0, 4)[2] == 'm' && text.subrange(
            0,
            4,
        )[3] == '>');
        assert(cut >= 4);
        assert(head.subrange(0, 4) =~= text.subrange(0, 4));
        assert(occurs_at(head, 0, opening_marker()));
        lemma_without_markers_split(text.skip(4), cut - 4);
        assert(head.skip(4) =~= text.skip(4).take(cut - 4));
        assert(tail =~= text.skip(4).skip(cut - 4));
    } else if occurs_at(text, 0, closing_marker()) {
        assert(text.subrange(0, 5)[1] == '/' && text.subrange(0, 5)[2] == 'e' && text.subrange(
            0,
            5,
        )[3] == 'm' && text.subrange(0, 5)[4] == '>');
        assert(cut >= 5);
        assert(head.subrange(0, 5) =~= text.subrange(0, 5));
        assert(occurs_at(head, 0, closing_marker()));
        assert(!occurs_at(head, 0, opening_marker())) by {
            if occurs_at(head, 0, opening_marker()) {
                assert(head.subrange(0, 4)[1] == 'e');
                assert(head.subrange(0, 5)[1] == '/');
            }
        }
        lemma_without_markers_split(text.skip(5), cut - 5);
        assert(head.skip(5) =~= text.skip(5).take(cut - 5));
        assert(tail =~= text.skip(5).skip(cut - 5));
    } else {
        assert(!occurs_at(head, 0, opening_marker())) by {
            if occurs_at(head, 0, opening_marker()) {
                assert(head.subrange(0, 4) =~= text.subrange(0, 4));
            }
        }
        assert(!occurs_at(head, 0, closing_marker())) by {
            if occurs_at(head, 0, closing_marker()) {
                assert(head.subrange(0, 5) =~= text.subrange(0, 5));
            }
        }
        lemma_without_markers_split(text.skip(1), cut - 1);
        assert(head.skip(1) =~= text.skip(1).take(cut - 1));
        assert(tail =~= text.skip(1).skip(cut - 1));
        assert(without_markers(text) =~= without_markers(head) + without_markers(tail));
    }
}

/// The parts of a gloss that has an opening marker make up, one after the
/// other, the gloss with its markers taken out. Nothing of the text is lost
/// and nothing is shown twice.
pub proof fn law_emphasis_keeps_the_text(gloss: Seq<char>)
    ensures
        first_occurrence(gloss, opening_marker()) is None ==> emphasis_of(gloss).before == gloss
            && emphasis_of(gloss).emphasized.len() == 0 && emphasis_of(gloss).after.len() == 0,
        first_occurrence(gloss, opening_marker()) is Some ==> emphasis_of(gloss).before
            + emphasis_of(gloss).emphasized + emphasis_of(gloss).after == without_markers(gloss),
{
    if first_occurrence(gloss, opening_marker()) is Some {
        let open = first_occurrence(gloss, opening_marker())->0;
        let parts = emphasis_of(gloss);
        lemma_first_occurrence_is_leftmost(gloss, opening_marker());
        lemma_last_occurrence_is_rightmost(gloss, closing_marker());
        assert(occurs_at(gloss, open, opening_marker()));
        assert(gloss.subrange(open, open + 4)[0] == '<');
        lemma_without_markers_split(gloss, open);
        let rest = gloss.skip(open);
        assert(rest.subrange(0, 4) =~= gloss.subrange(open, open + 4));
        assert(occurs_at(rest, 0, opening_marker()));
        let inner = rest.skip(4);
        assert(inner =~= gloss.subrange(open + 4, gloss.len() as int));
        assert(gloss.take(open) =~= gloss.subrange(0, open));
        assert(without_markers(gloss) == parts.before + without_markers(inner));
        match last_occurrence(gloss, closing_marker()) {
            Some(close) if close > open => {
                assert(occurs_at(gloss, close, closing_marker()));
                assert(gloss.subrange(close, close + 5)[0] == '<');
                assert(close >= open + 4) by {
                    if close < open + 4 {
                        assert(gloss.subrange(open, open + 4)[close - open] == gloss[close]);
                    }
                }
                let at = close - open - 4;
                assert(inner[at] == gloss[close]);
                lemma_without_markers_split(inner, at);
                let end = inner.skip(at);
                assert(end.subrange(0, 5) =~= gloss.subrange(close, close + 5));
                assert(occurs_at(end, 0, closing_marker()));
                assert(!occurs_at(end, 0, opening_marker())) by {
                    if occurs_at(end, 0, opening_marker()) {
                        assert(end.subrange(0, 4)[1] == 'e');
                        assert(end.subrange(0, 5)[1] == '/');
                    }
                }
                assert(inner.take(at) =~= gloss.subrange(open + 4, close));
                assert(end.skip(5) =~= gloss.subrange(close + 5, gloss.len() as int));
                assert(without_markers(inner) == parts.emphasized + parts.after);
                assert(parts.before + parts.emphasized + parts.after =~= parts.before + (
                parts.emphasized + parts.after));
            },
            _ => {
                assert(parts.before + parts.emphasized + parts.after =~= parts.before
                    + parts.after);
            },
        }
    }
}

/// A gloss in three parts.
#[derive(Clone, Debug, PartialEq, Eq)]
pub struct Emphasis {
    /// What stands before the emphasized passage.
    pub before: String,
    /// The emphasized passage.
    pub emphasized: String,
    /// What stands after the emphasized passage.
    pub after: String,
}

impl View for Emphasis {
    type V = EmphasisModel;

    open spec fn view(&self) -> EmphasisModel {
        EmphasisModel {
            before: self.before@,
            emphasized: self.emphasized@,
            after: self.after@,
        }
    }
}

/// The characters of the two markers.
fn markers() -> (pair: (Vec<char>, Vec<char>))
    ensures
        pair.0@ == opening_marker(),
        pair.1@ == closing_marker(),
{
    proof {
        reveal_strlit("<em>");
        reveal_strlit("</em>");
    }
    let opening = chars_of("<em>");
    let closing = chars_of("</em>");
    assert(opening@ =~= opening_marker());
    assert(closing@ =~= closing_marker());
    (opening, closing)
}

/// Takes every marker out of `gloss`, whose characters are `chars`.
fn strip_markers(
    gloss: &str,
    chars: &Vec<char>,
    opening: &Vec<char>,
    closing: &Vec<char>,
) -> (stripped: String)
    requires
        chars@ == gloss@,
        opening@ == opening_marker(),
        closing@ == closing_marker(),
    ensures
        stripped@ == without_markers(gloss@),
{
    let n = chars.len();
    let mut stripped = String::new();
    let mut kept_from: usize = 0;
    let mut i: usize = 0;
    assert(chars@.skip(0) =~= chars@);
    assert(stripped@ + chars@.subrange(0, 0) =~= Seq::<char>::empty());
    while i < n
        invariant
            n == chars.len(),
            chars@ == gloss@,
            opening@ == opening_marker(),
            closing@ == closing_marker(),
            kept_from <= i <= n,
            stripped@ + chars@.subrange(kept_from as int, i as int) + without_markers(
                chars@.skip(i as int),
            ) == without_markers(chars@),
        decreases n - i,
    {
        let ghost rest = chars@.skip(i as int);
        let ghost kept = chars@.subrange(kept_from as int, i as int);
        if matches_at(chars, i, opening) {
            assert(rest.subrange(0, 4) =~= chars@.subrange(i as int, i + 4));
            assert(rest.skip(4) =~= chars@.skip(i + 4));
            stripped.append(gloss.substring_char(kept_from, i));
            i += 4;
            kept_from = i;
            assert(stripped@ + chars@.subrange(kept_from as int, i as int) =~= stripped@);
        } else if matches_at(chars, i, closing) {
            assert(!occurs_at(rest, 0, opening_marker())) by {
                if occurs_at(rest, 0, opening_marker()) {
                    assert(rest.subrange(0, 4) =~= chars@.subrange(i as int, i + 4));
                }
            }
            assert(rest.subrange(0, 5) =~= chars@.subrange(i as int, i + 5));
            assert(rest.skip(5) =~= chars@.skip(i + 5));
            stripped.append(gloss.substring_char(kept_from, i));
            i += 5;
            kept_from = i;
            assert(stripped@ + chars@.subrange(kept_from as int, i as int) =~= stripped@);
        } else {
            assert(!occurs_at(rest, 0, opening_marker())) by {
                if occurs_at(rest, 0, opening_marker()) {
                    assert(rest.subrange(0, 4) =~= chars@.subrange(i as int, i + 4));
                }
            }
            assert(!occurs_at(rest, 0, closing_marker())) by {
                if occurs_at(rest, 0, closing_marker()) {
                    assert(rest.subrange(0, 5) =~= chars@.subrange(i as int, i + 5));
                }
            }
            assert(rest.skip(1) =~= chars@.skip(i + 1));
            assert(kept + seq![rest[0]] =~= chars@.subrange(kept_from as int, i + 1));
            assert(stripped@ + kept + (seq![rest[0]] + without_markers(rest.skip(1))) =~= stripped@
                + (kept + seq![rest[0]]) + without_markers(rest.skip(1)));
            i += 1;
        }
    }
    stripped.append(gloss.substring_char(kept_from, n));
    assert(chars@.skip(n as int) =~= Seq::<char>::empty());
    assert(stripped@ =~= without_markers(chars@));
    stripped
}

/// How many characters of `chars` between `from` and `to` are left when the
/// markers between the two are taken out.
fn surviving(
    chars: &Vec<char>,
    from: usize,
    to: usize,
    opening: &Vec<char>,
    closing: &Vec<char>,
) -> (count: usize)
    requires
        from <= to <= chars.len(),
        opening@ == opening_marker(),
        closing@ == closing_marker(),
    ensures
        count == without_markers(chars@.subrange(from as int, to as int)).len(),
        count <= to - from,
{
    let mut count: usize = 0;
    let mut i: usize = from;
    while i < to
        invariant
            from <= i <= to <= chars.len(),
            opening@ == opening_marker(),
            closing@ == closing_marker(),
            count <= i - from,
            count + without_markers(chars@.subrange(i as int, to as int)).len() == without_markers(
                chars@.subrange(from as int, to as int),
            ).len(),
        decreases to - i,
    {
        let ghost rest = chars@.subrange(i as int, to as int);
        if to - i >= 4 && matches_at(chars, i, opening) {
            assert(rest.subrange(0, 4) =~= chars@.subrange(i as int, i + 4));
            assert(rest.skip(4) =~= chars@.subrange(i + 4, to as int));
            i += 4;
        } else if to - i >= 5 && matches_at(chars, i, closing) {
            assert(!occurs_at(rest, 0, opening_marker())) by {
                if occurs_at(rest, 0, opening_marker()) {
                    assert(rest.subrange(0, 4) =~= chars@.subrange(i as int, i + 4));
                }
            }
            assert(rest.subrange(0, 5) =~= chars@.subrange(i as int, i + 5));
            assert(rest.skip(5) =~= chars@.subrange(i + 5, to as int));
            i += 5;
        } else {
            assert(!occurs_at(rest, 0, opening_marker())) by {
                if occurs_at(rest, 0, opening_marker()) {
                    assert(rest.subrange(0, 4) =~= chars@.subrange(i as int, i + 4));
                }
            }
            assert(!occurs_at(rest, 0, closing_marker())) by {
                if occurs_at(rest, 0, closing_marker()) {
                    assert(rest.subrange(0, 5) =~= chars@.subrange(i as int, i + 5));
                }
            }
            assert(rest.skip(1) =~= chars@.subrange(i + 1, to as int));
            count += 1;
            i += 1;
        }
    }
    count
}

/// Splits a gloss into what stands before its emphasized passage, the
/// passage, and what stands after it.
///
/// The markers are taken out of the gloss first; the passage is then cut out
/// of the stripped text, at the positions that the first opening marker and
/// the last closing marker have there. A gloss without an opening marker
/// comes back whole and unchanged as `before`.
pub fn resolve_emphasis(gloss: &str) -> (parts: Emphasis)
    ensures
        parts@ == emphasis_of(gloss@),
{
    let chars = chars_of(gloss);
    let (opening, closing) = markers();
    let open = match find_first(&chars, &opening) {
        Some(open) => open,
        None => {
            return Emphasis {
                before: String::from_str(gloss),
                emphasized: String::new(),
                after: String::new(),
            };
        },
    };
    let found_close = find_last(&chars, &closing);
    proof {
        law_emphasis_keeps_the_text(gloss@);
        assert(chars@.subrange(open as int, open + 4)[0] == '<');
        if let Some(close) = found_close {
            if close > open && close < open + 4 {
                assert(chars@.subrange(close as int, close + 5)[0] == chars@[close as int]);
                assert(chars@.subrange(open as int, open + 4)[close - open]
                    == chars@[close as int]);
            }
        }
    }
    let stripped = strip_markers(gloss, &chars, &opening, &closing);
    let start = surviving(&chars, 0, open, &opening, &closing);
    let end = match found_close {
        Some(close) => if close > open {
            start + surviving(&chars, open + 4, close, &opening, &closing)
        } else {
            start
        },
        None => start,
    };
    let total = stripped.as_str().unicode_len();
    let ghost wanted = emphasis_of(gloss@);
    assert(stripped@ == wanted.before + wanted.emphasized + wanted.after);
    assert(start == wanted.before.len());
    assert(end == start + wanted.emphasized.len());
    let before = String::from_str(substring(stripped.as_str(), 0, start));
    let emphasized = String::from_str(substring(stripped.as_str(), start, end));
    let after = String::from_str(substring(stripped.as_str(), end, total));
    assert(before@ =~= wanted.before);
    assert(emphasized@ =~= wanted.emphasized);
    assert(after@ =~= wanted.after);
    Emphasis { before, emphasized, after }
}

/// How a piece of the listing is to be shown.
#[derive(Clone, Copy, Debug, PartialEq, Eq, Structural)]
pub enum Style {
    Plain,
    Headword,
    Pronunciation,
    Attribution,
    Emphasis,
}

/// A piece of the listing that is shown in one style.
#[derive(Clone, Debug, PartialEq, Eq)]
pub struct Span {
    pub style: Style,
    pub text: String,
}

/// A span, as plain values.
pub struct SpanModel {
    pub style: Style,
    pub text: Seq<char>,
}

impl View for Span {
    type V = SpanModel;

    open spec fn view(&self) -> SpanModel {
        SpanModel { style: self.style, text: self.text@ }
    }
}

impl DeepView for Span {
    type V = SpanModel;

    open spec fn deep_view(&self) -> SpanModel {
        self@
    }
}

/// One span of the given style, or none where there is no text to show.
pub open spec fn span_of(style: Style, text: Seq<char>) -> Seq<SpanModel> {
    if text.len() == 0 {
        Seq::empty()
    } else {
        seq![SpanModel { style, text }]
    }
}

/// The spans of a gloss: its three parts in turn, the middle one emphasized,
/// each left out where it is empty. A gloss without an opening marker is one
/// plain span that holds it unchanged.
pub open spec fn gloss_spans(gloss: Seq<char>) -> Seq<SpanModel> {
    span_of(Style::Plain, emphasis_of(gloss).before) + span_of(
        Style::Emphasis,
        emphasis_of(gloss).emphasized,
    ) + span_of(Style::Plain, emphasis_of(gloss).after)
}

/// The spans of a record: its part of speech and its attribution on one
/// line, its gloss as an indented item on the next, and an empty line.
pub open spec fn record_spans(record: RecordModel) -> Seq<SpanModel> {
    seq![
        SpanModel { style: Style::Plain, text: record.part_of_speech },
        SpanModel { style: Style::Plain, text: " - "@ },
        SpanModel { style: Style::Attribution, text: record.attribution },
        SpanModel { style: Style::Plain, text: "\n\t* "@ },
    ] + gloss_spans(record.gloss) + seq![SpanModel { style: Style::Plain, text: "\n\n"@ }]
}

/// The spans of a run of records, one record after the other.
pub open spec fn records_spans(records: Seq<RecordModel>) -> Seq<SpanModel>
    decreases records.len(),
{
    if records.len() == 0 {
        Seq::empty()
    } else {
        records_spans(records.drop_last()) + record_spans(records.last())
    }
}

/// The spans that head a group: the headword, the pronunciation in round
/// brackets where there is one, and an empty line.
pub open spec fn heading_spans(group: GroupModel) -> Seq<SpanModel> {
    match group.pronunciation {
        Some(pronunciation) => seq![
            SpanModel { style: Style::Headword, text: group.headword },
            SpanModel { style: Style::Plain, text: " ("@ },
            SpanModel { style: Style::Pronunciation, text: pronunciation },
            SpanModel { style: Style::Plain, text: ")\n\n"@ },
        ],
        None => seq![
            SpanModel { style: Style::Headword, text: group.headword },
            SpanModel { style: Style::Plain, text: "\n\n"@ },
        ],
    }
}

/// The whole listing: every group in turn, its heading and then its records.
pub open spec fn listing(groups: Seq<GroupModel>) -> Seq<SpanModel>
    decreases groups.len(),
{
    if groups.len() == 0 {
        Seq::empty()
    } else {
        listing(groups.drop_last()) + heading_spans(groups.last()) + records_spans(
            groups.last().records,
        )
    }
}

/// Adds one span to the end of `spans`.
fn push_span(spans: &mut Vec<Span>, style: Style, text: &str)
    ensures
        final(spans).deep_view() == old(spans).deep_view().push(SpanModel { style, text: text@ }),
{
    let ghost before = spans.deep_view();
    spans.push(Span { style, text: String::from_str(text) });
    assert(spans.deep_view() =~= before.push(SpanModel { style, text: text@ }));
}

/// Adds a span to the end of `spans`, unless `text` is empty.
fn push_some(spans: &mut Vec<Span>, style: Style, text: &str)
    ensures
        final(spans).deep_view() == old(spans).deep_view() + span_of(style, text@),
{
    let ghost before = spans.deep_view();
    if !text.is_empty() {
        push_span(spans, style, text);
    }
    assert(spans.deep_view() =~= before + span_of(style, text@));
}

/// Lays a gloss out as spans: the text before the emphasized passage, the
/// passage, and the text after it, each left out where it is empty.
pub fn format_gloss(gloss: &str) -> (spans: Vec<Span>)
    ensures
        spans.deep_view() == gloss_spans(gloss@),
{
    let parts = resolve_emphasis(gloss);
    let mut spans: Vec<Span> = Vec::new();
    assert(spans.deep_view() =~= Seq::<SpanModel>::empty());
    push_some(&mut spans, Style::Plain, parts.before.as_str());
    push_some(&mut spans, Style::Emphasis, parts.emphasized.as_str());
    push_some(&mut spans, Style::Plain, parts.after.as_str());
    assert(spans.deep_view() =~= gloss_spans(gloss@));
    spans
}

/// Adds the spans of one record to the end of `spans`.
fn push_record(spans: &mut Vec<Span>, record: &LookupRecord)
    ensures
        final(spans).deep_view() == old(spans).deep_view() + record_spans(record@),
{
    let ghost before = spans.deep_view();
    push_span(spans, Style::Plain, record.part_of_speech.as_str());
    push_span(spans, Style::Plain, " - ");
    push_span(spans, Style::Attribution, record.attribution.as_str());
    push_span(spans, Style::Plain, "\n\t* ");
    let mut gloss = format_gloss(record.gloss.as_str());
    let ghost headed = spans.deep_view();
    let ghost glossed = gloss.deep_view();
    let ghost shallow_head = spans@;
    let ghost shallow_gloss = gloss@;
    spans.append(&mut gloss);
    assert(spans.deep_view() =~= headed + glossed) by {
        assert(spans@ =~= shallow_head + shallow_gloss);
    }
    push_span(spans, Style::Plain, "\n\n");
    assert(spans.deep_view() =~= before + record_spans(record@));
}

/// Adds the heading of one group to the end of `spans`.
fn push_heading(spans: &mut Vec<Span>, group: &WordGroup)
    ensures
        final(spans).deep_view() == old(spans).deep_view() + heading_spans(group@),
{
    let ghost before = spans.deep_view();
    push_span(spans, Style::Headword, group.headword.as_str());
    match &group.pronunciation {
        Some(pronunciation) => {
            push_span(spans, Style::Plain, " (");
            push_span(spans, Style::Pronunciation, pronunciation.raw_transcription.as_str());
            push_span(spans, Style::Plain, ")\n\n");
        },
        None => {
            push_span(spans, Style::Plain, "\n\n");
        },
    }
    assert(spans.deep_view() =~= before + heading_spans(group@));
}

/// Lays the groups of a lookup out as the listing that is shown for them.
///
/// Each group gives its headword, its pronunciation where it has one, and
/// then, for each of its records, the part of speech, the attribution and
/// the gloss with its emphasis resolved.
pub fn present(groups: &Vec<WordGroup>) -> (spans: Vec<Span>)
    ensures
        spans.deep_view() == listing(groups.deep_view()),
{
    let ghost shown = groups.deep_view();
    let mut spans: Vec<Span> = Vec::new();
    let mut g: usize = 0;
    assert(shown.take(0) =~= Seq::<GroupModel>::empty());
    assert(spans.deep_view() =~= listing(shown.take(0)));
    while g < groups.len()
        invariant
            g <= groups.len(),
            shown == groups.deep_view(),
            spans.deep_view() == listing(shown.take(g as int)),
        decreases groups.len() - g,
    {
        let group = &groups[g];
        let ghost members = group.records.deep_view();
        let ghost listed = spans.deep_view();
        push_heading(&mut spans, group);
        let ghost headed = spans.deep_view();
        let mut r: usize = 0;
        assert(members.take(0) =~= Seq::<RecordModel>::empty());
        assert(spans.deep_view() =~= headed + records_spans(members.take(0)));
        while r < group.records.len()
            invariant
                r <= group.records.len(),
                members == group.records.deep_view(),
                spans.deep_view() == headed + records_spans(members.take(r as int)),
            decreases group.records.len() - r,
        {
            let ghost so_far = records_spans(members.take(r as int));
            assert(members.take(r + 1).drop_last() =~= members.take(r as int));
            assert(members.take(r + 1).last() == group.records@[r as int]@);
            push_record(&mut spans, &group.records[r]);
            assert(spans.deep_view() =~= headed + (so_far + record_spans(
                group.records@[r as int]@,
            )));
            r += 1;
        }
        assert(members.take(r as int) =~= members);
        assert(shown.take(g + 1).drop_last() =~= shown.take(g as int));
        assert(shown.take(g + 1).last() == group@);
        assert(spans.deep_view() =~= listing(shown.take(g + 1))) by {
            assert(headed == listed + heading_spans(group@));
        }
        g += 1;
    }
    assert(shown.take(g as int) =~= shown);
    spans
}

} // verus!
