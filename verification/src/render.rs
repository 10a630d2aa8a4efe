//! Markdown text to styled lines: the parser's events, with the parts the host supplies
//! (normalized link locations, code highlighting), driven through the [`MarkdownWriter`].

use vstd::prelude::*;
use crate::links::{link_hash_fragment, local_link_hash_fragment, opt_str, opt_string};
use crate::text::{chars_of, string_from_chars};
use crate::table::{normalize_pipe_table_spacing, normalized_table_text};
use crate::writer::{
    event_allowed, event_step, flushed, outputs_view, LineAssembler, MarkdownWriter, MdEvent,
    MdTag, MdTagEnd, OutputLine, Piece, WriterView,
};

use pulldown_cmark::CodeBlockKind;
use pulldown_cmark::Event;
use pulldown_cmark::Options;
use pulldown_cmark::Parser;
use pulldown_cmark::Tag;
use pulldown_cmark::TagEnd;

verus! {

/// The start of a markdown element as the parser reports it.
pub ghost enum MdTagView {
    Paragraph,
    Heading(u8),
    BlockQuote,
    CodeBlock(Option<Seq<char>>),
    List(Option<u64>),
    Item,
    Table,
    TableHead,
    TableRow,
    TableCell,
    Emphasis,
    Strong,
    Strikethrough,
    Link(Seq<char>),
    Other,
}

/// The end of a markdown element as the parser reports it.
pub ghost enum MdTagEndView {
    Paragraph,
    Heading,
    BlockQuote,
    CodeBlock,
    List,
    Item,
    Table,
    TableHead,
    TableRow,
    TableCell,
    Emphasis,
    Strong,
    Strikethrough,
    Link,
    Other,
}

/// A markdown parser event as the parser reports it: the renderer's event without the
/// parts the host adds (a link's normalized location, a code block's highlighting).
pub ghost enum MdEventView {
    Start(MdTagView),
    End(MdTagEndView),
    Text(Seq<char>),
    Code(Seq<char>),
    Html(Seq<char>),
    InlineHtml(Seq<char>),
    SoftBreak,
    HardBreak,
    Rule,
    TaskListMarker(bool),
    FootnoteReference,
}

/// The parser's view of the start of an element.
pub open spec fn tag_view(t: MdTag) -> MdTagView {
    match t {
        MdTag::Paragraph => MdTagView::Paragraph,
        MdTag::Heading(l) => MdTagView::Heading(l),
        MdTag::BlockQuote => MdTagView::BlockQuote,
        MdTag::CodeBlock(info) => MdTagView::CodeBlock(opt_string(info)),
        MdTag::List(i) => MdTagView::List(i),
        MdTag::Item => MdTagView::Item,
        MdTag::Table => MdTagView::Table,
        MdTag::TableHead => MdTagView::TableHead,
        MdTag::TableRow => MdTagView::TableRow,
        MdTag::TableCell => MdTagView::TableCell,
        MdTag::Emphasis => MdTagView::Emphasis,
        MdTag::Strong => MdTagView::Strong,
        MdTag::Strikethrough => MdTagView::Strikethrough,
        MdTag::Link(d, _) => MdTagView::Link(d@),
        MdTag::Other => MdTagView::Other,
    }
}

/// The parser's view of the end of an element.
pub open spec fn tag_end_view(t: MdTagEnd) -> MdTagEndView {
    match t {
        MdTagEnd::Paragraph => MdTagEndView::Paragraph,
        MdTagEnd::Heading => MdTagEndView::Heading,
        MdTagEnd::BlockQuote => MdTagEndView::BlockQuote,
        MdTagEnd::CodeBlock(_) => MdTagEndView::CodeBlock,
        MdTagEnd::List => MdTagEndView::List,
        MdTagEnd::Item => MdTagEndView::Item,
        MdTagEnd::Table => MdTagEndView::Table,
        MdTagEnd::TableHead => MdTagEndView::TableHead,
        MdTagEnd::TableRow => MdTagEndView::TableRow,
        MdTagEnd::TableCell => MdTagEndView::TableCell,
        MdTagEnd::Emphasis => MdTagEndView::Emphasis,
        MdTagEnd::Strong => MdTagEndView::Strong,
        MdTagEnd::Strikethrough => MdTagEndView::Strikethrough,
        MdTagEnd::Link => MdTagEndView::Link,
        MdTagEnd::Other => MdTagEndView::Other,
    }
}

/// The parser's view of an event.
pub open spec fn event_view(e: MdEvent) -> MdEventView {
    match e {
        MdEvent::Start(t) => MdEventView::Start(tag_view(t)),
        MdEvent::End(t) => MdEventView::End(tag_end_view(t)),
        MdEvent::Text(s) => MdEventView::Text(s@),
        MdEvent::Code(s) => MdEventView::Code(s@),
        MdEvent::Html(s) => MdEventView::Html(s@),
        MdEvent::InlineHtml(s) => MdEventView::InlineHtml(s@),
        MdEvent::SoftBreak => MdEventView::SoftBreak,
        MdEvent::HardBreak => MdEventView::HardBreak,
        MdEvent::Rule => MdEventView::Rule,
        MdEvent::TaskListMarker(c) => MdEventView::TaskListMarker(c),
        MdEvent::FootnoteReference => MdEventView::FootnoteReference,
    }
}

/// The parser's views of a sequence of events.
pub open spec fn events_view(v: Seq<MdEvent>) -> Seq<MdEventView> {
    v.map_values(|e: MdEvent| event_view(e))
}

/// The events that `pulldown_cmark` reports for a markdown text, with strikethrough, tables
/// and task lists enabled.
pub uninterp spec fn markdown_events(input: Seq<char>) -> Seq<MdEventView>;

#[verifier::external_type_specification]
#[verifier::external_body]
pub struct ExMarkdownEvent<'a>(Event<'a>);

#[verifier::external_type_specification]
#[verifier::external_body]
pub struct ExMarkdownTag<'a>(Tag<'a>);

#[verifier::external_type_specification]
#[verifier::external_body]
pub struct ExMarkdownTagEnd(TagEnd);

#[verifier::external_type_specification]
#[verifier::external_body]
pub struct ExCodeBlockKind<'a>(CodeBlockKind<'a>);

/// Parses markdown with `pulldown_cmark::Parser::new_ext` (strikethrough, tables and task
/// lists enabled) and converts each event to the renderer's form. Trusted: the events are
/// [`markdown_events`] of the text; links carry no location and code blocks no highlighting.
#[verifier::external_body]
fn parse_markdown(input: &str) -> (r: Vec<MdEvent>)
    ensures
        events_view(r@) == markdown_events(input@),
{
    let options = Options::ENABLE_STRIKETHROUGH | Options::ENABLE_TABLES
        | Options::ENABLE_TASKLISTS;
    Parser::new_ext(input, options).map(md_event_from).collect()
}

/// Converts a `pulldown_cmark::Event`, variant by variant (see [`parse_markdown`]).
#[verifier::external_body]
fn md_event_from(e: Event) -> MdEvent {
    match e {
        Event::Start(t) => MdEvent::Start(md_tag_from(t)),
        Event::End(t) => MdEvent::End(md_tag_end_from(t)),
        Event::Text(s) => MdEvent::Text(s.to_string()),
        Event::Code(s) => MdEvent::Code(s.to_string()),
        Event::Html(s) => MdEvent::Html(s.to_string()),
        Event::InlineHtml(s) => MdEvent::InlineHtml(s.to_string()),
        Event::FootnoteReference(_) => MdEvent::FootnoteReference,
        Event::SoftBreak => MdEvent::SoftBreak,
        Event::HardBreak => MdEvent::HardBreak,
        Event::Rule => MdEvent::Rule,
        Event::TaskListMarker(c) => MdEvent::TaskListMarker(c),
    }
}

/// Converts a `pulldown_cmark::Tag` that carries data; the others go on to
/// [`md_plain_tag_from`].
#[verifier::external_body]
fn md_tag_from(t: Tag) -> MdTag {
    match t {
        Tag::Heading { level, .. } => MdTag::Heading(level as u8),
        Tag::CodeBlock(CodeBlockKind::Fenced(info)) => MdTag::CodeBlock(Some(info.to_string())),
        Tag::CodeBlock(CodeBlockKind::Indented) => MdTag::CodeBlock(None),
        Tag::List(start) => MdTag::List(start),
        Tag::Link { dest_url, .. } => MdTag::Link(dest_url.to_string(), None),
        t => md_plain_tag_from(t),
    }
}

/// Converts a `pulldown_cmark::Tag` whose data the renderer does not read (a table's column
/// alignments); elements it draws nothing of (HTML blocks, footnote definitions, images,
/// metadata blocks) are [`MdTag::Other`].
#[verifier::external_body]
fn md_plain_tag_from(t: Tag) -> MdTag {
    match t {
        Tag::Paragraph => MdTag::Paragraph,
        Tag::BlockQuote => MdTag::BlockQuote,
        Tag::Item => MdTag::Item,
        Tag::Table(_) => MdTag::Table,
        Tag::TableHead => MdTag::TableHead,
        Tag::TableRow => MdTag::TableRow,
        Tag::TableCell => MdTag::TableCell,
        Tag::Emphasis => MdTag::Emphasis,
        Tag::Strong => MdTag::Strong,
        Tag::Strikethrough => MdTag::Strikethrough,
        _ => MdTag::Other,
    }
}

/// Converts a block-level `pulldown_cmark::TagEnd`; the others go on to
/// [`md_span_tag_end_from`].
#[verifier::external_body]
fn md_tag_end_from(t: TagEnd) -> MdTagEnd {
    match t {
        TagEnd::Paragraph => MdTagEnd::Paragraph,
        TagEnd::Heading(_) => MdTagEnd::Heading,
        TagEnd::BlockQuote => MdTagEnd::BlockQuote,
        TagEnd::CodeBlock => MdTagEnd::CodeBlock(Vec::new()),
        TagEnd::List(_) => MdTagEnd::List,
        TagEnd::Item => MdTagEnd::Item,
        TagEnd::Table => MdTagEnd::Table,
        TagEnd::TableHead => MdTagEnd::TableHead,
        TagEnd::TableRow => MdTagEnd::TableRow,
        t => md_span_tag_end_from(t),
    }
}

/// Converts the remaining `pulldown_cmark::TagEnd` variants.
#[verifier::external_body]
fn md_span_tag_end_from(t: TagEnd) -> MdTagEnd {
    match t {
        TagEnd::TableCell => MdTagEnd::TableCell,
        TagEnd::Emphasis => MdTagEnd::Emphasis,
        TagEnd::Strong => MdTagEnd::Strong,
        TagEnd::Strikethrough => MdTagEnd::Strikethrough,
        TagEnd::Link => MdTagEnd::Link,
        _ => MdTagEnd::Other,
    }
}

/// The renderer's state before any event: no output, wrapping to `width` when set, local
/// links shortened against `cwd`.
pub open spec fn start_view(width: Option<usize>, cwd: Option<Seq<char>>) -> WriterView {
    WriterView {
        lines: LineAssembler::new_view(width),
        inline_styles: Seq::empty(),
        list_indices: Seq::empty(),
        link: None,
        needs_newline: false,
        in_paragraph: false,
        code_lang: None,
        code_buffer: Seq::empty(),
        cwd,
        pending_soft_break: false,
        pending_lead: false,
        table: None,
        in_math_block: false,
    }
}

/// Whether `h` is the location the host gives a link to `d`: what `normalize` made of the
/// link's `#L..` fragment, none when it has none.
pub open spec fn link_located<N>(d: Seq<char>, h: Option<String>, normalize: N) -> bool where
    N: Fn(String) -> Option<String>,
 {
    match link_hash_fragment(d) {
        Some(f) => exists|s: String|
            #![trigger call_ensures(normalize, (s,), h)]
            s@ == f && call_ensures(normalize, (s,), h),
        None => h is None,
    }
}

/// Whether `hl` is the highlighting the host gives the code block that ends in state `v`:
/// what `highlight` made of the language and the code the renderer kept, none when it kept
/// none.
pub open spec fn code_highlighted<H>(v: WriterView, hl: Vec<Vec<Piece>>, highlight: H) -> bool where
    H: Fn(String, String) -> Vec<Vec<Piece>>,
 {
    if v.code_lang is Some && v.code_buffer.len() > 0 {
        exists|l: String, c: String|
            #![trigger call_ensures(highlight, (l, c), hl)]
            Some(l@) == v.code_lang && c@ == v.code_buffer && call_ensures(highlight, (l, c), hl)
    } else {
        hl@.len() == 0
    }
}

/// Whether `e` is the parser's event `parsed` completed by the host in state `v` (see
/// [`link_located`] and [`code_highlighted`]).
pub open spec fn host_completed<N, H>(
    parsed: MdEventView,
    v: WriterView,
    e: MdEvent,
    normalize: N,
    highlight: H,
) -> bool where N: Fn(String) -> Option<String>, H: Fn(String, String) -> Vec<Vec<Piece>> {
    &&& event_view(e) == parsed
    &&& (e matches MdEvent::Start(MdTag::Link(d, h)) ==> link_located(d@, h, normalize))
    &&& (e matches MdEvent::End(MdTagEnd::CodeBlock(hl)) ==> code_highlighted(v, hl, highlight))
}

/// Whether `states` is a run of the renderer over the first `n` of the parser's events
/// `parsed`, each completed by the host into `events` and handled as the renderer's
/// contract says (see [`event_step`]).
pub open spec fn completed_run<N, H>(
    parsed: Seq<MdEventView>,
    events: Seq<MdEvent>,
    states: Seq<WriterView>,
    n: int,
    normalize: N,
    highlight: H,
) -> bool where N: Fn(String) -> Option<String>, H: Fn(String, String) -> Vec<Vec<Piece>> {
    &&& 0 <= n <= parsed.len()
    &&& n <= events.len()
    &&& states.len() == n + 1
    &&& forall|i: int|
        #![trigger events[i]]
        0 <= i < n ==> host_completed(parsed[i], states[i], events[i], normalize, highlight)
            && event_allowed(states[i], events[i]) && event_step(states[i], events[i], states[i + 1])
}

/// The events that markdown text is rendered from: the parser's events for the text with
/// its pipe tables in canonical form.
pub open spec fn rendered_events(input: Seq<char>) -> Seq<MdEventView> {
    markdown_events(normalized_table_text(input))
}

/// Whether `out` is what rendering markdown text `input` gives: `states` is a full run of
/// the renderer over its events from the start state, and `out` the output of the last state
/// once its last line is finished.
pub open spec fn rendered<N, H>(
    input: Seq<char>,
    width: Option<usize>,
    cwd: Option<Seq<char>>,
    events: Seq<MdEvent>,
    states: Seq<WriterView>,
    normalize: N,
    highlight: H,
    out: Seq<OutputLine>,
) -> bool where N: Fn(String) -> Option<String>, H: Fn(String, String) -> Vec<Vec<Piece>> {
    &&& completed_run(
        rendered_events(input),
        events,
        states,
        rendered_events(input).len() as int,
        normalize,
        highlight,
    )
    &&& states[0] == start_view(width, cwd)
    &&& outputs_view(out) == flushed(states.last().lines).output
}

/// Whether rendering markdown text `input` stops at its `k`-th event: `states` is a run of
/// the renderer over the events before it, and the renderer cannot handle that event.
pub open spec fn render_refused<N, H>(
    input: Seq<char>,
    width: Option<usize>,
    cwd: Option<Seq<char>>,
    events: Seq<MdEvent>,
    states: Seq<WriterView>,
    k: int,
    normalize: N,
    highlight: H,
) -> bool where N: Fn(String) -> Option<String>, H: Fn(String, String) -> Vec<Vec<Piece>> {
    &&& completed_run(rendered_events(input), events, states, k, normalize, highlight)
    &&& states[0] == start_view(width, cwd)
    &&& k < rendered_events(input).len()
    &&& k < events.len()
    &&& host_completed(rendered_events(input)[k], states[k], events[k], normalize, highlight)
    &&& !event_allowed(states[k], events[k])
}

/// Renders markdown text to styled lines, wrapping to `width` when set and shortening local
/// links against `cwd`. Pipe tables are first put in canonical form, the text is parsed,
/// and each event, completed by the host (`normalize` gives the normalized form of a link's
/// `#L..` fragment, `highlight` the highlighted lines of a code block's code in a language),
/// is handled by the [`MarkdownWriter`]. `None` when the renderer cannot handle an event (a
/// list item outside a list, or one numbered past the largest `u64`).
pub fn render_markdown_lines<N, H>(
    input: &str,
    width: Option<usize>,
    cwd: Option<&str>,
    normalize: N,
    highlight: H,
) -> (r: Option<Vec<OutputLine>>) where
    N: Fn(String) -> Option<String>,
    H: Fn(String, String) -> Vec<Vec<Piece>>,

    requires
        forall|s: String| call_requires(normalize, (s,)),
        forall|l: String, c: String| call_requires(highlight, (l, c)),
    ensures
        r is Some ==> exists|events: Seq<MdEvent>, states: Seq<WriterView>|
            #[trigger] rendered(input@, width, opt_str(cwd), events, states, normalize, highlight, r->0@),
        r is None ==> exists|events: Seq<MdEvent>, states: Seq<WriterView>, k: int|
            #[trigger] render_refused(input@, width, opt_str(cwd), events, states, k, normalize, highlight),
{
    let normalized = normalize_pipe_table_spacing(input);
    let mut parsed = parse_markdown(normalized.as_str());
    let ghost pv = rendered_events(input@);
    let ghost orig = parsed@;
    assert(events_view(orig) == pv);
    let n = parsed.len();
    let mut rev: Vec<MdEvent> = Vec::new();
    while parsed.len() > 0
        invariant
            parsed.len() + rev.len() == n,
            orig.len() == n,
            forall|j: int| 0 <= j < parsed.len() ==> parsed@[j] == orig[j],
            forall|j: int| 0 <= j < rev.len() ==> rev@[j] == orig[n - 1 - j],
        decreases parsed.len(),
    {
        let e = parsed.pop().unwrap();
        rev.push(e);
    }
    let cwd_owned: Option<String> = match cwd {
        Some(c) => {
            let cc = chars_of(c);
            Some(string_from_chars(cc.as_slice()))
        },
        None => None,
    };
    let mut writer = MarkdownWriter::new(width, cwd_owned);
    assert(writer@.inline_styles =~= Seq::<Seq<crate::writer::StyleKind>>::empty());
    assert(writer@ == start_view(width, opt_str(cwd)));
    let ghost mut events: Seq<MdEvent> = Seq::empty();
    let ghost mut states: Seq<WriterView> = seq![writer@];
    let mut i: usize = 0;
    while i < n
        invariant
            i <= n,
            n == orig.len(),
            pv.len() == n,
            pv == rendered_events(input@),
            events_view(orig) == pv,
            rev.len() == n - i,
            forall|j: int| 0 <= j < rev.len() ==> rev@[j] == orig[n - 1 - j],
            forall|s: String| call_requires(normalize, (s,)),
            forall|l: String, c: String| call_requires(highlight, (l, c)),
            completed_run(pv, events, states, i as int, normalize, highlight),
            events.len() == i,
            states[0] == start_view(width, opt_str(cwd)),
            states.last() == writer@,
        decreases n - i,
    {
        let parsed_event = rev.pop().unwrap();
        assert(event_view(parsed_event) == pv[i as int]);
        let e = match parsed_event {
            MdEvent::Start(MdTag::Link(d, _)) => {
                let h = match local_link_hash_fragment(d.as_str()) {
                    Some(f) => {
                        let ghost fg = f;
                        let h = normalize(f);
                        assert(call_ensures(normalize, (fg,), h));
                        h
                    },
                    None => None,
                };
                assert(link_located(d@, h, normalize));
                let r = MdEvent::Start(MdTag::Link(d, h));
                assert(host_completed(pv[i as int], writer@, r, normalize, highlight));
                r
            },
            MdEvent::End(MdTagEnd::CodeBlock(_)) => {
                let hl = match writer.code_to_highlight() {
                    Some((l, c)) => {
                        let ghost lg = l;
                        let ghost cg = c;
                        let hl = highlight(l, c);
                        assert(call_ensures(highlight, (lg, cg), hl));
                        hl
                    },
                    None => Vec::new(),
                };
                assert(code_highlighted(writer@, hl, highlight));
                let r = MdEvent::End(MdTagEnd::CodeBlock(hl));
                assert(host_completed(pv[i as int], writer@, r, normalize, highlight));
                r
            },
            other => {
                assert(host_completed(pv[i as int], writer@, other, normalize, highlight));
                other
            },
        };
        assert(host_completed(pv[i as int], writer@, e, normalize, highlight));
        if !writer.accepts(&e) {
            proof {
                let ev2 = events.push(e);
                assert(completed_run(pv, ev2, states, i as int, normalize, highlight)) by {
                    assert forall|j: int| 0 <= j < i implies #[trigger] ev2[j] == events[j] by {}
                }
                assert(ev2[i as int] == e);
                assert(states.len() - 1 == i);
                assert(states[i as int] == writer@);
                assert(host_completed(pv[i as int], states[i as int], ev2[i as int], normalize, highlight));
                assert(!event_allowed(states[i as int], ev2[i as int]));
                assert(render_refused(input@, width, opt_str(cwd), ev2, states, i as int, normalize, highlight));
            }
            return None;
        }
        let ghost before = writer@;
        let ghost eg = e;
        writer.handle_event(e);
        proof {
            let ev2 = events.push(eg);
            let st2 = states.push(writer@);
            assert forall|j: int| 0 <= j < i + 1 implies host_completed(pv[j], st2[j], #[trigger] ev2[j], normalize, highlight)
                && event_allowed(st2[j], ev2[j]) && event_step(st2[j], ev2[j], st2[j + 1]) by {
                if j < i {
                    assert(ev2[j] == events[j]);
                    assert(st2[j] == states[j]);
                    assert(st2[j + 1] == states[j + 1]);
                }
            }
            events = ev2;
            states = st2;
        }
        i += 1;
    }
    let out = writer.finish();
    assert(rendered(input@, width, opt_str(cwd), events, states, normalize, highlight, out@));
    let ghost og = out@;
    let res = Some(out);
    assert(res->0@ == og);
    assert(rendered(input@, width, opt_str(cwd), events, states, normalize, highlight, res->0@));
    assert(exists|ev: Seq<MdEvent>, st: Seq<WriterView>|
        #[trigger] rendered(input@, width, opt_str(cwd), ev, st, normalize, highlight, res->0@));
    res
}

} // verus!
