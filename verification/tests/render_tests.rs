use codex_tui::render::render_markdown_lines;
use codex_tui::writer::MarkdownWriter;
use codex_tui::writer::MdEvent;
use codex_tui::writer::MdTag;
use codex_tui::writer::MdTagEnd;
use codex_tui::writer::OutputLine;
use codex_tui::writer::Piece;
use codex_tui::writer::StyleKind;
use std::cell::RefCell;

type Flat = Vec<(String, Vec<StyleKind>)>;

fn flat(pieces: &[Piece]) -> Flat {
    pieces
        .iter()
        .map(|p| (p.text.clone(), p.style.clone()))
        .collect()
}

fn shown(lines: &[OutputLine]) -> Vec<(Flat, Vec<StyleKind>)> {
    lines
        .iter()
        .map(|line| match line {
            OutputLine::Plain(pieces, style) => (flat(pieces), style.clone()),
            OutputLine::Wrap(pieces, style, _, _, _) => (flat(pieces), style.clone()),
            OutputLine::Table(_) => (Vec::new(), Vec::new()),
        })
        .collect()
}

fn render(input: &str, width: Option<usize>, cwd: Option<&str>) -> Vec<OutputLine> {
    render_markdown_lines(input, width, cwd, |_f: String| None, |_l: String, _c: String| Vec::new())
        .expect("the renderer handles every event")
}

fn by_hand(events: Vec<MdEvent>) -> Vec<OutputLine> {
    let mut writer = MarkdownWriter::new(None, None);
    for event in events {
        assert!(writer.accepts(&event));
        writer.handle_event(event);
    }
    writer.finish()
}

fn all_text(lines: &[OutputLine]) -> String {
    shown(lines)
        .into_iter()
        .map(|(pieces, _)| pieces.into_iter().map(|(t, _)| t).collect::<String>())
        .collect::<Vec<_>>()
        .join("\n")
}

#[test]
fn a_paragraph_renders_as_its_events_do() {
    let out = render("Hello *there*", None, None);
    let expected = by_hand(vec![
        MdEvent::Start(MdTag::Paragraph),
        MdEvent::Text("Hello ".to_string()),
        MdEvent::Start(MdTag::Emphasis),
        MdEvent::Text("there".to_string()),
        MdEvent::End(MdTagEnd::Emphasis),
        MdEvent::End(MdTagEnd::Paragraph),
    ]);
    assert_eq!(shown(&out), shown(&expected));
    assert_eq!(all_text(&out), "Hello there");
}

#[test]
fn headings_and_lists_render() {
    let out = render("# Title\n\n- one\n- two\n", None, None);
    assert_eq!(all_text(&out), "# Title\n\n- one\n- two");
}

#[test]
fn lines_wrap_to_the_given_width() {
    let out = render("Hello", Some(20), None);
    assert_eq!(out.len(), 1);
    match &out[0] {
        OutputLine::Wrap(_, _, _, _, width) => assert_eq!(*width, 20),
        _ => panic!("expected a line to wrap"),
    }
}

#[test]
fn local_links_show_their_normalized_location() {
    let asked = RefCell::new(Vec::new());
    let out = render_markdown_lines(
        "See [here](/repo/src/a.rs#L3).",
        None,
        Some("/repo"),
        |f: String| {
            asked.borrow_mut().push(f.clone());
            Some(":3".to_string())
        },
        |_l: String, _c: String| Vec::new(),
    )
    .unwrap();
    assert_eq!(asked.borrow().clone(), vec!["L3".to_string()]);
    assert_eq!(all_text(&out), "See src/a.rs:3.");
}

#[test]
fn web_links_keep_their_label_and_destination() {
    let out = render("[site](https://example.com)", None, None);
    assert_eq!(all_text(&out), "site (https://example.com)");
}

#[test]
fn code_blocks_take_the_host_highlighting() {
    let asked = RefCell::new(Vec::new());
    let out = render_markdown_lines(
        "```rust\nfn x() {}\n```\n",
        None,
        None,
        |_f: String| None,
        |l: String, c: String| {
            asked.borrow_mut().push((l.clone(), c.clone()));
            vec![vec![Piece {
                text: "fn x() {}".to_string(),
                style: vec![StyleKind::Highlight(0)],
            }]]
        },
    )
    .unwrap();
    assert_eq!(
        asked.borrow().clone(),
        vec![("rust".to_string(), "fn x() {}\n".to_string())]
    );
    assert!(shown(&out)
        .iter()
        .any(|(pieces, _)| pieces.iter().any(|(t, s)| t == "fn x() {}"
            && s.contains(&StyleKind::Highlight(0)))));
}

#[test]
fn pipe_tables_become_table_lines() {
    let out = render("a|b\n-|-\n1|2\n", None, None);
    let tables: Vec<&Vec<(bool, Vec<String>)>> = out
        .iter()
        .filter_map(|line| match line {
            OutputLine::Table(rows) => Some(rows),
            _ => None,
        })
        .collect();
    assert_eq!(tables.len(), 1);
    assert_eq!(
        tables[0].clone(),
        vec![
            (true, vec!["a".to_string(), "b".to_string()]),
            (false, vec!["1".to_string(), "2".to_string()]),
        ]
    );
}

#[test]
fn empty_text_renders_nothing() {
    assert!(render("", None, None).is_empty());
}
