use codex_tui::writer::render_table;
use codex_tui::writer::MarkdownWriter;
use codex_tui::writer::MdEvent;
use codex_tui::writer::MdTag;
use codex_tui::writer::MdTagEnd;
use codex_tui::writer::OutputLine;
use codex_tui::writer::Piece;
use codex_tui::writer::StyleKind;

type Flat = Vec<(String, Vec<StyleKind>)>;

fn flat(pieces: &[Piece]) -> Flat {
    pieces
        .iter()
        .map(|p| (p.text.clone(), p.style.clone()))
        .collect()
}

fn run(width: Option<usize>, cwd: Option<&str>, events: Vec<MdEvent>) -> Vec<OutputLine> {
    let mut writer = MarkdownWriter::new(width, cwd.map(str::to_string));
    for event in events {
        assert!(writer.accepts(&event));
        writer.handle_event(event);
    }
    writer.finish()
}

fn plain(line: &OutputLine) -> (Flat, Vec<StyleKind>) {
    match line {
        OutputLine::Plain(pieces, style) => (flat(pieces), style.clone()),
        _ => panic!("expected a plain line"),
    }
}

fn piece(text: &str, style: &[StyleKind]) -> (String, Vec<StyleKind>) {
    (text.to_string(), style.to_vec())
}

fn text(s: &str) -> MdEvent {
    MdEvent::Text(s.to_string())
}

#[test]
fn paragraph_text_takes_the_text_style() {
    let out = run(
        None,
        None,
        vec![
            MdEvent::Start(MdTag::Paragraph),
            text("Hello"),
            MdEvent::End(MdTagEnd::Paragraph),
        ],
    );
    assert_eq!(out.len(), 1);
    assert_eq!(
        plain(&out[0]),
        (vec![piece("Hello", &[StyleKind::MarkdownText])], vec![])
    );
}

#[test]
fn lines_wrap_when_a_width_is_set() {
    let out = run(
        Some(20),
        None,
        vec![
            MdEvent::Start(MdTag::Paragraph),
            text("Hello"),
            MdEvent::End(MdTagEnd::Paragraph),
        ],
    );
    match &out[0] {
        OutputLine::Wrap(pieces, style, initial, subsequent, width) => {
            assert_eq!(flat(pieces), vec![piece("Hello", &[StyleKind::MarkdownText])]);
            assert!(style.is_empty() && initial.is_empty() && subsequent.is_empty());
            assert_eq!(*width, 20);
        }
        _ => panic!("expected a line to wrap"),
    }
}

#[test]
fn paragraphs_are_separated_by_a_blank_line() {
    let out = run(
        None,
        None,
        vec![
            MdEvent::Start(MdTag::Paragraph),
            text("one"),
            MdEvent::End(MdTagEnd::Paragraph),
            MdEvent::Start(MdTag::Paragraph),
            text("two"),
            MdEvent::End(MdTagEnd::Paragraph),
        ],
    );
    assert_eq!(out.len(), 3);
    assert_eq!(plain(&out[1]), (vec![], vec![]));
    assert_eq!(plain(&out[2]).0, vec![piece("two", &[StyleKind::MarkdownText])]);
}

#[test]
fn bulleted_items_show_their_marker() {
    let out = run(
        None,
        None,
        vec![
            MdEvent::Start(MdTag::List(None)),
            MdEvent::Start(MdTag::Item),
            text("a"),
            MdEvent::End(MdTagEnd::Item),
            MdEvent::End(MdTagEnd::List),
        ],
    );
    assert_eq!(out.len(), 1);
    assert_eq!(
        plain(&out[0]).0,
        vec![
            piece("- ", &[StyleKind::UnorderedListMarker]),
            piece("a", &[StyleKind::MarkdownText]),
        ]
    );
}

#[test]
fn numbered_items_count_on_and_highlight_labels() {
    let out = run(
        None,
        None,
        vec![
            MdEvent::Start(MdTag::List(Some(1))),
            MdEvent::Start(MdTag::Item),
            text("Note: first"),
            MdEvent::End(MdTagEnd::Item),
            MdEvent::Start(MdTag::Item),
            text("second"),
            MdEvent::End(MdTagEnd::Item),
            MdEvent::End(MdTagEnd::List),
        ],
    );
    assert_eq!(out.len(), 2);
    assert_eq!(
        plain(&out[0]).0,
        vec![
            piece("1. ", &[StyleKind::OrderedListMarker]),
            piece("Note:", &[StyleKind::Strong]),
            piece(" first", &[StyleKind::MarkdownText]),
        ]
    );
    assert_eq!(
        plain(&out[1]).0,
        vec![
            piece("2. ", &[StyleKind::OrderedListMarker]),
            piece("second", &[StyleKind::MarkdownText]),
        ]
    );
}

#[test]
fn items_outside_lists_are_refused() {
    let writer = MarkdownWriter::new(None, None);
    assert!(!writer.accepts(&MdEvent::Start(MdTag::Item)));
    let mut numbered = MarkdownWriter::new(None, None);
    numbered.handle_event(MdEvent::Start(MdTag::List(Some(u64::MAX))));
    assert!(!numbered.accepts(&MdEvent::Start(MdTag::Item)));
}

#[test]
fn block_quotes_prefix_and_style_their_lines() {
    let out = run(
        None,
        None,
        vec![
            MdEvent::Start(MdTag::BlockQuote),
            MdEvent::Start(MdTag::Paragraph),
            text("quoted"),
            MdEvent::End(MdTagEnd::Paragraph),
            MdEvent::End(MdTagEnd::BlockQuote),
        ],
    );
    assert_eq!(out.len(), 1);
    assert_eq!(
        plain(&out[0]),
        (
            vec![piece("> ", &[]), piece("quoted", &[StyleKind::MarkdownText])],
            vec![StyleKind::Blockquote]
        )
    );
}

#[test]
fn headings_show_their_level() {
    let out = run(
        None,
        None,
        vec![
            MdEvent::Start(MdTag::Heading(2)),
            text("Title"),
            MdEvent::End(MdTagEnd::Heading),
        ],
    );
    assert_eq!(
        plain(&out[0]).0,
        vec![
            piece("## ", &[StyleKind::Heading(2)]),
            piece("Title", &[StyleKind::Heading(2)]),
        ]
    );
}

#[test]
fn web_links_are_followed_by_their_destination() {
    let out = run(
        None,
        None,
        vec![
            MdEvent::Start(MdTag::Paragraph),
            MdEvent::Start(MdTag::Link("https://example.com".to_string(), None)),
            text("site"),
            MdEvent::End(MdTagEnd::Link),
            MdEvent::End(MdTagEnd::Paragraph),
        ],
    );
    assert_eq!(
        plain(&out[0]).0,
        vec![
            piece("site", &[StyleKind::LinkText]),
            piece(" (", &[]),
            piece("https://example.com", &[StyleKind::LinkDestination]),
            piece(")", &[]),
        ]
    );
}

#[test]
fn local_links_show_their_target_instead_of_the_label() {
    let out = run(
        None,
        Some("/repo"),
        vec![
            MdEvent::Start(MdTag::Paragraph),
            MdEvent::Start(MdTag::Link("/repo/src/a.rs:3".to_string(), None)),
            text("label"),
            MdEvent::End(MdTagEnd::Link),
            MdEvent::SoftBreak,
            text(": what it does"),
            MdEvent::End(MdTagEnd::Paragraph),
        ],
    );
    assert_eq!(out.len(), 1);
    assert_eq!(
        plain(&out[0]).0,
        vec![
            piece("src/a.rs:3", &[StyleKind::Code]),
            piece(": what it does", &[StyleKind::MarkdownText]),
        ]
    );
}

#[test]
fn soft_breaks_after_local_links_break_before_other_text() {
    let out = run(
        None,
        Some("/repo"),
        vec![
            MdEvent::Start(MdTag::Paragraph),
            MdEvent::Start(MdTag::Link("/repo/b.rs".to_string(), None)),
            text("b"),
            MdEvent::End(MdTagEnd::Link),
            MdEvent::SoftBreak,
            text("next"),
            MdEvent::End(MdTagEnd::Paragraph),
        ],
    );
    assert_eq!(out.len(), 2);
    assert_eq!(plain(&out[0]).0, vec![piece("b.rs", &[StyleKind::Code])]);
    assert_eq!(plain(&out[1]).0, vec![piece("next", &[StyleKind::MarkdownText])]);
}

#[test]
fn tables_collect_their_cells() {
    let out = run(
        None,
        None,
        vec![
            MdEvent::Start(MdTag::Table),
            MdEvent::Start(MdTag::TableHead),
            MdEvent::Start(MdTag::TableCell),
            text(" h "),
            MdEvent::End(MdTagEnd::TableCell),
            MdEvent::End(MdTagEnd::TableHead),
            MdEvent::Start(MdTag::TableRow),
            MdEvent::Start(MdTag::TableCell),
            MdEvent::Code(format!("a{}b", codex_tui::table::TABLE_PIPE_SENTINEL)),
            MdEvent::End(MdTagEnd::TableCell),
            MdEvent::End(MdTagEnd::TableRow),
            MdEvent::End(MdTagEnd::Table),
        ],
    );
    assert_eq!(out.len(), 1);
    match &out[0] {
        OutputLine::Table(rows) => assert_eq!(
            rows,
            &vec![(true, vec!["h".to_string()]), (false, vec!["a|b".to_string()])]
        ),
        _ => panic!("expected a table"),
    }
}

#[test]
fn highlighted_code_blocks_keep_the_highlighter_styles() {
    let mut writer = MarkdownWriter::new(Some(10), None);
    writer.handle_event(MdEvent::Start(MdTag::CodeBlock(Some("rust,no_run".to_string()))));
    writer.handle_event(text("fn main() {}\n"));
    assert_eq!(
        writer.code_to_highlight(),
        Some(("rust".to_string(), "fn main() {}\n".to_string()))
    );
    let highlighted = vec![vec![Piece {
        text: "fn main() {}".to_string(),
        style: vec![StyleKind::Highlight(0)],
    }]];
    writer.handle_event(MdEvent::End(MdTagEnd::CodeBlock(highlighted)));
    let out = writer.finish();
    assert_eq!(out.len(), 1);
    assert_eq!(
        plain(&out[0]),
        (
            vec![piece("", &[]), piece("fn main() {}", &[StyleKind::Highlight(0)])],
            vec![StyleKind::CodeBlockBackground]
        )
    );
}

#[test]
fn indented_code_is_indented_and_not_wrapped() {
    let out = run(
        Some(10),
        None,
        vec![
            MdEvent::Start(MdTag::CodeBlock(None)),
            text("x = 1\n"),
            MdEvent::End(MdTagEnd::CodeBlock(Vec::new())),
        ],
    );
    assert_eq!(out.len(), 1);
    assert_eq!(
        plain(&out[0]),
        (
            vec![piece("    ", &[]), piece("x = 1", &[StyleKind::MarkdownText])],
            vec![StyleKind::CodeBlockBackground]
        )
    );
}

#[test]
fn rules_and_task_markers() {
    let out = run(
        None,
        None,
        vec![
            MdEvent::Rule,
            MdEvent::Start(MdTag::List(None)),
            MdEvent::Start(MdTag::Item),
            MdEvent::TaskListMarker(true),
            text("done"),
            MdEvent::End(MdTagEnd::Item),
            MdEvent::End(MdTagEnd::List),
        ],
    );
    assert_eq!(out.len(), 3);
    assert_eq!(plain(&out[0]).0, vec![piece("---", &[StyleKind::Accent])]);
    assert_eq!(plain(&out[1]), (vec![], vec![]));
    assert_eq!(
        plain(&out[2]).0,
        vec![
            piece("- ", &[StyleKind::UnorderedListMarker]),
            piece("[x] ", &[StyleKind::Strong]),
            piece("done", &[StyleKind::MarkdownText]),
        ]
    );
}

#[test]
fn inline_math_is_set_apart_in_text() {
    let out = run(
        None,
        None,
        vec![
            MdEvent::Start(MdTag::Paragraph),
            MdEvent::Start(MdTag::Emphasis),
            text("a $x$"),
            MdEvent::End(MdTagEnd::Emphasis),
            MdEvent::End(MdTagEnd::Paragraph),
        ],
    );
    assert_eq!(
        plain(&out[0]).0,
        vec![piece("a ", &[StyleKind::Emphasis]), piece("$x$", &[StyleKind::Accent])]
    );
}

#[test]
fn tables_are_laid_out_with_borders() {
    let rows = vec![
        (true, vec!["a".to_string(), "b".to_string()]),
        (false, vec!["c".to_string(), "d".to_string()]),
    ];
    let wrapped = vec![
        vec![vec!["a".to_string()], vec!["b".to_string()]],
        vec![vec!["c".to_string()], vec!["dd".to_string(), "e".to_string()]],
    ];
    let lines = render_table(&rows, &[2, 2], &wrapped);
    let texts: Vec<String> = lines
        .iter()
        .map(|line| line.iter().map(|p| p.text.as_str()).collect())
        .collect();
    assert_eq!(
        texts,
        vec![
            "┌────┬────┐",
            "│ a  │ b  │",
            "├────┼────┤",
            "│ c  │ dd │",
            "│    │ e  │",
            "└────┴────┘",
        ]
    );
    assert_eq!(lines[1][2].style, vec![StyleKind::TableHeader]);
    assert_eq!(lines[3][2].style, vec![StyleKind::TableBody]);
    assert_eq!(lines[1][0].style, vec![StyleKind::TableBorder]);
    assert!(render_table(&Vec::new(), &[2], &Vec::new()).is_empty());
}
