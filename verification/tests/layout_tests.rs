use codex_tui::layout::code_block_language;
use codex_tui::layout::decimal_chars;
use codex_tui::layout::fit_table_widths;
use codex_tui::layout::list_item_layout;
use codex_tui::layout::math_highlight_pieces;
use codex_tui::layout::pad_table_cell;
use codex_tui::layout::prefix_plan;
use codex_tui::layout::render_table_border;
use codex_tui::layout::table_column_widths;
use codex_tui::layout::try_render_list_lead;
use codex_tui::layout::IndentLevel;
use codex_tui::layout::PrefixPiece;
use codex_tui::text::split_lines;

fn pieces(v: &[(&str, bool)]) -> Vec<(String, bool)> {
    v.iter().map(|(s, m)| (s.to_string(), *m)).collect()
}

#[test]
fn widths_without_limit_are_kept() {
    assert_eq!(fit_table_widths(&[10, 20], None), vec![10, 20]);
    assert_eq!(fit_table_widths(&[], Some(3)), Vec::<usize>::new());
}

#[test]
fn widths_that_fit_are_kept() {
    assert_eq!(fit_table_widths(&[10, 20], Some(40)), vec![10, 20]);
    assert_eq!(fit_table_widths(&[10, 20], Some(37)), vec![10, 20]);
}

#[test]
fn widest_columns_shrink_first() {
    assert_eq!(fit_table_widths(&[10, 20], Some(27)), vec![10, 10]);
    assert_eq!(fit_table_widths(&[10, 20], Some(26)), vec![10, 9]);
    assert_eq!(fit_table_widths(&[3, 30, 8], Some(30)), vec![3, 9, 8]);
}

#[test]
fn columns_keep_a_minimum_of_four_while_possible() {
    assert_eq!(fit_table_widths(&[20, 20], Some(15)), vec![4, 4]);
    assert_eq!(fit_table_widths(&[2, 20], Some(13)), vec![2, 4]);
}

#[test]
fn narrow_limits_shrink_below_the_minimum() {
    assert_eq!(fit_table_widths(&[10, 20], Some(10)), vec![2, 1]);
    assert_eq!(fit_table_widths(&[10, 20], Some(5)), vec![1, 1]);
    assert_eq!(fit_table_widths(&[10, 20, 30], Some(12)), vec![1, 1, 1]);
}

#[test]
fn fitted_tables_fit_their_limit() {
    let natural = [7usize, 15, 2, 40, 9];
    for limit in 21..90 {
        let widths = fit_table_widths(&natural, Some(limit));
        assert_eq!(widths.len(), natural.len());
        let total: usize = widths.iter().sum();
        assert!(total + natural.len() * 3 + 1 <= limit, "limit {limit}: {widths:?}");
        for (w, n) in widths.iter().zip(natural.iter()) {
            assert!(*w >= 1 && w <= n);
        }
    }
}

#[test]
fn decimal_digits() {
    assert_eq!(decimal_chars(0), vec!['0']);
    assert_eq!(decimal_chars(1234), vec!['1', '2', '3', '4']);
    assert_eq!(decimal_chars(u64::MAX).into_iter().collect::<String>(), u64::MAX.to_string());
}

#[test]
fn list_markers() {
    let top = list_item_layout(1, None);
    assert_eq!(top.marker, "- ");
    assert_eq!(top.indent, 2);
    assert_eq!(top.next_index, None);
    let first = list_item_layout(1, Some(1));
    assert_eq!(first.marker, "1. ");
    assert_eq!(first.indent, 3);
    assert_eq!(first.next_index, Some(2));
    let nested = list_item_layout(2, None);
    assert_eq!(nested.marker, "    - ");
    assert_eq!(nested.indent, 6);
    let tenth = list_item_layout(2, Some(10));
    assert_eq!(tenth.marker, "   10. ");
    assert_eq!(tenth.indent, 7);
    assert_eq!(tenth.next_index, Some(11));
    let wide = list_item_layout(1, Some(123));
    assert_eq!(wide.marker, "123. ");
}

#[test]
fn fenced_code_info_string_with_metadata_highlights() {
    for info in ["rust,no_run", "rust no_run", "rust title=\"demo\""] {
        assert_eq!(code_block_language(Some(info)), Some("rust".to_string()), "{info}");
    }
}

#[test]
fn code_block_language_edge_cases() {
    assert_eq!(code_block_language(None), None);
    assert_eq!(code_block_language(Some("")), None);
    assert_eq!(code_block_language(Some(",x")), None);
    assert_eq!(code_block_language(Some("py\tstrict")), Some("py".to_string()));
}

#[test]
fn crlf_code_block_no_extra_blank_lines() {
    assert_eq!(split_lines("fn main() {}\r\n    line2\r\n"), vec!["fn main() {}", "    line2"]);
    assert_eq!(split_lines("a\n\nb"), vec!["a", "", "b"]);
    assert_eq!(split_lines(""), Vec::<&str>::new());
    assert_eq!(split_lines("last\r"), vec!["last\r"]);
}

#[test]
fn inline_math_is_set_apart() {
    assert_eq!(
        math_highlight_pieces("a $x$ b", false),
        (pieces(&[("a ", false), ("$x$", true), (" b", false)]), false)
    );
    assert_eq!(math_highlight_pieces("$$a$$", false), (pieces(&[("$$a$$", true)]), false));
    assert_eq!(math_highlight_pieces("cost $5", false), (pieces(&[("cost $5", false)]), false));
    assert_eq!(
        math_highlight_pieces("$a$$b$", false),
        (pieces(&[("$a$", true), ("$b$", true)]), false)
    );
    assert_eq!(math_highlight_pieces("", false), (Vec::new(), false));
}

#[test]
fn math_blocks_toggle_on_double_dollar_lines() {
    assert_eq!(math_highlight_pieces(" $$ ", false), (pieces(&[(" $$ ", true)]), true));
    assert_eq!(math_highlight_pieces("x = 1", true), (pieces(&[("x = 1", true)]), true));
    assert_eq!(math_highlight_pieces("$$", true), (pieces(&[("$$", true)]), false));
}

#[test]
fn math_pieces_rebuild_the_line() {
    for line in ["a $x$ b $$y$$ c $", "$", "$$$", "no math", "$a$$b$$c"] {
        let (ps, _) = math_highlight_pieces(line, false);
        let joined: String = ps.iter().map(|(s, _)| s.as_str()).collect();
        assert_eq!(joined, line);
    }
}

#[test]
fn list_leads_highlight_short_labels() {
    let lead = try_render_list_lead("Note: hi", true, true);
    assert_eq!(lead.leading, None);
    assert_eq!(lead.label, Some("Note:".to_string()));
    assert_eq!(lead.rest, Some(" hi".to_string()));
    assert!(!lead.pending);

    let indented = try_render_list_lead("  提示：内容", true, true);
    assert_eq!(indented.leading, Some("  ".to_string()));
    assert_eq!(indented.label, Some("提示：".to_string()));
    assert_eq!(indented.rest, Some("内容".to_string()));

    let bare = try_render_list_lead("Note:", true, true);
    assert_eq!(bare.label, Some("Note:".to_string()));
    assert_eq!(bare.rest, None);
}

#[test]
fn list_leads_reject_sentences_and_links() {
    for line in ["This is a sentence: yes", "a,b: c", "[link](x): y", ": start", "no colon"] {
        let lead = try_render_list_lead(line, true, true);
        assert_eq!(lead.label, None, "{line}");
        assert_eq!(lead.rest, None, "{line}");
        assert!(!lead.pending, "{line}");
    }
    let long = try_render_list_lead("abcdefghijklm: too long", true, true);
    assert_eq!(long.label, None);
}

#[test]
fn list_leads_wait_for_text() {
    let blank = try_render_list_lead("   ", true, true);
    assert!(blank.pending);
    assert_eq!(blank.leading, None);
    let styled = try_render_list_lead("Note: x", true, false);
    assert!(styled.pending);
    assert_eq!(styled.label, None);
    let done = try_render_list_lead("Note: x", false, true);
    assert!(!done.pending);
    assert_eq!(done.label, None);
}

#[test]
fn table_borders() {
    assert_eq!(render_table_border('┌', '┬', '┐', &[3, 1]), "┌─────┬───┐");
    assert_eq!(render_table_border('└', '┴', '┘', &[0]), "└──┘");
    assert_eq!(render_table_border('├', '┼', '┤', &[]), "├");
}

#[test]
fn natural_column_widths() {
    let rows = vec![
        vec!["a".to_string(), "bbb".to_string()],
        vec!["cccc".to_string()],
        vec!["日本".to_string(), "".to_string(), "x".to_string()],
    ];
    assert_eq!(table_column_widths(&rows), vec![4, 3, 2]);
    assert_eq!(table_column_widths(&Vec::new()), Vec::<usize>::new());
}

#[test]
fn cells_are_padded_by_display_width() {
    assert_eq!(pad_table_cell("ab", 5), "ab   ");
    assert_eq!(pad_table_cell("abcdef", 3), "abcdef");
    assert_eq!(pad_table_cell("日本", 6), "日本  ");
}

#[test]
fn line_prefix_plans() {
    let quote = IndentLevel { has_marker: false, is_list: false };
    let item = IndentLevel { has_marker: true, is_list: true };
    assert_eq!(
        prefix_plan(&[quote, item], true),
        vec![PrefixPiece::Indent(0), PrefixPiece::Marker(1)]
    );
    assert_eq!(
        prefix_plan(&[quote, item], false),
        vec![PrefixPiece::Indent(0), PrefixPiece::Indent(1)]
    );
    assert_eq!(prefix_plan(&[item, item], true), vec![PrefixPiece::Marker(1)]);
    assert_eq!(prefix_plan(&[item, item], false), vec![PrefixPiece::Indent(1)]);
    assert_eq!(
        prefix_plan(&[item, quote], true),
        vec![PrefixPiece::Marker(0), PrefixPiece::Indent(1)]
    );
    assert_eq!(prefix_plan(&[], true), Vec::new());
}
