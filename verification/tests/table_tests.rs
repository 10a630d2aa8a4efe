use codex_tui::table::canonicalize_pipe_table_delimiter;
use codex_tui::table::canonicalize_pipe_table_row;
use codex_tui::table::finish_table_cell;
use codex_tui::table::has_duplicate_table_header_prefix;
use codex_tui::table::looks_like_pipe_table_delimiter;
use codex_tui::table::looks_like_pipe_table_row;
use codex_tui::table::normalize_pipe_table_block;
use codex_tui::table::normalize_pipe_table_cells;
use codex_tui::table::normalize_pipe_table_spacing;
use codex_tui::table::protect_table_cell_for_parser;
use codex_tui::table::restore_table_pipes;
use codex_tui::table::split_pipe_table_cells;
use codex_tui::table::TABLE_PIPE_SENTINEL;

fn strings(v: &[&str]) -> Vec<String> {
    v.iter().map(|s| s.to_string()).collect()
}

#[test]
fn split_cells_of_framed_row() {
    assert_eq!(split_pipe_table_cells("| a | b |"), Some(strings(&[" a ", " b "])));
}

#[test]
fn split_cells_of_unframed_row_keeps_code_pipes() {
    assert_eq!(
        split_pipe_table_cells("a | `x|y` | b"),
        Some(strings(&["a ", " `x|y` ", " b"]))
    );
}

#[test]
fn split_cells_skips_escaped_pipes() {
    assert_eq!(
        split_pipe_table_cells("a \\| b | c"),
        Some(strings(&["a \\| b ", " c"]))
    );
}

#[test]
fn split_cells_rejects_non_rows() {
    assert_eq!(split_pipe_table_cells("no pipes here"), None);
    assert_eq!(split_pipe_table_cells("|only|"), None);
    assert_eq!(split_pipe_table_cells("   "), None);
}

#[test]
fn protect_hides_pipes_inside_code_spans() {
    assert_eq!(
        protect_table_cell_for_parser("`a|b` | c"),
        format!("`a{}b` | c", TABLE_PIPE_SENTINEL)
    );
    assert_eq!(protect_table_cell_for_parser("plain|text"), "plain|text");
    assert_eq!(protect_table_cell_for_parser("``a|b``"), format!("``a{}b``", TABLE_PIPE_SENTINEL));
}

#[test]
fn protected_cell_reads_back_after_restoring_pipes() {
    let cell = "see `x|y` and `p|q|r`";
    assert_eq!(restore_table_pipes(&protect_table_cell_for_parser(cell)), cell);
}

#[test]
fn restore_and_finish_cells() {
    assert_eq!(restore_table_pipes(&format!("a{}b", TABLE_PIPE_SENTINEL)), "a|b");
    assert_eq!(finish_table_cell(&format!("  x{}y  ", TABLE_PIPE_SENTINEL)), "x|y");
    assert_eq!(finish_table_cell("   "), "");
}

#[test]
fn row_and_delimiter_recognition() {
    assert!(looks_like_pipe_table_row("| a | b |"));
    assert!(!looks_like_pipe_table_row("a b"));
    assert!(looks_like_pipe_table_delimiter("| --- | :-: |"));
    assert!(!looks_like_pipe_table_delimiter("| a | --- |"));
    assert!(!looks_like_pipe_table_delimiter("|---|"));
    assert!(!looks_like_pipe_table_delimiter("| --- |  |"));
}

#[test]
fn normalized_cells_collapse_whitespace() {
    assert_eq!(normalize_pipe_table_cells("|  a   b | c |"), strings(&["a b", "c"]));
    assert_eq!(normalize_pipe_table_cells("not a row"), Vec::<String>::new());
}

#[test]
fn canonical_rows() {
    assert_eq!(canonicalize_pipe_table_row("|a|b|"), "| a | b |");
    assert_eq!(
        canonicalize_pipe_table_row("| `x|y` | z |"),
        format!("| `x{}y` | z |", TABLE_PIPE_SENTINEL)
    );
    assert_eq!(canonicalize_pipe_table_row("plain"), "|  |");
}

#[test]
fn canonical_delimiters() {
    assert_eq!(canonicalize_pipe_table_delimiter("|:-|-:|"), "| :--- | ---: |");
    assert_eq!(canonicalize_pipe_table_delimiter("| :---: | -- |"), "| :---: | --- |");
    assert_eq!(canonicalize_pipe_table_delimiter("|-----|---|"), "| ----- | --- |");
}

#[test]
fn table_block_is_normalized() {
    let lines = ["| a | b |", "|---|---|", "| 1 | 2 |", "", "text"];
    assert_eq!(
        normalize_pipe_table_block(&lines, 0),
        Some((4, strings(&["| a | b |", "| --- | --- |", "| 1 | 2 |"])))
    );
    assert_eq!(normalize_pipe_table_block(&lines, 4), None);
    assert_eq!(normalize_pipe_table_block(&lines, 9), None);
}

#[test]
fn table_block_skips_repeated_headers() {
    let lines = ["| a | b |", "", "|  a |  b |", "|---|---|"];
    assert_eq!(
        normalize_pipe_table_block(&lines, 0),
        Some((4, strings(&["| a | b |", "| --- | --- |"])))
    );
}

#[test]
fn table_block_needs_a_delimiter() {
    let lines = ["| a | b |", "| 1 | 2 |"];
    assert_eq!(normalize_pipe_table_block(&lines, 0), None);
}

#[test]
fn duplicate_header_prefix_detection() {
    let dup = ["| a | b |", "| a | b |", "|---|---|"];
    assert!(has_duplicate_table_header_prefix(&dup, 0));
    let plain = ["| a | b |", "|---|---|"];
    assert!(!has_duplicate_table_header_prefix(&plain, 0));
    assert!(!has_duplicate_table_header_prefix(&plain, 5));
}

#[test]
fn spacing_normalization_rewrites_tables() {
    let input = "intro\n| a | b |\n| a | b |\n|---|---|\n| 1 | 2 |\n";
    assert_eq!(
        normalize_pipe_table_spacing(input),
        "intro\n| a | b |\n| --- | --- |\n| 1 | 2 |\n"
    );
}

#[test]
fn spacing_normalization_keeps_text_without_tables() {
    for input in ["", "\n", "one line", "a\n\nb\n", "x\ny"] {
        assert_eq!(normalize_pipe_table_spacing(input), input);
    }
}

#[test]
fn spacing_normalization_drops_carriage_returns() {
    assert_eq!(normalize_pipe_table_spacing("a\r\nb"), "a\nb");
}
