use codex_tui::links::display_local_link_path;
use codex_tui::links::expand_local_link_path;
use codex_tui::links::expand_with_home;
use codex_tui::links::extract_colon_location_suffix;
use codex_tui::links::file_url_to_local_path_text;
use codex_tui::links::is_absolute_local_link_path;
use codex_tui::links::is_local_path_like_link;
use codex_tui::links::local_link_hash_fragment;
use codex_tui::links::local_path_text_from_url_parts;
use codex_tui::links::normalize_local_link_path_text;
use codex_tui::links::parse_local_link_target;
use codex_tui::links::render_local_link_target;
use codex_tui::links::should_render_link_destination;
use codex_tui::links::strip_local_path_prefix;
use codex_tui::links::trim_trailing_local_path_separator;

#[test]
fn local_link_shapes() {
    for d in ["file:///tmp/a", "/tmp", "~/x", "./a", "../a", "\\\\srv\\share", "C:\\x", "c:/x"] {
        assert!(is_local_path_like_link(d), "{d}");
        assert!(!should_render_link_destination(d), "{d}");
    }
    for d in ["https://example.com", "a/b", "C:x", "mailto:me@example.com", ""] {
        assert!(!is_local_path_like_link(d), "{d}");
        assert!(should_render_link_destination(d), "{d}");
    }
}

#[test]
fn path_text_normalization() {
    assert_eq!(normalize_local_link_path_text("C:\\Users\\me"), "C:/Users/me");
    assert_eq!(normalize_local_link_path_text("\\\\server\\share\\x"), "//server/share/x");
    assert_eq!(normalize_local_link_path_text("\\\\\\\\srv"), "//srv");
    assert_eq!(normalize_local_link_path_text("/already/fine"), "/already/fine");
    let once = normalize_local_link_path_text("\\\\a\\\\b\\c");
    assert_eq!(normalize_local_link_path_text(&once), once);
}

#[test]
fn absolute_paths() {
    assert!(is_absolute_local_link_path("/a"));
    assert!(is_absolute_local_link_path("//srv/a"));
    assert!(is_absolute_local_link_path("C:/a"));
    assert!(!is_absolute_local_link_path("a/b"));
    assert!(!is_absolute_local_link_path("C:a"));
    assert!(!is_absolute_local_link_path("C:\\a"));
}

#[test]
fn trailing_separators_are_trimmed_but_roots_kept() {
    assert_eq!(trim_trailing_local_path_separator("/"), "/");
    assert_eq!(trim_trailing_local_path_separator("//"), "//");
    assert_eq!(trim_trailing_local_path_separator("C:/"), "C:/");
    assert_eq!(trim_trailing_local_path_separator("/a/b//"), "/a/b");
    assert_eq!(trim_trailing_local_path_separator("a/"), "a");
    assert_eq!(trim_trailing_local_path_separator("///"), "");
}

#[test]
fn prefix_stripping() {
    assert_eq!(strip_local_path_prefix("/repo/src/main.rs", "/repo"), Some("src/main.rs"));
    assert_eq!(strip_local_path_prefix("/repo/src/main.rs", "/repo/"), Some("src/main.rs"));
    assert_eq!(strip_local_path_prefix("/repo", "/repo/"), None);
    assert_eq!(strip_local_path_prefix("/tmp/x", "/"), Some("tmp/x"));
    assert_eq!(strip_local_path_prefix("/repository/x", "/repo"), None);
}

#[test]
fn display_paths_relative_to_cwd() {
    assert_eq!(display_local_link_path("/repo/src/lib.rs", Some("/repo")), "src/lib.rs");
    assert_eq!(display_local_link_path("/other/x", Some("/repo")), "/other/x");
    assert_eq!(display_local_link_path("src/x", Some("/repo")), "src/x");
    assert_eq!(display_local_link_path("C:\\repo\\a.rs", Some("C:\\repo")), "a.rs");
    assert_eq!(display_local_link_path("/repo", Some("/repo")), "/repo");
    assert_eq!(display_local_link_path("/repo/a.rs", None), "/repo/a.rs");
}

#[test]
fn colon_location_suffixes() {
    assert_eq!(extract_colon_location_suffix("src/main.rs:12"), Some(":12".to_string()));
    assert_eq!(extract_colon_location_suffix("src/main.rs:12:3"), Some(":12:3".to_string()));
    assert_eq!(extract_colon_location_suffix("a.rs:10-20"), Some(":10-20".to_string()));
    assert_eq!(extract_colon_location_suffix("a.rs:1:2-3:4"), Some(":1:2-3:4".to_string()));
    assert_eq!(extract_colon_location_suffix("a:1:2:3"), Some(":2:3".to_string()));
    assert_eq!(extract_colon_location_suffix("C:/x"), None);
    assert_eq!(extract_colon_location_suffix("a.rs:x"), None);
    assert_eq!(extract_colon_location_suffix("a.rs:12x"), None);
}

#[test]
fn hash_location_fragments() {
    assert_eq!(
        local_link_hash_fragment("a.rs#L12C3-L14C9"),
        Some("L12C3-L14C9".to_string())
    );
    assert_eq!(local_link_hash_fragment("a.rs#L"), None);
    assert_eq!(local_link_hash_fragment("a.rs#L1-"), None);
    assert_eq!(local_link_hash_fragment("a#b#L7"), Some("L7".to_string()));
    assert_eq!(local_link_hash_fragment("src/a.rs#L12"), Some("L12".to_string()));
    assert_eq!(local_link_hash_fragment("src/a.rs#intro"), None);
    assert_eq!(local_link_hash_fragment("src/a.rs"), None);
    assert_eq!(local_link_hash_fragment("file:///tmp/a.rs#L3"), Some("L3".to_string()));
    assert_eq!(local_link_hash_fragment("file:///tmp/a.rs#top"), None);
}

#[test]
fn plain_targets_split_into_path_and_suffix() {
    assert_eq!(
        parse_local_link_target("src/main.rs:12", None),
        Some(("src/main.rs".to_string(), Some(":12".to_string())))
    );
    assert_eq!(
        parse_local_link_target("src/a.rs#L5", Some(":5")),
        Some(("src/a.rs".to_string(), Some(":5".to_string())))
    );
    assert_eq!(
        parse_local_link_target("src/a.rs#L5", None),
        Some(("src/a.rs".to_string(), Some("#L5".to_string())))
    );
    assert_eq!(
        parse_local_link_target(".\\dir\\a.rs", None),
        Some(("./dir/a.rs".to_string(), None))
    );
}

#[test]
fn invalid_file_urls_give_no_target() {
    assert_eq!(parse_local_link_target("file://[::1", None), None);
    assert_eq!(render_local_link_target("file://[::1", None, None), None);
}

#[test]
fn rendered_local_targets() {
    assert_eq!(
        render_local_link_target("/repo/src/main.rs:7", Some("/repo"), None),
        Some("src/main.rs:7".to_string())
    );
    assert_eq!(
        render_local_link_target("/repo/src/main.rs#L7", Some("/repo"), Some(":7")),
        Some("src/main.rs:7".to_string())
    );
    assert_eq!(
        render_local_link_target("file:///repo/a.rs", Some("/repo"), None),
        Some("a.rs".to_string())
    );
    assert_eq!(
        render_local_link_target("file:///repo/a.rs#L2", Some("/repo"), Some(":2")),
        Some("a.rs:2".to_string())
    );
}

#[test]
fn file_url_paths_from_parts() {
    assert_eq!(local_path_text_from_url_parts(None, "/C:/x/y", None), "C:/x/y");
    assert_eq!(local_path_text_from_url_parts(None, "/share/x", Some("server")), "//server/share/x");
    assert_eq!(local_path_text_from_url_parts(None, "/x", Some("localhost")), "/x");
    assert_eq!(local_path_text_from_url_parts(None, "/x", Some("")), "/x");
    assert_eq!(local_path_text_from_url_parts(Some("/a\\b"), "/ignored", None), "/a/b");
}

#[test]
fn file_urls_become_paths() {
    assert_eq!(file_url_to_local_path_text("file:///tmp/x.rs"), "/tmp/x.rs");
    assert_eq!(file_url_to_local_path_text("file:///tmp/a%20b.rs"), "/tmp/a b.rs");
    assert_eq!(
        file_url_to_local_path_text("file://server/share/a.txt"),
        "//server/share/a.txt"
    );
}

#[test]
fn stacked_location_suffixes_all_leave_the_path() {
    assert_eq!(
        parse_local_link_target("a:10:12:5", None),
        Some(("a".to_string(), Some(":10:12:5".to_string())))
    );
    assert_eq!(
        parse_local_link_target("a.rs:10#L5", Some(":5")),
        Some(("a.rs".to_string(), Some(":10:5".to_string())))
    );
    assert_eq!(
        parse_local_link_target("C:/x/a.rs:3", None),
        Some(("C:/x/a.rs".to_string(), Some(":3".to_string())))
    );
}

#[test]
fn home_expansion_from_given_home() {
    assert_eq!(expand_with_home("~/a", None, None), "~/a");
    assert_eq!(expand_with_home("~/a", Some("/home/u"), Some("/home/u/a")), "/home/u/a");
    assert_eq!(expand_with_home("./a", Some("/home/u"), Some("/home/u/a")), "./a");
    assert_eq!(expand_with_home("~/a\\b", Some("/h"), Some("/h/a\\b")), "/h/a/b");
}

#[test]
fn home_relative_paths_expand() {
    assert_eq!(expand_local_link_path("./a\\b"), "./a/b");
    let expanded = expand_local_link_path("~/x.rs");
    match dirs::home_dir() {
        Some(home) => {
            let expected = normalize_local_link_path_text(&home.join("x.rs").to_string_lossy());
            assert_eq!(expanded, expected);
        }
        None => assert_eq!(expanded, "~/x.rs"),
    }
}
