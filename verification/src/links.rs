//! Display of local file links.
//!
//! A link whose destination is a local path is shown by its target rather than by its label:
//! the path is normalized to forward slashes, shortened against the working directory when it
//! lies below it, and followed by its location suffix (`:line[:col]` or the normalized form of
//! a `#L..` fragment).
use vstd::prelude::*;
use crate::text::{chars_of, push_char, string_from_chars, starts_with_chars};

verus! {

/// Whether `prefix` begins `s`.
pub open spec fn has_prefix(s: Seq<char>, prefix: Seq<char>) -> bool {
    prefix.len() <= s.len() && s.subrange(0, prefix.len() as int) == prefix
}

/// An ASCII letter.
pub open spec fn is_ascii_alpha(c: char) -> bool {
    ('a' <= c && c <= 'z') || ('A' <= c && c <= 'Z')
}

/// A drive-letter path start such as `C:/` or `C:\` (the separator one of `seps`).
pub open spec fn has_drive_prefix(s: Seq<char>, backslash_too: bool) -> bool {
    s.len() >= 3 && is_ascii_alpha(s[0]) && s[1] == ':' && (s[2] == '/' || (backslash_too
        && s[2] == '\\'))
}

/// Whether a link destination names a local path rather than a web resource: a `file://` URL,
/// an absolute, home-relative or dot-relative path, a UNC path, or a Windows drive path.
pub open spec fn is_local_link(d: Seq<char>) -> bool {
    ||| has_prefix(d, seq!['f', 'i', 'l', 'e', ':', '/', '/'])
    ||| has_prefix(d, seq!['/'])
    ||| has_prefix(d, seq!['~', '/'])
    ||| has_prefix(d, seq!['.', '/'])
    ||| has_prefix(d, seq!['.', '.', '/'])
    ||| has_prefix(d, seq!['\\', '\\'])
    ||| has_drive_prefix(d, true)
}

fn has_prefix_chars(s: &Vec<char>, prefix: &[char]) -> (r: bool)
    ensures
        r == has_prefix(s@, prefix@),
{
    starts_with_chars(s.as_slice(), prefix)
}

fn is_ascii_alpha_char(c: char) -> (r: bool)
    ensures
        r == is_ascii_alpha(c),
{
    ('a' <= c && c <= 'z') || ('A' <= c && c <= 'Z')
}

fn has_drive_prefix_chars(s: &Vec<char>, backslash_too: bool) -> (r: bool)
    ensures
        r == has_drive_prefix(s@, backslash_too),
{
    s.len() >= 3 && is_ascii_alpha_char(s[0]) && s[1] == ':' && (s[2] == '/' || (backslash_too
        && s[2] == '\\'))
}

/// Whether a link destination names a local path (see [`is_local_link`]).
pub fn is_local_path_like_link(dest_url: &str) -> (r: bool)
    ensures
        r == is_local_link(dest_url@),
{
    let d = chars_of(dest_url);
    let file = ['f', 'i', 'l', 'e', ':', '/', '/'];
    let slash = ['/'];
    let home = ['~', '/'];
    let dot = ['.', '/'];
    let dotdot = ['.', '.', '/'];
    let unc = ['\\', '\\'];
    assert(file@ =~= seq!['f', 'i', 'l', 'e', ':', '/', '/']);
    assert(slash@ =~= seq!['/']);
    assert(home@ =~= seq!['~', '/']);
    assert(dot@ =~= seq!['.', '/']);
    assert(dotdot@ =~= seq!['.', '.', '/']);
    assert(unc@ =~= seq!['\\', '\\']);
    has_prefix_chars(&d, file.as_slice()) || has_prefix_chars(&d, slash.as_slice())
        || has_prefix_chars(&d, home.as_slice()) || has_prefix_chars(&d, dot.as_slice())
        || has_prefix_chars(&d, dotdot.as_slice()) || has_prefix_chars(&d, unc.as_slice())
        || has_drive_prefix_chars(&d, true)
}

/// Whether a link is followed by its destination in parentheses: web links are, local file
/// links (shown by their target instead) are not.
pub fn should_render_link_destination(dest_url: &str) -> (r: bool)
    ensures
        r == !is_local_link(dest_url@),
{
    !is_local_path_like_link(dest_url)
}

/// `s` with every backslash turned into a forward slash.
pub open spec fn forward_slashes(s: Seq<char>) -> Seq<char> {
    s.map_values(|c: char| if c == '\\' { '/' } else { c })
}

/// Index of the first character of `s` at or after `i` that is not `'/'` (or the length).
pub open spec fn skip_slashes(s: Seq<char>, i: int) -> int
    decreases s.len() - i,
{
    if 0 <= i < s.len() && s[i] == '/' {
        skip_slashes(s, i + 1)
    } else {
        i
    }
}

/// Display form of local path text: backslashes become slashes, and a UNC path
/// `\\server\share` becomes `//server/share`.
pub open spec fn normalized_path(p: Seq<char>) -> Seq<char> {
    if has_prefix(p, seq!['\\', '\\']) {
        let rest = forward_slashes(p.subrange(2, p.len() as int));
        seq!['/', '/'] + rest.subrange(skip_slashes(rest, 0), rest.len() as int)
    } else {
        forward_slashes(p)
    }
}

pub proof fn lemma_skip_slashes(s: Seq<char>, i: int)
    requires
        0 <= i <= s.len(),
    ensures
        i <= skip_slashes(s, i) <= s.len(),
    decreases s.len() - i,
{
    if i < s.len() && s[i] == '/' {
        lemma_skip_slashes(s, i + 1);
    }
}

fn forward_slashes_from(p: &Vec<char>, start: usize) -> (r: Vec<char>)
    requires
        start <= p@.len(),
    ensures
        r@ == forward_slashes(p@.subrange(start as int, p@.len() as int)),
{
    let mut r: Vec<char> = Vec::new();
    let mut i = start;
    while i < p.len()
        invariant
            start <= i <= p@.len(),
            r@ == forward_slashes(p@.subrange(start as int, i as int)),
        decreases p@.len() - i,
    {
        let c = p[i];
        r.push(if c == '\\' {
            '/'
        } else {
            c
        });
        i += 1;
        assert(r@ =~= forward_slashes(p@.subrange(start as int, i as int)));
    }
    r
}

/// Display form of local path text (internal form of [`normalize_local_link_path_text`]).
fn normalized_path_chars(p: &Vec<char>) -> (r: Vec<char>)
    ensures
        r@ == normalized_path(p@),
{
    let unc = ['\\', '\\'];
    assert(unc@ =~= seq!['\\', '\\']);
    if has_prefix_chars(p, unc.as_slice()) {
        let rest = forward_slashes_from(p, 2);
        let mut k: usize = 0;
        while k < rest.len() && rest[k] == '/'
            invariant
                k <= rest@.len(),
                skip_slashes(rest@, k as int) == skip_slashes(rest@, 0),
            decreases rest@.len() - k,
        {
            k += 1;
        }
        let mut r: Vec<char> = Vec::new();
        r.push('/');
        r.push('/');
        let mut i = k;
        while i < rest.len()
            invariant
                k <= i <= rest@.len(),
                r@ == seq!['/', '/'] + rest@.subrange(k as int, i as int),
            decreases rest@.len() - i,
        {
            r.push(rest[i]);
            i += 1;
            assert(r@ =~= seq!['/', '/'] + rest@.subrange(k as int, i as int));
        }
        r
    } else {
        let r = forward_slashes_from(p, 0);
        assert(p@.subrange(0, p@.len() as int) =~= p@);
        r
    }
}

/// Rewrites local path text into display form: forward slashes throughout, and UNC paths
/// `\\server\share` as `//server/share`. Purely lexical.
pub fn normalize_local_link_path_text(path_text: &str) -> (r: String)
    ensures
        r@ == normalized_path(path_text@),
{
    let p = chars_of(path_text);
    let r = normalized_path_chars(&p);
    string_from_chars(r.as_slice())
}

/// Whether normalized path text is absolute: rooted at `/` or `//`, or a drive path `C:/`.
pub open spec fn is_absolute_path(p: Seq<char>) -> bool {
    has_prefix(p, seq!['/']) || has_prefix(p, seq!['/', '/']) || has_drive_prefix(p, false)
}

/// Whether normalized path text is absolute (see [`is_absolute_path`]).
pub fn is_absolute_local_link_path(path_text: &str) -> (r: bool)
    ensures
        r == is_absolute_path(path_text@),
{
    let p = chars_of(path_text);
    let slash = ['/'];
    let two = ['/', '/'];
    assert(slash@ =~= seq!['/']);
    assert(two@ =~= seq!['/', '/']);
    has_prefix_chars(&p, slash.as_slice()) || has_prefix_chars(&p, two.as_slice())
        || has_drive_prefix_chars(&p, false)
}

/// Walking back from `j`, the end of `s` without its trailing slashes.
pub open spec fn trim_slashes_end(s: Seq<char>, j: int) -> int
    decreases j,
{
    if 0 < j <= s.len() && s[j - 1] == '/' {
        trim_slashes_end(s, j - 1)
    } else {
        j
    }
}

/// Path text without trailing slashes, except that the roots `/`, `//` and `C:/` are kept.
pub open spec fn without_trailing_separator(p: Seq<char>) -> Seq<char> {
    if p == seq!['/'] || p == seq!['/', '/'] || (p.len() == 3 && has_drive_prefix(p, false)) {
        p
    } else {
        p.subrange(0, trim_slashes_end(p, p.len() as int))
    }
}


fn trimmed_end_len(p: &Vec<char>) -> (r: usize)
    ensures
        r == (if p@ == seq!['/'] || p@ == seq!['/', '/'] || (p@.len() == 3 && has_drive_prefix(
            p@,
            false,
        )) {
            p@.len() as int
        } else {
            trim_slashes_end(p@, p@.len() as int)
        }),
        r <= p@.len(),
{
    let slash = ['/'];
    let two = ['/', '/'];
    assert(slash@ =~= seq!['/']);
    assert(two@ =~= seq!['/', '/']);
    if crate::text::chars_eq(p.as_slice(), slash.as_slice()) || crate::text::chars_eq(
        p.as_slice(),
        two.as_slice(),
    ) || (p.len() == 3 && has_drive_prefix_chars(p, false)) {
        return p.len();
    }
    let mut j = p.len();
    while j > 0 && p[j - 1] == '/'
        invariant
            j <= p@.len(),
            trim_slashes_end(p@, j as int) == trim_slashes_end(p@, p@.len() as int),
        decreases j,
    {
        j -= 1;
    }
    j
}

/// Removes trailing slashes from path text, keeping the roots `/`, `//` and `C:/` intact.
pub fn trim_trailing_local_path_separator(path_text: &str) -> (r: &str)
    ensures
        r@ == without_trailing_separator(path_text@),
{
    let p = chars_of(path_text);
    let end = trimmed_end_len(&p);
    path_text.substring_char(0, end)
}

/// The part of `path` strictly below `cwd`, without its leading slash; `None` when `path` is
/// `cwd` itself or not below it. Trailing separators are ignored on both sides.
pub open spec fn relative_to(path: Seq<char>, cwd: Seq<char>) -> Option<Seq<char>> {
    let p = without_trailing_separator(path);
    let c = without_trailing_separator(cwd);
    if p == c {
        None
    } else if c == seq!['/'] || c == seq!['/', '/'] {
        if has_prefix(p, seq!['/']) {
            Some(p.subrange(1, p.len() as int))
        } else {
            None
        }
    } else if has_prefix(p, c) && has_prefix(p.subrange(c.len() as int, p.len() as int), seq!['/']) {
        Some(p.subrange(c.len() as int + 1, p.len() as int))
    } else {
        None
    }
}

/// The part of `path_text` strictly below `cwd_text`, without its leading slash (see
/// [`relative_to`]).
pub fn strip_local_path_prefix<'a>(path_text: &'a str, cwd_text: &str) -> (r: Option<&'a str>)
    ensures
        match r {
            Some(s) => relative_to(path_text@, cwd_text@) == Some(s@),
            None => relative_to(path_text@, cwd_text@) is None,
        },
{
    let path = trim_trailing_local_path_separator(path_text);
    let cwd = trim_trailing_local_path_separator(cwd_text);
    let p = chars_of(path);
    let c = chars_of(cwd);
    if crate::text::chars_eq(p.as_slice(), c.as_slice()) {
        return None;
    }
    let slash = ['/'];
    let two = ['/', '/'];
    assert(slash@ =~= seq!['/']);
    assert(two@ =~= seq!['/', '/']);
    if crate::text::chars_eq(c.as_slice(), slash.as_slice()) || crate::text::chars_eq(
        c.as_slice(),
        two.as_slice(),
    ) {
        if has_prefix_chars(&p, slash.as_slice()) {
            return Some(path.substring_char(1, p.len()));
        }
        return None;
    }
    if has_prefix_chars(&p, c.as_slice()) && c.len() < p.len() && p[c.len()] == '/' {
        assert(p@.subrange(c@.len() as int, p@.len() as int).subrange(0, 1) =~= seq!['/']);
        return Some(path.substring_char(c.len() + 1, p.len()));
    }
    proof {
        if has_prefix(p@, c@) && has_prefix(p@.subrange(c@.len() as int, p@.len() as int), seq!['/']) {
            assert(p@.subrange(c@.len() as int, p@.len() as int)[0] == p@[c@.len() as int]);
        }
    }
    None
}

/// The text shown for a local path: its display form, shortened to the part below `cwd` when
/// it is absolute and lies strictly below the (normalized) working directory.
pub open spec fn displayed_path(path: Seq<char>, cwd: Option<Seq<char>>) -> Seq<char> {
    let p = normalized_path(path);
    if !is_absolute_path(p) {
        p
    } else {
        match cwd {
            Some(c) => match relative_to(p, normalized_path(c)) {
                Some(s) => s,
                None => p,
            },
            None => p,
        }
    }
}

/// The text shown for a local path (see [`displayed_path`]); `cwd` is the working directory
/// as text.
pub fn display_local_link_path(path_text: &str, cwd: Option<&str>) -> (r: String)
    ensures
        r@ == displayed_path(
            path_text@,
            match cwd {
                Some(c) => Some(c@),
                None => None,
            },
        ),
{
    let path = normalize_local_link_path_text(path_text);
    if !is_absolute_local_link_path(path.as_str()) {
        return path;
    }
    if let Some(cwd) = cwd {
        let cwd_text = normalize_local_link_path_text(cwd);
        if let Some(stripped) = strip_local_path_prefix(path.as_str(), cwd_text.as_str()) {
            let chars = chars_of(stripped);
            return string_from_chars(chars.as_slice());
        }
    }
    path
}


/// An ASCII digit.
pub open spec fn is_digit(c: char) -> bool {
    '0' <= c && c <= '9'
}

/// A nonempty run of ASCII digits.
pub open spec fn is_digits(s: Seq<char>) -> bool {
    s.len() > 0 && forall|j: int| 0 <= j < s.len() ==> is_digit(#[trigger] s[j])
}

/// Digits, optionally followed by `sep` and more digits (`\d+(?:<sep>\d+)?`).
pub open spec fn is_number_pair(s: Seq<char>, sep: char) -> bool {
    ||| is_digits(s)
    ||| exists|k: int|
        0 < k < s.len() && #[trigger] s[k] == sep && is_digits(s.subrange(0, k)) && is_digits(
            s.subrange(k + 1, s.len() as int),
        )
}

/// A range dash: hyphen or en dash.
pub open spec fn is_range_dash(c: char) -> bool {
    c == '-' || c == '\u{2013}'
}

/// Text matched in full by `:\d+(?::\d+)?(?:[-–]\d+(?::\d+)?)?`: a colon location such as
/// `:12`, `:12:3` or `:12:3-14:9`.
pub open spec fn is_colon_location(t: Seq<char>) -> bool {
    t.len() > 0 && t[0] == ':' && {
        let r = t.subrange(1, t.len() as int);
        ||| is_number_pair(r, ':')
        ||| exists|k: int|
            0 < k < r.len() && is_range_dash(#[trigger] r[k]) && is_number_pair(
                r.subrange(0, k),
                ':',
            ) && is_number_pair(r.subrange(k + 1, r.len() as int), ':')
    }
}

/// The first position at or after `i` from which the rest of `p` is a colon location.
pub open spec fn first_colon_location(p: Seq<char>, i: int) -> Option<int>
    decreases p.len() + 1 - i,
{
    if i < 0 || i > p.len() {
        None
    } else if is_colon_location(p.subrange(i, p.len() as int)) {
        Some(i)
    } else {
        first_colon_location(p, i + 1)
    }
}

/// A `#`-fragment point such as `L12` or `L12C3` (`L\d+(?:C\d+)?`).
pub open spec fn is_hash_point(s: Seq<char>) -> bool {
    s.len() > 0 && s[0] == 'L' && is_number_pair(s.subrange(1, s.len() as int), 'C')
}

/// A fragment matched in full by `^L\d+(?:C\d+)?(?:-L\d+(?:C\d+)?)?$`, such as `L12C3-L14C9`.
pub open spec fn is_hash_location(f: Seq<char>) -> bool {
    ||| is_hash_point(f)
    ||| exists|k: int|
        0 < k < f.len() && #[trigger] f[k] == '-' && is_hash_point(f.subrange(0, k))
            && is_hash_point(f.subrange(k + 1, f.len() as int))
}

/// `Regex::find` with the pattern `:\d+(?::\d+)?(?:[-–]\d+(?::\d+)?)?$`; returns the match as
/// character offsets. The search reports the leftmost match, and `$` ties it to the end of
/// the text, so the match starts at the first position from which the rest of the text is a
/// colon location.
#[verifier::external_body]
fn colon_location_match(path_text: &str) -> (r: Option<(usize, usize)>)
    ensures
        match r {
            Some(m) => first_colon_location(path_text@, 0) == Some(m.0 as int) && m.1
                == path_text@.len(),
            None => first_colon_location(path_text@, 0) is None,
        },
{
    let re = regex_lite::Regex::new(r":\d+(?::\d+)?(?:[-–]\d+(?::\d+)?)?$").ok()?;
    let m = re.find(path_text)?;
    Some((path_text[..m.start()].chars().count(), path_text[..m.end()].chars().count()))
}

/// `Regex::is_match` with the anchored pattern `^L\d+(?:C\d+)?(?:-L\d+(?:C\d+)?)?$`: whether
/// the whole fragment is a `#L..` location.
#[verifier::external_body]
fn is_hash_location_fragment(fragment: &str) -> (r: bool)
    ensures
        r == is_hash_location(fragment@),
{
    match regex_lite::Regex::new(r"^L\d+(?:C\d+)?(?:-L\d+(?:C\d+)?)?$") {
        Ok(re) => re.is_match(fragment),
        Err(_) => false,
    }
}

/// The trailing `:line`, `:line:col` or range suffix of path text, if it has one.
pub open spec fn colon_location_suffix(p: Seq<char>) -> Option<Seq<char>> {
    match first_colon_location(p, 0) {
        Some(i) => Some(p.subrange(i, p.len() as int)),
        None => None,
    }
}

pub proof fn lemma_first_colon_location(p: Seq<char>, i: int)
    requires
        0 <= i,
    ensures
        first_colon_location(p, i) matches Some(k) ==> i <= k < p.len() && is_colon_location(
            p.subrange(k, p.len() as int),
        ),
    decreases p.len() + 1 - i,
{
    if i <= p.len() && !is_colon_location(p.subrange(i, p.len() as int)) {
        lemma_first_colon_location(p, i + 1);
    }
}

/// Extracts the trailing `:line`, `:line:col` or range suffix of path text. Colons elsewhere
/// (such as a drive letter's) are left alone.
pub fn extract_colon_location_suffix(path_text: &str) -> (r: Option<String>)
    ensures
        opt_string(r) == colon_location_suffix(path_text@),
{
    proof {
        lemma_first_colon_location(path_text@, 0);
    }
    let n = chars_of(path_text).len();
    match colon_location_match(path_text) {
        Some((start, end)) => {
            if end == n {
                let s = path_text.substring_char(start, end);
                let chars = chars_of(s);
                Some(string_from_chars(chars.as_slice()))
            } else {
                None
            }
        },
        None => None,
    }
}

/// The view of an optional string.
pub open spec fn opt_string(o: Option<String>) -> Option<Seq<char>> {
    match o {
        Some(s) => Some(s@),
        None => None,
    }
}

/// The view of an optional string slice.
pub open spec fn opt_str(o: Option<&str>) -> Option<Seq<char>> {
    match o {
        Some(s) => Some(s@),
        None => None,
    }
}

/// Index of the last `'#'` in `d` before position `j`.
pub open spec fn last_hash_before(d: Seq<char>, j: int) -> Option<int>
    decreases j,
{
    if j <= 0 || j > d.len() {
        None
    } else if d[j - 1] == '#' {
        Some(j - 1)
    } else {
        last_hash_before(d, j - 1)
    }
}

/// The text after the last `'#'` of a plain destination, when it is a `#L..` location.
pub open spec fn plain_hash_fragment(d: Seq<char>) -> Option<Seq<char>> {
    match last_hash_before(d, d.len() as int) {
        Some(k) => {
            let f = d.subrange(k + 1, d.len() as int);
            if is_hash_location(f) {
                Some(f)
            } else {
                None
            }
        },
        None => None,
    }
}

/// Whether path text ends in a location suffix: a `#L..` fragment or a colon location.
pub open spec fn ends_in_location(p: Seq<char>) -> bool {
    plain_hash_fragment(p) is Some || first_colon_location(p, 0) is Some
}

/// Where the trailing location suffixes of path text begin: trailing `#L..` fragments and
/// colon locations are taken off, one after another, until none is left.
pub open spec fn location_start(p: Seq<char>) -> int
    decreases p.len(),
{
    match plain_hash_fragment(p) {
        Some(_) => {
            let k = last_hash_before(p, p.len() as int)->0;
            if 0 <= k < p.len() {
                location_start(p.subrange(0, k))
            } else {
                p.len() as int
            }
        },
        None => match first_colon_location(p, 0) {
            Some(i) => if 0 <= i < p.len() {
                location_start(p.subrange(0, i))
            } else {
                p.len() as int
            },
            None => p.len() as int,
        },
    }
}

/// A plain (non-URL) local destination split into path text and location suffix, given the
/// normalized form `hash_suffix` of its last `#L..` fragment: the path loses every trailing
/// location suffix, and the suffix is what it lost, with that last fragment in normalized
/// form when one is given.
pub open spec fn split_plain_target(d: Seq<char>, hash_suffix: Option<Seq<char>>) -> (
    Seq<char>,
    Option<Seq<char>>,
) {
    if plain_hash_fragment(d) is Some && hash_suffix is Some {
        let k = last_hash_before(d, d.len() as int)->0;
        let e = location_start(d.subrange(0, k));
        (d.subrange(0, e), Some(d.subrange(e, k) + hash_suffix->0))
    } else {
        let e = location_start(d);
        if e < d.len() {
            (d.subrange(0, e), Some(d.subrange(e, d.len() as int)))
        } else {
            (d, None)
        }
    }
}

pub proof fn lemma_location_start(p: Seq<char>)
    ensures
        0 <= location_start(p) <= p.len(),
        !ends_in_location(p.subrange(0, location_start(p))),
    decreases p.len(),
{
    lemma_last_hash_before(p, p.len() as int);
    lemma_first_colon_location(p, 0);
    match plain_hash_fragment(p) {
        Some(_) => {
            let k = last_hash_before(p, p.len() as int)->0;
            let q = p.subrange(0, k);
            lemma_location_start(q);
            assert(q.subrange(0, location_start(q)) =~= p.subrange(0, location_start(q)));
        },
        None => match first_colon_location(p, 0) {
            Some(i) => {
                let q = p.subrange(0, i);
                lemma_location_start(q);
                assert(q.subrange(0, location_start(q)) =~= p.subrange(0, location_start(q)));
            },
            None => {
                assert(p.subrange(0, p.len() as int) =~= p);
            },
        },
    }
}

pub proof fn lemma_last_hash_before(d: Seq<char>, j: int)
    requires
        0 <= j <= d.len(),
    ensures
        last_hash_before(d, j) matches Some(k) ==> 0 <= k < j && d[k] == '#',
        last_hash_before(d, j) is None ==> forall|k: int| 0 <= k < j ==> d[k] != '#',
    decreases j,
{
    if j > 0 && d[j - 1] != '#' {
        lemma_last_hash_before(d, j - 1);
    }
}

/// Index of the last `'#'` of `d`.
fn last_hash(d: &Vec<char>) -> (r: Option<usize>)
    ensures
        match r {
            Some(k) => last_hash_before(d@, d@.len() as int) == Some(k as int),
            None => last_hash_before(d@, d@.len() as int) is None,
        },
{
    let mut j = d.len();
    while j > 0
        invariant
            j <= d@.len(),
            last_hash_before(d@, d@.len() as int) == last_hash_before(d@, j as int),
        decreases j,
    {
        if d[j - 1] == '#' {
            return Some(j - 1);
        }
        j -= 1;
    }
    None
}

/// The `#L..` fragment of a plain destination, if it has one.
fn plain_hash_fragment_text(dest_url: &str) -> (r: Option<&str>)
    ensures
        opt_str(r) == plain_hash_fragment(dest_url@),
{
    let d = chars_of(dest_url);
    proof {
        lemma_last_hash_before(d@, d@.len() as int);
    }
    match last_hash(&d) {
        None => None,
        Some(k) => {
            let f = dest_url.substring_char(k + 1, d.len());
            if is_hash_location_fragment(f) {
                Some(f)
            } else {
                None
            }
        },
    }
}


/// The index where the trailing location suffixes of path text begin (see
/// [`location_start`]).
fn location_start_index(p: &str) -> (e: usize)
    ensures
        e as int == location_start(p@),
        e <= p@.len(),
{
    let n = chars_of(p).len();
    let mut end: usize = n;
    assert(p@.subrange(0, n as int) =~= p@);
    loop
        invariant
            end <= p@.len(),
            location_start(p@.subrange(0, end as int)) == location_start(p@),
        decreases end,
    {
        let prefix = p.substring_char(0, end);
        proof {
            lemma_last_hash_before(prefix@, prefix@.len() as int);
            lemma_first_colon_location(prefix@, 0);
        }
        if plain_hash_fragment_text(prefix).is_some() {
            let pc = chars_of(prefix);
            match last_hash(&pc) {
                Some(k) => {
                    assert(prefix@.subrange(0, k as int) =~= p@.subrange(0, k as int));
                    end = k;
                },
                None => {
                    return end;
                },
            }
        } else {
            match colon_location_match(prefix) {
                Some((start, _)) => {
                    assert(prefix@.subrange(0, start as int) =~= p@.subrange(0, start as int));
                    end = start;
                },
                None => {
                    return end;
                },
            }
        }
    }
}

/// Whether `Url::parse` accepts the text as a URL. The URL standard's parser decides it from
/// the text alone.
pub uninterp spec fn url_parses(input: Seq<char>) -> bool;

/// The path (`Url::path`, percent-encoded) of the URL that `Url::parse` makes of the text,
/// none when the text is not a URL.
pub uninterp spec fn url_path_of(input: Seq<char>) -> Option<Seq<char>>;

/// The host (`Url::host_str`) of the URL that `Url::parse` makes of the text, none when the
/// text is not a URL or the URL has no host.
pub uninterp spec fn url_host_of(input: Seq<char>) -> Option<Seq<char>>;

/// The fragment (`Url::fragment`, the text after `#`) of the URL that `Url::parse` makes of
/// the text, none when the text is not a URL or the URL has no fragment.
pub uninterp spec fn url_fragment_of(input: Seq<char>) -> Option<Seq<char>>;

/// `Url::parse(..).is_ok()`: whether the text is a URL.
#[verifier::external_body]
fn url_is_valid(input: &str) -> (r: bool)
    ensures
        r == url_parses(input@),
{
    url::Url::parse(input).is_ok()
}

/// `Url::to_file_path` of the URL parsed from the text, converted with
/// `Path::to_string_lossy`. Stated: it succeeds only on a URL, and the path it gives is not
/// empty (it starts with `/`, a drive or a UNC prefix). Not stated, because it depends on the
/// platform: which hosts it accepts (only an empty host or `localhost`, except on Windows)
/// and the path's form (the percent-decoded URL path, with the platform's separators).
#[verifier::external_body]
fn url_file_path_text(input: &str) -> (r: Option<String>)
    ensures
        r matches Some(p) ==> url_parses(input@) && p@.len() > 0,
{
    let url = url::Url::parse(input).ok()?;
    url.to_file_path().ok().map(|p| p.to_string_lossy().into_owned())
}

/// `Url::path` of the URL parsed from the text: [`url_path_of`]; every URL has a path.
#[verifier::external_body]
fn url_path_text(input: &str) -> (r: Option<String>)
    ensures
        opt_string(r) == url_path_of(input@),
        r is Some <==> url_parses(input@),
{
    url::Url::parse(input).ok().map(|u| u.path().to_string())
}

/// `Url::host_str` of the URL parsed from the text: [`url_host_of`].
#[verifier::external_body]
fn url_host_text(input: &str) -> (r: Option<String>)
    ensures
        opt_string(r) == url_host_of(input@),
        r is Some ==> url_parses(input@),
{
    url::Url::parse(input).ok()?.host_str().map(|h| h.to_string())
}

/// `Url::fragment` of the URL parsed from the text: [`url_fragment_of`].
#[verifier::external_body]
fn url_fragment_text(input: &str) -> (r: Option<String>)
    ensures
        opt_string(r) == url_fragment_of(input@),
        r is Some ==> url_parses(input@),
{
    url::Url::parse(input).ok()?.fragment().map(|f| f.to_string())
}

/// `dirs::home_dir`, converted to text with `Path::to_string_lossy`. It reads the
/// environment and the user database, so nothing is stated of it.
#[verifier::external_body]
fn home_dir_text() -> (r: Option<String>) {
    dirs::home_dir().map(|p| p.to_string_lossy().into_owned())
}

/// `Path::join` of `base` and `rest`, converted to text with `Path::to_string_lossy`. Its
/// separators depend on the platform, so nothing is stated of it.
#[verifier::external_body]
fn join_path_text(base: &str, rest: &str) -> (r: String) {
    std::path::Path::new(base).join(rest).to_string_lossy().into_owned()
}

/// Path text rebuilt from the parts of a `file://` URL when `Url::to_file_path` rejects it:
/// a foreign host becomes a UNC prefix `//host`, and the leading slash of `/C:/...` is dropped.
pub open spec fn url_parts_path(path: Seq<char>, host: Option<Seq<char>>) -> Seq<char> {
    match host {
        Some(h) if h.len() > 0 && h != seq!['l', 'o', 'c', 'a', 'l', 'h', 'o', 's', 't'] => seq![
            '/',
            '/',
        ] + h + path,
        _ => if path.len() >= 4 && path[0] == '/' && is_ascii_alpha(path[1]) && path[2] == ':'
            && path[3] == '/' {
            path.subrange(1, path.len() as int)
        } else {
            path
        },
    }
}

/// The display path of a `file://` URL from its parts: the platform's file path when the URL
/// converts to one, else the path rebuilt by [`url_parts_path`]; then normalized.
pub open spec fn file_url_path(
    file_path: Option<Seq<char>>,
    path: Seq<char>,
    host: Option<Seq<char>>,
) -> Seq<char> {
    match file_path {
        Some(p) => normalized_path(p),
        None => normalized_path(url_parts_path(path, host)),
    }
}

/// The display path of a `file://` URL from its parts (see [`file_url_path`]).
pub fn local_path_text_from_url_parts(
    file_path: Option<&str>,
    path: &str,
    host: Option<&str>,
) -> (r: String)
    ensures
        r@ == file_url_path(opt_str(file_path), path@, opt_str(host)),
{
    if let Some(p) = file_path {
        return normalize_local_link_path_text(p);
    }
    let path_chars = chars_of(path);
    let mut text: Vec<char> = Vec::new();
    let localhost = ['l', 'o', 'c', 'a', 'l', 'h', 'o', 's', 't'];
    assert(localhost@ =~= seq!['l', 'o', 'c', 'a', 'l', 'h', 'o', 's', 't']);
    let foreign_host = match host {
        Some(h) => {
            let hc = chars_of(h);
            if hc.len() > 0 && !crate::text::chars_eq(hc.as_slice(), localhost.as_slice()) {
                text.push('/');
                text.push('/');
                crate::text::extend_chars(&mut text, hc.as_slice());
                crate::text::extend_chars(&mut text, path_chars.as_slice());
                true
            } else {
                false
            }
        },
        None => false,
    };
    if !foreign_host {
        let n = path_chars.len();
        if n >= 4 && path_chars[0] == '/' && is_ascii_alpha_char(path_chars[1]) && path_chars[2]
            == ':' && path_chars[3] == '/' {
            text = crate::text::slice_range(path_chars.as_slice(), 1, n);
        } else {
            text = path_chars;
        }
    }
    assert(text@ =~= url_parts_path(path@, opt_str(host)));
    let r = normalized_path_chars(&text);
    string_from_chars(r.as_slice())
}

/// The display path of the `file://` URL in `t`, given what `Url::to_file_path` made of it
/// (see [`file_url_path`]).
pub open spec fn file_url_text_path(t: Seq<char>, file_path: Option<Seq<char>>) -> Seq<char> {
    file_url_path(
        file_path,
        match url_path_of(t) {
            Some(p) => p,
            None => Seq::empty(),
        },
        url_host_of(t),
    )
}

/// The display path of a `file://` URL: the platform's file path when the URL converts to
/// one, else the path rebuilt from the URL's path and host; then normalized.
pub fn file_url_to_local_path_text(url: &str) -> (r: String)
    ensures
        exists|fp: Option<Seq<char>>|
            (fp matches Some(x) ==> x.len() > 0 && url_parses(url@)) && r@ == file_url_text_path(
                url@,
                fp,
            ),
{
    let file_path = url_file_path_text(url);
    let path = match url_path_text(url) {
        Some(p) => p,
        None => String::new(),
    };
    let host = url_host_text(url);
    let fp: Option<&str> = match &file_path {
        Some(p) => Some(p.as_str()),
        None => None,
    };
    let h: Option<&str> = match &host {
        Some(x) => Some(x.as_str()),
        None => None,
    };
    assert(path@ == match url_path_of(url@) {
        Some(p) => p,
        None => Seq::<char>::empty(),
    });
    let r = local_path_text_from_url_parts(fp, path.as_str(), h);
    assert(r@ == file_url_text_path(url@, opt_str(fp)));
    r
}

/// Path text after expanding a leading `~/` and normalizing; `joined` is the home directory
/// joined with the rest of the path, none when the home directory is not known.
pub open spec fn expanded_path(p: Seq<char>, joined: Option<Seq<char>>) -> Seq<char> {
    if has_prefix(p, seq!['~', '/']) && joined is Some {
        normalized_path(joined->0)
    } else {
        normalized_path(p)
    }
}

/// Expands a home-relative path `~/...` given the home directory `home` and `joined`, that
/// directory joined with the rest of the path; without a home directory the path is only
/// normalized.
pub fn expand_with_home(path_text: &str, home: Option<&str>, joined: Option<&str>) -> (r: String)
    ensures
        r@ == expanded_path(
            path_text@,
            if home is Some {
                opt_str(joined)
            } else {
                None
            },
        ),
{
    let p = chars_of(path_text);
    let home_prefix = ['~', '/'];
    assert(home_prefix@ =~= seq!['~', '/']);
    if has_prefix_chars(&p, home_prefix.as_slice()) && home.is_some() {
        if let Some(j) = joined {
            return normalize_local_link_path_text(j);
        }
    }
    normalize_local_link_path_text(path_text)
}

/// Expands a home-relative path `~/...` with the user's home directory (when it is known) and
/// normalizes the result for display (see [`expand_with_home`]).
pub fn expand_local_link_path(path_text: &str) -> (r: String)
    ensures
        exists|joined: Option<Seq<char>>| r@ == expanded_path(path_text@, joined),
        !has_prefix(path_text@, seq!['~', '/']) ==> r@ == normalized_path(path_text@),
{
    let p = chars_of(path_text);
    let home_prefix = ['~', '/'];
    assert(home_prefix@ =~= seq!['~', '/']);
    let home = if has_prefix_chars(&p, home_prefix.as_slice()) {
        home_dir_text()
    } else {
        None
    };
    let joined = match &home {
        Some(h) => Some(join_path_text(h.as_str(), path_text.substring_char(2, p.len()))),
        None => None,
    };
    let h: Option<&str> = match &home {
        Some(x) => Some(x.as_str()),
        None => None,
    };
    let j: Option<&str> = match &joined {
        Some(x) => Some(x.as_str()),
        None => None,
    };
    expand_with_home(path_text, h, j)
}

/// Whether `d` is a `file://` URL.
pub open spec fn is_file_url(d: Seq<char>) -> bool {
    has_prefix(d, seq!['f', 'i', 'l', 'e', ':', '/', '/'])
}

fn is_file_url_text(dest_url: &str) -> (r: bool)
    ensures
        r == is_file_url(dest_url@),
{
    let d = chars_of(dest_url);
    let file = ['f', 'i', 'l', 'e', ':', '/', '/'];
    assert(file@ =~= seq!['f', 'i', 'l', 'e', ':', '/', '/']);
    has_prefix_chars(&d, file.as_slice())
}

/// The `#L..` location fragment of a local link destination: the URL fragment of a
/// `file://` URL, or the text after the last `#` of a plain path, when it is such a location.
pub open spec fn link_hash_fragment(d: Seq<char>) -> Option<Seq<char>> {
    if is_file_url(d) {
        match url_fragment_of(d) {
            Some(f) => if is_hash_location(f) {
                Some(f)
            } else {
                None
            },
            None => None,
        }
    } else {
        plain_hash_fragment(d)
    }
}

/// The `#L..` location fragment of a local link destination (see [`link_hash_fragment`]),
/// whose normalized form the caller is to supply to [`parse_local_link_target`].
pub fn local_link_hash_fragment(dest_url: &str) -> (r: Option<String>)
    ensures
        opt_string(r) == link_hash_fragment(dest_url@),
        is_file_url(dest_url@) && !url_parses(dest_url@) ==> r is None,
{
    if is_file_url_text(dest_url) {
        match url_fragment_text(dest_url) {
            Some(f) => if is_hash_location_fragment(f.as_str()) {
                Some(f)
            } else {
                None
            },
            None => None,
        }
    } else {
        match plain_hash_fragment_text(dest_url) {
            Some(f) => {
                let chars = chars_of(f);
                Some(string_from_chars(chars.as_slice()))
            },
            None => None,
        }
    }
}

/// Splits a local link destination into display path text and location suffix.
///
/// `hash_suffix` is the normalized form (such as `:12:3`) of the fragment that
/// [`local_link_hash_fragment`] names, or `None` when there is none or it did not normalize.
/// A plain destination's path keeps no trailing location suffix (see [`split_plain_target`]).
/// `None` is returned only for a `file://` destination that is not a valid URL.
pub fn parse_local_link_target(dest_url: &str, hash_suffix: Option<&str>) -> (r: Option<
    (String, Option<String>),
>)
    ensures
        !is_file_url(dest_url@) ==> (r matches Some(t) && {
            let split = split_plain_target(dest_url@, opt_str(hash_suffix));
            &&& opt_string(t.1) == split.1
            &&& !ends_in_location(split.0)
            &&& exists|joined: Option<Seq<char>>| t.0@ == expanded_path(split.0, joined)
            &&& !has_prefix(split.0, seq!['~', '/']) ==> t.0@ == normalized_path(split.0)
        }),
        is_file_url(dest_url@) ==> (r is Some <==> url_parses(dest_url@)),
        is_file_url(dest_url@) ==> (r matches Some(t) ==> {
            &&& opt_string(t.1) == if link_hash_fragment(dest_url@) is Some {
                opt_str(hash_suffix)
            } else {
                None
            }
            &&& exists|fp: Option<Seq<char>>|
                (fp matches Some(x) ==> x.len() > 0) && t.0@ == file_url_text_path(dest_url@, fp)
        }),
{
    if is_file_url_text(dest_url) {
        if !url_is_valid(dest_url) {
            return None;
        }
        let path_text = file_url_to_local_path_text(dest_url);
        let suffix = match url_fragment_text(dest_url) {
            Some(f) => if is_hash_location_fragment(f.as_str()) {
                owned_opt(hash_suffix)
            } else {
                None
            },
            None => None,
        };
        return Some((path_text, suffix));
    }
    let d = chars_of(dest_url);
    proof {
        lemma_last_hash_before(d@, d@.len() as int);
        lemma_location_start(d@);
    }
    let ghost split = split_plain_target(dest_url@, opt_str(hash_suffix));
    let n = d.len();
    let (path_text, suffix): (&str, Option<String>) = if plain_hash_fragment_text(dest_url).is_some()
        && hash_suffix.is_some() {
        let k = match last_hash(&d) {
            Some(k) => k,
            None => 0,
        };
        let before = dest_url.substring_char(0, k);
        proof {
            lemma_location_start(before@);
        }
        let e = location_start_index(before);
        let mut sc = chars_of(before.substring_char(e, k));
        let hc = match hash_suffix {
            Some(h) => chars_of(h),
            None => Vec::new(),
        };
        crate::text::extend_chars(&mut sc, hc.as_slice());
        assert(before@.subrange(0, e as int) =~= dest_url@.subrange(0, e as int));
        assert(before@.subrange(e as int, k as int) =~= dest_url@.subrange(e as int, k as int));
        (before.substring_char(0, e), Some(string_from_chars(sc.as_slice())))
    } else {
        let e = location_start_index(dest_url);
        if e < n {
            let sc = chars_of(dest_url.substring_char(e, n));
            (dest_url.substring_char(0, e), Some(string_from_chars(sc.as_slice())))
        } else {
            assert(dest_url@.subrange(0, e as int) =~= dest_url@);
            (dest_url, None)
        }
    };
    assert(path_text@ == split.0);
    assert(opt_string(suffix) == split.1);
    let expanded = expand_local_link_path(path_text);
    Some((expanded, suffix))
}

/// An owned copy of an optional string slice.
fn owned_opt(s: Option<&str>) -> (r: Option<String>)
    ensures
        opt_string(r) == opt_str(s),
{
    match s {
        Some(x) => {
            let chars = chars_of(x);
            Some(string_from_chars(chars.as_slice()))
        },
        None => None,
    }
}

/// The text of an optional suffix, empty when there is none.
pub open spec fn suffix_text(s: Option<Seq<char>>) -> Seq<char> {
    match s {
        Some(x) => x,
        None => Seq::empty(),
    }
}

/// Whether `t` is the text shown for the plain local destination `d`: its path (see
/// [`split_plain_target`]), expanded with the home directory where it is home-relative and
/// one is known, shortened against `cwd`, then its location suffix.
pub open spec fn plain_target_shown(
    d: Seq<char>,
    cwd: Option<Seq<char>>,
    hash_suffix: Option<Seq<char>>,
    t: Seq<char>,
) -> bool {
    let split = split_plain_target(d, hash_suffix);
    exists|joined: Option<Seq<char>>|
        t == displayed_path(#[trigger] expanded_path(split.0, joined), cwd) + suffix_text(split.1)
}

/// Whether `t` is the text shown for the `file://` destination `d`: its display path (see
/// [`file_url_text_path`]) shortened against `cwd`, then `hash_suffix` when the URL has a
/// `#L..` fragment.
pub open spec fn file_target_shown(
    d: Seq<char>,
    cwd: Option<Seq<char>>,
    hash_suffix: Option<Seq<char>>,
    t: Seq<char>,
) -> bool {
    exists|fp: Option<Seq<char>>|
        (fp matches Some(x) ==> x.len() > 0) && t == displayed_path(
            #[trigger] file_url_text_path(d, fp),
            cwd,
        ) + if link_hash_fragment(d) is Some {
            suffix_text(hash_suffix)
        } else {
            Seq::empty()
        }
}

/// The text shown for a local file link: its display path (shortened against `cwd`) followed
/// by its location suffix. See [`parse_local_link_target`] for `hash_suffix`.
pub fn render_local_link_target(
    dest_url: &str,
    cwd: Option<&str>,
    hash_suffix: Option<&str>,
) -> (r: Option<String>)
    ensures
        !is_file_url(dest_url@) && !has_prefix(
            split_plain_target(dest_url@, opt_str(hash_suffix)).0,
            seq!['~', '/'],
        ) ==> (r matches Some(t) && {
            let split = split_plain_target(dest_url@, opt_str(hash_suffix));
            t@ == displayed_path(normalized_path(split.0), opt_str(cwd)) + match split.1 {
                Some(s) => s,
                None => Seq::empty(),
            }
        }),
        !is_file_url(dest_url@) ==> (r matches Some(t) && plain_target_shown(
            dest_url@,
            opt_str(cwd),
            opt_str(hash_suffix),
            t@,
        )),
        is_file_url(dest_url@) ==> (r is Some <==> url_parses(dest_url@)),
        is_file_url(dest_url@) ==> (r matches Some(t) ==> file_target_shown(
            dest_url@,
            opt_str(cwd),
            opt_str(hash_suffix),
            t@,
        )),
{
    let (path_text, location_suffix) = match parse_local_link_target(dest_url, hash_suffix) {
        Some(t) => t,
        None => return None,
    };
    let rendered = display_local_link_path(path_text.as_str(), cwd);
    let mut out = chars_of(rendered.as_str());
    if let Some(suffix) = location_suffix {
        let sc = chars_of(suffix.as_str());
        crate::text::extend_chars(&mut out, sc.as_slice());
    }
    proof {
        assert(opt_str(cwd) == match cwd {
            Some(c) => Some(c@),
            None => None,
        });
    }
    let r = string_from_chars(out.as_slice());
    assert(r@ =~= rendered@ + suffix_text(opt_string(location_suffix)));
    proof {
        if is_file_url(dest_url@) {
            let fp = choose|fp: Option<Seq<char>>|
                (fp matches Some(x) ==> x.len() > 0) && path_text@ == file_url_text_path(
                    dest_url@,
                    fp,
                );
            assert(r@ == displayed_path(file_url_text_path(dest_url@, fp), opt_str(cwd))
                + if link_hash_fragment(dest_url@) is Some {
                suffix_text(opt_str(hash_suffix))
            } else {
                Seq::<char>::empty()
            });
        } else {
            let split = split_plain_target(dest_url@, opt_str(hash_suffix));
            let j = choose|joined: Option<Seq<char>>| path_text@ == expanded_path(split.0, joined);
            assert(r@ == displayed_path(expanded_path(split.0, j), opt_str(cwd)) + suffix_text(
                split.1,
            ));
        }
    }
    Some(r)
}

/// Whether `s` holds no backslash.
pub open spec fn no_backslash(s: Seq<char>) -> bool {
    forall|i: int| 0 <= i < s.len() ==> s[i] != '\\'
}

/// A plain local destination's path keeps no trailing location suffix (no `:line[:col]`, no
/// `#L..`); unless a normalized `#L..` suffix stands for its fragment, the path followed by
/// the suffix is the destination itself.
pub proof fn plain_target_path_has_no_location(d: Seq<char>, hash_suffix: Option<Seq<char>>)
    ensures
        !ends_in_location(split_plain_target(d, hash_suffix).0),
        !(plain_hash_fragment(d) is Some && hash_suffix is Some) ==> split_plain_target(
            d,
            hash_suffix,
        ).0 + match split_plain_target(d, hash_suffix).1 {
            Some(x) => x,
            None => Seq::empty(),
        } == d,
{
    lemma_last_hash_before(d, d.len() as int);
    lemma_location_start(d);
    if plain_hash_fragment(d) is Some && hash_suffix is Some {
        let k = last_hash_before(d, d.len() as int)->0;
        let q = d.subrange(0, k);
        lemma_location_start(q);
        assert(q.subrange(0, location_start(q)) =~= d.subrange(0, location_start(q)));
    } else {
        let e = location_start(d);
        assert(d.subrange(0, e) + d.subrange(e, d.len() as int) =~= d);
        assert(d.subrange(0, d.len() as int) =~= d);
    }
}

/// Normalized path text holds no backslash, and normalizing it again changes nothing.
pub proof fn normalized_path_is_stable(p: Seq<char>)
    ensures
        no_backslash(normalized_path(p)),
        normalized_path(normalized_path(p)) == normalized_path(p),
{
    let q = normalized_path(p);
    if has_prefix(p, seq!['\\', '\\']) {
        let rest = forward_slashes(p.subrange(2, p.len() as int));
        lemma_skip_slashes(rest, 0);
        let tail = rest.subrange(skip_slashes(rest, 0), rest.len() as int);
        assert forall|i: int| 0 <= i < q.len() implies q[i] != '\\' by {
            if i >= 2 {
                assert(q[i] == tail[i - 2]);
            }
        }
    }
    assert(no_backslash(q));
    if has_prefix(q, seq!['\\', '\\']) {
        assert(q.subrange(0, 2)[0] == q[0]);
    }
    assert(forward_slashes(q) =~= q);
}

/// An absolute path strictly below the working directory is shown relative to it: without
/// the directory and the separator after it.
pub proof fn path_below_cwd_is_shown_relative(cwd: Seq<char>, rest: Seq<char>)
    requires
        is_absolute_path(cwd),
        no_backslash(cwd),
        no_backslash(rest),
        cwd.last() != '/',
        rest.len() > 0,
        rest.last() != '/',
    ensures
        displayed_path(cwd + seq!['/'] + rest, Some(cwd)) == rest,
{
    let p = cwd + seq!['/'] + rest;
    let n = cwd.len() as int;
    assert(cwd.len() >= 2) by {
        if cwd.len() < 2 {
            assert(has_prefix(cwd, seq!['/']) || has_drive_prefix(cwd, false));
            assert(cwd.subrange(0, 1)[0] == cwd[0]);
        }
    }
    assert(no_backslash(p)) by {
        assert forall|i: int| 0 <= i < p.len() implies p[i] != '\\' by {
            if i < n {
                assert(p[i] == cwd[i]);
            } else if i > n {
                assert(p[i] == rest[i - n - 1]);
            }
        }
    }
    assert(!has_prefix(p, seq!['\\', '\\'])) by {
        if has_prefix(p, seq!['\\', '\\']) {
            assert(p.subrange(0, 2)[0] == p[0]);
        }
    }
    assert(!has_prefix(cwd, seq!['\\', '\\'])) by {
        if has_prefix(cwd, seq!['\\', '\\']) {
            assert(cwd.subrange(0, 2)[0] == cwd[0]);
        }
    }
    assert(forward_slashes(p) =~= p);
    assert(forward_slashes(cwd) =~= cwd);
    assert(normalized_path(p) == p);
    assert(normalized_path(cwd) == cwd);
    assert(p.subrange(0, n) =~= cwd);
    assert(is_absolute_path(p)) by {
        if has_prefix(cwd, seq!['/']) {
            assert(p.subrange(0, 1) =~= cwd.subrange(0, 1));
        } else if has_prefix(cwd, seq!['/', '/']) {
            assert(p.subrange(0, 2) =~= cwd.subrange(0, 2));
        } else {
            assert(p[0] == cwd[0] && p[1] == cwd[1] && p[2] == cwd[2]);
        }
    }
    assert(p.last() == rest.last());
    assert(trim_slashes_end(p, p.len() as int) == p.len());
    assert(trim_slashes_end(cwd, n) == n);
    assert(p.subrange(0, p.len() as int) =~= p);
    assert(cwd.subrange(0, n) =~= cwd);
    assert(cwd != seq!['/'] && cwd != seq!['/', '/']) by {
        if cwd == seq!['/'] || cwd == seq!['/', '/'] {
            assert(cwd.last() == '/');
        }
    }
    assert(!(cwd.len() == 3 && has_drive_prefix(cwd, false)));
    assert(without_trailing_separator(cwd) == cwd);
    assert(p.len() != 3);
    assert(p != seq!['/'] && p != seq!['/', '/']);
    assert(without_trailing_separator(p) == p);
    assert(p != cwd);
    assert(has_prefix(p, cwd));
    assert(p.subrange(n, p.len() as int).subrange(0, 1) =~= seq!['/']);
    assert(p.subrange(n + 1, p.len() as int) =~= rest);
}

} // verus!
