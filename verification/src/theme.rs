//! The registry of built-in UI themes: their names, the configured and the active theme, and
//! the `ui:` aliases under which they are offered as syntax themes.
use vstd::prelude::*;
use crate::text::{chars_eq, chars_of, push_char, string_from_chars};

verus! {

/// Number of built-in UI themes.
pub const THEME_COUNT: usize = 37;

/// Index of the default theme, `matrix`, in the theme list.
pub const DEFAULT_THEME_INDEX: usize = 18;

/// The name of the `i`-th built-in theme, in the order in which themes are listed.
pub open spec fn theme_name(i: int) -> Seq<char> {
    if i == 0 {
        "oc-2"@
    } else if i == 1 {
        "amoled"@
    } else if i == 2 {
        "aura"@
    } else if i == 3 {
        "ayu"@
    } else if i == 4 {
        "carbonfox"@
    } else if i == 5 {
        "catppuccin"@
    } else if i == 6 {
        "catppuccin-frappe"@
    } else if i == 7 {
        "catppuccin-macchiato"@
    } else if i == 8 {
        "cobalt2"@
    } else if i == 9 {
        "cursor"@
    } else if i == 10 {
        "dracula"@
    } else if i == 11 {
        "everforest"@
    } else if i == 12 {
        "flexoki"@
    } else if i == 13 {
        "github"@
    } else if i == 14 {
        "gruvbox"@
    } else if i == 15 {
        "kanagawa"@
    } else if i == 16 {
        "lucent-orng"@
    } else if i == 17 {
        "material"@
    } else if i == 18 {
        "matrix"@
    } else if i == 19 {
        "mercury"@
    } else if i == 20 {
        "monokai"@
    } else if i == 21 {
        "nightowl"@
    } else if i == 22 {
        "nord"@
    } else if i == 23 {
        "one-dark"@
    } else if i == 24 {
        "onedarkpro"@
    } else if i == 25 {
        "opencode"@
    } else if i == 26 {
        "orng"@
    } else if i == 27 {
        "osaka-jade"@
    } else if i == 28 {
        "palenight"@
    } else if i == 29 {
        "rosepine"@
    } else if i == 30 {
        "shadesofpurple"@
    } else if i == 31 {
        "solarized"@
    } else if i == 32 {
        "synthwave84"@
    } else if i == 33 {
        "tokyonight"@
    } else if i == 34 {
        "vercel"@
    } else if i == 35 {
        "vesper"@
    } else if i == 36 {
        "zenburn"@
    } else {
        Seq::empty()
    }
}

/// Whether `s` is the name of a built-in theme.
pub open spec fn is_theme(s: Seq<char>) -> bool {
    exists|i: int| 0 <= i < THEME_COUNT && #[trigger] theme_name(i) == s
}

/// The name of the default theme.
pub open spec fn default_theme() -> Seq<char> {
    theme_name(DEFAULT_THEME_INDEX as int)
}

/// The name of the `i`-th built-in theme.
pub fn theme_name_at(i: usize) -> (r: &'static str)
    requires
        i < THEME_COUNT,
    ensures
        r@ == theme_name(i as int),
{
    match i {
        0 => "oc-2",
        1 => "amoled",
        2 => "aura",
        3 => "ayu",
        4 => "carbonfox",
        5 => "catppuccin",
        6 => "catppuccin-frappe",
        7 => "catppuccin-macchiato",
        8 => "cobalt2",
        9 => "cursor",
        10 => "dracula",
        11 => "everforest",
        12 => "flexoki",
        13 => "github",
        14 => "gruvbox",
        15 => "kanagawa",
        16 => "lucent-orng",
        17 => "material",
        18 => "matrix",
        19 => "mercury",
        20 => "monokai",
        21 => "nightowl",
        22 => "nord",
        23 => "one-dark",
        24 => "onedarkpro",
        25 => "opencode",
        26 => "orng",
        27 => "osaka-jade",
        28 => "palenight",
        29 => "rosepine",
        30 => "shadesofpurple",
        31 => "solarized",
        32 => "synthwave84",
        33 => "tokyonight",
        34 => "vercel",
        35 => "vesper",
        36 => "zenburn",
        _ => "zenburn",
    }
}

pub proof fn lemma_default_theme_known()
    ensures
        is_theme(default_theme()),
{
    assert(theme_name(DEFAULT_THEME_INDEX as int) == default_theme());
}

/// The theme name that `name` denotes, if it denotes one.
pub open spec fn normalized_theme(name: Option<Seq<char>>) -> Option<Seq<char>> {
    match name {
        Some(n) => if is_theme(n) {
            Some(n)
        } else {
            None
        },
        None => None,
    }
}

/// The built-in theme whose name is `name`, if there is one.
pub fn normalize_theme_name(name: Option<&str>) -> (r: Option<&'static str>)
    ensures
        match r {
            Some(t) => normalized_theme(opt_view(name)) == Some(t@),
            None => normalized_theme(opt_view(name)) is None,
        },
{
    let n = match name {
        None => return None,
        Some(n) => n,
    };
    assert(opt_view(name) == Some(n@));
    let wanted = chars_of(n);
    let mut i: usize = 0;
    while i < THEME_COUNT
        invariant
            i <= THEME_COUNT,
            wanted@ == n@,
            opt_view(name) == Some(n@),
            forall|k: int| 0 <= k < i ==> theme_name(k) != n@,
        decreases THEME_COUNT - i,
    {
        let candidate = theme_name_at(i);
        let cand = chars_of(candidate);
        if chars_eq(cand.as_slice(), wanted.as_slice()) {
            assert(theme_name(i as int) == n@);
            assert(is_theme(n@));
            assert(normalized_theme(opt_view(name)) == Some(candidate@));
            return Some(candidate);
        }
        i += 1;
    }
    None
}

/// The view of an optional string slice.
pub open spec fn opt_view(o: Option<&str>) -> Option<Seq<char>> {
    match o {
        Some(s) => Some(s@),
        None => None,
    }
}

/// The view of an optional string.
pub open spec fn opt_string_view(o: Option<String>) -> Option<Seq<char>> {
    match o {
        Some(s) => Some(s@),
        None => None,
    }
}

/// Whether `name` is the name of a built-in theme.
pub fn is_known_theme(name: &str) -> (r: bool)
    ensures
        r == is_theme(name@),
{
    normalize_theme_name(Some(name)).is_some()
}

/// The names of all built-in themes, in listing order.
pub fn list_available_themes() -> (r: Vec<String>)
    ensures
        r@.len() == THEME_COUNT,
        forall|i: int| 0 <= i < THEME_COUNT ==> #[trigger] r@[i]@ == theme_name(i),
{
    let mut r: Vec<String> = Vec::new();
    let mut i: usize = 0;
    while i < THEME_COUNT
        invariant
            i <= THEME_COUNT,
            r@.len() == i,
            forall|k: int| 0 <= k < i ==> #[trigger] r@[k]@ == theme_name(k),
        decreases THEME_COUNT - i,
    {
        let name = theme_name_at(i);
        let chars = chars_of(name);
        r.push(string_from_chars(chars.as_slice()));
        i += 1;
    }
    r
}

/// The characters of the `ui:` alias prefix.
pub open spec fn alias_prefix() -> Seq<char> {
    seq!['u', 'i', ':']
}

/// The syntax-theme alias `ui:<name>` of a built-in theme.
pub open spec fn theme_alias(name: Seq<char>) -> Option<Seq<char>> {
    if is_theme(name) {
        Some(alias_prefix() + name)
    } else {
        None
    }
}

/// The built-in theme that a syntax-theme alias `ui:<name>` refers to.
pub open spec fn alias_target(alias: Seq<char>) -> Option<Seq<char>> {
    if alias.len() >= 3 && alias.subrange(0, 3) == alias_prefix() {
        normalized_theme(Some(alias.subrange(3, alias.len() as int)))
    } else {
        None
    }
}

/// The syntax-theme alias `ui:<name>` of the built-in theme `name`, if it is one.
pub fn syntax_theme_alias(name: &str) -> (r: Option<String>)
    ensures
        opt_string_view(r) == theme_alias(name@),
{
    match normalize_theme_name(Some(name)) {
        None => None,
        Some(theme) => {
            let mut alias = String::new();
            push_char(&mut alias, 'u');
            push_char(&mut alias, 'i');
            push_char(&mut alias, ':');
            let chars = chars_of(theme);
            let mut i: usize = 0;
            while i < chars.len()
                invariant
                    i <= chars@.len(),
                    alias@ == alias_prefix() + chars@.subrange(0, i as int),
                decreases chars@.len() - i,
            {
                push_char(&mut alias, chars[i]);
                i += 1;
                assert(alias@ =~= alias_prefix() + chars@.subrange(0, i as int));
            }
            assert(chars@.subrange(0, chars@.len() as int) =~= chars@);
            Some(alias)
        },
    }
}

/// The built-in theme named by a syntax-theme alias `ui:<name>`, if it names one.
pub fn resolve_syntax_theme_alias(name: &str) -> (r: Option<&'static str>)
    ensures
        match r {
            Some(t) => alias_target(name@) == Some(t@),
            None => alias_target(name@) is None,
        },
{
    let chars = chars_of(name);
    if chars.len() < 3 || chars[0] != 'u' || chars[1] != 'i' || chars[2] != ':' {
        proof {
            if chars@.len() >= 3 {
                assert(chars@.subrange(0, 3)[0] == chars@[0]);
                assert(chars@.subrange(0, 3)[1] == chars@[1]);
                assert(chars@.subrange(0, 3)[2] == chars@[2]);
            }
        }
        return None;
    }
    assert(chars@.subrange(0, 3) =~= alias_prefix());
    let rest = name.substring_char(3, chars.len());
    normalize_theme_name(Some(rest))
}

/// The warning shown when a configured theme name is not a built-in theme.
pub open spec fn unknown_theme_warning(name: Seq<char>) -> Seq<char> {
    "UI theme \""@ + name + "\" not found. Using the default UI theme \"matrix\"."@
}

/// `None` when `name` is absent or a built-in theme; otherwise the warning that the default
/// theme is used instead.
pub fn validate_theme_name(name: Option<&str>) -> (r: Option<String>)
    ensures
        match name {
            None => r is None,
            Some(n) => if is_theme(n@) {
                r is None
            } else {
                r matches Some(w) && w@ == unknown_theme_warning(n@)
            },
        },
{
    let n = match name {
        None => return None,
        Some(n) => n,
    };
    if normalize_theme_name(Some(n)).is_some() {
        return None;
    }
    let mut w = String::from_str("UI theme \"");
    w.append(n);
    w.append("\" not found. Using the default UI theme \"matrix\".");
    Some(w)
}

/// Key of the bundled theme asset that backs `name`: the name itself for a built-in theme,
/// the default theme otherwise.
pub fn theme_source(name: &str) -> (r: &'static str)
    ensures
        r@ == if is_theme(name@) {
            name@
        } else {
            default_theme()
        },
{
    match normalize_theme_name(Some(name)) {
        Some(t) => t,
        None => theme_name_at(DEFAULT_THEME_INDEX),
    }
}


/// What the theme registry holds: the configured theme (as stored) and the active theme,
/// which is unset until it is first read.
pub ghost struct ThemeChoice {
    pub configured: Option<Seq<char>>,
    pub current: Option<Seq<char>>,
}

/// The configured theme, or the default theme when none (or an unknown one) is configured.
pub open spec fn configured_name(v: ThemeChoice) -> Seq<char> {
    match v.configured {
        Some(c) => if is_theme(c) {
            c
        } else {
            default_theme()
        },
        None => default_theme(),
    }
}

/// The active theme: the one set at runtime, or else the configured theme.
pub open spec fn current_name(v: ThemeChoice) -> Seq<char> {
    match v.current {
        Some(c) => c,
        None => configured_name(v),
    }
}

/// The registry once the active theme has been read: the active theme is fixed.
pub open spec fn current_fixed(v: ThemeChoice) -> ThemeChoice {
    ThemeChoice { configured: v.configured, current: Some(current_name(v)) }
}

/// The registry after the configured theme is set to `name` (normalized; an unknown name is
/// stored as none).
pub open spec fn configured_set(v: ThemeChoice, name: Option<Seq<char>>) -> ThemeChoice {
    ThemeChoice { configured: normalized_theme(name), current: v.current }
}

/// The registry after `name` is made the active theme: unchanged when it is not a built-in
/// theme.
pub open spec fn runtime_set(v: ThemeChoice, name: Seq<char>) -> ThemeChoice {
    if is_theme(name) {
        ThemeChoice { configured: v.configured, current: Some(name) }
    } else {
        v
    }
}

/// The registry after the configured theme is made the active theme again.
pub open spec fn restored(v: ThemeChoice) -> ThemeChoice {
    ThemeChoice { configured: v.configured, current: Some(configured_name(v)) }
}

/// The registry after a theme override with `name`: it is configured and active (the default
/// theme is active when `name` is absent or unknown).
pub open spec fn overridden(name: Option<Seq<char>>) -> ThemeChoice {
    ThemeChoice {
        configured: normalized_theme(name),
        current: Some(
            match normalized_theme(name) {
                Some(t) => t,
                None => default_theme(),
            },
        ),
    }
}

/// The theme registry: the theme named in the configuration and the theme in use.
pub struct UiThemeState {
    configured: Option<String>,
    current: Option<String>,
}

impl View for UiThemeState {
    type V = ThemeChoice;

    closed spec fn view(&self) -> ThemeChoice {
        ThemeChoice {
            configured: opt_string_view(self.configured),
            current: opt_string_view(self.current),
        }
    }
}

impl UiThemeState {
    /// Only built-in themes are ever stored.
    #[verifier::type_invariant]
    spec fn stores_known_themes(self) -> bool {
        &&& (self.configured matches Some(c) ==> is_theme(c@))
        &&& (self.current matches Some(c) ==> is_theme(c@))
    }

    /// A registry with no configured theme whose active theme is not chosen yet.
    pub fn new() -> (r: Self)
        ensures
            r@ == (ThemeChoice { configured: None, current: None }),
    {
        UiThemeState { configured: None, current: None }
    }
}

/// A copy of a string.
fn copy_string(s: &String) -> (r: String)
    ensures
        r@ == s@,
{
    let chars = chars_of(s.as_str());
    string_from_chars(chars.as_slice())
}

/// An owned copy of a string slice.
fn owned(s: &str) -> (r: String)
    ensures
        r@ == s@,
{
    let chars = chars_of(s);
    string_from_chars(chars.as_slice())
}

/// Whether two optional strings are equal.
fn opt_string_eq(a: &Option<String>, b: &Option<String>) -> (r: bool)
    ensures
        r == (opt_string_view(*a) == opt_string_view(*b)),
{
    match (a, b) {
        (None, None) => true,
        (Some(x), Some(y)) => {
            let xs = chars_of(x.as_str());
            let ys = chars_of(y.as_str());
            chars_eq(xs.as_slice(), ys.as_slice())
        },
        _ => false,
    }
}

/// The stored configured theme, as the configuration named it (after normalization).
pub fn configured_theme_lock(state: &UiThemeState) -> (r: &Option<String>)
    ensures
        opt_string_view(*r) == state@.configured,
{
    &state.configured
}

/// Makes sure an active theme is chosen (the configured theme when none was set yet) and
/// returns it.
pub fn current_theme_lock(state: &mut UiThemeState) -> (r: String)
    ensures
        r@ == current_name(old(state)@),
        final(state)@ == current_fixed(old(state)@),
        is_theme(r@),
{
    proof {
        use_type_invariant(&*state);
        lemma_default_theme_known();
    }
    match &state.current {
        Some(c) => copy_string(c),
        None => {
            let name = configured_theme_name(state);
            state.current = Some(copy_string(&name));
            name
        },
    }
}

/// The configured theme, or the default theme when none is configured.
pub fn configured_theme_name(state: &UiThemeState) -> (r: String)
    ensures
        r@ == configured_name(state@),
        is_theme(r@),
{
    proof {
        use_type_invariant(state);
        lemma_default_theme_known();
    }
    match &state.configured {
        Some(c) => copy_string(c),
        None => owned(theme_name_at(DEFAULT_THEME_INDEX)),
    }
}

/// The active theme; reading it fixes the configured theme as active when none was set.
pub fn current_theme_name(state: &mut UiThemeState) -> (r: String)
    ensures
        r@ == current_name(old(state)@),
        final(state)@ == current_fixed(old(state)@),
        is_theme(r@),
{
    current_theme_lock(state)
}

/// Stores the configured theme (normalized; unknown names are stored as none) and tells
/// whether the stored value changed.
pub fn set_configured_theme_name(state: &mut UiThemeState, name: Option<&str>) -> (changed: bool)
    ensures
        final(state)@ == configured_set(old(state)@, opt_view(name)),
        changed == (old(state)@.configured != normalized_theme(opt_view(name))),
{
    proof {
        use_type_invariant(&*state);
    }
    let normalized = match normalize_theme_name(name) {
        Some(t) => Some(owned(t)),
        None => None,
    };
    let changed = !opt_string_eq(&state.configured, &normalized);
    state.configured = normalized;
    changed
}

/// Makes `name` the active theme when it is a built-in theme; tells whether it was.
pub fn set_runtime_theme_name(state: &mut UiThemeState, name: &str) -> (r: bool)
    ensures
        r == is_theme(name@),
        final(state)@ == runtime_set(old(state)@, name@),
{
    proof {
        use_type_invariant(&*state);
    }
    match normalize_theme_name(Some(name)) {
        None => false,
        Some(t) => {
            state.current = Some(owned(t));
            true
        },
    }
}

/// Makes the configured theme the active theme again.
pub fn restore_runtime_theme_from_config(state: &mut UiThemeState)
    ensures
        final(state)@ == restored(old(state)@),
{
    let configured = configured_theme_name(state);
    let _ = set_runtime_theme_name(state, configured.as_str());
}

/// Configures the theme `name` and makes it active (the default theme when `name` is absent
/// or unknown); returns the warning for an unknown name.
pub fn set_theme_override(state: &mut UiThemeState, name: Option<String>) -> (warning: Option<
    String,
>)
    ensures
        final(state)@ == overridden(opt_string_view(name)),
        match name {
            None => warning is None,
            Some(n) => if is_theme(n@) {
                warning is None
            } else {
                warning matches Some(w) && w@ == unknown_theme_warning(n@)
            },
        },
{
    let name_ref: Option<&str> = match &name {
        Some(n) => Some(n.as_str()),
        None => None,
    };
    assert(opt_view(name_ref) == opt_string_view(name));
    let warning = validate_theme_name(name_ref);
    let resolved = match normalize_theme_name(name_ref) {
        Some(t) => t,
        None => theme_name_at(DEFAULT_THEME_INDEX),
    };
    proof {
        lemma_default_theme_known();
    }
    set_configured_theme_name(state, name_ref);
    set_runtime_theme_name(state, resolved);
    warning
}

/// The name of every built-in theme, in the order in which they are listed.
pub open spec fn theme_list() -> Seq<Seq<char>> {
    Seq::new(THEME_COUNT as nat, |i: int| theme_name(i))
}

/// A name is known exactly when it is among the listed themes.
pub proof fn listed_themes_are_the_known_themes(name: Seq<char>)
    ensures
        is_theme(name) <==> theme_list().contains(name),
{
    if is_theme(name) {
        let i = choose|i: int| 0 <= i < THEME_COUNT && #[trigger] theme_name(i) == name;
        assert(theme_list()[i] == name);
    }
    if theme_list().contains(name) {
        let i = choose|i: int| 0 <= i < theme_list().len() && theme_list()[i] == name;
        assert(theme_name(i) == name);
    }
}

/// The `ui:` alias of a built-in theme resolves back to that theme, and only built-in
/// themes have an alias.
pub proof fn syntax_alias_round_trip(name: Seq<char>)
    ensures
        theme_alias(name) matches Some(alias) ==> alias_target(alias) == Some(name),
        theme_alias(name) is Some <==> is_theme(name),
{
    if is_theme(name) {
        let alias = alias_prefix() + name;
        assert(alias.subrange(0, 3) =~= alias_prefix());
        assert(alias.subrange(3, alias.len() as int) =~= name);
    }
}

/// Reading the active theme gives back the theme last made active at runtime, and leaves
/// the configured theme alone.
pub proof fn runtime_theme_reads_back(v: ThemeChoice, name: Seq<char>)
    requires
        is_theme(name),
    ensures
        current_name(runtime_set(v, name)) == name,
        configured_name(runtime_set(v, name)) == configured_name(v),
{
}

/// Reading the configured theme gives back the name last configured when it is a built-in
/// theme, and the default theme otherwise.
pub proof fn configured_theme_reads_back(v: ThemeChoice, name: Option<Seq<char>>)
    ensures
        configured_name(configured_set(v, name)) == match name {
            Some(n) => if is_theme(n) {
                n
            } else {
                default_theme()
            },
            None => default_theme(),
        },
{
}

/// Restoring the active theme from the configuration undoes any runtime change.
pub proof fn restore_undoes_runtime_change(v: ThemeChoice, name: Seq<char>)
    ensures
        restored(runtime_set(v, name)) == restored(v),
        current_name(restored(v)) == configured_name(v),
{
}

/// After a theme override the configured and the active theme agree: the overriding theme
/// when it is built in, the default theme otherwise.
pub proof fn override_sets_both_themes(name: Option<Seq<char>>)
    ensures
        current_name(overridden(name)) == configured_name(overridden(name)),
        current_name(overridden(name)) == match normalized_theme(name) {
            Some(t) => t,
            None => default_theme(),
        },
{
    lemma_default_theme_known();
}

/// The active theme does not change by being read.
pub proof fn reading_current_theme_is_stable(v: ThemeChoice)
    ensures
        current_name(current_fixed(v)) == current_name(v),
        current_fixed(current_fixed(v)) == current_fixed(v),
{
}

} // verus!
