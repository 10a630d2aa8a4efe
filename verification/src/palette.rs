//! How a theme variant's seed colours and explicit entries resolve into the roles of the UI
//! palette: for each role, which written colour, built-in colour, other role or blend of
//! two roles it takes. Blending and contrast are computed by the caller.
use vstd::prelude::*;
use crate::colors::{
    hex_body, hex_fields_cut_char, hex_text_splits_cleanly, opt_splits_cleanly, override_color,
    override_readable, parsed_hex, parsed_opt, seed_is_readable, HexColor, UiThemeVariant,
};

verus! {

/// Where the colour of a palette role (of type `R`) comes from.
#[derive(PartialEq, Eq, Structural, Clone, Copy, Debug)]
pub enum ColorSource<R> {
    /// A colour the theme writes; a translucent one is blended over the colour of the given
    /// role (over black when there is none).
    Written(HexColor, Option<R>),
    /// A built-in colour.
    Fixed(u8, u8, u8),
    /// The colour of another role.
    SameAs(R),
    /// The colour of the first role blended towards that of the second, by the given alpha
    /// in thousandths.
    Mix(R, R, u16),
    /// The first role's colour when its contrast against the second role's colour reaches
    /// the given ratio (in hundredths); else the third role's colour when that one does;
    /// else the better of white and near-black on the second role's colour.
    Readable(R, R, R, u16),
    /// The first role's colour when it stands out from the second role's colour and the
    /// third role's colour reads on it; else a softened blend of it over the second.
    DistinctSurface(R, R, R),
}

/// The written colour `c` (blended over `backdrop`) when there is one, else `fallback`.
#[verifier::opaque]
pub open spec fn written_or<R>(
    c: Option<HexColor>,
    backdrop: Option<R>,
    fallback: ColorSource<R>,
) -> ColorSource<R> {
    match c {
        Some(h) => ColorSource::Written(h, backdrop),
        None => fallback,
    }
}

/// A role of the UI palette. Roles are listed in an order in which each role's fallback
/// refers only to roles before it.
#[derive(PartialEq, Eq, Structural, Clone, Copy, Debug)]
pub enum PaletteRole {
    Background,
    Primary,
    Accent,
    Success,
    Warning,
    Error,
    Info,
    Secondary,
    Text,
    TextMuted,
    SyntaxComment,
    SyntaxKeyword,
    SyntaxFunction,
    SyntaxString,
    SyntaxNumber,
    SyntaxPrimitive,
    SyntaxVariable,
    SyntaxProperty,
    SyntaxType,
    SyntaxConstant,
    SyntaxOperator,
    SyntaxPunctuation,
    SyntaxObject,
    CodeBlockText,
    BackgroundSecondary,
    BackgroundDeeper,
    CodeBlockBackground,
    MarkdownCode,
    InlineCodeBackground,
    Border,
    UserMessageBackground,
    ProposedPlanBackground,
    DiffAdd,
    DiffDelete,
    CommentaryText,
    MarkdownText,
    TextEmphasis,
    MarkdownHeading,
    MarkdownLink,
    MarkdownLinkText,
    MarkdownBlockquote,
    MarkdownEmphasis,
    MarkdownStrong,
    MarkdownHorizontalRule,
    MarkdownListItem,
    MarkdownListEnumeration,
}

/// Where the colour of each role of the UI palette comes from.
#[derive(PartialEq, Eq, Structural, Clone, Copy, Debug)]
pub struct UiPaletteSources {
    pub background: ColorSource<PaletteRole>,
    pub primary: ColorSource<PaletteRole>,
    pub accent: ColorSource<PaletteRole>,
    pub success: ColorSource<PaletteRole>,
    pub warning: ColorSource<PaletteRole>,
    pub error: ColorSource<PaletteRole>,
    pub info: ColorSource<PaletteRole>,
    pub secondary: ColorSource<PaletteRole>,
    pub text: ColorSource<PaletteRole>,
    pub text_muted: ColorSource<PaletteRole>,
    pub syntax_comment: ColorSource<PaletteRole>,
    pub syntax_keyword: ColorSource<PaletteRole>,
    pub syntax_function: ColorSource<PaletteRole>,
    pub syntax_string: ColorSource<PaletteRole>,
    pub syntax_number: ColorSource<PaletteRole>,
    pub syntax_primitive: ColorSource<PaletteRole>,
    pub syntax_variable: ColorSource<PaletteRole>,
    pub syntax_property: ColorSource<PaletteRole>,
    pub syntax_type: ColorSource<PaletteRole>,
    pub syntax_constant: ColorSource<PaletteRole>,
    pub syntax_operator: ColorSource<PaletteRole>,
    pub syntax_punctuation: ColorSource<PaletteRole>,
    pub syntax_object: ColorSource<PaletteRole>,
    pub code_block_text: ColorSource<PaletteRole>,
    pub background_secondary: ColorSource<PaletteRole>,
    pub background_deeper: ColorSource<PaletteRole>,
    pub code_block_background: ColorSource<PaletteRole>,
    pub markdown_code: ColorSource<PaletteRole>,
    pub inline_code_background: ColorSource<PaletteRole>,
    pub border: ColorSource<PaletteRole>,
    pub user_message_background: ColorSource<PaletteRole>,
    pub proposed_plan_background: ColorSource<PaletteRole>,
    pub diff_add: ColorSource<PaletteRole>,
    pub diff_delete: ColorSource<PaletteRole>,
    pub commentary_text: ColorSource<PaletteRole>,
    pub markdown_text: ColorSource<PaletteRole>,
    pub text_emphasis: ColorSource<PaletteRole>,
    pub markdown_heading: ColorSource<PaletteRole>,
    pub markdown_link: ColorSource<PaletteRole>,
    pub markdown_link_text: ColorSource<PaletteRole>,
    pub markdown_blockquote: ColorSource<PaletteRole>,
    pub markdown_emphasis: ColorSource<PaletteRole>,
    pub markdown_strong: ColorSource<PaletteRole>,
    pub markdown_horizontal_rule: ColorSource<PaletteRole>,
    pub markdown_list_item: ColorSource<PaletteRole>,
    pub markdown_list_enumeration: ColorSource<PaletteRole>,
}

/// The position of a role in the resolution order.
pub open spec fn role_rank(r: PaletteRole) -> nat {
    match r {
        PaletteRole::Background => 0,
        PaletteRole::Primary => 1,
        PaletteRole::Accent => 2,
        PaletteRole::Success => 3,
        PaletteRole::Warning => 4,
        PaletteRole::Error => 5,
        PaletteRole::Info => 6,
        PaletteRole::Secondary => 7,
        PaletteRole::Text => 8,
        PaletteRole::TextMuted => 9,
        PaletteRole::SyntaxComment => 10,
        PaletteRole::SyntaxKeyword => 11,
        PaletteRole::SyntaxFunction => 12,
        PaletteRole::SyntaxString => 13,
        PaletteRole::SyntaxNumber => 14,
        PaletteRole::SyntaxPrimitive => 15,
        PaletteRole::SyntaxVariable => 16,
        PaletteRole::SyntaxProperty => 17,
        PaletteRole::SyntaxType => 18,
        PaletteRole::SyntaxConstant => 19,
        PaletteRole::SyntaxOperator => 20,
        PaletteRole::SyntaxPunctuation => 21,
        PaletteRole::SyntaxObject => 22,
        PaletteRole::CodeBlockText => 23,
        PaletteRole::BackgroundSecondary => 24,
        PaletteRole::BackgroundDeeper => 25,
        PaletteRole::CodeBlockBackground => 26,
        PaletteRole::MarkdownCode => 27,
        PaletteRole::InlineCodeBackground => 28,
        PaletteRole::Border => 29,
        PaletteRole::UserMessageBackground => 30,
        PaletteRole::ProposedPlanBackground => 31,
        PaletteRole::DiffAdd => 32,
        PaletteRole::DiffDelete => 33,
        PaletteRole::CommentaryText => 34,
        PaletteRole::MarkdownText => 35,
        PaletteRole::TextEmphasis => 36,
        PaletteRole::MarkdownHeading => 37,
        PaletteRole::MarkdownLink => 38,
        PaletteRole::MarkdownLinkText => 39,
        PaletteRole::MarkdownBlockquote => 40,
        PaletteRole::MarkdownEmphasis => 41,
        PaletteRole::MarkdownStrong => 42,
        PaletteRole::MarkdownHorizontalRule => 43,
        PaletteRole::MarkdownListItem => 44,
        PaletteRole::MarkdownListEnumeration => 45,
    }
}

/// The source of role `r` in `p`.
pub open spec fn source_of(p: UiPaletteSources, r: PaletteRole) -> ColorSource<PaletteRole> {
    match r {
        PaletteRole::Background => p.background,
        PaletteRole::Primary => p.primary,
        PaletteRole::Accent => p.accent,
        PaletteRole::Success => p.success,
        PaletteRole::Warning => p.warning,
        PaletteRole::Error => p.error,
        PaletteRole::Info => p.info,
        PaletteRole::Secondary => p.secondary,
        PaletteRole::Text => p.text,
        PaletteRole::TextMuted => p.text_muted,
        PaletteRole::SyntaxComment => p.syntax_comment,
        PaletteRole::SyntaxKeyword => p.syntax_keyword,
        PaletteRole::SyntaxFunction => p.syntax_function,
        PaletteRole::SyntaxString => p.syntax_string,
        PaletteRole::SyntaxNumber => p.syntax_number,
        PaletteRole::SyntaxPrimitive => p.syntax_primitive,
        PaletteRole::SyntaxVariable => p.syntax_variable,
        PaletteRole::SyntaxProperty => p.syntax_property,
        PaletteRole::SyntaxType => p.syntax_type,
        PaletteRole::SyntaxConstant => p.syntax_constant,
        PaletteRole::SyntaxOperator => p.syntax_operator,
        PaletteRole::SyntaxPunctuation => p.syntax_punctuation,
        PaletteRole::SyntaxObject => p.syntax_object,
        PaletteRole::CodeBlockText => p.code_block_text,
        PaletteRole::BackgroundSecondary => p.background_secondary,
        PaletteRole::BackgroundDeeper => p.background_deeper,
        PaletteRole::CodeBlockBackground => p.code_block_background,
        PaletteRole::MarkdownCode => p.markdown_code,
        PaletteRole::InlineCodeBackground => p.inline_code_background,
        PaletteRole::Border => p.border,
        PaletteRole::UserMessageBackground => p.user_message_background,
        PaletteRole::ProposedPlanBackground => p.proposed_plan_background,
        PaletteRole::DiffAdd => p.diff_add,
        PaletteRole::DiffDelete => p.diff_delete,
        PaletteRole::CommentaryText => p.commentary_text,
        PaletteRole::MarkdownText => p.markdown_text,
        PaletteRole::TextEmphasis => p.text_emphasis,
        PaletteRole::MarkdownHeading => p.markdown_heading,
        PaletteRole::MarkdownLink => p.markdown_link,
        PaletteRole::MarkdownLinkText => p.markdown_link_text,
        PaletteRole::MarkdownBlockquote => p.markdown_blockquote,
        PaletteRole::MarkdownEmphasis => p.markdown_emphasis,
        PaletteRole::MarkdownStrong => p.markdown_strong,
        PaletteRole::MarkdownHorizontalRule => p.markdown_horizontal_rule,
        PaletteRole::MarkdownListItem => p.markdown_list_item,
        PaletteRole::MarkdownListEnumeration => p.markdown_list_enumeration,
    }
}

/// The sources that variant `v` gives the roles of the UI palette (`dark` for the dark
/// variant): for each role, the first colour the variant writes among the role's candidates,
/// else the role's fallback.
pub open spec fn palette_plan(v: UiThemeVariant, dark: bool) -> UiPaletteSources {
    UiPaletteSources {
        background: written_or(override_color(v, "background-base"@), None, written_or(parsed_hex(v.palette.neutral@), None, ColorSource::Fixed(10, 14, 10))),
        primary: written_or(parsed_hex(v.palette.primary@), Some(PaletteRole::Background), ColorSource::Fixed(46, 255, 106)),
        accent: written_or(parsed_opt(v.palette.accent), Some(PaletteRole::Background), ColorSource::Fixed(199, 112, 255)),
        success: written_or(parsed_hex(v.palette.success@), Some(PaletteRole::Background), ColorSource::Fixed(98, 255, 148)),
        warning: written_or(parsed_hex(v.palette.warning@), Some(PaletteRole::Background), ColorSource::Fixed(230, 255, 87)),
        error: written_or(parsed_hex(v.palette.error@), Some(PaletteRole::Background), ColorSource::Fixed(255, 75, 75)),
        info: written_or(parsed_hex(v.palette.info@), Some(PaletteRole::Background), ColorSource::Fixed(48, 179, 255)),
        secondary: written_or(parsed_opt(v.palette.interactive), Some(PaletteRole::Background), ColorSource::SameAs(PaletteRole::Info)),
        text: written_or(override_color(v, "markdown-text"@), Some(PaletteRole::Background), written_or(override_color(v, "text-base"@), Some(PaletteRole::Background), written_or(parsed_opt(v.palette.ink), Some(PaletteRole::Background), ColorSource::SameAs(PaletteRole::Primary)))),
        text_muted: written_or(override_color(v, "text-weak"@), Some(PaletteRole::Background), ColorSource::Mix(PaletteRole::Background, PaletteRole::Text, if dark { 480 } else { 560 })),
        syntax_comment: written_or(override_color(v, "syntax-comment"@), Some(PaletteRole::Background), ColorSource::SameAs(PaletteRole::TextMuted)),
        syntax_keyword: written_or(override_color(v, "syntax-keyword"@), Some(PaletteRole::Background), ColorSource::SameAs(PaletteRole::Accent)),
        syntax_function: written_or(override_color(v, "syntax-function"@), Some(PaletteRole::Background), ColorSource::SameAs(PaletteRole::Warning)),
        syntax_string: written_or(override_color(v, "syntax-string"@), Some(PaletteRole::Background), ColorSource::SameAs(PaletteRole::Primary)),
        syntax_number: written_or(override_color(v, "syntax-number"@), Some(PaletteRole::Background), ColorSource::SameAs(PaletteRole::Error)),
        syntax_primitive: written_or(override_color(v, "syntax-primitive"@), Some(PaletteRole::Background), ColorSource::SameAs(PaletteRole::SyntaxFunction)),
        syntax_variable: written_or(override_color(v, "syntax-variable"@), Some(PaletteRole::Background), ColorSource::SameAs(PaletteRole::Text)),
        syntax_property: written_or(override_color(v, "syntax-property"@), Some(PaletteRole::Background), ColorSource::SameAs(PaletteRole::Secondary)),
        syntax_type: written_or(override_color(v, "syntax-type"@), Some(PaletteRole::Background), ColorSource::SameAs(PaletteRole::Warning)),
        syntax_constant: written_or(override_color(v, "syntax-constant"@), Some(PaletteRole::Background), ColorSource::SameAs(PaletteRole::Warning)),
        syntax_operator: written_or(override_color(v, "syntax-operator"@), Some(PaletteRole::Background), ColorSource::SameAs(PaletteRole::Secondary)),
        syntax_punctuation: written_or(override_color(v, "syntax-punctuation"@), Some(PaletteRole::Background), ColorSource::SameAs(PaletteRole::Text)),
        syntax_object: written_or(override_color(v, "syntax-object"@), Some(PaletteRole::Background), ColorSource::SameAs(PaletteRole::Text)),
        code_block_text: written_or(override_color(v, "markdown-code-block"@), Some(PaletteRole::Background), ColorSource::SameAs(PaletteRole::Text)),
        background_secondary: written_or(override_color(v, "background-panel"@), Some(PaletteRole::Background), ColorSource::Mix(PaletteRole::Background, PaletteRole::Text, if dark { 80 } else { 50 })),
        background_deeper: written_or(override_color(v, "background-element"@), Some(PaletteRole::Background), ColorSource::Mix(PaletteRole::Background, PaletteRole::Text, if dark { 140 } else { 90 })),
        code_block_background: ColorSource::SameAs(PaletteRole::BackgroundSecondary),
        markdown_code: written_or(override_color(v, "markdown-code"@), Some(PaletteRole::Background), ColorSource::SameAs(PaletteRole::Primary)),
        inline_code_background: ColorSource::Mix(PaletteRole::Background, PaletteRole::MarkdownCode, if dark { 100 } else { 60 }),
        border: written_or(override_color(v, "border"@), Some(PaletteRole::Background), ColorSource::Mix(PaletteRole::Background, PaletteRole::Text, if dark { 180 } else { 200 })),
        user_message_background: ColorSource::Mix(PaletteRole::BackgroundSecondary, PaletteRole::Secondary, if dark { 100 } else { 50 }),
        proposed_plan_background: ColorSource::Mix(PaletteRole::BackgroundDeeper, PaletteRole::Accent, if dark { 100 } else { 60 }),
        diff_add: written_or(override_color(v, "diff-added-bg"@), Some(PaletteRole::CodeBlockBackground), written_or(parsed_opt(v.palette.diff_add), Some(PaletteRole::Background), ColorSource::SameAs(PaletteRole::Success))),
        diff_delete: written_or(override_color(v, "diff-removed-bg"@), Some(PaletteRole::CodeBlockBackground), written_or(parsed_opt(v.palette.diff_delete), Some(PaletteRole::Background), ColorSource::SameAs(PaletteRole::Error))),
        commentary_text: ColorSource::SameAs(PaletteRole::TextMuted),
        markdown_text: written_or(override_color(v, "markdown-text"@), Some(PaletteRole::Background), ColorSource::SameAs(PaletteRole::Text)),
        text_emphasis: written_or(override_color(v, "markdown-strong"@), Some(PaletteRole::Background), ColorSource::SameAs(PaletteRole::Warning)),
        markdown_heading: written_or(override_color(v, "markdown-heading"@), Some(PaletteRole::Background), ColorSource::SameAs(PaletteRole::Secondary)),
        markdown_link: written_or(override_color(v, "markdown-link"@), Some(PaletteRole::Background), ColorSource::SameAs(PaletteRole::Info)),
        markdown_link_text: written_or(override_color(v, "markdown-link-text"@), Some(PaletteRole::Background), ColorSource::SameAs(PaletteRole::Secondary)),
        markdown_blockquote: written_or(override_color(v, "markdown-block-quote"@), Some(PaletteRole::Background), ColorSource::SameAs(PaletteRole::TextMuted)),
        markdown_emphasis: written_or(override_color(v, "markdown-emph"@), Some(PaletteRole::Background), ColorSource::SameAs(PaletteRole::Accent)),
        markdown_strong: written_or(override_color(v, "markdown-strong"@), Some(PaletteRole::Background), ColorSource::SameAs(PaletteRole::Warning)),
        markdown_horizontal_rule: written_or(override_color(v, "markdown-horizontal-rule"@), Some(PaletteRole::Background), ColorSource::SameAs(PaletteRole::TextMuted)),
        markdown_list_item: written_or(override_color(v, "markdown-list-item"@), Some(PaletteRole::Background), ColorSource::SameAs(PaletteRole::Info)),
        markdown_list_enumeration: written_or(override_color(v, "markdown-list-enumeration"@), Some(PaletteRole::Background), ColorSource::SameAs(PaletteRole::Secondary)),
    }
}

/// Whether every colour text that resolving the palette of `v` reads can be read without
/// cutting a character (texts are read lazily: a later candidate only when the ones before
/// it name no colour).
pub open spec fn palette_inputs_readable(v: UiThemeVariant) -> bool {
    &&& (override_readable(v, "background-base"@) && (override_color(v, "background-base"@) is None ==> !hex_fields_cut_char(hex_body(v.palette.neutral@))))
    &&& !hex_fields_cut_char(hex_body(v.palette.primary@))
    &&& opt_splits_cleanly(v.palette.accent)
    &&& !hex_fields_cut_char(hex_body(v.palette.success@))
    &&& !hex_fields_cut_char(hex_body(v.palette.warning@))
    &&& !hex_fields_cut_char(hex_body(v.palette.error@))
    &&& !hex_fields_cut_char(hex_body(v.palette.info@))
    &&& opt_splits_cleanly(v.palette.interactive)
    &&& (override_readable(v, "markdown-text"@) && (override_color(v, "markdown-text"@) is None ==> (override_readable(v, "text-base"@) && (override_color(v, "text-base"@) is None ==> opt_splits_cleanly(v.palette.ink)))))
    &&& override_readable(v, "text-weak"@)
    &&& override_readable(v, "syntax-comment"@)
    &&& override_readable(v, "syntax-keyword"@)
    &&& override_readable(v, "syntax-function"@)
    &&& override_readable(v, "syntax-string"@)
    &&& override_readable(v, "syntax-number"@)
    &&& override_readable(v, "syntax-primitive"@)
    &&& override_readable(v, "syntax-variable"@)
    &&& override_readable(v, "syntax-property"@)
    &&& override_readable(v, "syntax-type"@)
    &&& override_readable(v, "syntax-constant"@)
    &&& override_readable(v, "syntax-operator"@)
    &&& override_readable(v, "syntax-punctuation"@)
    &&& override_readable(v, "syntax-object"@)
    &&& override_readable(v, "markdown-code-block"@)
    &&& override_readable(v, "background-panel"@)
    &&& override_readable(v, "background-element"@)
    &&& override_readable(v, "markdown-code"@)
    &&& override_readable(v, "border"@)
    &&& (override_readable(v, "diff-added-bg"@) && (override_color(v, "diff-added-bg"@) is None ==> opt_splits_cleanly(v.palette.diff_add)))
    &&& (override_readable(v, "diff-removed-bg"@) && (override_color(v, "diff-removed-bg"@) is None ==> opt_splits_cleanly(v.palette.diff_delete)))
    &&& override_readable(v, "markdown-text"@)
    &&& override_readable(v, "markdown-strong"@)
    &&& override_readable(v, "markdown-heading"@)
    &&& override_readable(v, "markdown-link"@)
    &&& override_readable(v, "markdown-link-text"@)
    &&& override_readable(v, "markdown-block-quote"@)
    &&& override_readable(v, "markdown-emph"@)
    &&& override_readable(v, "markdown-horizontal-rule"@)
    &&& override_readable(v, "markdown-list-item"@)
    &&& override_readable(v, "markdown-list-enumeration"@)
}

/// The sources of the UI palette of a theme variant (see [`palette_plan`]).
pub fn palette_sources(variant: &UiThemeVariant, dark: bool) -> (r: UiPaletteSources)
    requires
        palette_inputs_readable(*variant),
    ensures
        r == palette_plan(*variant, dark),
{
    proof {
        reveal(written_or);
    }
    let background = {
        match variant.override_rgb("background-base") {
            Some(h) => ColorSource::Written(h, None),
            None => {
            match variant.palette.neutral_rgb() {
                Some(h) => ColorSource::Written(h, None),
                None => {
                ColorSource::Fixed(10, 14, 10)
                },
            }
            },
        }
    };
    let primary = {
        match variant.palette.primary_rgb() {
            Some(h) => ColorSource::Written(h, Some(PaletteRole::Background)),
            None => {
            ColorSource::Fixed(46, 255, 106)
            },
        }
    };
    let accent = {
        match variant.palette.accent_rgb() {
            Some(h) => ColorSource::Written(h, Some(PaletteRole::Background)),
            None => {
            ColorSource::Fixed(199, 112, 255)
            },
        }
    };
    let success = {
        match variant.palette.success_rgb() {
            Some(h) => ColorSource::Written(h, Some(PaletteRole::Background)),
            None => {
            ColorSource::Fixed(98, 255, 148)
            },
        }
    };
    let warning = {
        match variant.palette.warning_rgb() {
            Some(h) => ColorSource::Written(h, Some(PaletteRole::Background)),
            None => {
            ColorSource::Fixed(230, 255, 87)
            },
        }
    };
    let error = {
        match variant.palette.error_rgb() {
            Some(h) => ColorSource::Written(h, Some(PaletteRole::Background)),
            None => {
            ColorSource::Fixed(255, 75, 75)
            },
        }
    };
    let info = {
        match variant.palette.info_rgb() {
            Some(h) => ColorSource::Written(h, Some(PaletteRole::Background)),
            None => {
            ColorSource::Fixed(48, 179, 255)
            },
        }
    };
    let secondary = {
        match variant.palette.interactive_rgb() {
            Some(h) => ColorSource::Written(h, Some(PaletteRole::Background)),
            None => {
            ColorSource::SameAs(PaletteRole::Info)
            },
        }
    };
    let text = {
        match variant.override_rgb("markdown-text") {
            Some(h) => ColorSource::Written(h, Some(PaletteRole::Background)),
            None => {
            match variant.override_rgb("text-base") {
                Some(h) => ColorSource::Written(h, Some(PaletteRole::Background)),
                None => {
                match variant.palette.ink_rgb() {
                    Some(h) => ColorSource::Written(h, Some(PaletteRole::Background)),
                    None => {
                    ColorSource::SameAs(PaletteRole::Primary)
                    },
                }
                },
            }
            },
        }
    };
    let text_muted = {
        match variant.override_rgb("text-weak") {
            Some(h) => ColorSource::Written(h, Some(PaletteRole::Background)),
            None => {
            ColorSource::Mix(PaletteRole::Background, PaletteRole::Text, if dark { 480 } else { 560 })
            },
        }
    };
    let syntax_comment = {
        match variant.override_rgb("syntax-comment") {
            Some(h) => ColorSource::Written(h, Some(PaletteRole::Background)),
            None => {
            ColorSource::SameAs(PaletteRole::TextMuted)
            },
        }
    };
    let syntax_keyword = {
        match variant.override_rgb("syntax-keyword") {
            Some(h) => ColorSource::Written(h, Some(PaletteRole::Background)),
            None => {
            ColorSource::SameAs(PaletteRole::Accent)
            },
        }
    };
    let syntax_function = {
        match variant.override_rgb("syntax-function") {
            Some(h) => ColorSource::Written(h, Some(PaletteRole::Background)),
            None => {
            ColorSource::SameAs(PaletteRole::Warning)
            },
        }
    };
    let syntax_string = {
        match variant.override_rgb("syntax-string") {
            Some(h) => ColorSource::Written(h, Some(PaletteRole::Background)),
            None => {
            ColorSource::SameAs(PaletteRole::Primary)
            },
        }
    };
    let syntax_number = {
        match variant.override_rgb("syntax-number") {
            Some(h) => ColorSource::Written(h, Some(PaletteRole::Background)),
            None => {
            ColorSource::SameAs(PaletteRole::Error)
            },
        }
    };
    let syntax_primitive = {
        match variant.override_rgb("syntax-primitive") {
            Some(h) => ColorSource::Written(h, Some(PaletteRole::Background)),
            None => {
            ColorSource::SameAs(PaletteRole::SyntaxFunction)
            },
        }
    };
    let syntax_variable = {
        match variant.override_rgb("syntax-variable") {
            Some(h) => ColorSource::Written(h, Some(PaletteRole::Background)),
            None => {
            ColorSource::SameAs(PaletteRole::Text)
            },
        }
    };
    let syntax_property = {
        match variant.override_rgb("syntax-property") {
            Some(h) => ColorSource::Written(h, Some(PaletteRole::Background)),
            None => {
            ColorSource::SameAs(PaletteRole::Secondary)
            },
        }
    };
    let syntax_type = {
        match variant.override_rgb("syntax-type") {
            Some(h) => ColorSource::Written(h, Some(PaletteRole::Background)),
            None => {
            ColorSource::SameAs(PaletteRole::Warning)
            },
        }
    };
    let syntax_constant = {
        match variant.override_rgb("syntax-constant") {
            Some(h) => ColorSource::Written(h, Some(PaletteRole::Background)),
            None => {
            ColorSource::SameAs(PaletteRole::Warning)
            },
        }
    };
    let syntax_operator = {
        match variant.override_rgb("syntax-operator") {
            Some(h) => ColorSource::Written(h, Some(PaletteRole::Background)),
            None => {
            ColorSource::SameAs(PaletteRole::Secondary)
            },
        }
    };
    let syntax_punctuation = {
        match variant.override_rgb("syntax-punctuation") {
            Some(h) => ColorSource::Written(h, Some(PaletteRole::Background)),
            None => {
            ColorSource::SameAs(PaletteRole::Text)
            },
        }
    };
    let syntax_object = {
        match variant.override_rgb("syntax-object") {
            Some(h) => ColorSource::Written(h, Some(PaletteRole::Background)),
            None => {
            ColorSource::SameAs(PaletteRole::Text)
            },
        }
    };
    let code_block_text = {
        match variant.override_rgb("markdown-code-block") {
            Some(h) => ColorSource::Written(h, Some(PaletteRole::Background)),
            None => {
            ColorSource::SameAs(PaletteRole::Text)
            },
        }
    };
    let background_secondary = {
        match variant.override_rgb("background-panel") {
            Some(h) => ColorSource::Written(h, Some(PaletteRole::Background)),
            None => {
            ColorSource::Mix(PaletteRole::Background, PaletteRole::Text, if dark { 80 } else { 50 })
            },
        }
    };
    let background_deeper = {
        match variant.override_rgb("background-element") {
            Some(h) => ColorSource::Written(h, Some(PaletteRole::Background)),
            None => {
            ColorSource::Mix(PaletteRole::Background, PaletteRole::Text, if dark { 140 } else { 90 })
            },
        }
    };
    let code_block_background = ColorSource::SameAs(PaletteRole::BackgroundSecondary);
    let markdown_code = {
        match variant.override_rgb("markdown-code") {
            Some(h) => ColorSource::Written(h, Some(PaletteRole::Background)),
            None => {
            ColorSource::SameAs(PaletteRole::Primary)
            },
        }
    };
    let inline_code_background = ColorSource::Mix(PaletteRole::Background, PaletteRole::MarkdownCode, if dark { 100 } else { 60 });
    let border = {
        match variant.override_rgb("border") {
            Some(h) => ColorSource::Written(h, Some(PaletteRole::Background)),
            None => {
            ColorSource::Mix(PaletteRole::Background, PaletteRole::Text, if dark { 180 } else { 200 })
            },
        }
    };
    let user_message_background = ColorSource::Mix(PaletteRole::BackgroundSecondary, PaletteRole::Secondary, if dark { 100 } else { 50 });
    let proposed_plan_background = ColorSource::Mix(PaletteRole::BackgroundDeeper, PaletteRole::Accent, if dark { 100 } else { 60 });
    let diff_add = {
        match variant.override_rgb("diff-added-bg") {
            Some(h) => ColorSource::Written(h, Some(PaletteRole::CodeBlockBackground)),
            None => {
            match variant.palette.diff_add_rgb() {
                Some(h) => ColorSource::Written(h, Some(PaletteRole::Background)),
                None => {
                ColorSource::SameAs(PaletteRole::Success)
                },
            }
            },
        }
    };
    let diff_delete = {
        match variant.override_rgb("diff-removed-bg") {
            Some(h) => ColorSource::Written(h, Some(PaletteRole::CodeBlockBackground)),
            None => {
            match variant.palette.diff_delete_rgb() {
                Some(h) => ColorSource::Written(h, Some(PaletteRole::Background)),
                None => {
                ColorSource::SameAs(PaletteRole::Error)
                },
            }
            },
        }
    };
    let commentary_text = ColorSource::SameAs(PaletteRole::TextMuted);
    let markdown_text = {
        match variant.override_rgb("markdown-text") {
            Some(h) => ColorSource::Written(h, Some(PaletteRole::Background)),
            None => {
            ColorSource::SameAs(PaletteRole::Text)
            },
        }
    };
    let text_emphasis = {
        match variant.override_rgb("markdown-strong") {
            Some(h) => ColorSource::Written(h, Some(PaletteRole::Background)),
            None => {
            ColorSource::SameAs(PaletteRole::Warning)
            },
        }
    };
    let markdown_heading = {
        match variant.override_rgb("markdown-heading") {
            Some(h) => ColorSource::Written(h, Some(PaletteRole::Background)),
            None => {
            ColorSource::SameAs(PaletteRole::Secondary)
            },
        }
    };
    let markdown_link = {
        match variant.override_rgb("markdown-link") {
            Some(h) => ColorSource::Written(h, Some(PaletteRole::Background)),
            None => {
            ColorSource::SameAs(PaletteRole::Info)
            },
        }
    };
    let markdown_link_text = {
        match variant.override_rgb("markdown-link-text") {
            Some(h) => ColorSource::Written(h, Some(PaletteRole::Background)),
            None => {
            ColorSource::SameAs(PaletteRole::Secondary)
            },
        }
    };
    let markdown_blockquote = {
        match variant.override_rgb("markdown-block-quote") {
            Some(h) => ColorSource::Written(h, Some(PaletteRole::Background)),
            None => {
            ColorSource::SameAs(PaletteRole::TextMuted)
            },
        }
    };
    let markdown_emphasis = {
        match variant.override_rgb("markdown-emph") {
            Some(h) => ColorSource::Written(h, Some(PaletteRole::Background)),
            None => {
            ColorSource::SameAs(PaletteRole::Accent)
            },
        }
    };
    let markdown_strong = {
        match variant.override_rgb("markdown-strong") {
            Some(h) => ColorSource::Written(h, Some(PaletteRole::Background)),
            None => {
            ColorSource::SameAs(PaletteRole::Warning)
            },
        }
    };
    let markdown_horizontal_rule = {
        match variant.override_rgb("markdown-horizontal-rule") {
            Some(h) => ColorSource::Written(h, Some(PaletteRole::Background)),
            None => {
            ColorSource::SameAs(PaletteRole::TextMuted)
            },
        }
    };
    let markdown_list_item = {
        match variant.override_rgb("markdown-list-item") {
            Some(h) => ColorSource::Written(h, Some(PaletteRole::Background)),
            None => {
            ColorSource::SameAs(PaletteRole::Info)
            },
        }
    };
    let markdown_list_enumeration = {
        match variant.override_rgb("markdown-list-enumeration") {
            Some(h) => ColorSource::Written(h, Some(PaletteRole::Background)),
            None => {
            ColorSource::SameAs(PaletteRole::Secondary)
            },
        }
    };
    UiPaletteSources {
        background,
        primary,
        accent,
        success,
        warning,
        error,
        info,
        secondary,
        text,
        text_muted,
        syntax_comment,
        syntax_keyword,
        syntax_function,
        syntax_string,
        syntax_number,
        syntax_primitive,
        syntax_variable,
        syntax_property,
        syntax_type,
        syntax_constant,
        syntax_operator,
        syntax_punctuation,
        syntax_object,
        code_block_text,
        background_secondary,
        background_deeper,
        code_block_background,
        markdown_code,
        inline_code_background,
        border,
        user_message_background,
        proposed_plan_background,
        diff_add,
        diff_delete,
        commentary_text,
        markdown_text,
        text_emphasis,
        markdown_heading,
        markdown_link,
        markdown_link_text,
        markdown_blockquote,
        markdown_emphasis,
        markdown_strong,
        markdown_horizontal_rule,
        markdown_list_item,
        markdown_list_enumeration,
    }
}

/// Whether every role that source `s` refers to is ranked before `rank`.
pub open spec fn refers_before(s: ColorSource<PaletteRole>, rank: nat) -> bool {
    match s {
        ColorSource::Written(_, Some(b)) => role_rank(b) < rank,
        ColorSource::Written(_, None) => true,
        ColorSource::Fixed(..) => true,
        ColorSource::SameAs(r) => role_rank(r) < rank,
        ColorSource::Mix(a, b, _) => role_rank(a) < rank && role_rank(b) < rank,
        ColorSource::Readable(a, b, c, _) => role_rank(a) < rank && role_rank(b) < rank
            && role_rank(c) < rank,
        ColorSource::DistinctSurface(a, b, c) => role_rank(a) < rank && role_rank(b) < rank
            && role_rank(c) < rank,
    }
}

/// The palette of any variant resolves in role order: each role's source refers only to
/// roles ranked before it, so no colour depends on itself.
pub proof fn palette_roles_resolve_in_order(v: UiThemeVariant, dark: bool, r: PaletteRole)
    ensures
        refers_before(source_of(palette_plan(v, dark), r), role_rank(r)),
{
    assert forall|c: Option<HexColor>, b: Option<PaletteRole>, f: ColorSource<PaletteRole>, rank: nat|
        (b matches Some(x) ==> role_rank(x) < rank) && refers_before(f, rank) implies #[trigger]
        refers_before(written_or(c, b, f), rank) by {
        reveal(written_or);
    }
    match r {
        PaletteRole::Background => {},
        PaletteRole::Primary => {},
        PaletteRole::Accent => {},
        PaletteRole::Success => {},
        PaletteRole::Warning => {},
        PaletteRole::Error => {},
        PaletteRole::Info => {},
        PaletteRole::Secondary => {},
        PaletteRole::Text => {},
        PaletteRole::TextMuted => {},
        PaletteRole::SyntaxComment => {},
        PaletteRole::SyntaxKeyword => {},
        PaletteRole::SyntaxFunction => {},
        PaletteRole::SyntaxString => {},
        PaletteRole::SyntaxNumber => {},
        PaletteRole::SyntaxPrimitive => {},
        PaletteRole::SyntaxVariable => {},
        PaletteRole::SyntaxProperty => {},
        PaletteRole::SyntaxType => {},
        PaletteRole::SyntaxConstant => {},
        PaletteRole::SyntaxOperator => {},
        PaletteRole::SyntaxPunctuation => {},
        PaletteRole::SyntaxObject => {},
        PaletteRole::CodeBlockText => {},
        PaletteRole::BackgroundSecondary => {},
        PaletteRole::BackgroundDeeper => {},
        PaletteRole::CodeBlockBackground => {},
        PaletteRole::MarkdownCode => {},
        PaletteRole::InlineCodeBackground => {},
        PaletteRole::Border => {},
        PaletteRole::UserMessageBackground => {},
        PaletteRole::ProposedPlanBackground => {},
        PaletteRole::DiffAdd => {},
        PaletteRole::DiffDelete => {},
        PaletteRole::CommentaryText => {},
        PaletteRole::MarkdownText => {},
        PaletteRole::TextEmphasis => {},
        PaletteRole::MarkdownHeading => {},
        PaletteRole::MarkdownLink => {},
        PaletteRole::MarkdownLinkText => {},
        PaletteRole::MarkdownBlockquote => {},
        PaletteRole::MarkdownEmphasis => {},
        PaletteRole::MarkdownStrong => {},
        PaletteRole::MarkdownHorizontalRule => {},
        PaletteRole::MarkdownListItem => {},
        PaletteRole::MarkdownListEnumeration => {},
    }
}

/// A colour of the syntax-highlighting palette, or an intermediate colour it is derived
/// from. Roles are listed in an order in which each role's source refers only to roles
/// before it.
#[derive(PartialEq, Eq, Structural, Clone, Copy, Debug)]
pub enum SyntaxRole {
    Background,
    Primary,
    Accent,
    Success,
    Warning,
    Error,
    Info,
    Secondary,
    Text,
    CodeBlockBackground,
    TextMuted,
    SyntaxComment,
    SyntaxKeyword,
    SyntaxFunction,
    SyntaxString,
    SyntaxNumber,
    SyntaxPrimitive,
    SyntaxVariable,
    SyntaxProperty,
    SyntaxType,
    SyntaxConstant,
    SyntaxOperator,
    SyntaxPunctuation,
    SyntaxObject,
    CodeBlockText,
    SafeCodeBlockText,
    SafeText,
    BackgroundSecondary,
    BackgroundDeeper,
    DiffAdd,
    DiffDelete,
    DiffContext,
    SafeDiffAdd,
    SafeDiffDelete,
    DiffAddForeground,
    DiffDeleteForeground,
    SafeSyntaxComment,
    SafeSyntaxKeyword,
    SafeSyntaxFunction,
    SafeSyntaxString,
    SafeSyntaxNumber,
    SafeSyntaxPrimitive,
    SafeSyntaxVariable,
    SafeSyntaxProperty,
    SafeSyntaxType,
    SafeSyntaxConstant,
    SafeSyntaxOperator,
    SafeSyntaxPunctuation,
    SafeSyntaxObject,
}

/// Where each colour of the syntax-highlighting palette comes from.
#[derive(PartialEq, Eq, Structural, Clone, Copy, Debug)]
pub struct SyntaxPaletteSources {
    pub background: ColorSource<SyntaxRole>,
    pub primary: ColorSource<SyntaxRole>,
    pub accent: ColorSource<SyntaxRole>,
    pub success: ColorSource<SyntaxRole>,
    pub warning: ColorSource<SyntaxRole>,
    pub error: ColorSource<SyntaxRole>,
    pub info: ColorSource<SyntaxRole>,
    pub secondary: ColorSource<SyntaxRole>,
    pub text: ColorSource<SyntaxRole>,
    pub code_block_background: ColorSource<SyntaxRole>,
    pub text_muted: ColorSource<SyntaxRole>,
    pub syntax_comment: ColorSource<SyntaxRole>,
    pub syntax_keyword: ColorSource<SyntaxRole>,
    pub syntax_function: ColorSource<SyntaxRole>,
    pub syntax_string: ColorSource<SyntaxRole>,
    pub syntax_number: ColorSource<SyntaxRole>,
    pub syntax_primitive: ColorSource<SyntaxRole>,
    pub syntax_variable: ColorSource<SyntaxRole>,
    pub syntax_property: ColorSource<SyntaxRole>,
    pub syntax_type: ColorSource<SyntaxRole>,
    pub syntax_constant: ColorSource<SyntaxRole>,
    pub syntax_operator: ColorSource<SyntaxRole>,
    pub syntax_punctuation: ColorSource<SyntaxRole>,
    pub syntax_object: ColorSource<SyntaxRole>,
    pub code_block_text: ColorSource<SyntaxRole>,
    pub safe_code_block_text: ColorSource<SyntaxRole>,
    pub safe_text: ColorSource<SyntaxRole>,
    pub background_secondary: ColorSource<SyntaxRole>,
    pub background_deeper: ColorSource<SyntaxRole>,
    pub diff_add: ColorSource<SyntaxRole>,
    pub diff_delete: ColorSource<SyntaxRole>,
    pub diff_context: ColorSource<SyntaxRole>,
    pub safe_diff_add: ColorSource<SyntaxRole>,
    pub safe_diff_delete: ColorSource<SyntaxRole>,
    pub diff_add_foreground: ColorSource<SyntaxRole>,
    pub diff_delete_foreground: ColorSource<SyntaxRole>,
    pub safe_syntax_comment: ColorSource<SyntaxRole>,
    pub safe_syntax_keyword: ColorSource<SyntaxRole>,
    pub safe_syntax_function: ColorSource<SyntaxRole>,
    pub safe_syntax_string: ColorSource<SyntaxRole>,
    pub safe_syntax_number: ColorSource<SyntaxRole>,
    pub safe_syntax_primitive: ColorSource<SyntaxRole>,
    pub safe_syntax_variable: ColorSource<SyntaxRole>,
    pub safe_syntax_property: ColorSource<SyntaxRole>,
    pub safe_syntax_type: ColorSource<SyntaxRole>,
    pub safe_syntax_constant: ColorSource<SyntaxRole>,
    pub safe_syntax_operator: ColorSource<SyntaxRole>,
    pub safe_syntax_punctuation: ColorSource<SyntaxRole>,
    pub safe_syntax_object: ColorSource<SyntaxRole>,
}

/// The position of a syntax role in the resolution order.
pub open spec fn syntax_role_rank(r: SyntaxRole) -> nat {
    match r {
        SyntaxRole::Background => 0,
        SyntaxRole::Primary => 1,
        SyntaxRole::Accent => 2,
        SyntaxRole::Success => 3,
        SyntaxRole::Warning => 4,
        SyntaxRole::Error => 5,
        SyntaxRole::Info => 6,
        SyntaxRole::Secondary => 7,
        SyntaxRole::Text => 8,
        SyntaxRole::CodeBlockBackground => 9,
        SyntaxRole::TextMuted => 10,
        SyntaxRole::SyntaxComment => 11,
        SyntaxRole::SyntaxKeyword => 12,
        SyntaxRole::SyntaxFunction => 13,
        SyntaxRole::SyntaxString => 14,
        SyntaxRole::SyntaxNumber => 15,
        SyntaxRole::SyntaxPrimitive => 16,
        SyntaxRole::SyntaxVariable => 17,
        SyntaxRole::SyntaxProperty => 18,
        SyntaxRole::SyntaxType => 19,
        SyntaxRole::SyntaxConstant => 20,
        SyntaxRole::SyntaxOperator => 21,
        SyntaxRole::SyntaxPunctuation => 22,
        SyntaxRole::SyntaxObject => 23,
        SyntaxRole::CodeBlockText => 24,
        SyntaxRole::SafeCodeBlockText => 25,
        SyntaxRole::SafeText => 26,
        SyntaxRole::BackgroundSecondary => 27,
        SyntaxRole::BackgroundDeeper => 28,
        SyntaxRole::DiffAdd => 29,
        SyntaxRole::DiffDelete => 30,
        SyntaxRole::DiffContext => 31,
        SyntaxRole::SafeDiffAdd => 32,
        SyntaxRole::SafeDiffDelete => 33,
        SyntaxRole::DiffAddForeground => 34,
        SyntaxRole::DiffDeleteForeground => 35,
        SyntaxRole::SafeSyntaxComment => 36,
        SyntaxRole::SafeSyntaxKeyword => 37,
        SyntaxRole::SafeSyntaxFunction => 38,
        SyntaxRole::SafeSyntaxString => 39,
        SyntaxRole::SafeSyntaxNumber => 40,
        SyntaxRole::SafeSyntaxPrimitive => 41,
        SyntaxRole::SafeSyntaxVariable => 42,
        SyntaxRole::SafeSyntaxProperty => 43,
        SyntaxRole::SafeSyntaxType => 44,
        SyntaxRole::SafeSyntaxConstant => 45,
        SyntaxRole::SafeSyntaxOperator => 46,
        SyntaxRole::SafeSyntaxPunctuation => 47,
        SyntaxRole::SafeSyntaxObject => 48,
    }
}

/// The source of syntax role `r` in `p`.
pub open spec fn syntax_source_of(p: SyntaxPaletteSources, r: SyntaxRole) -> ColorSource<SyntaxRole> {
    match r {
        SyntaxRole::Background => p.background,
        SyntaxRole::Primary => p.primary,
        SyntaxRole::Accent => p.accent,
        SyntaxRole::Success => p.success,
        SyntaxRole::Warning => p.warning,
        SyntaxRole::Error => p.error,
        SyntaxRole::Info => p.info,
        SyntaxRole::Secondary => p.secondary,
        SyntaxRole::Text => p.text,
        SyntaxRole::CodeBlockBackground => p.code_block_background,
        SyntaxRole::TextMuted => p.text_muted,
        SyntaxRole::SyntaxComment => p.syntax_comment,
        SyntaxRole::SyntaxKeyword => p.syntax_keyword,
        SyntaxRole::SyntaxFunction => p.syntax_function,
        SyntaxRole::SyntaxString => p.syntax_string,
        SyntaxRole::SyntaxNumber => p.syntax_number,
        SyntaxRole::SyntaxPrimitive => p.syntax_primitive,
        SyntaxRole::SyntaxVariable => p.syntax_variable,
        SyntaxRole::SyntaxProperty => p.syntax_property,
        SyntaxRole::SyntaxType => p.syntax_type,
        SyntaxRole::SyntaxConstant => p.syntax_constant,
        SyntaxRole::SyntaxOperator => p.syntax_operator,
        SyntaxRole::SyntaxPunctuation => p.syntax_punctuation,
        SyntaxRole::SyntaxObject => p.syntax_object,
        SyntaxRole::CodeBlockText => p.code_block_text,
        SyntaxRole::SafeCodeBlockText => p.safe_code_block_text,
        SyntaxRole::SafeText => p.safe_text,
        SyntaxRole::BackgroundSecondary => p.background_secondary,
        SyntaxRole::BackgroundDeeper => p.background_deeper,
        SyntaxRole::DiffAdd => p.diff_add,
        SyntaxRole::DiffDelete => p.diff_delete,
        SyntaxRole::DiffContext => p.diff_context,
        SyntaxRole::SafeDiffAdd => p.safe_diff_add,
        SyntaxRole::SafeDiffDelete => p.safe_diff_delete,
        SyntaxRole::DiffAddForeground => p.diff_add_foreground,
        SyntaxRole::DiffDeleteForeground => p.diff_delete_foreground,
        SyntaxRole::SafeSyntaxComment => p.safe_syntax_comment,
        SyntaxRole::SafeSyntaxKeyword => p.safe_syntax_keyword,
        SyntaxRole::SafeSyntaxFunction => p.safe_syntax_function,
        SyntaxRole::SafeSyntaxString => p.safe_syntax_string,
        SyntaxRole::SafeSyntaxNumber => p.safe_syntax_number,
        SyntaxRole::SafeSyntaxPrimitive => p.safe_syntax_primitive,
        SyntaxRole::SafeSyntaxVariable => p.safe_syntax_variable,
        SyntaxRole::SafeSyntaxProperty => p.safe_syntax_property,
        SyntaxRole::SafeSyntaxType => p.safe_syntax_type,
        SyntaxRole::SafeSyntaxConstant => p.safe_syntax_constant,
        SyntaxRole::SafeSyntaxOperator => p.safe_syntax_operator,
        SyntaxRole::SafeSyntaxPunctuation => p.safe_syntax_punctuation,
        SyntaxRole::SafeSyntaxObject => p.safe_syntax_object,
    }
}

/// The sources that variant `v` gives the colours of the syntax-highlighting palette
/// (`dark` for the dark variant). Text colours are made readable on the code block
/// background and diff backgrounds distinct from it, with the contrast each use asks for.
pub open spec fn syntax_palette_plan(v: UiThemeVariant, dark: bool) -> SyntaxPaletteSources {
    SyntaxPaletteSources {
        background: written_or(override_color(v, "background-base"@), None, written_or(parsed_hex(v.palette.neutral@), None, ColorSource::Fixed(10, 14, 10))),
        primary: written_or(parsed_hex(v.palette.primary@), Some(SyntaxRole::Background), ColorSource::Fixed(46, 255, 106)),
        accent: written_or(parsed_opt(v.palette.accent), Some(SyntaxRole::Background), ColorSource::Fixed(199, 112, 255)),
        success: written_or(parsed_hex(v.palette.success@), Some(SyntaxRole::Background), ColorSource::Fixed(98, 255, 148)),
        warning: written_or(parsed_hex(v.palette.warning@), Some(SyntaxRole::Background), ColorSource::Fixed(230, 255, 87)),
        error: written_or(parsed_hex(v.palette.error@), Some(SyntaxRole::Background), ColorSource::Fixed(255, 75, 75)),
        info: written_or(parsed_hex(v.palette.info@), Some(SyntaxRole::Background), ColorSource::Fixed(48, 179, 255)),
        secondary: written_or(parsed_opt(v.palette.interactive), Some(SyntaxRole::Background), ColorSource::SameAs(SyntaxRole::Info)),
        text: written_or(override_color(v, "markdown-text"@), Some(SyntaxRole::Background), written_or(override_color(v, "text-base"@), Some(SyntaxRole::Background), written_or(parsed_opt(v.palette.ink), Some(SyntaxRole::Background), ColorSource::SameAs(SyntaxRole::Primary)))),
        code_block_background: written_or(override_color(v, "background-panel"@), Some(SyntaxRole::Background), ColorSource::Mix(SyntaxRole::Background, SyntaxRole::Primary, if dark { 60 } else { 35 })),
        text_muted: written_or(override_color(v, "text-weak"@), Some(SyntaxRole::Background), ColorSource::Mix(SyntaxRole::Background, SyntaxRole::Text, if dark { 480 } else { 560 })),
        syntax_comment: written_or(override_color(v, "syntax-comment"@), Some(SyntaxRole::Background), ColorSource::SameAs(SyntaxRole::TextMuted)),
        syntax_keyword: written_or(override_color(v, "syntax-keyword"@), Some(SyntaxRole::Background), ColorSource::SameAs(SyntaxRole::Accent)),
        syntax_function: written_or(override_color(v, "syntax-function"@), Some(SyntaxRole::Background), ColorSource::SameAs(SyntaxRole::Warning)),
        syntax_string: written_or(override_color(v, "syntax-string"@), Some(SyntaxRole::Background), ColorSource::SameAs(SyntaxRole::Primary)),
        syntax_number: written_or(override_color(v, "syntax-number"@), Some(SyntaxRole::Background), ColorSource::SameAs(SyntaxRole::Error)),
        syntax_primitive: written_or(override_color(v, "syntax-primitive"@), Some(SyntaxRole::Background), ColorSource::SameAs(SyntaxRole::SyntaxFunction)),
        syntax_variable: written_or(override_color(v, "syntax-variable"@), Some(SyntaxRole::Background), ColorSource::SameAs(SyntaxRole::Text)),
        syntax_property: written_or(override_color(v, "syntax-property"@), Some(SyntaxRole::Background), ColorSource::SameAs(SyntaxRole::Secondary)),
        syntax_type: written_or(override_color(v, "syntax-type"@), Some(SyntaxRole::Background), ColorSource::SameAs(SyntaxRole::Warning)),
        syntax_constant: written_or(override_color(v, "syntax-constant"@), Some(SyntaxRole::Background), ColorSource::SameAs(SyntaxRole::Warning)),
        syntax_operator: written_or(override_color(v, "syntax-operator"@), Some(SyntaxRole::Background), ColorSource::SameAs(SyntaxRole::Secondary)),
        syntax_punctuation: written_or(override_color(v, "syntax-punctuation"@), Some(SyntaxRole::Background), ColorSource::SameAs(SyntaxRole::Text)),
        syntax_object: written_or(override_color(v, "syntax-object"@), Some(SyntaxRole::Background), ColorSource::SameAs(SyntaxRole::Text)),
        code_block_text: written_or(override_color(v, "markdown-code-block"@), Some(SyntaxRole::Background), ColorSource::SameAs(SyntaxRole::Text)),
        safe_code_block_text: ColorSource::Readable(SyntaxRole::CodeBlockText, SyntaxRole::CodeBlockBackground, SyntaxRole::Text, 480),
        safe_text: ColorSource::Readable(SyntaxRole::Text, SyntaxRole::CodeBlockBackground, SyntaxRole::SafeCodeBlockText, 480),
        background_secondary: ColorSource::Mix(SyntaxRole::CodeBlockBackground, SyntaxRole::SafeText, if dark { 80 } else { 50 }),
        background_deeper: ColorSource::Mix(SyntaxRole::CodeBlockBackground, SyntaxRole::SafeText, if dark { 140 } else { 90 }),
        diff_add: written_or(override_color(v, "diff-added-bg"@), Some(SyntaxRole::CodeBlockBackground), written_or(parsed_opt(v.palette.diff_add), Some(SyntaxRole::Background), ColorSource::SameAs(SyntaxRole::Success))),
        diff_delete: written_or(override_color(v, "diff-removed-bg"@), Some(SyntaxRole::CodeBlockBackground), written_or(parsed_opt(v.palette.diff_delete), Some(SyntaxRole::Background), ColorSource::SameAs(SyntaxRole::Error))),
        diff_context: written_or(override_color(v, "diff-context-bg"@), Some(SyntaxRole::CodeBlockBackground), ColorSource::SameAs(SyntaxRole::BackgroundSecondary)),
        safe_diff_add: ColorSource::DistinctSurface(SyntaxRole::DiffAdd, SyntaxRole::CodeBlockBackground, SyntaxRole::Success),
        safe_diff_delete: ColorSource::DistinctSurface(SyntaxRole::DiffDelete, SyntaxRole::CodeBlockBackground, SyntaxRole::Error),
        diff_add_foreground: ColorSource::Readable(SyntaxRole::Success, SyntaxRole::SafeDiffAdd, SyntaxRole::SafeCodeBlockText, 400),
        diff_delete_foreground: ColorSource::Readable(SyntaxRole::Error, SyntaxRole::SafeDiffDelete, SyntaxRole::SafeCodeBlockText, 400),
        safe_syntax_comment: ColorSource::Readable(SyntaxRole::SyntaxComment, SyntaxRole::CodeBlockBackground, SyntaxRole::SafeText, 260),
        safe_syntax_keyword: ColorSource::Readable(SyntaxRole::SyntaxKeyword, SyntaxRole::CodeBlockBackground, SyntaxRole::SafeText, 300),
        safe_syntax_function: ColorSource::Readable(SyntaxRole::SyntaxFunction, SyntaxRole::CodeBlockBackground, SyntaxRole::SafeText, 300),
        safe_syntax_string: ColorSource::Readable(SyntaxRole::SyntaxString, SyntaxRole::CodeBlockBackground, SyntaxRole::SafeText, 300),
        safe_syntax_number: ColorSource::Readable(SyntaxRole::SyntaxNumber, SyntaxRole::CodeBlockBackground, SyntaxRole::SafeText, 300),
        safe_syntax_primitive: ColorSource::Readable(SyntaxRole::SyntaxPrimitive, SyntaxRole::CodeBlockBackground, SyntaxRole::SafeText, 300),
        safe_syntax_variable: ColorSource::Readable(SyntaxRole::SyntaxVariable, SyntaxRole::CodeBlockBackground, SyntaxRole::SafeText, 450),
        safe_syntax_property: ColorSource::Readable(SyntaxRole::SyntaxProperty, SyntaxRole::CodeBlockBackground, SyntaxRole::SafeText, 300),
        safe_syntax_type: ColorSource::Readable(SyntaxRole::SyntaxType, SyntaxRole::CodeBlockBackground, SyntaxRole::SafeText, 300),
        safe_syntax_constant: ColorSource::Readable(SyntaxRole::SyntaxConstant, SyntaxRole::CodeBlockBackground, SyntaxRole::SafeText, 300),
        safe_syntax_operator: ColorSource::Readable(SyntaxRole::SyntaxOperator, SyntaxRole::CodeBlockBackground, SyntaxRole::SafeText, 300),
        safe_syntax_punctuation: ColorSource::Readable(SyntaxRole::SyntaxPunctuation, SyntaxRole::CodeBlockBackground, SyntaxRole::SafeText, 320),
        safe_syntax_object: ColorSource::Readable(SyntaxRole::SyntaxObject, SyntaxRole::CodeBlockBackground, SyntaxRole::SafeText, 320),
    }
}

/// Whether every colour text that resolving the syntax palette of `v` reads can be read
/// without cutting a character.
pub open spec fn syntax_inputs_readable(v: UiThemeVariant) -> bool {
    &&& (override_readable(v, "background-base"@) && (override_color(v, "background-base"@) is None ==> !hex_fields_cut_char(hex_body(v.palette.neutral@))))
    &&& !hex_fields_cut_char(hex_body(v.palette.primary@))
    &&& opt_splits_cleanly(v.palette.accent)
    &&& !hex_fields_cut_char(hex_body(v.palette.success@))
    &&& !hex_fields_cut_char(hex_body(v.palette.warning@))
    &&& !hex_fields_cut_char(hex_body(v.palette.error@))
    &&& !hex_fields_cut_char(hex_body(v.palette.info@))
    &&& opt_splits_cleanly(v.palette.interactive)
    &&& (override_readable(v, "markdown-text"@) && (override_color(v, "markdown-text"@) is None ==> (override_readable(v, "text-base"@) && (override_color(v, "text-base"@) is None ==> opt_splits_cleanly(v.palette.ink)))))
    &&& override_readable(v, "background-panel"@)
    &&& override_readable(v, "text-weak"@)
    &&& override_readable(v, "syntax-comment"@)
    &&& override_readable(v, "syntax-keyword"@)
    &&& override_readable(v, "syntax-function"@)
    &&& override_readable(v, "syntax-string"@)
    &&& override_readable(v, "syntax-number"@)
    &&& override_readable(v, "syntax-primitive"@)
    &&& override_readable(v, "syntax-variable"@)
    &&& override_readable(v, "syntax-property"@)
    &&& override_readable(v, "syntax-type"@)
    &&& override_readable(v, "syntax-constant"@)
    &&& override_readable(v, "syntax-operator"@)
    &&& override_readable(v, "syntax-punctuation"@)
    &&& override_readable(v, "syntax-object"@)
    &&& override_readable(v, "markdown-code-block"@)
    &&& (override_readable(v, "diff-added-bg"@) && (override_color(v, "diff-added-bg"@) is None ==> opt_splits_cleanly(v.palette.diff_add)))
    &&& (override_readable(v, "diff-removed-bg"@) && (override_color(v, "diff-removed-bg"@) is None ==> opt_splits_cleanly(v.palette.diff_delete)))
    &&& override_readable(v, "diff-context-bg"@)
}

/// The sources of the syntax-highlighting palette of a theme variant (see
/// [`syntax_palette_plan`]).
pub fn syntax_palette_sources(variant: &UiThemeVariant, dark: bool) -> (r: SyntaxPaletteSources)
    requires
        syntax_inputs_readable(*variant),
    ensures
        r == syntax_palette_plan(*variant, dark),
{
    proof {
        reveal(written_or);
    }
    let background = {
        match variant.override_rgb("background-base") {
            Some(h) => ColorSource::Written(h, None),
            None => {
            match variant.palette.neutral_rgb() {
                Some(h) => ColorSource::Written(h, None),
                None => {
                ColorSource::Fixed(10, 14, 10)
                },
            }
            },
        }
    };
    let primary = {
        match variant.palette.primary_rgb() {
            Some(h) => ColorSource::Written(h, Some(SyntaxRole::Background)),
            None => {
            ColorSource::Fixed(46, 255, 106)
            },
        }
    };
    let accent = {
        match variant.palette.accent_rgb() {
            Some(h) => ColorSource::Written(h, Some(SyntaxRole::Background)),
            None => {
            ColorSource::Fixed(199, 112, 255)
            },
        }
    };
    let success = {
        match variant.palette.success_rgb() {
            Some(h) => ColorSource::Written(h, Some(SyntaxRole::Background)),
            None => {
            ColorSource::Fixed(98, 255, 148)
            },
        }
    };
    let warning = {
        match variant.palette.warning_rgb() {
            Some(h) => ColorSource::Written(h, Some(SyntaxRole::Background)),
            None => {
            ColorSource::Fixed(230, 255, 87)
            },
        }
    };
    let error = {
        match variant.palette.error_rgb() {
            Some(h) => ColorSource::Written(h, Some(SyntaxRole::Background)),
            None => {
            ColorSource::Fixed(255, 75, 75)
            },
        }
    };
    let info = {
        match variant.palette.info_rgb() {
            Some(h) => ColorSource::Written(h, Some(SyntaxRole::Background)),
            None => {
            ColorSource::Fixed(48, 179, 255)
            },
        }
    };
    let secondary = {
        match variant.palette.interactive_rgb() {
            Some(h) => ColorSource::Written(h, Some(SyntaxRole::Background)),
            None => {
            ColorSource::SameAs(SyntaxRole::Info)
            },
        }
    };
    let text = {
        match variant.override_rgb("markdown-text") {
            Some(h) => ColorSource::Written(h, Some(SyntaxRole::Background)),
            None => {
            match variant.override_rgb("text-base") {
                Some(h) => ColorSource::Written(h, Some(SyntaxRole::Background)),
                None => {
                match variant.palette.ink_rgb() {
                    Some(h) => ColorSource::Written(h, Some(SyntaxRole::Background)),
                    None => {
                    ColorSource::SameAs(SyntaxRole::Primary)
                    },
                }
                },
            }
            },
        }
    };
    let code_block_background = {
        match variant.override_rgb("background-panel") {
            Some(h) => ColorSource::Written(h, Some(SyntaxRole::Background)),
            None => {
            ColorSource::Mix(SyntaxRole::Background, SyntaxRole::Primary, if dark { 60 } else { 35 })
            },
        }
    };
    let text_muted = {
        match variant.override_rgb("text-weak") {
            Some(h) => ColorSource::Written(h, Some(SyntaxRole::Background)),
            None => {
            ColorSource::Mix(SyntaxRole::Background, SyntaxRole::Text, if dark { 480 } else { 560 })
            },
        }
    };
    let syntax_comment = {
        match variant.override_rgb("syntax-comment") {
            Some(h) => ColorSource::Written(h, Some(SyntaxRole::Background)),
            None => {
            ColorSource::SameAs(SyntaxRole::TextMuted)
            },
        }
    };
    let syntax_keyword = {
        match variant.override_rgb("syntax-keyword") {
            Some(h) => ColorSource::Written(h, Some(SyntaxRole::Background)),
            None => {
            ColorSource::SameAs(SyntaxRole::Accent)
            },
        }
    };
    let syntax_function = {
        match variant.override_rgb("syntax-function") {
            Some(h) => ColorSource::Written(h, Some(SyntaxRole::Background)),
            None => {
            ColorSource::SameAs(SyntaxRole::Warning)
            },
        }
    };
    let syntax_string = {
        match variant.override_rgb("syntax-string") {
            Some(h) => ColorSource::Written(h, Some(SyntaxRole::Background)),
            None => {
            ColorSource::SameAs(SyntaxRole::Primary)
            },
        }
    };
    let syntax_number = {
        match variant.override_rgb("syntax-number") {
            Some(h) => ColorSource::Written(h, Some(SyntaxRole::Background)),
            None => {
            ColorSource::SameAs(SyntaxRole::Error)
            },
        }
    };
    let syntax_primitive = {
        match variant.override_rgb("syntax-primitive") {
            Some(h) => ColorSource::Written(h, Some(SyntaxRole::Background)),
            None => {
            ColorSource::SameAs(SyntaxRole::SyntaxFunction)
            },
        }
    };
    let syntax_variable = {
        match variant.override_rgb("syntax-variable") {
            Some(h) => ColorSource::Written(h, Some(SyntaxRole::Background)),
            None => {
            ColorSource::SameAs(SyntaxRole::Text)
            },
        }
    };
    let syntax_property = {
        match variant.override_rgb("syntax-property") {
            Some(h) => ColorSource::Written(h, Some(SyntaxRole::Background)),
            None => {
            ColorSource::SameAs(SyntaxRole::Secondary)
            },
        }
    };
    let syntax_type = {
        match variant.override_rgb("syntax-type") {
            Some(h) => ColorSource::Written(h, Some(SyntaxRole::Background)),
            None => {
            ColorSource::SameAs(SyntaxRole::Warning)
            },
        }
    };
    let syntax_constant = {
        match variant.override_rgb("syntax-constant") {
            Some(h) => ColorSource::Written(h, Some(SyntaxRole::Background)),
            None => {
            ColorSource::SameAs(SyntaxRole::Warning)
            },
        }
    };
    let syntax_operator = {
        match variant.override_rgb("syntax-operator") {
            Some(h) => ColorSource::Written(h, Some(SyntaxRole::Background)),
            None => {
            ColorSource::SameAs(SyntaxRole::Secondary)
            },
        }
    };
    let syntax_punctuation = {
        match variant.override_rgb("syntax-punctuation") {
            Some(h) => ColorSource::Written(h, Some(SyntaxRole::Background)),
            None => {
            ColorSource::SameAs(SyntaxRole::Text)
            },
        }
    };
    let syntax_object = {
        match variant.override_rgb("syntax-object") {
            Some(h) => ColorSource::Written(h, Some(SyntaxRole::Background)),
            None => {
            ColorSource::SameAs(SyntaxRole::Text)
            },
        }
    };
    let code_block_text = {
        match variant.override_rgb("markdown-code-block") {
            Some(h) => ColorSource::Written(h, Some(SyntaxRole::Background)),
            None => {
            ColorSource::SameAs(SyntaxRole::Text)
            },
        }
    };
    let safe_code_block_text = ColorSource::Readable(SyntaxRole::CodeBlockText, SyntaxRole::CodeBlockBackground, SyntaxRole::Text, 480);
    let safe_text = ColorSource::Readable(SyntaxRole::Text, SyntaxRole::CodeBlockBackground, SyntaxRole::SafeCodeBlockText, 480);
    let background_secondary = ColorSource::Mix(SyntaxRole::CodeBlockBackground, SyntaxRole::SafeText, if dark { 80 } else { 50 });
    let background_deeper = ColorSource::Mix(SyntaxRole::CodeBlockBackground, SyntaxRole::SafeText, if dark { 140 } else { 90 });
    let diff_add = {
        match variant.override_rgb("diff-added-bg") {
            Some(h) => ColorSource::Written(h, Some(SyntaxRole::CodeBlockBackground)),
            None => {
            match variant.palette.diff_add_rgb() {
                Some(h) => ColorSource::Written(h, Some(SyntaxRole::Background)),
                None => {
                ColorSource::SameAs(SyntaxRole::Success)
                },
            }
            },
        }
    };
    let diff_delete = {
        match variant.override_rgb("diff-removed-bg") {
            Some(h) => ColorSource::Written(h, Some(SyntaxRole::CodeBlockBackground)),
            None => {
            match variant.palette.diff_delete_rgb() {
                Some(h) => ColorSource::Written(h, Some(SyntaxRole::Background)),
                None => {
                ColorSource::SameAs(SyntaxRole::Error)
                },
            }
            },
        }
    };
    let diff_context = {
        match variant.override_rgb("diff-context-bg") {
            Some(h) => ColorSource::Written(h, Some(SyntaxRole::CodeBlockBackground)),
            None => {
            ColorSource::SameAs(SyntaxRole::BackgroundSecondary)
            },
        }
    };
    let safe_diff_add = ColorSource::DistinctSurface(SyntaxRole::DiffAdd, SyntaxRole::CodeBlockBackground, SyntaxRole::Success);
    let safe_diff_delete = ColorSource::DistinctSurface(SyntaxRole::DiffDelete, SyntaxRole::CodeBlockBackground, SyntaxRole::Error);
    let diff_add_foreground = ColorSource::Readable(SyntaxRole::Success, SyntaxRole::SafeDiffAdd, SyntaxRole::SafeCodeBlockText, 400);
    let diff_delete_foreground = ColorSource::Readable(SyntaxRole::Error, SyntaxRole::SafeDiffDelete, SyntaxRole::SafeCodeBlockText, 400);
    let safe_syntax_comment = ColorSource::Readable(SyntaxRole::SyntaxComment, SyntaxRole::CodeBlockBackground, SyntaxRole::SafeText, 260);
    let safe_syntax_keyword = ColorSource::Readable(SyntaxRole::SyntaxKeyword, SyntaxRole::CodeBlockBackground, SyntaxRole::SafeText, 300);
    let safe_syntax_function = ColorSource::Readable(SyntaxRole::SyntaxFunction, SyntaxRole::CodeBlockBackground, SyntaxRole::SafeText, 300);
    let safe_syntax_string = ColorSource::Readable(SyntaxRole::SyntaxString, SyntaxRole::CodeBlockBackground, SyntaxRole::SafeText, 300);
    let safe_syntax_number = ColorSource::Readable(SyntaxRole::SyntaxNumber, SyntaxRole::CodeBlockBackground, SyntaxRole::SafeText, 300);
    let safe_syntax_primitive = ColorSource::Readable(SyntaxRole::SyntaxPrimitive, SyntaxRole::CodeBlockBackground, SyntaxRole::SafeText, 300);
    let safe_syntax_variable = ColorSource::Readable(SyntaxRole::SyntaxVariable, SyntaxRole::CodeBlockBackground, SyntaxRole::SafeText, 450);
    let safe_syntax_property = ColorSource::Readable(SyntaxRole::SyntaxProperty, SyntaxRole::CodeBlockBackground, SyntaxRole::SafeText, 300);
    let safe_syntax_type = ColorSource::Readable(SyntaxRole::SyntaxType, SyntaxRole::CodeBlockBackground, SyntaxRole::SafeText, 300);
    let safe_syntax_constant = ColorSource::Readable(SyntaxRole::SyntaxConstant, SyntaxRole::CodeBlockBackground, SyntaxRole::SafeText, 300);
    let safe_syntax_operator = ColorSource::Readable(SyntaxRole::SyntaxOperator, SyntaxRole::CodeBlockBackground, SyntaxRole::SafeText, 300);
    let safe_syntax_punctuation = ColorSource::Readable(SyntaxRole::SyntaxPunctuation, SyntaxRole::CodeBlockBackground, SyntaxRole::SafeText, 320);
    let safe_syntax_object = ColorSource::Readable(SyntaxRole::SyntaxObject, SyntaxRole::CodeBlockBackground, SyntaxRole::SafeText, 320);
    SyntaxPaletteSources {
        background,
        primary,
        accent,
        success,
        warning,
        error,
        info,
        secondary,
        text,
        code_block_background,
        text_muted,
        syntax_comment,
        syntax_keyword,
        syntax_function,
        syntax_string,
        syntax_number,
        syntax_primitive,
        syntax_variable,
        syntax_property,
        syntax_type,
        syntax_constant,
        syntax_operator,
        syntax_punctuation,
        syntax_object,
        code_block_text,
        safe_code_block_text,
        safe_text,
        background_secondary,
        background_deeper,
        diff_add,
        diff_delete,
        diff_context,
        safe_diff_add,
        safe_diff_delete,
        diff_add_foreground,
        diff_delete_foreground,
        safe_syntax_comment,
        safe_syntax_keyword,
        safe_syntax_function,
        safe_syntax_string,
        safe_syntax_number,
        safe_syntax_primitive,
        safe_syntax_variable,
        safe_syntax_property,
        safe_syntax_type,
        safe_syntax_constant,
        safe_syntax_operator,
        safe_syntax_punctuation,
        safe_syntax_object,
    }
}

/// Whether every role that source `s` refers to is ranked before `rank`.
pub open spec fn syntax_refers_before(s: ColorSource<SyntaxRole>, rank: nat) -> bool {
    match s {
        ColorSource::Written(_, Some(b)) => syntax_role_rank(b) < rank,
        ColorSource::Written(_, None) => true,
        ColorSource::Fixed(..) => true,
        ColorSource::SameAs(r) => syntax_role_rank(r) < rank,
        ColorSource::Mix(a, b, _) => syntax_role_rank(a) < rank && syntax_role_rank(b) < rank,
        ColorSource::Readable(a, b, c, _) => syntax_role_rank(a) < rank && syntax_role_rank(b) < rank
            && syntax_role_rank(c) < rank,
        ColorSource::DistinctSurface(a, b, c) => syntax_role_rank(a) < rank && syntax_role_rank(b)
            < rank && syntax_role_rank(c) < rank,
    }
}

/// The syntax palette of any variant resolves in role order: each colour's source refers
/// only to colours ranked before it, so no colour depends on itself.
pub proof fn syntax_roles_resolve_in_order(v: UiThemeVariant, dark: bool, r: SyntaxRole)
    ensures
        syntax_refers_before(syntax_source_of(syntax_palette_plan(v, dark), r), syntax_role_rank(r)),
{
    assert forall|c: Option<HexColor>, b: Option<SyntaxRole>, f: ColorSource<SyntaxRole>, rank: nat|
        (b matches Some(x) ==> syntax_role_rank(x) < rank) && syntax_refers_before(f, rank) implies #[trigger]
        syntax_refers_before(written_or(c, b, f), rank) by {
        reveal(written_or);
    }
    match r {
        SyntaxRole::Background => {},
        SyntaxRole::Primary => {},
        SyntaxRole::Accent => {},
        SyntaxRole::Success => {},
        SyntaxRole::Warning => {},
        SyntaxRole::Error => {},
        SyntaxRole::Info => {},
        SyntaxRole::Secondary => {},
        SyntaxRole::Text => {},
        SyntaxRole::CodeBlockBackground => {},
        SyntaxRole::TextMuted => {},
        SyntaxRole::SyntaxComment => {},
        SyntaxRole::SyntaxKeyword => {},
        SyntaxRole::SyntaxFunction => {},
        SyntaxRole::SyntaxString => {},
        SyntaxRole::SyntaxNumber => {},
        SyntaxRole::SyntaxPrimitive => {},
        SyntaxRole::SyntaxVariable => {},
        SyntaxRole::SyntaxProperty => {},
        SyntaxRole::SyntaxType => {},
        SyntaxRole::SyntaxConstant => {},
        SyntaxRole::SyntaxOperator => {},
        SyntaxRole::SyntaxPunctuation => {},
        SyntaxRole::SyntaxObject => {},
        SyntaxRole::CodeBlockText => {},
        SyntaxRole::SafeCodeBlockText => {},
        SyntaxRole::SafeText => {},
        SyntaxRole::BackgroundSecondary => {},
        SyntaxRole::BackgroundDeeper => {},
        SyntaxRole::DiffAdd => {},
        SyntaxRole::DiffDelete => {},
        SyntaxRole::DiffContext => {},
        SyntaxRole::SafeDiffAdd => {},
        SyntaxRole::SafeDiffDelete => {},
        SyntaxRole::DiffAddForeground => {},
        SyntaxRole::DiffDeleteForeground => {},
        SyntaxRole::SafeSyntaxComment => {},
        SyntaxRole::SafeSyntaxKeyword => {},
        SyntaxRole::SafeSyntaxFunction => {},
        SyntaxRole::SafeSyntaxString => {},
        SyntaxRole::SafeSyntaxNumber => {},
        SyntaxRole::SafeSyntaxPrimitive => {},
        SyntaxRole::SafeSyntaxVariable => {},
        SyntaxRole::SafeSyntaxProperty => {},
        SyntaxRole::SafeSyntaxType => {},
        SyntaxRole::SafeSyntaxConstant => {},
        SyntaxRole::SafeSyntaxOperator => {},
        SyntaxRole::SafeSyntaxPunctuation => {},
        SyntaxRole::SafeSyntaxObject => {},
    }
}


/// Whether resolving the UI palette of a theme variant can read every colour text it
/// needs (see [`palette_inputs_readable`]).
pub fn palette_inputs_are_readable(variant: &UiThemeVariant) -> (r: bool)
    ensures
        r == palette_inputs_readable(*variant),
{
    if !(variant.override_is_readable("background-base") && (variant.override_rgb("background-base").is_some() || hex_text_splits_cleanly(variant.palette.neutral.as_str()))) {
        return false;
    }
    if !hex_text_splits_cleanly(variant.palette.primary.as_str()) {
        return false;
    }
    if !seed_is_readable(&variant.palette.accent) {
        return false;
    }
    if !hex_text_splits_cleanly(variant.palette.success.as_str()) {
        return false;
    }
    if !hex_text_splits_cleanly(variant.palette.warning.as_str()) {
        return false;
    }
    if !hex_text_splits_cleanly(variant.palette.error.as_str()) {
        return false;
    }
    if !hex_text_splits_cleanly(variant.palette.info.as_str()) {
        return false;
    }
    if !seed_is_readable(&variant.palette.interactive) {
        return false;
    }
    if !(variant.override_is_readable("markdown-text") && (variant.override_rgb("markdown-text").is_some() || (variant.override_is_readable("text-base") && (variant.override_rgb("text-base").is_some() || seed_is_readable(&variant.palette.ink))))) {
        return false;
    }
    if !variant.override_is_readable("text-weak") {
        return false;
    }
    if !variant.override_is_readable("syntax-comment") {
        return false;
    }
    if !variant.override_is_readable("syntax-keyword") {
        return false;
    }
    if !variant.override_is_readable("syntax-function") {
        return false;
    }
    if !variant.override_is_readable("syntax-string") {
        return false;
    }
    if !variant.override_is_readable("syntax-number") {
        return false;
    }
    if !variant.override_is_readable("syntax-primitive") {
        return false;
    }
    if !variant.override_is_readable("syntax-variable") {
        return false;
    }
    if !variant.override_is_readable("syntax-property") {
        return false;
    }
    if !variant.override_is_readable("syntax-type") {
        return false;
    }
    if !variant.override_is_readable("syntax-constant") {
        return false;
    }
    if !variant.override_is_readable("syntax-operator") {
        return false;
    }
    if !variant.override_is_readable("syntax-punctuation") {
        return false;
    }
    if !variant.override_is_readable("syntax-object") {
        return false;
    }
    if !variant.override_is_readable("markdown-code-block") {
        return false;
    }
    if !variant.override_is_readable("background-panel") {
        return false;
    }
    if !variant.override_is_readable("background-element") {
        return false;
    }
    if !variant.override_is_readable("markdown-code") {
        return false;
    }
    if !variant.override_is_readable("border") {
        return false;
    }
    if !(variant.override_is_readable("diff-added-bg") && (variant.override_rgb("diff-added-bg").is_some() || seed_is_readable(&variant.palette.diff_add))) {
        return false;
    }
    if !(variant.override_is_readable("diff-removed-bg") && (variant.override_rgb("diff-removed-bg").is_some() || seed_is_readable(&variant.palette.diff_delete))) {
        return false;
    }
    if !variant.override_is_readable("markdown-text") {
        return false;
    }
    if !variant.override_is_readable("markdown-strong") {
        return false;
    }
    if !variant.override_is_readable("markdown-heading") {
        return false;
    }
    if !variant.override_is_readable("markdown-link") {
        return false;
    }
    if !variant.override_is_readable("markdown-link-text") {
        return false;
    }
    if !variant.override_is_readable("markdown-block-quote") {
        return false;
    }
    if !variant.override_is_readable("markdown-emph") {
        return false;
    }
    if !variant.override_is_readable("markdown-horizontal-rule") {
        return false;
    }
    if !variant.override_is_readable("markdown-list-item") {
        return false;
    }
    if !variant.override_is_readable("markdown-list-enumeration") {
        return false;
    }
    true
}

/// Whether resolving the syntax palette of a theme variant can read every colour text it
/// needs (see [`syntax_inputs_readable`]).
pub fn syntax_inputs_are_readable(variant: &UiThemeVariant) -> (r: bool)
    ensures
        r == syntax_inputs_readable(*variant),
{
    if !(variant.override_is_readable("background-base") && (variant.override_rgb("background-base").is_some() || hex_text_splits_cleanly(variant.palette.neutral.as_str()))) {
        return false;
    }
    if !hex_text_splits_cleanly(variant.palette.primary.as_str()) {
        return false;
    }
    if !seed_is_readable(&variant.palette.accent) {
        return false;
    }
    if !hex_text_splits_cleanly(variant.palette.success.as_str()) {
        return false;
    }
    if !hex_text_splits_cleanly(variant.palette.warning.as_str()) {
        return false;
    }
    if !hex_text_splits_cleanly(variant.palette.error.as_str()) {
        return false;
    }
    if !hex_text_splits_cleanly(variant.palette.info.as_str()) {
        return false;
    }
    if !seed_is_readable(&variant.palette.interactive) {
        return false;
    }
    if !(variant.override_is_readable("markdown-text") && (variant.override_rgb("markdown-text").is_some() || (variant.override_is_readable("text-base") && (variant.override_rgb("text-base").is_some() || seed_is_readable(&variant.palette.ink))))) {
        return false;
    }
    if !variant.override_is_readable("background-panel") {
        return false;
    }
    if !variant.override_is_readable("text-weak") {
        return false;
    }
    if !variant.override_is_readable("syntax-comment") {
        return false;
    }
    if !variant.override_is_readable("syntax-keyword") {
        return false;
    }
    if !variant.override_is_readable("syntax-function") {
        return false;
    }
    if !variant.override_is_readable("syntax-string") {
        return false;
    }
    if !variant.override_is_readable("syntax-number") {
        return false;
    }
    if !variant.override_is_readable("syntax-primitive") {
        return false;
    }
    if !variant.override_is_readable("syntax-variable") {
        return false;
    }
    if !variant.override_is_readable("syntax-property") {
        return false;
    }
    if !variant.override_is_readable("syntax-type") {
        return false;
    }
    if !variant.override_is_readable("syntax-constant") {
        return false;
    }
    if !variant.override_is_readable("syntax-operator") {
        return false;
    }
    if !variant.override_is_readable("syntax-punctuation") {
        return false;
    }
    if !variant.override_is_readable("syntax-object") {
        return false;
    }
    if !variant.override_is_readable("markdown-code-block") {
        return false;
    }
    if !(variant.override_is_readable("diff-added-bg") && (variant.override_rgb("diff-added-bg").is_some() || seed_is_readable(&variant.palette.diff_add))) {
        return false;
    }
    if !(variant.override_is_readable("diff-removed-bg") && (variant.override_rgb("diff-removed-bg").is_some() || seed_is_readable(&variant.palette.diff_delete))) {
        return false;
    }
    if !variant.override_is_readable("diff-context-bg") {
        return false;
    }
    true
}


impl UiPaletteSources {
    /// The source of `role`.
    pub fn source(&self, role: PaletteRole) -> (r: ColorSource<PaletteRole>)
        ensures
            r == source_of(*self, role),
    {
        match role {
            PaletteRole::Background => self.background,
            PaletteRole::Primary => self.primary,
            PaletteRole::Accent => self.accent,
            PaletteRole::Success => self.success,
            PaletteRole::Warning => self.warning,
            PaletteRole::Error => self.error,
            PaletteRole::Info => self.info,
            PaletteRole::Secondary => self.secondary,
            PaletteRole::Text => self.text,
            PaletteRole::TextMuted => self.text_muted,
            PaletteRole::SyntaxComment => self.syntax_comment,
            PaletteRole::SyntaxKeyword => self.syntax_keyword,
            PaletteRole::SyntaxFunction => self.syntax_function,
            PaletteRole::SyntaxString => self.syntax_string,
            PaletteRole::SyntaxNumber => self.syntax_number,
            PaletteRole::SyntaxPrimitive => self.syntax_primitive,
            PaletteRole::SyntaxVariable => self.syntax_variable,
            PaletteRole::SyntaxProperty => self.syntax_property,
            PaletteRole::SyntaxType => self.syntax_type,
            PaletteRole::SyntaxConstant => self.syntax_constant,
            PaletteRole::SyntaxOperator => self.syntax_operator,
            PaletteRole::SyntaxPunctuation => self.syntax_punctuation,
            PaletteRole::SyntaxObject => self.syntax_object,
            PaletteRole::CodeBlockText => self.code_block_text,
            PaletteRole::BackgroundSecondary => self.background_secondary,
            PaletteRole::BackgroundDeeper => self.background_deeper,
            PaletteRole::CodeBlockBackground => self.code_block_background,
            PaletteRole::MarkdownCode => self.markdown_code,
            PaletteRole::InlineCodeBackground => self.inline_code_background,
            PaletteRole::Border => self.border,
            PaletteRole::UserMessageBackground => self.user_message_background,
            PaletteRole::ProposedPlanBackground => self.proposed_plan_background,
            PaletteRole::DiffAdd => self.diff_add,
            PaletteRole::DiffDelete => self.diff_delete,
            PaletteRole::CommentaryText => self.commentary_text,
            PaletteRole::MarkdownText => self.markdown_text,
            PaletteRole::TextEmphasis => self.text_emphasis,
            PaletteRole::MarkdownHeading => self.markdown_heading,
            PaletteRole::MarkdownLink => self.markdown_link,
            PaletteRole::MarkdownLinkText => self.markdown_link_text,
            PaletteRole::MarkdownBlockquote => self.markdown_blockquote,
            PaletteRole::MarkdownEmphasis => self.markdown_emphasis,
            PaletteRole::MarkdownStrong => self.markdown_strong,
            PaletteRole::MarkdownHorizontalRule => self.markdown_horizontal_rule,
            PaletteRole::MarkdownListItem => self.markdown_list_item,
            PaletteRole::MarkdownListEnumeration => self.markdown_list_enumeration,
        }
    }
}

/// The position of `role` in the resolution order.
pub fn palette_role_rank(role: PaletteRole) -> (r: usize)
    ensures
        r == role_rank(role),
{
    match role {
        PaletteRole::Background => 0,
        PaletteRole::Primary => 1,
        PaletteRole::Accent => 2,
        PaletteRole::Success => 3,
        PaletteRole::Warning => 4,
        PaletteRole::Error => 5,
        PaletteRole::Info => 6,
        PaletteRole::Secondary => 7,
        PaletteRole::Text => 8,
        PaletteRole::TextMuted => 9,
        PaletteRole::SyntaxComment => 10,
        PaletteRole::SyntaxKeyword => 11,
        PaletteRole::SyntaxFunction => 12,
        PaletteRole::SyntaxString => 13,
        PaletteRole::SyntaxNumber => 14,
        PaletteRole::SyntaxPrimitive => 15,
        PaletteRole::SyntaxVariable => 16,
        PaletteRole::SyntaxProperty => 17,
        PaletteRole::SyntaxType => 18,
        PaletteRole::SyntaxConstant => 19,
        PaletteRole::SyntaxOperator => 20,
        PaletteRole::SyntaxPunctuation => 21,
        PaletteRole::SyntaxObject => 22,
        PaletteRole::CodeBlockText => 23,
        PaletteRole::BackgroundSecondary => 24,
        PaletteRole::BackgroundDeeper => 25,
        PaletteRole::CodeBlockBackground => 26,
        PaletteRole::MarkdownCode => 27,
        PaletteRole::InlineCodeBackground => 28,
        PaletteRole::Border => 29,
        PaletteRole::UserMessageBackground => 30,
        PaletteRole::ProposedPlanBackground => 31,
        PaletteRole::DiffAdd => 32,
        PaletteRole::DiffDelete => 33,
        PaletteRole::CommentaryText => 34,
        PaletteRole::MarkdownText => 35,
        PaletteRole::TextEmphasis => 36,
        PaletteRole::MarkdownHeading => 37,
        PaletteRole::MarkdownLink => 38,
        PaletteRole::MarkdownLinkText => 39,
        PaletteRole::MarkdownBlockquote => 40,
        PaletteRole::MarkdownEmphasis => 41,
        PaletteRole::MarkdownStrong => 42,
        PaletteRole::MarkdownHorizontalRule => 43,
        PaletteRole::MarkdownListItem => 44,
        PaletteRole::MarkdownListEnumeration => 45,
    }
}

/// All roles, in resolution order.
pub fn palette_roles() -> (r: Vec<PaletteRole>)
    ensures
        r@.len() == 46,
        forall|i: int| 0 <= i < r@.len() ==> role_rank(#[trigger] r@[i]) == i,
{
    let r = vec![
        PaletteRole::Background,
        PaletteRole::Primary,
        PaletteRole::Accent,
        PaletteRole::Success,
        PaletteRole::Warning,
        PaletteRole::Error,
        PaletteRole::Info,
        PaletteRole::Secondary,
        PaletteRole::Text,
        PaletteRole::TextMuted,
        PaletteRole::SyntaxComment,
        PaletteRole::SyntaxKeyword,
        PaletteRole::SyntaxFunction,
        PaletteRole::SyntaxString,
        PaletteRole::SyntaxNumber,
        PaletteRole::SyntaxPrimitive,
        PaletteRole::SyntaxVariable,
        PaletteRole::SyntaxProperty,
        PaletteRole::SyntaxType,
        PaletteRole::SyntaxConstant,
        PaletteRole::SyntaxOperator,
        PaletteRole::SyntaxPunctuation,
        PaletteRole::SyntaxObject,
        PaletteRole::CodeBlockText,
        PaletteRole::BackgroundSecondary,
        PaletteRole::BackgroundDeeper,
        PaletteRole::CodeBlockBackground,
        PaletteRole::MarkdownCode,
        PaletteRole::InlineCodeBackground,
        PaletteRole::Border,
        PaletteRole::UserMessageBackground,
        PaletteRole::ProposedPlanBackground,
        PaletteRole::DiffAdd,
        PaletteRole::DiffDelete,
        PaletteRole::CommentaryText,
        PaletteRole::MarkdownText,
        PaletteRole::TextEmphasis,
        PaletteRole::MarkdownHeading,
        PaletteRole::MarkdownLink,
        PaletteRole::MarkdownLinkText,
        PaletteRole::MarkdownBlockquote,
        PaletteRole::MarkdownEmphasis,
        PaletteRole::MarkdownStrong,
        PaletteRole::MarkdownHorizontalRule,
        PaletteRole::MarkdownListItem,
        PaletteRole::MarkdownListEnumeration,
    ];
    r
}

impl SyntaxPaletteSources {
    /// The source of `role`.
    pub fn source(&self, role: SyntaxRole) -> (r: ColorSource<SyntaxRole>)
        ensures
            r == syntax_source_of(*self, role),
    {
        match role {
            SyntaxRole::Background => self.background,
            SyntaxRole::Primary => self.primary,
            SyntaxRole::Accent => self.accent,
            SyntaxRole::Success => self.success,
            SyntaxRole::Warning => self.warning,
            SyntaxRole::Error => self.error,
            SyntaxRole::Info => self.info,
            SyntaxRole::Secondary => self.secondary,
            SyntaxRole::Text => self.text,
            SyntaxRole::CodeBlockBackground => self.code_block_background,
            SyntaxRole::TextMuted => self.text_muted,
            SyntaxRole::SyntaxComment => self.syntax_comment,
            SyntaxRole::SyntaxKeyword => self.syntax_keyword,
            SyntaxRole::SyntaxFunction => self.syntax_function,
            SyntaxRole::SyntaxString => self.syntax_string,
            SyntaxRole::SyntaxNumber => self.syntax_number,
            SyntaxRole::SyntaxPrimitive => self.syntax_primitive,
            SyntaxRole::SyntaxVariable => self.syntax_variable,
            SyntaxRole::SyntaxProperty => self.syntax_property,
            SyntaxRole::SyntaxType => self.syntax_type,
            SyntaxRole::SyntaxConstant => self.syntax_constant,
            SyntaxRole::SyntaxOperator => self.syntax_operator,
            SyntaxRole::SyntaxPunctuation => self.syntax_punctuation,
            SyntaxRole::SyntaxObject => self.syntax_object,
            SyntaxRole::CodeBlockText => self.code_block_text,
            SyntaxRole::SafeCodeBlockText => self.safe_code_block_text,
            SyntaxRole::SafeText => self.safe_text,
            SyntaxRole::BackgroundSecondary => self.background_secondary,
            SyntaxRole::BackgroundDeeper => self.background_deeper,
            SyntaxRole::DiffAdd => self.diff_add,
            SyntaxRole::DiffDelete => self.diff_delete,
            SyntaxRole::DiffContext => self.diff_context,
            SyntaxRole::SafeDiffAdd => self.safe_diff_add,
            SyntaxRole::SafeDiffDelete => self.safe_diff_delete,
            SyntaxRole::DiffAddForeground => self.diff_add_foreground,
            SyntaxRole::DiffDeleteForeground => self.diff_delete_foreground,
            SyntaxRole::SafeSyntaxComment => self.safe_syntax_comment,
            SyntaxRole::SafeSyntaxKeyword => self.safe_syntax_keyword,
            SyntaxRole::SafeSyntaxFunction => self.safe_syntax_function,
            SyntaxRole::SafeSyntaxString => self.safe_syntax_string,
            SyntaxRole::SafeSyntaxNumber => self.safe_syntax_number,
            SyntaxRole::SafeSyntaxPrimitive => self.safe_syntax_primitive,
            SyntaxRole::SafeSyntaxVariable => self.safe_syntax_variable,
            SyntaxRole::SafeSyntaxProperty => self.safe_syntax_property,
            SyntaxRole::SafeSyntaxType => self.safe_syntax_type,
            SyntaxRole::SafeSyntaxConstant => self.safe_syntax_constant,
            SyntaxRole::SafeSyntaxOperator => self.safe_syntax_operator,
            SyntaxRole::SafeSyntaxPunctuation => self.safe_syntax_punctuation,
            SyntaxRole::SafeSyntaxObject => self.safe_syntax_object,
        }
    }
}

/// The position of `role` in the resolution order.
pub fn syntax_role_position(role: SyntaxRole) -> (r: usize)
    ensures
        r == syntax_role_rank(role),
{
    match role {
        SyntaxRole::Background => 0,
        SyntaxRole::Primary => 1,
        SyntaxRole::Accent => 2,
        SyntaxRole::Success => 3,
        SyntaxRole::Warning => 4,
        SyntaxRole::Error => 5,
        SyntaxRole::Info => 6,
        SyntaxRole::Secondary => 7,
        SyntaxRole::Text => 8,
        SyntaxRole::CodeBlockBackground => 9,
        SyntaxRole::TextMuted => 10,
        SyntaxRole::SyntaxComment => 11,
        SyntaxRole::SyntaxKeyword => 12,
        SyntaxRole::SyntaxFunction => 13,
        SyntaxRole::SyntaxString => 14,
        SyntaxRole::SyntaxNumber => 15,
        SyntaxRole::SyntaxPrimitive => 16,
        SyntaxRole::SyntaxVariable => 17,
        SyntaxRole::SyntaxProperty => 18,
        SyntaxRole::SyntaxType => 19,
        SyntaxRole::SyntaxConstant => 20,
        SyntaxRole::SyntaxOperator => 21,
        SyntaxRole::SyntaxPunctuation => 22,
        SyntaxRole::SyntaxObject => 23,
        SyntaxRole::CodeBlockText => 24,
        SyntaxRole::SafeCodeBlockText => 25,
        SyntaxRole::SafeText => 26,
        SyntaxRole::BackgroundSecondary => 27,
        SyntaxRole::BackgroundDeeper => 28,
        SyntaxRole::DiffAdd => 29,
        SyntaxRole::DiffDelete => 30,
        SyntaxRole::DiffContext => 31,
        SyntaxRole::SafeDiffAdd => 32,
        SyntaxRole::SafeDiffDelete => 33,
        SyntaxRole::DiffAddForeground => 34,
        SyntaxRole::DiffDeleteForeground => 35,
        SyntaxRole::SafeSyntaxComment => 36,
        SyntaxRole::SafeSyntaxKeyword => 37,
        SyntaxRole::SafeSyntaxFunction => 38,
        SyntaxRole::SafeSyntaxString => 39,
        SyntaxRole::SafeSyntaxNumber => 40,
        SyntaxRole::SafeSyntaxPrimitive => 41,
        SyntaxRole::SafeSyntaxVariable => 42,
        SyntaxRole::SafeSyntaxProperty => 43,
        SyntaxRole::SafeSyntaxType => 44,
        SyntaxRole::SafeSyntaxConstant => 45,
        SyntaxRole::SafeSyntaxOperator => 46,
        SyntaxRole::SafeSyntaxPunctuation => 47,
        SyntaxRole::SafeSyntaxObject => 48,
    }
}

/// All roles, in resolution order.
pub fn syntax_roles() -> (r: Vec<SyntaxRole>)
    ensures
        r@.len() == 49,
        forall|i: int| 0 <= i < r@.len() ==> syntax_role_rank(#[trigger] r@[i]) == i,
{
    let r = vec![
        SyntaxRole::Background,
        SyntaxRole::Primary,
        SyntaxRole::Accent,
        SyntaxRole::Success,
        SyntaxRole::Warning,
        SyntaxRole::Error,
        SyntaxRole::Info,
        SyntaxRole::Secondary,
        SyntaxRole::Text,
        SyntaxRole::CodeBlockBackground,
        SyntaxRole::TextMuted,
        SyntaxRole::SyntaxComment,
        SyntaxRole::SyntaxKeyword,
        SyntaxRole::SyntaxFunction,
        SyntaxRole::SyntaxString,
        SyntaxRole::SyntaxNumber,
        SyntaxRole::SyntaxPrimitive,
        SyntaxRole::SyntaxVariable,
        SyntaxRole::SyntaxProperty,
        SyntaxRole::SyntaxType,
        SyntaxRole::SyntaxConstant,
        SyntaxRole::SyntaxOperator,
        SyntaxRole::SyntaxPunctuation,
        SyntaxRole::SyntaxObject,
        SyntaxRole::CodeBlockText,
        SyntaxRole::SafeCodeBlockText,
        SyntaxRole::SafeText,
        SyntaxRole::BackgroundSecondary,
        SyntaxRole::BackgroundDeeper,
        SyntaxRole::DiffAdd,
        SyntaxRole::DiffDelete,
        SyntaxRole::DiffContext,
        SyntaxRole::SafeDiffAdd,
        SyntaxRole::SafeDiffDelete,
        SyntaxRole::DiffAddForeground,
        SyntaxRole::DiffDeleteForeground,
        SyntaxRole::SafeSyntaxComment,
        SyntaxRole::SafeSyntaxKeyword,
        SyntaxRole::SafeSyntaxFunction,
        SyntaxRole::SafeSyntaxString,
        SyntaxRole::SafeSyntaxNumber,
        SyntaxRole::SafeSyntaxPrimitive,
        SyntaxRole::SafeSyntaxVariable,
        SyntaxRole::SafeSyntaxProperty,
        SyntaxRole::SafeSyntaxType,
        SyntaxRole::SafeSyntaxConstant,
        SyntaxRole::SafeSyntaxOperator,
        SyntaxRole::SafeSyntaxPunctuation,
        SyntaxRole::SafeSyntaxObject,
    ];
    r
}




/// The background role of the UI palette takes the readable colour written for the theme key
/// `background-base`, else the palette seed `neutral`; when none is written it falls back to
/// its default source.
pub proof fn palette_background_takes_written_colour(v: UiThemeVariant, dark: bool)
    ensures
        override_color(v, "background-base"@) is Some ==> palette_plan(v, dark).background == ColorSource::Written(override_color(v, "background-base"@)->0, Option::<PaletteRole>::None),
        override_color(v, "background-base"@) is None && parsed_hex(v.palette.neutral@) is Some ==> palette_plan(v, dark).background == ColorSource::Written(parsed_hex(v.palette.neutral@)->0, Option::<PaletteRole>::None),
        override_color(v, "background-base"@) is None && parsed_hex(v.palette.neutral@) is None ==> palette_plan(v, dark).background == ColorSource::<PaletteRole>::Fixed(10, 14, 10),
{
    reveal(written_or);
}

/// The primary role of the UI palette takes the readable colour written for the palette seed
/// `primary`; when none is written it falls back to its default source.
pub proof fn palette_primary_takes_written_colour(v: UiThemeVariant, dark: bool)
    ensures
        parsed_hex(v.palette.primary@) is Some ==> palette_plan(v, dark).primary == ColorSource::Written(parsed_hex(v.palette.primary@)->0, Some(PaletteRole::Background)),
        parsed_hex(v.palette.primary@) is None ==> palette_plan(v, dark).primary == ColorSource::<PaletteRole>::Fixed(46, 255, 106),
{
    reveal(written_or);
}

/// The accent role of the UI palette takes the readable colour written for the palette seed
/// `accent`; when none is written it falls back to its default source.
pub proof fn palette_accent_takes_written_colour(v: UiThemeVariant, dark: bool)
    ensures
        parsed_opt(v.palette.accent) is Some ==> palette_plan(v, dark).accent == ColorSource::Written(parsed_opt(v.palette.accent)->0, Some(PaletteRole::Background)),
        parsed_opt(v.palette.accent) is None ==> palette_plan(v, dark).accent == ColorSource::<PaletteRole>::Fixed(199, 112, 255),
{
    reveal(written_or);
}

/// The success role of the UI palette takes the readable colour written for the palette seed
/// `success`; when none is written it falls back to its default source.
pub proof fn palette_success_takes_written_colour(v: UiThemeVariant, dark: bool)
    ensures
        parsed_hex(v.palette.success@) is Some ==> palette_plan(v, dark).success == ColorSource::Written(parsed_hex(v.palette.success@)->0, Some(PaletteRole::Background)),
        parsed_hex(v.palette.success@) is None ==> palette_plan(v, dark).success == ColorSource::<PaletteRole>::Fixed(98, 255, 148),
{
    reveal(written_or);
}

/// The warning role of the UI palette takes the readable colour written for the palette seed
/// `warning`; when none is written it falls back to its default source.
pub proof fn palette_warning_takes_written_colour(v: UiThemeVariant, dark: bool)
    ensures
        parsed_hex(v.palette.warning@) is Some ==> palette_plan(v, dark).warning == ColorSource::Written(parsed_hex(v.palette.warning@)->0, Some(PaletteRole::Background)),
        parsed_hex(v.palette.warning@) is None ==> palette_plan(v, dark).warning == ColorSource::<PaletteRole>::Fixed(230, 255, 87),
{
    reveal(written_or);
}

/// The error role of the UI palette takes the readable colour written for the palette seed
/// `error`; when none is written it falls back to its default source.
pub proof fn palette_error_takes_written_colour(v: UiThemeVariant, dark: bool)
    ensures
        parsed_hex(v.palette.error@) is Some ==> palette_plan(v, dark).error == ColorSource::Written(parsed_hex(v.palette.error@)->0, Some(PaletteRole::Background)),
        parsed_hex(v.palette.error@) is None ==> palette_plan(v, dark).error == ColorSource::<PaletteRole>::Fixed(255, 75, 75),
{
    reveal(written_or);
}

/// The info role of the UI palette takes the readable colour written for the palette seed
/// `info`; when none is written it falls back to its default source.
pub proof fn palette_info_takes_written_colour(v: UiThemeVariant, dark: bool)
    ensures
        parsed_hex(v.palette.info@) is Some ==> palette_plan(v, dark).info == ColorSource::Written(parsed_hex(v.palette.info@)->0, Some(PaletteRole::Background)),
        parsed_hex(v.palette.info@) is None ==> palette_plan(v, dark).info == ColorSource::<PaletteRole>::Fixed(48, 179, 255),
{
    reveal(written_or);
}

/// The secondary role of the UI palette takes the readable colour written for the palette seed
/// `interactive`; when none is written it falls back to its default source.
pub proof fn palette_secondary_takes_written_colour(v: UiThemeVariant, dark: bool)
    ensures
        parsed_opt(v.palette.interactive) is Some ==> palette_plan(v, dark).secondary == ColorSource::Written(parsed_opt(v.palette.interactive)->0, Some(PaletteRole::Background)),
        parsed_opt(v.palette.interactive) is None ==> palette_plan(v, dark).secondary == ColorSource::SameAs(PaletteRole::Info),
{
    reveal(written_or);
}

/// The text role of the UI palette takes the readable colour written for the theme key
/// `markdown-text`, else the theme key `text-base`, else the palette seed `ink`; when none is
/// written it falls back to its default source.
pub proof fn palette_text_takes_written_colour(v: UiThemeVariant, dark: bool)
    ensures
        override_color(v, "markdown-text"@) is Some ==> palette_plan(v, dark).text == ColorSource::Written(override_color(v, "markdown-text"@)->0, Some(PaletteRole::Background)),
        override_color(v, "markdown-text"@) is None && override_color(v, "text-base"@) is Some ==> palette_plan(v, dark).text == ColorSource::Written(override_color(v, "text-base"@)->0, Some(PaletteRole::Background)),
        override_color(v, "markdown-text"@) is None && override_color(v, "text-base"@) is None && parsed_opt(v.palette.ink) is Some ==> palette_plan(v, dark).text == ColorSource::Written(parsed_opt(v.palette.ink)->0, Some(PaletteRole::Background)),
        override_color(v, "markdown-text"@) is None && override_color(v, "text-base"@) is None && parsed_opt(v.palette.ink) is None ==> palette_plan(v, dark).text == ColorSource::SameAs(PaletteRole::Primary),
{
    reveal(written_or);
}

/// The text muted role of the UI palette takes the readable colour written for the theme key
/// `text-weak`; when none is written it falls back to its default source.
pub proof fn palette_text_muted_takes_written_colour(v: UiThemeVariant, dark: bool)
    ensures
        override_color(v, "text-weak"@) is Some ==> palette_plan(v, dark).text_muted == ColorSource::Written(override_color(v, "text-weak"@)->0, Some(PaletteRole::Background)),
        override_color(v, "text-weak"@) is None ==> palette_plan(v, dark).text_muted == ColorSource::Mix(PaletteRole::Background, PaletteRole::Text, if dark { 480 } else { 560 }),
{
    reveal(written_or);
}

/// The syntax comment role of the UI palette takes the readable colour written for the theme
/// key `syntax-comment`; when none is written it falls back to its default source.
pub proof fn palette_syntax_comment_takes_written_colour(v: UiThemeVariant, dark: bool)
    ensures
        override_color(v, "syntax-comment"@) is Some ==> palette_plan(v, dark).syntax_comment == ColorSource::Written(override_color(v, "syntax-comment"@)->0, Some(PaletteRole::Background)),
        override_color(v, "syntax-comment"@) is None ==> palette_plan(v, dark).syntax_comment == ColorSource::SameAs(PaletteRole::TextMuted),
{
    reveal(written_or);
}

/// The syntax keyword role of the UI palette takes the readable colour written for the theme
/// key `syntax-keyword`; when none is written it falls back to its default source.
pub proof fn palette_syntax_keyword_takes_written_colour(v: UiThemeVariant, dark: bool)
    ensures
        override_color(v, "syntax-keyword"@) is Some ==> palette_plan(v, dark).syntax_keyword == ColorSource::Written(override_color(v, "syntax-keyword"@)->0, Some(PaletteRole::Background)),
        override_color(v, "syntax-keyword"@) is None ==> palette_plan(v, dark).syntax_keyword == ColorSource::SameAs(PaletteRole::Accent),
{
    reveal(written_or);
}

/// The syntax function role of the UI palette takes the readable colour written for the theme
/// key `syntax-function`; when none is written it falls back to its default source.
pub proof fn palette_syntax_function_takes_written_colour(v: UiThemeVariant, dark: bool)
    ensures
        override_color(v, "syntax-function"@) is Some ==> palette_plan(v, dark).syntax_function == ColorSource::Written(override_color(v, "syntax-function"@)->0, Some(PaletteRole::Background)),
        override_color(v, "syntax-function"@) is None ==> palette_plan(v, dark).syntax_function == ColorSource::SameAs(PaletteRole::Warning),
{
    reveal(written_or);
}

/// The syntax string role of the UI palette takes the readable colour written for the theme key
/// `syntax-string`; when none is written it falls back to its default source.
pub proof fn palette_syntax_string_takes_written_colour(v: UiThemeVariant, dark: bool)
    ensures
        override_color(v, "syntax-string"@) is Some ==> palette_plan(v, dark).syntax_string == ColorSource::Written(override_color(v, "syntax-string"@)->0, Some(PaletteRole::Background)),
        override_color(v, "syntax-string"@) is None ==> palette_plan(v, dark).syntax_string == ColorSource::SameAs(PaletteRole::Primary),
{
    reveal(written_or);
}

/// The syntax number role of the UI palette takes the readable colour written for the theme key
/// `syntax-number`; when none is written it falls back to its default source.
pub proof fn palette_syntax_number_takes_written_colour(v: UiThemeVariant, dark: bool)
    ensures
        override_color(v, "syntax-number"@) is Some ==> palette_plan(v, dark).syntax_number == ColorSource::Written(override_color(v, "syntax-number"@)->0, Some(PaletteRole::Background)),
        override_color(v, "syntax-number"@) is None ==> palette_plan(v, dark).syntax_number == ColorSource::SameAs(PaletteRole::Error),
{
    reveal(written_or);
}

/// The syntax primitive role of the UI palette takes the readable colour written for the theme
/// key `syntax-primitive`; when none is written it falls back to its default source.
pub proof fn palette_syntax_primitive_takes_written_colour(v: UiThemeVariant, dark: bool)
    ensures
        override_color(v, "syntax-primitive"@) is Some ==> palette_plan(v, dark).syntax_primitive == ColorSource::Written(override_color(v, "syntax-primitive"@)->0, Some(PaletteRole::Background)),
        override_color(v, "syntax-primitive"@) is None ==> palette_plan(v, dark).syntax_primitive == ColorSource::SameAs(PaletteRole::SyntaxFunction),
{
    reveal(written_or);
}

/// The syntax variable role of the UI palette takes the readable colour written for the theme
/// key `syntax-variable`; when none is written it falls back to its default source.
pub proof fn palette_syntax_variable_takes_written_colour(v: UiThemeVariant, dark: bool)
    ensures
        override_color(v, "syntax-variable"@) is Some ==> palette_plan(v, dark).syntax_variable == ColorSource::Written(override_color(v, "syntax-variable"@)->0, Some(PaletteRole::Background)),
        override_color(v, "syntax-variable"@) is None ==> palette_plan(v, dark).syntax_variable == ColorSource::SameAs(PaletteRole::Text),
{
    reveal(written_or);
}

/// The syntax property role of the UI palette takes the readable colour written for the theme
/// key `syntax-property`; when none is written it falls back to its default source.
pub proof fn palette_syntax_property_takes_written_colour(v: UiThemeVariant, dark: bool)
    ensures
        override_color(v, "syntax-property"@) is Some ==> palette_plan(v, dark).syntax_property == ColorSource::Written(override_color(v, "syntax-property"@)->0, Some(PaletteRole::Background)),
        override_color(v, "syntax-property"@) is None ==> palette_plan(v, dark).syntax_property == ColorSource::SameAs(PaletteRole::Secondary),
{
    reveal(written_or);
}

/// The syntax type role of the UI palette takes the readable colour written for the theme key
/// `syntax-type`; when none is written it falls back to its default source.
pub proof fn palette_syntax_type_takes_written_colour(v: UiThemeVariant, dark: bool)
    ensures
        override_color(v, "syntax-type"@) is Some ==> palette_plan(v, dark).syntax_type == ColorSource::Written(override_color(v, "syntax-type"@)->0, Some(PaletteRole::Background)),
        override_color(v, "syntax-type"@) is None ==> palette_plan(v, dark).syntax_type == ColorSource::SameAs(PaletteRole::Warning),
{
    reveal(written_or);
}

/// The syntax constant role of the UI palette takes the readable colour written for the theme
/// key `syntax-constant`; when none is written it falls back to its default source.
pub proof fn palette_syntax_constant_takes_written_colour(v: UiThemeVariant, dark: bool)
    ensures
        override_color(v, "syntax-constant"@) is Some ==> palette_plan(v, dark).syntax_constant == ColorSource::Written(override_color(v, "syntax-constant"@)->0, Some(PaletteRole::Background)),
        override_color(v, "syntax-constant"@) is None ==> palette_plan(v, dark).syntax_constant == ColorSource::SameAs(PaletteRole::Warning),
{
    reveal(written_or);
}

/// The syntax operator role of the UI palette takes the readable colour written for the theme
/// key `syntax-operator`; when none is written it falls back to its default source.
pub proof fn palette_syntax_operator_takes_written_colour(v: UiThemeVariant, dark: bool)
    ensures
        override_color(v, "syntax-operator"@) is Some ==> palette_plan(v, dark).syntax_operator == ColorSource::Written(override_color(v, "syntax-operator"@)->0, Some(PaletteRole::Background)),
        override_color(v, "syntax-operator"@) is None ==> palette_plan(v, dark).syntax_operator == ColorSource::SameAs(PaletteRole::Secondary),
{
    reveal(written_or);
}

/// The syntax punctuation role of the UI palette takes the readable colour written for the
/// theme key `syntax-punctuation`; when none is written it falls back to its default source.
pub proof fn palette_syntax_punctuation_takes_written_colour(v: UiThemeVariant, dark: bool)
    ensures
        override_color(v, "syntax-punctuation"@) is Some ==> palette_plan(v, dark).syntax_punctuation == ColorSource::Written(override_color(v, "syntax-punctuation"@)->0, Some(PaletteRole::Background)),
        override_color(v, "syntax-punctuation"@) is None ==> palette_plan(v, dark).syntax_punctuation == ColorSource::SameAs(PaletteRole::Text),
{
    reveal(written_or);
}

/// The syntax object role of the UI palette takes the readable colour written for the theme key
/// `syntax-object`; when none is written it falls back to its default source.
pub proof fn palette_syntax_object_takes_written_colour(v: UiThemeVariant, dark: bool)
    ensures
        override_color(v, "syntax-object"@) is Some ==> palette_plan(v, dark).syntax_object == ColorSource::Written(override_color(v, "syntax-object"@)->0, Some(PaletteRole::Background)),
        override_color(v, "syntax-object"@) is None ==> palette_plan(v, dark).syntax_object == ColorSource::SameAs(PaletteRole::Text),
{
    reveal(written_or);
}

/// The code block text role of the UI palette takes the readable colour written for the theme
/// key `markdown-code-block`; when none is written it falls back to its default source.
pub proof fn palette_code_block_text_takes_written_colour(v: UiThemeVariant, dark: bool)
    ensures
        override_color(v, "markdown-code-block"@) is Some ==> palette_plan(v, dark).code_block_text == ColorSource::Written(override_color(v, "markdown-code-block"@)->0, Some(PaletteRole::Background)),
        override_color(v, "markdown-code-block"@) is None ==> palette_plan(v, dark).code_block_text == ColorSource::SameAs(PaletteRole::Text),
{
    reveal(written_or);
}

/// The background secondary role of the UI palette takes the readable colour written for the
/// theme key `background-panel`; when none is written it falls back to its default source.
pub proof fn palette_background_secondary_takes_written_colour(v: UiThemeVariant, dark: bool)
    ensures
        override_color(v, "background-panel"@) is Some ==> palette_plan(v, dark).background_secondary == ColorSource::Written(override_color(v, "background-panel"@)->0, Some(PaletteRole::Background)),
        override_color(v, "background-panel"@) is None ==> palette_plan(v, dark).background_secondary == ColorSource::Mix(PaletteRole::Background, PaletteRole::Text, if dark { 80 } else { 50 }),
{
    reveal(written_or);
}

/// The background deeper role of the UI palette takes the readable colour written for the theme
/// key `background-element`; when none is written it falls back to its default source.
pub proof fn palette_background_deeper_takes_written_colour(v: UiThemeVariant, dark: bool)
    ensures
        override_color(v, "background-element"@) is Some ==> palette_plan(v, dark).background_deeper == ColorSource::Written(override_color(v, "background-element"@)->0, Some(PaletteRole::Background)),
        override_color(v, "background-element"@) is None ==> palette_plan(v, dark).background_deeper == ColorSource::Mix(PaletteRole::Background, PaletteRole::Text, if dark { 140 } else { 90 }),
{
    reveal(written_or);
}

/// The markdown code role of the UI palette takes the readable colour written for the theme key
/// `markdown-code`; when none is written it falls back to its default source.
pub proof fn palette_markdown_code_takes_written_colour(v: UiThemeVariant, dark: bool)
    ensures
        override_color(v, "markdown-code"@) is Some ==> palette_plan(v, dark).markdown_code == ColorSource::Written(override_color(v, "markdown-code"@)->0, Some(PaletteRole::Background)),
        override_color(v, "markdown-code"@) is None ==> palette_plan(v, dark).markdown_code == ColorSource::SameAs(PaletteRole::Primary),
{
    reveal(written_or);
}

/// The border role of the UI palette takes the readable colour written for the theme key
/// `border`; when none is written it falls back to its default source.
pub proof fn palette_border_takes_written_colour(v: UiThemeVariant, dark: bool)
    ensures
        override_color(v, "border"@) is Some ==> palette_plan(v, dark).border == ColorSource::Written(override_color(v, "border"@)->0, Some(PaletteRole::Background)),
        override_color(v, "border"@) is None ==> palette_plan(v, dark).border == ColorSource::Mix(PaletteRole::Background, PaletteRole::Text, if dark { 180 } else { 200 }),
{
    reveal(written_or);
}

/// The diff add role of the UI palette takes the readable colour written for the theme key
/// `diff-added-bg`, else the palette seed `diff_add`; when none is written it falls back to its
/// default source.
pub proof fn palette_diff_add_takes_written_colour(v: UiThemeVariant, dark: bool)
    ensures
        override_color(v, "diff-added-bg"@) is Some ==> palette_plan(v, dark).diff_add == ColorSource::Written(override_color(v, "diff-added-bg"@)->0, Some(PaletteRole::CodeBlockBackground)),
        override_color(v, "diff-added-bg"@) is None && parsed_opt(v.palette.diff_add) is Some ==> palette_plan(v, dark).diff_add == ColorSource::Written(parsed_opt(v.palette.diff_add)->0, Some(PaletteRole::Background)),
        override_color(v, "diff-added-bg"@) is None && parsed_opt(v.palette.diff_add) is None ==> palette_plan(v, dark).diff_add == ColorSource::SameAs(PaletteRole::Success),
{
    reveal(written_or);
}

/// The diff delete role of the UI palette takes the readable colour written for the theme key
/// `diff-removed-bg`, else the palette seed `diff_delete`; when none is written it falls back
/// to its default source.
pub proof fn palette_diff_delete_takes_written_colour(v: UiThemeVariant, dark: bool)
    ensures
        override_color(v, "diff-removed-bg"@) is Some ==> palette_plan(v, dark).diff_delete == ColorSource::Written(override_color(v, "diff-removed-bg"@)->0, Some(PaletteRole::CodeBlockBackground)),
        override_color(v, "diff-removed-bg"@) is None && parsed_opt(v.palette.diff_delete) is Some ==> palette_plan(v, dark).diff_delete == ColorSource::Written(parsed_opt(v.palette.diff_delete)->0, Some(PaletteRole::Background)),
        override_color(v, "diff-removed-bg"@) is None && parsed_opt(v.palette.diff_delete) is None ==> palette_plan(v, dark).diff_delete == ColorSource::SameAs(PaletteRole::Error),
{
    reveal(written_or);
}

/// The markdown text role of the UI palette takes the readable colour written for the theme key
/// `markdown-text`; when none is written it falls back to its default source.
pub proof fn palette_markdown_text_takes_written_colour(v: UiThemeVariant, dark: bool)
    ensures
        override_color(v, "markdown-text"@) is Some ==> palette_plan(v, dark).markdown_text == ColorSource::Written(override_color(v, "markdown-text"@)->0, Some(PaletteRole::Background)),
        override_color(v, "markdown-text"@) is None ==> palette_plan(v, dark).markdown_text == ColorSource::SameAs(PaletteRole::Text),
{
    reveal(written_or);
}

/// The text emphasis role of the UI palette takes the readable colour written for the theme key
/// `markdown-strong`; when none is written it falls back to its default source.
pub proof fn palette_text_emphasis_takes_written_colour(v: UiThemeVariant, dark: bool)
    ensures
        override_color(v, "markdown-strong"@) is Some ==> palette_plan(v, dark).text_emphasis == ColorSource::Written(override_color(v, "markdown-strong"@)->0, Some(PaletteRole::Background)),
        override_color(v, "markdown-strong"@) is None ==> palette_plan(v, dark).text_emphasis == ColorSource::SameAs(PaletteRole::Warning),
{
    reveal(written_or);
}

/// The markdown heading role of the UI palette takes the readable colour written for the theme
/// key `markdown-heading`; when none is written it falls back to its default source.
pub proof fn palette_markdown_heading_takes_written_colour(v: UiThemeVariant, dark: bool)
    ensures
        override_color(v, "markdown-heading"@) is Some ==> palette_plan(v, dark).markdown_heading == ColorSource::Written(override_color(v, "markdown-heading"@)->0, Some(PaletteRole::Background)),
        override_color(v, "markdown-heading"@) is None ==> palette_plan(v, dark).markdown_heading == ColorSource::SameAs(PaletteRole::Secondary),
{
    reveal(written_or);
}

/// The markdown link role of the UI palette takes the readable colour written for the theme key
/// `markdown-link`; when none is written it falls back to its default source.
pub proof fn palette_markdown_link_takes_written_colour(v: UiThemeVariant, dark: bool)
    ensures
        override_color(v, "markdown-link"@) is Some ==> palette_plan(v, dark).markdown_link == ColorSource::Written(override_color(v, "markdown-link"@)->0, Some(PaletteRole::Background)),
        override_color(v, "markdown-link"@) is None ==> palette_plan(v, dark).markdown_link == ColorSource::SameAs(PaletteRole::Info),
{
    reveal(written_or);
}

/// The markdown link text role of the UI palette takes the readable colour written for the
/// theme key `markdown-link-text`; when none is written it falls back to its default source.
pub proof fn palette_markdown_link_text_takes_written_colour(v: UiThemeVariant, dark: bool)
    ensures
        override_color(v, "markdown-link-text"@) is Some ==> palette_plan(v, dark).markdown_link_text == ColorSource::Written(override_color(v, "markdown-link-text"@)->0, Some(PaletteRole::Background)),
        override_color(v, "markdown-link-text"@) is None ==> palette_plan(v, dark).markdown_link_text == ColorSource::SameAs(PaletteRole::Secondary),
{
    reveal(written_or);
}

/// The markdown blockquote role of the UI palette takes the readable colour written for the
/// theme key `markdown-block-quote`; when none is written it falls back to its default source.
pub proof fn palette_markdown_blockquote_takes_written_colour(v: UiThemeVariant, dark: bool)
    ensures
        override_color(v, "markdown-block-quote"@) is Some ==> palette_plan(v, dark).markdown_blockquote == ColorSource::Written(override_color(v, "markdown-block-quote"@)->0, Some(PaletteRole::Background)),
        override_color(v, "markdown-block-quote"@) is None ==> palette_plan(v, dark).markdown_blockquote == ColorSource::SameAs(PaletteRole::TextMuted),
{
    reveal(written_or);
}

/// The markdown emphasis role of the UI palette takes the readable colour written for the theme
/// key `markdown-emph`; when none is written it falls back to its default source.
pub proof fn palette_markdown_emphasis_takes_written_colour(v: UiThemeVariant, dark: bool)
    ensures
        override_color(v, "markdown-emph"@) is Some ==> palette_plan(v, dark).markdown_emphasis == ColorSource::Written(override_color(v, "markdown-emph"@)->0, Some(PaletteRole::Background)),
        override_color(v, "markdown-emph"@) is None ==> palette_plan(v, dark).markdown_emphasis == ColorSource::SameAs(PaletteRole::Accent),
{
    reveal(written_or);
}

/// The markdown strong role of the UI palette takes the readable colour written for the theme
/// key `markdown-strong`; when none is written it falls back to its default source.
pub proof fn palette_markdown_strong_takes_written_colour(v: UiThemeVariant, dark: bool)
    ensures
        override_color(v, "markdown-strong"@) is Some ==> palette_plan(v, dark).markdown_strong == ColorSource::Written(override_color(v, "markdown-strong"@)->0, Some(PaletteRole::Background)),
        override_color(v, "markdown-strong"@) is None ==> palette_plan(v, dark).markdown_strong == ColorSource::SameAs(PaletteRole::Warning),
{
    reveal(written_or);
}

/// The markdown horizontal rule role of the UI palette takes the readable colour written for
/// the theme key `markdown-horizontal-rule`; when none is written it falls back to its default
/// source.
pub proof fn palette_markdown_horizontal_rule_takes_written_colour(v: UiThemeVariant, dark: bool)
    ensures
        override_color(v, "markdown-horizontal-rule"@) is Some ==> palette_plan(v, dark).markdown_horizontal_rule == ColorSource::Written(override_color(v, "markdown-horizontal-rule"@)->0, Some(PaletteRole::Background)),
        override_color(v, "markdown-horizontal-rule"@) is None ==> palette_plan(v, dark).markdown_horizontal_rule == ColorSource::SameAs(PaletteRole::TextMuted),
{
    reveal(written_or);
}

/// The markdown list item role of the UI palette takes the readable colour written for the
/// theme key `markdown-list-item`; when none is written it falls back to its default source.
pub proof fn palette_markdown_list_item_takes_written_colour(v: UiThemeVariant, dark: bool)
    ensures
        override_color(v, "markdown-list-item"@) is Some ==> palette_plan(v, dark).markdown_list_item == ColorSource::Written(override_color(v, "markdown-list-item"@)->0, Some(PaletteRole::Background)),
        override_color(v, "markdown-list-item"@) is None ==> palette_plan(v, dark).markdown_list_item == ColorSource::SameAs(PaletteRole::Info),
{
    reveal(written_or);
}

/// The markdown list enumeration role of the UI palette takes the readable colour written for
/// the theme key `markdown-list-enumeration`; when none is written it falls back to its default
/// source.
pub proof fn palette_markdown_list_enumeration_takes_written_colour(v: UiThemeVariant, dark: bool)
    ensures
        override_color(v, "markdown-list-enumeration"@) is Some ==> palette_plan(v, dark).markdown_list_enumeration == ColorSource::Written(override_color(v, "markdown-list-enumeration"@)->0, Some(PaletteRole::Background)),
        override_color(v, "markdown-list-enumeration"@) is None ==> palette_plan(v, dark).markdown_list_enumeration == ColorSource::SameAs(PaletteRole::Secondary),
{
    reveal(written_or);
}

/// The background role of the syntax palette takes the readable colour written for the theme
/// key `background-base`, else the palette seed `neutral`; when none is written it falls back
/// to its default source.
pub proof fn syntax_background_takes_written_colour(v: UiThemeVariant, dark: bool)
    ensures
        override_color(v, "background-base"@) is Some ==> syntax_palette_plan(v, dark).background == ColorSource::Written(override_color(v, "background-base"@)->0, Option::<SyntaxRole>::None),
        override_color(v, "background-base"@) is None && parsed_hex(v.palette.neutral@) is Some ==> syntax_palette_plan(v, dark).background == ColorSource::Written(parsed_hex(v.palette.neutral@)->0, Option::<SyntaxRole>::None),
        override_color(v, "background-base"@) is None && parsed_hex(v.palette.neutral@) is None ==> syntax_palette_plan(v, dark).background == ColorSource::<SyntaxRole>::Fixed(10, 14, 10),
{
    reveal(written_or);
}

/// The primary role of the syntax palette takes the readable colour written for the palette
/// seed `primary`; when none is written it falls back to its default source.
pub proof fn syntax_primary_takes_written_colour(v: UiThemeVariant, dark: bool)
    ensures
        parsed_hex(v.palette.primary@) is Some ==> syntax_palette_plan(v, dark).primary == ColorSource::Written(parsed_hex(v.palette.primary@)->0, Some(SyntaxRole::Background)),
        parsed_hex(v.palette.primary@) is None ==> syntax_palette_plan(v, dark).primary == ColorSource::<SyntaxRole>::Fixed(46, 255, 106),
{
    reveal(written_or);
}

/// The accent role of the syntax palette takes the readable colour written for the palette seed
/// `accent`; when none is written it falls back to its default source.
pub proof fn syntax_accent_takes_written_colour(v: UiThemeVariant, dark: bool)
    ensures
        parsed_opt(v.palette.accent) is Some ==> syntax_palette_plan(v, dark).accent == ColorSource::Written(parsed_opt(v.palette.accent)->0, Some(SyntaxRole::Background)),
        parsed_opt(v.palette.accent) is None ==> syntax_palette_plan(v, dark).accent == ColorSource::<SyntaxRole>::Fixed(199, 112, 255),
{
    reveal(written_or);
}

/// The success role of the syntax palette takes the readable colour written for the palette
/// seed `success`; when none is written it falls back to its default source.
pub proof fn syntax_success_takes_written_colour(v: UiThemeVariant, dark: bool)
    ensures
        parsed_hex(v.palette.success@) is Some ==> syntax_palette_plan(v, dark).success == ColorSource::Written(parsed_hex(v.palette.success@)->0, Some(SyntaxRole::Background)),
        parsed_hex(v.palette.success@) is None ==> syntax_palette_plan(v, dark).success == ColorSource::<SyntaxRole>::Fixed(98, 255, 148),
{
    reveal(written_or);
}

/// The warning role of the syntax palette takes the readable colour written for the palette
/// seed `warning`; when none is written it falls back to its default source.
pub proof fn syntax_warning_takes_written_colour(v: UiThemeVariant, dark: bool)
    ensures
        parsed_hex(v.palette.warning@) is Some ==> syntax_palette_plan(v, dark).warning == ColorSource::Written(parsed_hex(v.palette.warning@)->0, Some(SyntaxRole::Background)),
        parsed_hex(v.palette.warning@) is None ==> syntax_palette_plan(v, dark).warning == ColorSource::<SyntaxRole>::Fixed(230, 255, 87),
{
    reveal(written_or);
}

/// The error role of the syntax palette takes the readable colour written for the palette seed
/// `error`; when none is written it falls back to its default source.
pub proof fn syntax_error_takes_written_colour(v: UiThemeVariant, dark: bool)
    ensures
        parsed_hex(v.palette.error@) is Some ==> syntax_palette_plan(v, dark).error == ColorSource::Written(parsed_hex(v.palette.error@)->0, Some(SyntaxRole::Background)),
        parsed_hex(v.palette.error@) is None ==> syntax_palette_plan(v, dark).error == ColorSource::<SyntaxRole>::Fixed(255, 75, 75),
{
    reveal(written_or);
}

/// The info role of the syntax palette takes the readable colour written for the palette seed
/// `info`; when none is written it falls back to its default source.
pub proof fn syntax_info_takes_written_colour(v: UiThemeVariant, dark: bool)
    ensures
        parsed_hex(v.palette.info@) is Some ==> syntax_palette_plan(v, dark).info == ColorSource::Written(parsed_hex(v.palette.info@)->0, Some(SyntaxRole::Background)),
        parsed_hex(v.palette.info@) is None ==> syntax_palette_plan(v, dark).info == ColorSource::<SyntaxRole>::Fixed(48, 179, 255),
{
    reveal(written_or);
}

/// The secondary role of the syntax palette takes the readable colour written for the palette
/// seed `interactive`; when none is written it falls back to its default source.
pub proof fn syntax_secondary_takes_written_colour(v: UiThemeVariant, dark: bool)
    ensures
        parsed_opt(v.palette.interactive) is Some ==> syntax_palette_plan(v, dark).secondary == ColorSource::Written(parsed_opt(v.palette.interactive)->0, Some(SyntaxRole::Background)),
        parsed_opt(v.palette.interactive) is None ==> syntax_palette_plan(v, dark).secondary == ColorSource::SameAs(SyntaxRole::Info),
{
    reveal(written_or);
}

/// The text role of the syntax palette takes the readable colour written for the theme key
/// `markdown-text`, else the theme key `text-base`, else the palette seed `ink`; when none is
/// written it falls back to its default source.
pub proof fn syntax_text_takes_written_colour(v: UiThemeVariant, dark: bool)
    ensures
        override_color(v, "markdown-text"@) is Some ==> syntax_palette_plan(v, dark).text == ColorSource::Written(override_color(v, "markdown-text"@)->0, Some(SyntaxRole::Background)),
        override_color(v, "markdown-text"@) is None && override_color(v, "text-base"@) is Some ==> syntax_palette_plan(v, dark).text == ColorSource::Written(override_color(v, "text-base"@)->0, Some(SyntaxRole::Background)),
        override_color(v, "markdown-text"@) is None && override_color(v, "text-base"@) is None && parsed_opt(v.palette.ink) is Some ==> syntax_palette_plan(v, dark).text == ColorSource::Written(parsed_opt(v.palette.ink)->0, Some(SyntaxRole::Background)),
        override_color(v, "markdown-text"@) is None && override_color(v, "text-base"@) is None && parsed_opt(v.palette.ink) is None ==> syntax_palette_plan(v, dark).text == ColorSource::SameAs(SyntaxRole::Primary),
{
    reveal(written_or);
}

/// The code block background role of the syntax palette takes the readable colour written for
/// the theme key `background-panel`; when none is written it falls back to its default source.
pub proof fn syntax_code_block_background_takes_written_colour(v: UiThemeVariant, dark: bool)
    ensures
        override_color(v, "background-panel"@) is Some ==> syntax_palette_plan(v, dark).code_block_background == ColorSource::Written(override_color(v, "background-panel"@)->0, Some(SyntaxRole::Background)),
        override_color(v, "background-panel"@) is None ==> syntax_palette_plan(v, dark).code_block_background == ColorSource::Mix(SyntaxRole::Background, SyntaxRole::Primary, if dark { 60 } else { 35 }),
{
    reveal(written_or);
}

/// The text muted role of the syntax palette takes the readable colour written for the theme
/// key `text-weak`; when none is written it falls back to its default source.
pub proof fn syntax_text_muted_takes_written_colour(v: UiThemeVariant, dark: bool)
    ensures
        override_color(v, "text-weak"@) is Some ==> syntax_palette_plan(v, dark).text_muted == ColorSource::Written(override_color(v, "text-weak"@)->0, Some(SyntaxRole::Background)),
        override_color(v, "text-weak"@) is None ==> syntax_palette_plan(v, dark).text_muted == ColorSource::Mix(SyntaxRole::Background, SyntaxRole::Text, if dark { 480 } else { 560 }),
{
    reveal(written_or);
}

/// The syntax comment role of the syntax palette takes the readable colour written for the
/// theme key `syntax-comment`; when none is written it falls back to its default source.
pub proof fn syntax_syntax_comment_takes_written_colour(v: UiThemeVariant, dark: bool)
    ensures
        override_color(v, "syntax-comment"@) is Some ==> syntax_palette_plan(v, dark).syntax_comment == ColorSource::Written(override_color(v, "syntax-comment"@)->0, Some(SyntaxRole::Background)),
        override_color(v, "syntax-comment"@) is None ==> syntax_palette_plan(v, dark).syntax_comment == ColorSource::SameAs(SyntaxRole::TextMuted),
{
    reveal(written_or);
}

/// The syntax keyword role of the syntax palette takes the readable colour written for the
/// theme key `syntax-keyword`; when none is written it falls back to its default source.
pub proof fn syntax_syntax_keyword_takes_written_colour(v: UiThemeVariant, dark: bool)
    ensures
        override_color(v, "syntax-keyword"@) is Some ==> syntax_palette_plan(v, dark).syntax_keyword == ColorSource::Written(override_color(v, "syntax-keyword"@)->0, Some(SyntaxRole::Background)),
        override_color(v, "syntax-keyword"@) is None ==> syntax_palette_plan(v, dark).syntax_keyword == ColorSource::SameAs(SyntaxRole::Accent),
{
    reveal(written_or);
}

/// The syntax function role of the syntax palette takes the readable colour written for the
/// theme key `syntax-function`; when none is written it falls back to its default source.
pub proof fn syntax_syntax_function_takes_written_colour(v: UiThemeVariant, dark: bool)
    ensures
        override_color(v, "syntax-function"@) is Some ==> syntax_palette_plan(v, dark).syntax_function == ColorSource::Written(override_color(v, "syntax-function"@)->0, Some(SyntaxRole::Background)),
        override_color(v, "syntax-function"@) is None ==> syntax_palette_plan(v, dark).syntax_function == ColorSource::SameAs(SyntaxRole::Warning),
{
    reveal(written_or);
}

/// The syntax string role of the syntax palette takes the readable colour written for the theme
/// key `syntax-string`; when none is written it falls back to its default source.
pub proof fn syntax_syntax_string_takes_written_colour(v: UiThemeVariant, dark: bool)
    ensures
        override_color(v, "syntax-string"@) is Some ==> syntax_palette_plan(v, dark).syntax_string == ColorSource::Written(override_color(v, "syntax-string"@)->0, Some(SyntaxRole::Background)),
        override_color(v, "syntax-string"@) is None ==> syntax_palette_plan(v, dark).syntax_string == ColorSource::SameAs(SyntaxRole::Primary),
{
    reveal(written_or);
}

/// The syntax number role of the syntax palette takes the readable colour written for the theme
/// key `syntax-number`; when none is written it falls back to its default source.
pub proof fn syntax_syntax_number_takes_written_colour(v: UiThemeVariant, dark: bool)
    ensures
        override_color(v, "syntax-number"@) is Some ==> syntax_palette_plan(v, dark).syntax_number == ColorSource::Written(override_color(v, "syntax-number"@)->0, Some(SyntaxRole::Background)),
        override_color(v, "syntax-number"@) is None ==> syntax_palette_plan(v, dark).syntax_number == ColorSource::SameAs(SyntaxRole::Error),
{
    reveal(written_or);
}

/// The syntax primitive role of the syntax palette takes the readable colour written for the
/// theme key `syntax-primitive`; when none is written it falls back to its default source.
pub proof fn syntax_syntax_primitive_takes_written_colour(v: UiThemeVariant, dark: bool)
    ensures
        override_color(v, "syntax-primitive"@) is Some ==> syntax_palette_plan(v, dark).syntax_primitive == ColorSource::Written(override_color(v, "syntax-primitive"@)->0, Some(SyntaxRole::Background)),
        override_color(v, "syntax-primitive"@) is None ==> syntax_palette_plan(v, dark).syntax_primitive == ColorSource::SameAs(SyntaxRole::SyntaxFunction),
{
    reveal(written_or);
}

/// The syntax variable role of the syntax palette takes the readable colour written for the
/// theme key `syntax-variable`; when none is written it falls back to its default source.
pub proof fn syntax_syntax_variable_takes_written_colour(v: UiThemeVariant, dark: bool)
    ensures
        override_color(v, "syntax-variable"@) is Some ==> syntax_palette_plan(v, dark).syntax_variable == ColorSource::Written(override_color(v, "syntax-variable"@)->0, Some(SyntaxRole::Background)),
        override_color(v, "syntax-variable"@) is None ==> syntax_palette_plan(v, dark).syntax_variable == ColorSource::SameAs(SyntaxRole::Text),
{
    reveal(written_or);
}

/// The syntax property role of the syntax palette takes the readable colour written for the
/// theme key `syntax-property`; when none is written it falls back to its default source.
pub proof fn syntax_syntax_property_takes_written_colour(v: UiThemeVariant, dark: bool)
    ensures
        override_color(v, "syntax-property"@) is Some ==> syntax_palette_plan(v, dark).syntax_property == ColorSource::Written(override_color(v, "syntax-property"@)->0, Some(SyntaxRole::Background)),
        override_color(v, "syntax-property"@) is None ==> syntax_palette_plan(v, dark).syntax_property == ColorSource::SameAs(SyntaxRole::Secondary),
{
    reveal(written_or);
}

/// The syntax type role of the syntax palette takes the readable colour written for the theme
/// key `syntax-type`; when none is written it falls back to its default source.
pub proof fn syntax_syntax_type_takes_written_colour(v: UiThemeVariant, dark: bool)
    ensures
        override_color(v, "syntax-type"@) is Some ==> syntax_palette_plan(v, dark).syntax_type == ColorSource::Written(override_color(v, "syntax-type"@)->0, Some(SyntaxRole::Background)),
        override_color(v, "syntax-type"@) is None ==> syntax_palette_plan(v, dark).syntax_type == ColorSource::SameAs(SyntaxRole::Warning),
{
    reveal(written_or);
}

/// The syntax constant role of the syntax palette takes the readable colour written for the
/// theme key `syntax-constant`; when none is written it falls back to its default source.
pub proof fn syntax_syntax_constant_takes_written_colour(v: UiThemeVariant, dark: bool)
    ensures
        override_color(v, "syntax-constant"@) is Some ==> syntax_palette_plan(v, dark).syntax_constant == ColorSource::Written(override_color(v, "syntax-constant"@)->0, Some(SyntaxRole::Background)),
        override_color(v, "syntax-constant"@) is None ==> syntax_palette_plan(v, dark).syntax_constant == ColorSource::SameAs(SyntaxRole::Warning),
{
    reveal(written_or);
}

/// The syntax operator role of the syntax palette takes the readable colour written for the
/// theme key `syntax-operator`; when none is written it falls back to its default source.
pub proof fn syntax_syntax_operator_takes_written_colour(v: UiThemeVariant, dark: bool)
    ensures
        override_color(v, "syntax-operator"@) is Some ==> syntax_palette_plan(v, dark).syntax_operator == ColorSource::Written(override_color(v, "syntax-operator"@)->0, Some(SyntaxRole::Background)),
        override_color(v, "syntax-operator"@) is None ==> syntax_palette_plan(v, dark).syntax_operator == ColorSource::SameAs(SyntaxRole::Secondary),
{
    reveal(written_or);
}

/// The syntax punctuation role of the syntax palette takes the readable colour written for the
/// theme key `syntax-punctuation`; when none is written it falls back to its default source.
pub proof fn syntax_syntax_punctuation_takes_written_colour(v: UiThemeVariant, dark: bool)
    ensures
        override_color(v, "syntax-punctuation"@) is Some ==> syntax_palette_plan(v, dark).syntax_punctuation == ColorSource::Written(override_color(v, "syntax-punctuation"@)->0, Some(SyntaxRole::Background)),
        override_color(v, "syntax-punctuation"@) is None ==> syntax_palette_plan(v, dark).syntax_punctuation == ColorSource::SameAs(SyntaxRole::Text),
{
    reveal(written_or);
}

/// The syntax object role of the syntax palette takes the readable colour written for the theme
/// key `syntax-object`; when none is written it falls back to its default source.
pub proof fn syntax_syntax_object_takes_written_colour(v: UiThemeVariant, dark: bool)
    ensures
        override_color(v, "syntax-object"@) is Some ==> syntax_palette_plan(v, dark).syntax_object == ColorSource::Written(override_color(v, "syntax-object"@)->0, Some(SyntaxRole::Background)),
        override_color(v, "syntax-object"@) is None ==> syntax_palette_plan(v, dark).syntax_object == ColorSource::SameAs(SyntaxRole::Text),
{
    reveal(written_or);
}

/// The code block text role of the syntax palette takes the readable colour written for the
/// theme key `markdown-code-block`; when none is written it falls back to its default source.
pub proof fn syntax_code_block_text_takes_written_colour(v: UiThemeVariant, dark: bool)
    ensures
        override_color(v, "markdown-code-block"@) is Some ==> syntax_palette_plan(v, dark).code_block_text == ColorSource::Written(override_color(v, "markdown-code-block"@)->0, Some(SyntaxRole::Background)),
        override_color(v, "markdown-code-block"@) is None ==> syntax_palette_plan(v, dark).code_block_text == ColorSource::SameAs(SyntaxRole::Text),
{
    reveal(written_or);
}

/// The diff add role of the syntax palette takes the readable colour written for the theme key
/// `diff-added-bg`, else the palette seed `diff_add`; when none is written it falls back to its
/// default source.
pub proof fn syntax_diff_add_takes_written_colour(v: UiThemeVariant, dark: bool)
    ensures
        override_color(v, "diff-added-bg"@) is Some ==> syntax_palette_plan(v, dark).diff_add == ColorSource::Written(override_color(v, "diff-added-bg"@)->0, Some(SyntaxRole::CodeBlockBackground)),
        override_color(v, "diff-added-bg"@) is None && parsed_opt(v.palette.diff_add) is Some ==> syntax_palette_plan(v, dark).diff_add == ColorSource::Written(parsed_opt(v.palette.diff_add)->0, Some(SyntaxRole::Background)),
        override_color(v, "diff-added-bg"@) is None && parsed_opt(v.palette.diff_add) is None ==> syntax_palette_plan(v, dark).diff_add == ColorSource::SameAs(SyntaxRole::Success),
{
    reveal(written_or);
}

/// The diff delete role of the syntax palette takes the readable colour written for the theme
/// key `diff-removed-bg`, else the palette seed `diff_delete`; when none is written it falls
/// back to its default source.
pub proof fn syntax_diff_delete_takes_written_colour(v: UiThemeVariant, dark: bool)
    ensures
        override_color(v, "diff-removed-bg"@) is Some ==> syntax_palette_plan(v, dark).diff_delete == ColorSource::Written(override_color(v, "diff-removed-bg"@)->0, Some(SyntaxRole::CodeBlockBackground)),
        override_color(v, "diff-removed-bg"@) is None && parsed_opt(v.palette.diff_delete) is Some ==> syntax_palette_plan(v, dark).diff_delete == ColorSource::Written(parsed_opt(v.palette.diff_delete)->0, Some(SyntaxRole::Background)),
        override_color(v, "diff-removed-bg"@) is None && parsed_opt(v.palette.diff_delete) is None ==> syntax_palette_plan(v, dark).diff_delete == ColorSource::SameAs(SyntaxRole::Error),
{
    reveal(written_or);
}

/// The diff context role of the syntax palette takes the readable colour written for the theme
/// key `diff-context-bg`; when none is written it falls back to its default source.
pub proof fn syntax_diff_context_takes_written_colour(v: UiThemeVariant, dark: bool)
    ensures
        override_color(v, "diff-context-bg"@) is Some ==> syntax_palette_plan(v, dark).diff_context == ColorSource::Written(override_color(v, "diff-context-bg"@)->0, Some(SyntaxRole::CodeBlockBackground)),
        override_color(v, "diff-context-bg"@) is None ==> syntax_palette_plan(v, dark).diff_context == ColorSource::SameAs(SyntaxRole::BackgroundSecondary),
{
    reveal(written_or);
}


} // verus!
