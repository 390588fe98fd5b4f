//! One embedded font and the `@font-face` rule that carries it.

use vstd::prelude::*;
use vstd::string::StringExecFns;
use crate::encoding::{base64_len, base64_text, encode_standard};

verus! {

/// A font as the style sheet holds it: its bytes as base64 text and the two
/// spellings of its format, where the format has a short name.
pub(crate) struct Font {
    base64: String,
    mime_subtype: Option<String>,
    format_name: Option<String>,
}

/// A [`Font`] as mathematical text.
pub struct FontView {
    /// The base64 text of the bytes of the font.
    pub base64: Seq<char>,
    /// The short name of the format in lower case, as the media type
    /// `font/..` wants it; `None` for a format without a short name.
    pub mime_subtype: Option<Seq<char>>,
    /// The short name of the format as detection gave it, for the
    /// `format(..)` hint; `None` for a format without a short name.
    pub format_name: Option<Seq<char>>,
}

/// The text of `text`, if there is one.
pub open spec fn text_of(text: Option<String>) -> Option<Seq<char>> {
    match text {
        Some(text) => Some(text@),
        None => None,
    }
}

impl View for Font {
    type V = FontView;

    closed spec fn view(&self) -> FontView {
        FontView {
            base64: self.base64@,
            mime_subtype: text_of(self.mime_subtype),
            format_name: text_of(self.format_name),
        }
    }
}

/// What `str::to_lowercase` gives for `text`.
pub uninterp spec fn lowercase_text(text: Seq<char>) -> Seq<char>;

/// Puts `text` in lower case with `str::to_lowercase`.
///
/// Trusted: the result depends on the text alone. Which characters change, by
/// the Unicode rules that the function follows, is not stated.
#[verifier::external_body]
pub(crate) fn lowercase(text: &str) -> (lower: String)
    ensures
        lower@ == lowercase_text(text@),
{
    text.to_lowercase()
}

/// The font that embedding `bytes` gives where detection gave their format
/// the short name `short_name`, or none.
pub open spec fn embedded_font(bytes: Seq<u8>, short_name: Option<Seq<char>>) -> FontView {
    FontView {
        base64: base64_text(bytes),
        mime_subtype: match short_name {
            Some(name) => Some(lowercase_text(name)),
            None => None,
        },
        format_name: short_name,
    }
}

/// Whether `font` can be written as a rule: whether its format has a short
/// name, which the rule names twice.
pub open spec fn has_format(font: FontView) -> bool {
    font.mime_subtype is Some && font.format_name is Some
}

/// The text of every rule before its family name.
pub open spec fn rule_opening() -> Seq<char> {
    "@font-face {\n    font-family: '"@
}

/// The text of the rule of `font` between its family name and its base64
/// text.
pub open spec fn rule_source_lead(font: FontView) -> Seq<char> {
    "';\n    src: url(data:font/"@ + font.mime_subtype.unwrap() + ";base64,"@
}

/// The text of the rule of `font` after its base64 text.
pub open spec fn rule_closing(font: FontView) -> Seq<char> {
    ") format('"@ + font.format_name.unwrap() + "');\n}\n"@
}

/// The text of the rule of `font` after its family name.
pub open spec fn rule_remainder(font: FontView) -> Seq<char> {
    rule_source_lead(font) + font.base64 + rule_closing(font)
}

/// The `@font-face` rule that binds `family` to `font`, for a font whose
/// format has a short name:
///
/// ```text
/// @font-face {
///     font-family: '<family>';
///     src: url(data:font/<mime_subtype>;base64,<base64>) format('<format_name>');
/// }
/// ```
///
/// Each of the four lines ends with a line feed.
pub open spec fn font_face_rule(font: FontView, family: Seq<char>) -> Seq<char> {
    rule_opening() + family + rule_remainder(font)
}

/// Where the base64 text begins in the rule of `font` for `family`.
pub open spec fn payload_start(font: FontView, family: Seq<char>) -> int {
    (rule_opening() + family + rule_source_lead(font)).len() as int
}

/// The rule of a font holds the base64 text of the font, whole and unchanged,
/// from `payload_start` on.
pub proof fn lemma_rule_holds_payload(font: FontView, family: Seq<char>)
    ensures
        0 <= payload_start(font, family),
        payload_start(font, family) + font.base64.len() <= font_face_rule(font, family).len(),
        font_face_rule(font, family).subrange(
            payload_start(font, family),
            payload_start(font, family) + font.base64.len(),
        ) == font.base64,
{
}

impl Font {
    /// Encodes `bytes` and keeps them with the short name of their format,
    /// as it is and in lower case.
    pub(crate) fn embed(bytes: &[u8], short_name: &Option<String>) -> (font: Font)
        requires
            base64_len(bytes@.len()) <= usize::MAX,
        ensures
            font@ == embedded_font(bytes@, text_of(*short_name)),
    {
        let base64 = encode_standard(bytes);
        match short_name {
            Some(name) => Font {
                base64,
                mime_subtype: Some(lowercase(name.as_str())),
                format_name: Some(name.clone()),
            },
            None => Font { base64, mime_subtype: None, format_name: None },
        }
    }

    /// Returns whether the format of this font has a short name.
    pub(crate) fn has_format(&self) -> (named: bool)
        ensures
            named == has_format(self@),
    {
        self.mime_subtype.is_some() && self.format_name.is_some()
    }

    /// Writes the `@font-face` rule of this font for the family name `family`.
    pub(crate) fn rule(&self, family: &str) -> (text: String)
        requires
            has_format(self@),
        ensures
            text@ == font_face_rule(self@, family@),
    {
        let mut text = "@font-face {\n    font-family: '".to_owned();
        text.append(family);
        text.append("';\n    src: url(data:font/");
        match &self.mime_subtype {
            Some(mime_subtype) => text.append(mime_subtype.as_str()),
            None => {},
        }
        text.append(";base64,");
        text.append(self.base64.as_str());
        text.append(") format('");
        match &self.format_name {
            Some(format_name) => text.append(format_name.as_str()),
            None => {},
        }
        text.append("');\n}\n");
        text
    }
}

} // verus!
