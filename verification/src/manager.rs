//! The fonts of one style sheet.

use vstd::prelude::*;
use vstd::string::StringExecFns;
use crate::detect::{detect, font_kind, is_font, Detection, detected_short_name};
use crate::encoding::{base64_bytes, base64_len, lemma_decoding_restores_bytes};
use crate::error::FontError;
use crate::family::{fresh_family_name, is_family_name};
use crate::font::{
    embedded_font, font_face_rule, has_format, lemma_rule_holds_payload, payload_start,
    rule_opening, rule_remainder, Font, FontView,
};

verus! {

/// The font that registering `bytes` adds: their base64 text with the short
/// name that detection gives their format, where it gives one.
pub open spec fn registered_font(bytes: Seq<u8>) -> FontView {
    embedded_font(bytes, detected_short_name(bytes))
}

/// Whether `font` is what embedding some bytes gives: its base64 text is the
/// text of those bytes, and its two spellings of the format are one short name
/// as it is and in lower case, or both absent.
pub open spec fn is_embedded_font(font: FontView) -> bool {
    exists|bytes: Seq<u8>| font == #[trigger] embedded_font(bytes, font.format_name)
}

/// Whether every font of `fonts` is what embedding some bytes gives.
pub open spec fn all_embedded(fonts: Seq<FontView>) -> bool {
    forall|i: int| 0 <= i < fonts.len() ==> is_embedded_font(#[trigger] fonts[i])
}

/// Whether `fonts` can be written as a style sheet: whether the format of
/// every font has a short name.
pub open spec fn renderable(fonts: Seq<FontView>) -> bool {
    forall|i: int| 0 <= i < fonts.len() ==> has_format(#[trigger] fonts[i])
}

/// The style sheet for `fonts` under the family name `family`: the rule of
/// each font, in the order of `fonts`.
pub open spec fn style_sheet(fonts: Seq<FontView>, family: Seq<char>) -> Seq<char>
    decreases fonts.len(),
{
    if fonts.len() == 0 {
        Seq::empty()
    } else {
        style_sheet(fonts.drop_last(), family) + font_face_rule(fonts.last(), family)
    }
}

/// Where the rule of the font at `index` begins in the style sheet: behind
/// the rules of the fonts before it.
pub open spec fn rule_start(fonts: Seq<FontView>, family: Seq<char>, index: int) -> int {
    style_sheet(fonts.take(index), family).len() as int
}

/// The style sheet of two runs of fonts is the style sheet of the first
/// followed by that of the second.
pub proof fn lemma_style_sheet_concat(
    first: Seq<FontView>,
    second: Seq<FontView>,
    family: Seq<char>,
)
    ensures
        style_sheet(first + second, family) == style_sheet(first, family) + style_sheet(
            second,
            family,
        ),
    decreases second.len(),
{
    if second.len() == 0 {
        assert(first + second =~= first);
    } else {
        assert((first + second).drop_last() =~= first + second.drop_last());
        lemma_style_sheet_concat(first, second.drop_last(), family);
    }
}

/// A style sheet holds one rule for each font, in the order of the fonts: the
/// rule of the font at `index` stands from `rule_start` of `index` up to
/// `rule_start` of the next index, and the last rule ends the sheet.
pub proof fn lemma_rule_in_sheet(fonts: Seq<FontView>, family: Seq<char>, index: int)
    requires
        0 <= index < fonts.len(),
    ensures
        0 <= rule_start(fonts, family, index) <= rule_start(fonts, family, index + 1)
            <= style_sheet(fonts, family).len(),
        style_sheet(fonts, family).subrange(
            rule_start(fonts, family, index),
            rule_start(fonts, family, index + 1),
        ) == font_face_rule(fonts[index], family),
        rule_start(fonts, family, 0) == 0,
        rule_start(fonts, family, fonts.len() as int) == style_sheet(fonts, family).len(),
{
    let before = style_sheet(fonts.take(index), family);
    let rule = font_face_rule(fonts[index], family);
    let after = style_sheet(fonts.skip(index + 1), family);
    assert(fonts.take(index + 1).drop_last() =~= fonts.take(index));
    assert(fonts =~= fonts.take(index + 1) + fonts.skip(index + 1));
    lemma_style_sheet_concat(fonts.take(index + 1), fonts.skip(index + 1), family);
    assert(((before + rule) + after).subrange(
        before.len() as int,
        (before.len() + rule.len()) as int,
    ) =~= rule);
    assert(fonts.take(fonts.len() as int) =~= fonts);
}

/// The same fonts under two family names give the same style sheet but for
/// the names: rule for rule, both sheets have the same opening before the
/// name and the same remainder after it.
pub proof fn lemma_family_is_the_only_difference(
    fonts: Seq<FontView>,
    first: Seq<char>,
    second: Seq<char>,
    index: int,
)
    requires
        0 <= index < fonts.len(),
    ensures
        style_sheet(fonts, first).subrange(
            rule_start(fonts, first, index),
            rule_start(fonts, first, index + 1),
        ) == rule_opening() + first + rule_remainder(fonts[index]),
        style_sheet(fonts, second).subrange(
            rule_start(fonts, second, index),
            rule_start(fonts, second, index + 1),
        ) == rule_opening() + second + rule_remainder(fonts[index]),
{
    lemma_rule_in_sheet(fonts, first, index);
    lemma_rule_in_sheet(fonts, second, index);
}

/// The bytes of an embedded font can be read back from its rule: the rule
/// holds the base64 text of the font from `payload_start` on, and decoding
/// that text gives the bytes that were embedded.
pub proof fn lemma_rule_restores_bytes(
    bytes: Seq<u8>,
    short_name: Option<Seq<char>>,
    family: Seq<char>,
)
    ensures
        ({
            let font = embedded_font(bytes, short_name);
            let start = payload_start(font, family);
            let payload = font_face_rule(font, family).subrange(
                start,
                start + font.base64.len(),
            );
            base64_bytes(payload) == Some(bytes)
        }),
{
    lemma_rule_holds_payload(embedded_font(bytes, short_name), family);
    lemma_decoding_restores_bytes(bytes);
}

/// Every font of a manager carries the bytes of a file: decoding its base64
/// text gives bytes, and embedding those bytes with the short name of the
/// font gives this very font.
pub proof fn lemma_embedded_payload_decodes(font: FontView)
    requires
        is_embedded_font(font),
    ensures
        base64_bytes(font.base64) matches Some(bytes) && font == embedded_font(
            bytes,
            font.format_name,
        ),
{
    let bytes = choose|bytes: Seq<u8>| font == #[trigger] embedded_font(bytes, font.format_name);
    lemma_decoding_restores_bytes(bytes);
}

/// Collects fonts and renders them as one style sheet.
///
/// The fonts stay in the order in which they were added. Only files of the
/// font kind get in.
pub struct FontManager {
    fonts: Vec<Font>,
}

impl View for FontManager {
    type V = Seq<FontView>;

    closed spec fn view(&self) -> Seq<FontView> {
        self.fonts@.map_values(|font: Font| font@)
    }
}

impl FontManager {
    #[verifier::type_invariant]
    spec fn holds_embedded_fonts(&self) -> bool {
        all_embedded(self@)
    }

    /// Makes a manager without fonts.
    pub fn new() -> (manager: FontManager)
        ensures
            manager@ == Seq::<FontView>::empty(),
    {
        FontManager { fonts: Vec::new() }
    }

    /// Registers the font whose file holds `bytes`.
    ///
    /// Succeeds exactly when detection takes the bytes for a font, and then
    /// adds `registered_font(bytes)` behind the fonts already there. Bytes of
    /// any other kind are refused as `InvalidFont`, and the manager stays as
    /// it was.
    pub fn add_font(&mut self, bytes: &[u8]) -> (done: Result<(), FontError>)
        requires
            base64_len(bytes@.len()) <= usize::MAX,
        ensures
            is_font(bytes@) ==> {
                &&& done == Ok::<(), FontError>(())
                &&& final(self)@ == old(self)@.push(registered_font(bytes@))
                &&& final(self)@.len() == old(self)@.len() + 1
            },
            !is_font(bytes@) ==> {
                &&& done == Err::<(), FontError>(FontError::InvalidFont)
                &&& final(self)@ == old(self)@
            },
    {
        let found = detect(bytes);
        self.add_detected(bytes, &found)
    }

    /// Registers the font whose file holds `bytes`, given what detection
    /// found of them.
    ///
    /// Succeeds exactly when `found` is of the font kind, and then adds the
    /// bytes, embedded with the short name of `found`, behind the fonts
    /// already there. Any other kind is refused as `InvalidFont`, and the
    /// manager stays as it was.
    pub fn add_detected(&mut self, bytes: &[u8], found: &Detection) -> (done: Result<
        (),
        FontError,
    >)
        requires
            base64_len(bytes@.len()) <= usize::MAX,
        ensures
            found@.kind == font_kind() ==> {
                &&& done == Ok::<(), FontError>(())
                &&& final(self)@ == old(self)@.push(embedded_font(bytes@, found@.short_name))
                &&& final(self)@.len() == old(self)@.len() + 1
            },
            found@.kind != font_kind() ==> {
                &&& done == Err::<(), FontError>(FontError::InvalidFont)
                &&& final(self)@ == old(self)@
            },
    {
        if !found.is_font() {
            return Err(FontError::InvalidFont);
        }
        let font = Font::embed(bytes, &found.short_name);
        proof {
            use_type_invariant(&*self);
        }
        // `push` may unwind, so the fonts are taken out while one is added.
        let mut fonts: Vec<Font> = Vec::new();
        core::mem::swap(&mut self.fonts, &mut fonts);
        fonts.push(font);
        proof {
            let added = fonts@.map_values(|font: Font| font@);
            assert(added =~= old(self)@.push(embedded_font(bytes@, found@.short_name)));
        }
        self.fonts = fonts;
        Ok(())
    }

    /// Registers a font from what reading its file gave: the bytes, or `None`
    /// where the file could not be read.
    ///
    /// `None` is refused as `FileNotFound`; bytes are handled as `add_font`
    /// handles them. A refusal leaves the manager as it was.
    pub fn add_font_from(&mut self, source: Option<&[u8]>) -> (done: Result<(), FontError>)
        requires
            source matches Some(bytes) ==> base64_len(bytes@.len()) <= usize::MAX,
        ensures
            source is None ==> {
                &&& done == Err::<(), FontError>(FontError::FileNotFound)
                &&& final(self)@ == old(self)@
            },
            source matches Some(bytes) ==> {
                &&& is_font(bytes@) ==> {
                    &&& done == Ok::<(), FontError>(())
                    &&& final(self)@ == old(self)@.push(registered_font(bytes@))
                    &&& final(self)@.len() == old(self)@.len() + 1
                }
                &&& !is_font(bytes@) ==> {
                    &&& done == Err::<(), FontError>(FontError::InvalidFont)
                    &&& final(self)@ == old(self)@
                }
            },
    {
        match source {
            None => Err(FontError::FileNotFound),
            Some(bytes) => self.add_font(bytes),
        }
    }

    /// Returns the number of fonts.
    pub fn count(&self) -> (n: usize)
        ensures
            n == self@.len(),
    {
        self.fonts.len()
    }

    /// Returns whether there is no font.
    pub fn is_empty(&self) -> (empty: bool)
        ensures
            empty == (self@.len() == 0),
    {
        self.fonts.len() == 0
    }

    /// Removes every font.
    pub fn clear(&mut self)
        ensures
            final(self)@ == Seq::<FontView>::empty(),
    {
        self.fonts = Vec::new();
    }

    /// Returns whether the fonts can be written as a style sheet: whether the
    /// format of every font has a short name.
    pub fn is_renderable(&self) -> (ok: bool)
        ensures
            ok == renderable(self@),
    {
        let mut i: usize = 0;
        while i < self.fonts.len()
            invariant
                i <= self.fonts.len(),
                forall|j: int| 0 <= j < i ==> has_format(#[trigger] self@[j]),
            decreases self.fonts.len() - i,
        {
            if !self.fonts[i].has_format() {
                proof {
                    assert(!has_format(self@[i as int]));
                }
                return false;
            }
            i += 1;
        }
        true
    }

    /// Writes the style sheet of the fonts under the family name `family`:
    /// one `@font-face` rule for each font, in the order in which the fonts
    /// were added, and nothing for no font.
    ///
    /// A rule names the short name of its format, so every font must have
    /// one; `is_renderable` tells.
    pub fn style_sheet(&self, family: &str) -> (css: String)
        requires
            renderable(self@),
        ensures
            css@ == style_sheet(self@, family@),
            self@.len() == 0 ==> css@ == Seq::<char>::empty(),
            all_embedded(self@),
    {
        proof {
            use_type_invariant(self);
        }
        let mut css = String::new();
        let mut i: usize = 0;
        while i < self.fonts.len()
            invariant
                i <= self.fonts.len(),
                renderable(self@),
                css@ == style_sheet(self@.take(i as int), family@),
            decreases self.fonts.len() - i,
        {
            proof {
                assert(has_format(self@[i as int]));
            }
            let rule = self.fonts[i].rule(family);
            css.append(rule.as_str());
            proof {
                assert(self@.take(i + 1).drop_last() =~= self@.take(i as int));
            }
            i += 1;
        }
        proof {
            assert(self@.take(i as int) =~= self@);
        }
        css
    }

    /// Renders the fonts under a fresh family name and returns the style sheet
    /// and the name, in that order.
    ///
    /// The name is new with every call, whatever the fonts are. The style
    /// sheet is `style_sheet` of the fonts under that name, so it is empty for
    /// no font. As for `style_sheet`, every font must have a short name.
    pub fn generate_style(self) -> (sheet: (String, String))
        requires
            renderable(self@),
        ensures
            is_family_name(sheet.1@),
            sheet.1@.len() > 0,
            sheet.0@ == style_sheet(self@, sheet.1@),
            self@.len() == 0 ==> sheet.0@ == Seq::<char>::empty(),
            all_embedded(self@),
    {
        let family = fresh_family_name();
        let css = self.style_sheet(family.as_str());
        (css, family)
    }
}

} // verus!
