//! What a byte sequence is, as far as format detection tells.
//!
//! Detection is the work of the `file-format` crate. This module holds its
//! answer as plain text and decides from it whether a file is a font: a file
//! is a font when its format is of the font kind, with or without a short
//! name.

use vstd::prelude::*;

verus! {

/// What format detection reports of a byte sequence.
pub struct Detection {
    /// The name of the broad category of the format, such as `Font` or `Image`.
    pub kind: String,
    /// The abbreviation of the format, such as `TTF`, where it has one.
    pub short_name: Option<String>,
}

/// A [`Detection`] as mathematical text.
pub struct DetectionView {
    /// The name of the kind of the format.
    pub kind: Seq<char>,
    /// The short name of the format, where it has one.
    pub short_name: Option<Seq<char>>,
}

impl View for Detection {
    type V = DetectionView;

    open spec fn view(&self) -> DetectionView {
        DetectionView {
            kind: self.kind@,
            short_name: match self.short_name {
                Some(name) => Some(name@),
                None => None,
            },
        }
    }
}

/// The name of the kind that `file_format::FileFormat::kind` gives for the
/// format of `bytes`.
pub uninterp spec fn detected_kind(bytes: Seq<u8>) -> Seq<char>;

/// What `file_format::FileFormat::short_name` gives for the format of `bytes`.
pub uninterp spec fn detected_short_name(bytes: Seq<u8>) -> Option<Seq<char>>;

/// The name of the kind of every font format.
pub open spec fn font_kind() -> Seq<char> {
    "Font"@
}

/// Whether detection takes `bytes` for a font: whether their format is of
/// the font kind.
pub open spec fn is_font(bytes: Seq<u8>) -> bool {
    detected_kind(bytes) == font_kind()
}

/// Detects the format of `bytes` with `file_format::FileFormat::from_bytes` and
/// reads its `kind` and its `short_name`.
///
/// Trusted: the format, and with it both answers, depends on the bytes alone.
/// The kind is handed over by the name of its variant, as its `Debug` writes
/// it. Nothing is said of which bytes give which format.
#[verifier::external_body]
pub(crate) fn detect(bytes: &[u8]) -> (found: Detection)
    ensures
        found@.kind == detected_kind(bytes@),
        found@.short_name == detected_short_name(bytes@),
{
    let format = file_format::FileFormat::from_bytes(bytes);
    Detection {
        kind: format!("{:?}", format.kind()),
        short_name: format.short_name().map(str::to_owned),
    }
}

impl Detection {
    /// Returns whether the detected file is a font: whether its kind is the
    /// font kind.
    pub fn is_font(&self) -> (font: bool)
        ensures
            font == (self@.kind == font_kind()),
    {
        let kind = "Font".to_owned();
        self.kind == kind
    }
}

} // verus!
