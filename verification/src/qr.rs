//! The QR Code symbols that the `qrcodegen` crate computes, as this library sees them.

use vstd::prelude::*;
use qrcodegen::{DataTooLong, Mask, QrCode, QrCodeEcc, QrSegment, Version};

verus! {

/// `qrcodegen::QrCode`: a symbol, a square grid of dark and light modules
/// that does not change once it is made. Its modules are read through
/// [`qr_side`] and [`qr_dark`].
#[verifier::external_type_specification]
#[verifier::external_body]
pub struct ExQrCode(qrcodegen::QrCode);

/// `qrcodegen::QrSegment`: a stretch of data in one of the modes of a symbol.
/// Nothing is read from it here: it goes from the splitter to the encoder.
#[verifier::external_type_specification]
#[verifier::external_body]
pub struct ExQrSegment(qrcodegen::QrSegment);

/// How much of a symbol may be damaged before it cannot be read.
#[derive(Debug, Clone, Copy, PartialEq, Eq, Structural)]
pub enum EccLevel {
    /// About 7% of the codewords.
    Low,
    /// About 15% of the codewords.
    Medium,
    /// About 25% of the codewords.
    Quartile,
    /// About 30% of the codewords.
    High,
}

/// Why a text has no symbol: it does not fit.
#[derive(Debug, Clone, Copy, PartialEq, Eq, Structural)]
pub enum CapacityError {
    /// A segment holds more characters than its length field can count.
    SegmentTooLong,
    /// The data needs `used` bits where the largest version allowed has `capacity`.
    DataOverCapacity { used: usize, capacity: usize },
}

/// A symbol as a plain value: a square of `side` by `side` modules, of which
/// those in `dark` are dark. A module is named by its column and its row,
/// counted from the top left corner.
pub struct Symbol {
    pub side: int,
    pub dark: Set<(int, int)>,
}

impl Symbol {
    /// Whether the module in column `x` of row `y` is dark. Outside the
    /// symbol no module is.
    pub open spec fn is_dark(self, x: int, y: int) -> bool {
        0 <= x < self.side && 0 <= y < self.side && self.dark.contains((x, y))
    }
}

/// The number of modules along one side of a symbol.
pub uninterp spec fn qr_side(qr: QrCode) -> int;

/// The dark modules of a symbol, each by column and row.
pub uninterp spec fn qr_dark(qr: QrCode) -> Set<(int, int)>;

/// The plain value of a symbol.
pub open spec fn symbol_of(qr: QrCode) -> Symbol {
    Symbol { side: qr_side(qr), dark: qr_dark(qr) }
}

/// The segments into which `QrSegment::make_segments` splits a text.
pub uninterp spec fn text_segments(text: Seq<char>) -> Seq<QrSegment>;

/// The symbol that `QrCode::encode_segments_advanced` computes for a list of
/// segments, or `None` where they fit no version in the range.
pub uninterp spec fn segments_symbol(
    segs: Seq<QrSegment>,
    level: EccLevel,
    lowest: u8,
    highest: u8,
    mask: Option<u8>,
    boost: bool,
) -> Option<Symbol>;

/// Whether the outcome of an encoding is the one that `expected` names: the
/// symbol with those modules, or a failure where there is none.
pub open spec fn is_encoding(res: Result<QrCode, CapacityError>, expected: Option<Symbol>) -> bool {
    match res {
        Ok(qr) => expected == Some(symbol_of(qr)),
        Err(_) => expected is None,
    }
}

/// `QrCode::size`: the side of the symbol, which lies between 21 and 177.
pub assume_specification[ QrCode::size ](qr: &QrCode) -> (side: i32)
    ensures
        side == qr_side(*qr),
        21 <= side <= 177,
;

/// `QrCode::get_module`: whether the module at column `x` and row `y` is dark;
/// outside the symbol no module is.
pub assume_specification[ QrCode::get_module ](qr: &QrCode, x: i32, y: i32) -> (dark: bool)
    ensures
        dark == (0 <= x < qr_side(*qr) && 0 <= y < qr_side(*qr) && qr_dark(*qr).contains(
            (x as int, y as int),
        )),
;

/// `QrSegment::make_segments`: the segments of a text, which depend on the text alone.
pub assume_specification[ QrSegment::make_segments ](text: &str) -> (segs: Vec<QrSegment>)
    ensures
        segs@ == text_segments(text@),
;

/// `QrCode::encode_segments_advanced`: the symbol of the smallest version
/// between `lowest` and `highest` that holds the segments at the given level,
/// with the given mask or one that the encoder picks; a failure where no
/// version in the range holds them. The outcome depends on the arguments alone.
#[verifier::external_body]
pub(crate) fn encode_segments(
    segs: &Vec<QrSegment>,
    level: EccLevel,
    lowest: u8,
    highest: u8,
    mask: Option<u8>,
    boost: bool,
) -> (res: Result<QrCode, CapacityError>)
    requires
        1 <= lowest <= highest <= 40,
        mask is Some ==> mask->0 <= 7,
    ensures
        is_encoding(res, segments_symbol(segs@, level, lowest, highest, mask, boost)),
{
    let ecl = match level {
        EccLevel::Low => QrCodeEcc::Low,
        EccLevel::Medium => QrCodeEcc::Medium,
        EccLevel::Quartile => QrCodeEcc::Quartile,
        EccLevel::High => QrCodeEcc::High,
    };
    let (min, max) = (Version::new(lowest), Version::new(highest));
    match QrCode::encode_segments_advanced(segs, ecl, min, max, mask.map(Mask::new), boost) {
        Ok(qr) => Ok(qr),
        Err(DataTooLong::SegmentTooLong) => Err(CapacityError::SegmentTooLong),
        Err(DataTooLong::DataOverCapacity(used, capacity)) => Err(
            CapacityError::DataOverCapacity { used, capacity },
        ),
    }
}

/// `QrCode::encode_text`: the symbol of a text at the given level. It is the
/// symbol of the text's segments, over all versions from 1 to 40, with a mask
/// that the encoder picks and the level raised where that costs no larger version.
#[verifier::external_body]
pub(crate) fn encode_text(text: &str, level: EccLevel) -> (res: Result<QrCode, CapacityError>)
    ensures
        is_encoding(res, segments_symbol(text_segments(text@), level, 1, 40, None, true)),
{
    let ecl = match level {
        EccLevel::Low => QrCodeEcc::Low,
        EccLevel::Medium => QrCodeEcc::Medium,
        EccLevel::Quartile => QrCodeEcc::Quartile,
        EccLevel::High => QrCodeEcc::High,
    };
    match QrCode::encode_text(text, ecl) {
        Ok(qr) => Ok(qr),
        Err(DataTooLong::SegmentTooLong) => Err(CapacityError::SegmentTooLong),
        Err(DataTooLong::DataOverCapacity(used, capacity)) => Err(
            CapacityError::DataOverCapacity { used, capacity },
        ),
    }
}

} // verus!
