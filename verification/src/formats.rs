//! The formats that a classification can name.

use vstd::prelude::*;

verus! {

/// The outcome of a classification: one of the supported formats, or
/// `Nothing` where no format was recognised.
#[derive(Clone, Copy, Debug, PartialEq, Eq, Structural)]
pub enum Tyfes {
    Nothing,
    Jpeg,
    Png,
    Gif,
    Bmp,
    WebP,
    Pdf,
    Ico,
    FPaper,
}

} // verus!
