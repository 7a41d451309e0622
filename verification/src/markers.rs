//! The byte values that the format signatures are made of, each under a
//! symbolic name.

use vstd::prelude::*;

verus! {

/// A named byte of one of the format signatures. The catalog says which
/// marker a signature expects at which offset.
#[derive(Clone, Copy, Debug, PartialEq, Eq, Structural)]
pub enum Markers {
    JpegSoi,
    JpegStart,
    PngSoi,
    PngStart2,
    PngStart3,
    PngStart4,
    GifSoi,
    GifStart2,
    GifStart3,
    BmpSoi,
    BmpStart2,
    WebpSoi,
    WebpStart2,
    WebpStart3,
    WebpStart4,
    PdfSoi,
    PdfStart2,
    PdfStart3,
    PdfStart4,
    IcoSoi,
    IcoStart3,
    FPaperSoi,
    FPaperStart2,
    FPaperStart3,
    FPaperStart4,
    FPaperStart5,
    FPaperStart6,
}

impl Markers {
    /// The byte that the marker stands for.
    pub open spec fn spec_val(&self) -> u8 {
        match *self {
            Markers::JpegSoi => 0xD8,
            Markers::JpegStart => 0xFF,
            Markers::PngSoi => 0x89,
            Markers::PngStart2 | Markers::WebpStart4 | Markers::PdfStart2 | Markers::FPaperStart3 => 0x50,
            Markers::PngStart3 => 0x4E,
            Markers::PngStart4 | Markers::GifSoi => 0x47,
            Markers::GifStart2 => 0x49,
            Markers::GifStart3 | Markers::PdfStart4 | Markers::FPaperStart2 => 0x46,
            Markers::BmpSoi | Markers::WebpStart3 => 0x42,
            Markers::BmpStart2 => 0x4D,
            Markers::WebpSoi => 0x57,
            Markers::WebpStart2 => 0x45,
            Markers::PdfSoi => 0x25,
            Markers::PdfStart3 => 0x44,
            Markers::IcoSoi => 0x00,
            Markers::IcoStart3 => 0x01,
            Markers::FPaperSoi => 0x02,
            Markers::FPaperStart4 => 0x61,
            Markers::FPaperStart5 => 0x67,
            Markers::FPaperStart6 => 0x65,
        }
    }

    /// Returns the byte that the marker stands for.
    #[verifier::when_used_as_spec(spec_val)]
    pub fn val(&self) -> (byte: u8)
        ensures
            byte == self.spec_val(),
    {
        match *self {
            Markers::JpegSoi => 0xD8,
            Markers::JpegStart => 0xFF,
            Markers::PngSoi => 0x89,
            Markers::PngStart2 | Markers::WebpStart4 | Markers::PdfStart2 | Markers::FPaperStart3 => 0x50,
            Markers::PngStart3 => 0x4E,
            Markers::PngStart4 | Markers::GifSoi => 0x47,
            Markers::GifStart2 => 0x49,
            Markers::GifStart3 | Markers::PdfStart4 | Markers::FPaperStart2 => 0x46,
            Markers::BmpSoi | Markers::WebpStart3 => 0x42,
            Markers::BmpStart2 => 0x4D,
            Markers::WebpSoi => 0x57,
            Markers::WebpStart2 => 0x45,
            Markers::PdfSoi => 0x25,
            Markers::PdfStart3 => 0x44,
            Markers::IcoSoi => 0x00,
            Markers::IcoStart3 => 0x01,
            Markers::FPaperSoi => 0x02,
            Markers::FPaperStart4 => 0x61,
            Markers::FPaperStart5 => 0x67,
            Markers::FPaperStart6 => 0x65,
        }
    }
}

} // verus!
