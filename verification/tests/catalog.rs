use tyfe::catalog::{matches_rule, priority_order, signature_of};
use tyfe::{Markers, Tyfes};

#[test]
fn markers_stand_for_their_bytes() {
    assert_eq!(Markers::JpegSoi.val(), 0xD8);
    assert_eq!(Markers::JpegStart.val(), 0xFF);
    assert_eq!(Markers::PngSoi.val(), 0x89);
    assert_eq!(Markers::PngStart2.val(), 0x50);
    assert_eq!(Markers::PngStart3.val(), 0x4E);
    assert_eq!(Markers::PngStart4.val(), 0x47);
    assert_eq!(Markers::GifSoi.val(), 0x47);
    assert_eq!(Markers::GifStart2.val(), 0x49);
    assert_eq!(Markers::GifStart3.val(), 0x46);
    assert_eq!(Markers::BmpSoi.val(), 0x42);
    assert_eq!(Markers::BmpStart2.val(), 0x4D);
    assert_eq!(Markers::WebpSoi.val(), 0x57);
    assert_eq!(Markers::WebpStart2.val(), 0x45);
    assert_eq!(Markers::WebpStart3.val(), 0x42);
    assert_eq!(Markers::WebpStart4.val(), 0x50);
    assert_eq!(Markers::PdfSoi.val(), 0x25);
    assert_eq!(Markers::PdfStart2.val(), 0x50);
    assert_eq!(Markers::PdfStart3.val(), 0x44);
    assert_eq!(Markers::PdfStart4.val(), 0x46);
    assert_eq!(Markers::IcoSoi.val(), 0x00);
    assert_eq!(Markers::IcoStart3.val(), 0x01);
    assert_eq!(Markers::FPaperSoi.val(), 0x02);
    assert_eq!(Markers::FPaperStart2.val(), 0x46);
    assert_eq!(Markers::FPaperStart3.val(), 0x50);
    assert_eq!(Markers::FPaperStart4.val(), 0x61);
    assert_eq!(Markers::FPaperStart5.val(), 0x67);
    assert_eq!(Markers::FPaperStart6.val(), 0x65);
}

#[test]
fn formats_are_tried_in_the_order_of_priority() {
    assert_eq!(
        priority_order(),
        vec![
            Tyfes::FPaper,
            Tyfes::Jpeg,
            Tyfes::Png,
            Tyfes::Gif,
            Tyfes::Bmp,
            Tyfes::WebP,
            Tyfes::Pdf,
            Tyfes::Ico,
        ]
    );
}

#[test]
fn signatures_are_those_of_the_table() {
    assert_eq!(signature_of(Tyfes::Nothing), vec![]);
    assert_eq!(signature_of(Tyfes::Jpeg), vec![(0, 0xFF), (1, 0xD8), (2, 0xFF)]);
    assert_eq!(signature_of(Tyfes::Png), vec![(0, 0x89), (1, 0x50), (2, 0x4E), (3, 0x47)]);
    assert_eq!(signature_of(Tyfes::Gif), vec![(0, 0x47), (1, 0x49), (2, 0x46)]);
    assert_eq!(signature_of(Tyfes::Bmp), vec![(0, 0x42), (1, 0x4D)]);
    assert_eq!(signature_of(Tyfes::WebP), vec![(8, 0x57), (9, 0x45), (10, 0x42), (11, 0x50)]);
    assert_eq!(signature_of(Tyfes::Pdf), vec![(0, 0x25), (1, 0x44), (2, 0x46), (3, 0x50)]);
    assert_eq!(signature_of(Tyfes::Ico), vec![(0, 0x00), (1, 0x00), (2, 0x01), (3, 0x00)]);
    assert_eq!(
        signature_of(Tyfes::FPaper),
        vec![(0, 0x02), (1, 0x46), (2, 0x50), (3, 0x61), (4, 0x67), (5, 0x65)]
    );
}

#[test]
fn a_rule_holds_when_all_its_constraints_hold() {
    let rule = [(0, 0xAA), (3, 0xBB)];
    assert!(matches_rule(&[0xAA, 0x00, 0x00, 0xBB], &rule));
    assert!(matches_rule(&[0xAA, 0x01, 0x02, 0xBB, 0x03], &rule));
    assert!(!matches_rule(&[0xAA, 0x00, 0x00, 0xBC], &rule));
    assert!(!matches_rule(&[0xAB, 0x00, 0x00, 0xBB], &rule));
}

#[test]
fn an_offset_beyond_the_buffer_fails_the_rule() {
    let rule = [(0, 0xAA), (3, 0xBB)];
    assert!(!matches_rule(&[0xAA, 0x00, 0x00], &rule));
    assert!(!matches_rule(&[], &rule));
    assert!(!matches_rule(&[0x00], &[(usize::MAX, 0x00)]));
    assert!(!matches_rule(&[0x00], &[(1, 0x00)]));
}

#[test]
fn the_empty_rule_holds_of_every_buffer() {
    assert!(matches_rule(&[], &[]));
    assert!(matches_rule(&[0x01, 0x02], &[]));
}

#[test]
fn constraints_need_not_come_in_order() {
    let rule = [(2, 0x03), (0, 0x01), (2, 0x03)];
    assert!(matches_rule(&[0x01, 0x02, 0x03], &rule));
    assert!(!matches_rule(&[0x01, 0x02, 0x03], &[(2, 0x03), (2, 0x04)]));
}
