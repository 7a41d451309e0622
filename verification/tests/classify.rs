use tyfe::{Tyfe, Tyfes};

const JPEG: [u8; 4] = [0xFF, 0xD8, 0xFF, 0xE0];
const PNG: [u8; 8] = [0x89, 0x50, 0x4E, 0x47, 0x0D, 0x0A, 0x1A, 0x0A];
const GIF: [u8; 6] = [0x47, 0x49, 0x46, 0x38, 0x39, 0x61];
const BMP: [u8; 4] = [0x42, 0x4D, 0x36, 0x00];
const WEBP: [u8; 12] = [0x52, 0x49, 0x46, 0x46, 0x24, 0x00, 0x00, 0x00, 0x57, 0x45, 0x42, 0x50];
const PDF: [u8; 5] = [0x25, 0x44, 0x46, 0x50, 0x2D];
const ICO: [u8; 4] = [0x00, 0x00, 0x01, 0x00];
const FPAPER: [u8; 7] = [0x02, 0x46, 0x50, 0x61, 0x67, 0x65, 0x0A];

fn label(format: Tyfes) -> &'static str {
    match format {
        Tyfes::Jpeg => "JPEG",
        Tyfes::Png => "PNG",
        Tyfes::Gif => "GIF",
        Tyfes::Bmp => "BMP",
        Tyfes::WebP => "WebP",
        Tyfes::Pdf => "PDF",
        _ => "Hmm?",
    }
}

fn sample(ext: &str) -> &'static [u8] {
    match ext {
        ".jpg" => &JPEG,
        ".gif" => &GIF,
        ".png" => &PNG,
        ".bmp" => &BMP,
        ".webp" => &WEBP,
        ".pdf" => &PDF,
        _ => &[],
    }
}

#[test]
fn hmm() {
    let mut init = Tyfe::default();
    let file_exts = vec![".jpg", ".gif", ".png", ".bmp", ".webp", ".pdf"];
    let labels = vec!["JPEG", "GIF", "PNG", "BMP", "WebP", "PDF"];

    for (ext, expected) in file_exts.into_iter().zip(labels) {
        let file = format!("formats/test{}", ext);
        let claimed = Some(ext[1..].to_string());
        let found = label(init.check(file.clone(), claimed, sample(ext)));
        println!("{}", found);
        assert_eq!(found, expected);
        assert_eq!(init.filename(), file);
        assert_eq!(init.extension(), &ext[1..]);
    }
}

#[test]
fn png_signature_under_png() {
    let tyfe = Tyfe::default();
    assert_eq!(tyfe.classify("png", &[0x89, 0x50, 0x4E, 0x47, 0x0D, 0x0A]), Tyfes::Png);
    assert_eq!(tyfe.classify("png", &[0x89, 0x50, 0x4E, 0x47]), Tyfes::Png);
}

#[test]
fn jpeg_signature_under_jpg() {
    let tyfe = Tyfe::default();
    assert_eq!(tyfe.classify("jpg", &[0xFF, 0xD8, 0xFF, 0xE0, 0x00]), Tyfes::Jpeg);
    assert_eq!(tyfe.classify("jpg", &[0xFF, 0xD8, 0xFF]), Tyfes::Jpeg);
}

#[test]
fn two_bytes_under_gif_are_nothing() {
    let tyfe = Tyfe::default();
    assert_eq!(tyfe.classify("gif", &[0x00, 0x00]), Tyfes::Nothing);
}

#[test]
fn txt_is_rejected_by_the_gate() {
    let tyfe = Tyfe::default();
    assert_eq!(tyfe.classify("txt", &[0x89, 0x50, 0x4E, 0x47]), Tyfes::Nothing);
}

#[test]
fn webp_tag_after_eight_bytes() {
    let tyfe = Tyfe::default();
    let buffer = [0x11, 0x22, 0x33, 0x44, 0x55, 0x66, 0x77, 0x88, 0x57, 0x45, 0x42, 0x50];
    assert_eq!(tyfe.classify("webp", &buffer), Tyfes::WebP);
    assert_eq!(tyfe.classify("webp", &WEBP), Tyfes::WebP);
}

#[test]
fn ico_signature_has_four_distinct_offsets() {
    let tyfe = Tyfe::default();
    assert_eq!(tyfe.classify("ico", &[0x00, 0x00, 0x01, 0x00]), Tyfes::Ico);
    assert_eq!(tyfe.classify("ico", &[0x00, 0x05, 0x01, 0x00]), Tyfes::Nothing);
    assert_eq!(tyfe.classify("ico", &[0x00, 0x00, 0x01, 0x09]), Tyfes::Nothing);
    assert_eq!(tyfe.classify("ico", &[0x00, 0x00, 0x00, 0x00]), Tyfes::Nothing);
}

#[test]
fn every_format_under_each_of_its_extensions() {
    let tyfe = Tyfe::default();
    let cases: Vec<(&str, &[u8], Tyfes)> = vec![
        ("fpaper", &FPAPER, Tyfes::FPaper),
        ("jpg", &JPEG, Tyfes::Jpeg),
        ("jpeg", &JPEG, Tyfes::Jpeg),
        ("png", &PNG, Tyfes::Png),
        ("gif", &GIF, Tyfes::Gif),
        ("bmp", &BMP, Tyfes::Bmp),
        ("webp", &WEBP, Tyfes::WebP),
        ("pdf", &PDF, Tyfes::Pdf),
        ("ico", &ICO, Tyfes::Ico),
    ];
    for (ext, buffer, expected) in cases {
        assert_eq!(tyfe.classify(ext, buffer), expected, "{}", ext);
    }
}

#[test]
fn exact_signatures_without_a_byte_more() {
    let tyfe = Tyfe::default();
    assert_eq!(tyfe.what_is_this(&[0x02, 0x46, 0x50, 0x61, 0x67, 0x65]), Tyfes::FPaper);
    assert_eq!(tyfe.what_is_this(&[0xFF, 0xD8, 0xFF]), Tyfes::Jpeg);
    assert_eq!(tyfe.what_is_this(&[0x89, 0x50, 0x4E, 0x47]), Tyfes::Png);
    assert_eq!(tyfe.what_is_this(&[0x47, 0x49, 0x46]), Tyfes::Gif);
    assert_eq!(tyfe.what_is_this(&[0x42, 0x4D]), Tyfes::Bmp);
    assert_eq!(tyfe.what_is_this(&[0, 0, 0, 0, 0, 0, 0, 0, 0x57, 0x45, 0x42, 0x50]), Tyfes::WebP);
    assert_eq!(tyfe.what_is_this(&[0x25, 0x44, 0x46, 0x50]), Tyfes::Pdf);
    assert_eq!(tyfe.what_is_this(&[0x00, 0x00, 0x01, 0x00]), Tyfes::Ico);
}

#[test]
fn signatures_cut_short_are_nothing() {
    let tyfe = Tyfe::default();
    assert_eq!(tyfe.what_is_this(&[0x02, 0x46, 0x50, 0x61, 0x67]), Tyfes::Nothing);
    assert_eq!(tyfe.what_is_this(&[0xFF, 0xD8]), Tyfes::Nothing);
    assert_eq!(tyfe.what_is_this(&[0x89, 0x50, 0x4E]), Tyfes::Nothing);
    assert_eq!(tyfe.what_is_this(&[0x47, 0x49]), Tyfes::Nothing);
    assert_eq!(tyfe.what_is_this(&[0x42]), Tyfes::Nothing);
    assert_eq!(tyfe.what_is_this(&[0, 0, 0, 0, 0, 0, 0, 0, 0x57, 0x45, 0x42]), Tyfes::Nothing);
    assert_eq!(tyfe.what_is_this(&[0x25, 0x44, 0x46]), Tyfes::Nothing);
    assert_eq!(tyfe.what_is_this(&[0x00, 0x00, 0x01]), Tyfes::Nothing);
}

#[test]
fn one_wrong_byte_is_nothing() {
    let tyfe = Tyfe::default();
    assert_eq!(tyfe.what_is_this(&[0x02, 0x46, 0x50, 0x61, 0x67, 0x66]), Tyfes::Nothing);
    assert_eq!(tyfe.what_is_this(&[0xFF, 0xD8, 0xFE]), Tyfes::Nothing);
    assert_eq!(tyfe.what_is_this(&[0x89, 0x51, 0x4E, 0x47]), Tyfes::Nothing);
    assert_eq!(tyfe.what_is_this(&[0x47, 0x49, 0x47]), Tyfes::Nothing);
    assert_eq!(tyfe.what_is_this(&[0x42, 0x4E]), Tyfes::Nothing);
    assert_eq!(tyfe.what_is_this(&[0, 0, 0, 0, 0, 0, 0, 0, 0x57, 0x45, 0x42, 0x51]), Tyfes::Nothing);
    assert_eq!(tyfe.what_is_this(&[0x57, 0x45, 0x42, 0x50, 0, 0, 0, 0, 0, 0, 0, 0]), Tyfes::Nothing);
    assert_eq!(tyfe.what_is_this(&[0x25, 0x44, 0x46, 0x51]), Tyfes::Nothing);
}

#[test]
fn short_buffers_are_nothing_under_every_extension() {
    let tyfe = Tyfe::default();
    for ext in ["fpaper", "jpg", "jpeg", "png", "gif", "bmp", "webp", "pdf", "ico", "txt", ""] {
        assert_eq!(tyfe.classify(ext, &[]), Tyfes::Nothing, "{}", ext);
        for byte in [0x00u8, 0x02, 0x25, 0x42, 0x47, 0x89, 0xFF] {
            assert_eq!(tyfe.classify(ext, &[byte]), Tyfes::Nothing, "{} {}", ext, byte);
        }
    }
    assert_eq!(tyfe.what_is_this(&[]), Tyfes::Nothing);
}

#[test]
fn extensions_outside_the_gate_are_nothing() {
    let tyfe = Tyfe::default();
    let buffers: Vec<&[u8]> = vec![&FPAPER, &JPEG, &PNG, &GIF, &BMP, &WEBP, &PDF, &ICO, &[]];
    for ext in ["txt", "", "PNG", "Jpg", ".png", "pn g", "png2", "jp", "tiff", "fpape", "\u{FEFF}png"] {
        for buffer in &buffers {
            assert_eq!(tyfe.classify(ext, buffer), Tyfes::Nothing, "{:?}", ext);
        }
    }
}

#[test]
fn white_space_around_the_extension_is_ignored() {
    let tyfe = Tyfe::default();
    assert_eq!(tyfe.classify(" png", &PNG), Tyfes::Png);
    assert_eq!(tyfe.classify("png ", &PNG), Tyfes::Png);
    assert_eq!(tyfe.classify("\t\r\n png \u{A0}\u{3000}", &PNG), Tyfes::Png);
    assert_eq!(tyfe.classify("\u{2003}jpeg\u{85}", &JPEG), Tyfes::Jpeg);
    assert_eq!(tyfe.classify("   ", &PNG), Tyfes::Nothing);
    assert_eq!(tyfe.classify("p ng", &PNG), Tyfes::Nothing);
}

#[test]
fn the_extension_opens_the_gate_and_the_content_decides() {
    let tyfe = Tyfe::default();
    assert_eq!(tyfe.classify("png", &JPEG), Tyfes::Jpeg);
    assert_eq!(tyfe.classify("ico", &FPAPER), Tyfes::FPaper);
    assert_eq!(tyfe.classify("jpg", &[0x01, 0x02, 0x03, 0x04]), Tyfes::Nothing);
}

#[test]
fn the_same_question_gets_the_same_answer() {
    let tyfe = Tyfe::default();
    let first = tyfe.classify("gif", &GIF);
    let second = tyfe.classify("gif", &GIF);
    assert_eq!(first, Tyfes::Gif);
    assert_eq!(second, first);

    let mut used = Tyfe::default();
    assert_eq!(used.check("a.txt".to_string(), Some("txt".to_string()), &PNG), Tyfes::Nothing);
    assert_eq!(used.check("b.gif".to_string(), Some("gif".to_string()), &GIF), Tyfes::Gif);
    assert_eq!(used.check("b.gif".to_string(), Some("gif".to_string()), &GIF), Tyfes::Gif);
    assert_eq!(used.classify("gif", &GIF), first);
}

#[test]
fn the_earlier_format_wins() {
    let tyfe = Tyfe::default();
    let tail = [0x57, 0x45, 0x42, 0x50];
    let heads: Vec<(&[u8], Tyfes)> = vec![
        (&[0x02, 0x46, 0x50, 0x61, 0x67, 0x65, 0x00, 0x00], Tyfes::FPaper),
        (&[0xFF, 0xD8, 0xFF, 0x00, 0x00, 0x00, 0x00, 0x00], Tyfes::Jpeg),
        (&[0x89, 0x50, 0x4E, 0x47, 0x00, 0x00, 0x00, 0x00], Tyfes::Png),
        (&[0x47, 0x49, 0x46, 0x00, 0x00, 0x00, 0x00, 0x00], Tyfes::Gif),
        (&[0x42, 0x4D, 0x00, 0x00, 0x00, 0x00, 0x00, 0x00], Tyfes::Bmp),
        (&[0x25, 0x44, 0x46, 0x50, 0x00, 0x00, 0x00, 0x00], Tyfes::WebP),
        (&[0x00, 0x00, 0x01, 0x00, 0x00, 0x00, 0x00, 0x00], Tyfes::WebP),
    ];
    for (head, expected) in heads {
        let mut buffer = head.to_vec();
        buffer.extend_from_slice(&tail);
        assert_eq!(tyfe.what_is_this(&buffer), expected);
        assert_eq!(tyfe.classify("webp", &buffer), expected);
        assert_eq!(tyfe.classify("pdf", &buffer), expected);
    }
}

#[test]
fn a_new_classifier_has_checked_nothing() {
    let tyfe = Tyfe::default();
    assert_eq!(tyfe.filename(), "");
    assert_eq!(tyfe.extension(), "");
    let expected = [".fpaper", ".jpg", ".jpeg", ".png", ".gif", ".bmp", ".webp", ".pdf", ".ico"];
    assert_eq!(tyfe.binary_ext(), expected);
}

#[test]
fn check_records_the_file_and_its_extension() {
    let mut tyfe = Tyfe::default();
    let found = tyfe.check("pictures/cat.png".to_string(), Some(" png ".to_string()), &PNG);
    assert_eq!(found, Tyfes::Png);
    assert_eq!(tyfe.filename(), "pictures/cat.png");
    assert_eq!(tyfe.extension(), " png ");

    let found = tyfe.check("notes.txt".to_string(), Some("txt".to_string()), &PNG);
    assert_eq!(found, Tyfes::Nothing);
    assert_eq!(tyfe.filename(), "notes.txt");
    assert_eq!(tyfe.extension(), "txt");
    let expected = [".fpaper", ".jpg", ".jpeg", ".png", ".gif", ".bmp", ".webp", ".pdf", ".ico"];
    assert_eq!(tyfe.binary_ext(), expected);
}

#[test]
fn a_file_without_extension_is_nothing() {
    let mut tyfe = Tyfe::default();
    tyfe.check("cat.png".to_string(), Some("png".to_string()), &PNG);
    let found = tyfe.check("Makefile".to_string(), None, &PNG);
    assert_eq!(found, Tyfes::Nothing);
    assert_eq!(tyfe.filename(), "Makefile");
    assert_eq!(tyfe.extension(), "");
}

#[test]
fn the_first_twelve_bytes_decide() {
    let tyfe = Tyfe::default();
    assert_eq!(tyfe::catalog::HEADER_LEN, 12);
    let samples: Vec<(&str, &[u8])> = vec![
        ("fpaper", &FPAPER),
        ("jpg", &JPEG),
        ("png", &PNG),
        ("gif", &GIF),
        ("bmp", &BMP),
        ("webp", &WEBP),
        ("pdf", &PDF),
        ("ico", &ICO),
        ("png", &[0x01, 0x02]),
    ];
    for (ext, head) in samples {
        let mut long = head.to_vec();
        long.resize(12, 0x00);
        let short = tyfe.classify(ext, &long);
        long.extend_from_slice(&[0x57, 0x45, 0x42, 0x50, 0xFF, 0xD8, 0xFF]);
        assert_eq!(tyfe.classify(ext, &long), short, "{}", ext);
        assert_eq!(tyfe.what_is_this(&long), tyfe.what_is_this(&long[..12]), "{}", ext);
    }
}
