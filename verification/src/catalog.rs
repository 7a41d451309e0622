//! The signature catalog: for each supported format the bytes that its
//! content must show, and the order in which the formats are tried.

use vstd::prelude::*;
use crate::formats::Tyfes;
use crate::markers::Markers;

verus! {

/// The supported formats, in the order in which their signatures are tried.
/// Where a buffer satisfies several signatures, the format that stands first
/// here is the one reported.
pub open spec fn priority() -> Seq<Tyfes> {
    seq![
        Tyfes::FPaper,
        Tyfes::Jpeg,
        Tyfes::Png,
        Tyfes::Gif,
        Tyfes::Bmp,
        Tyfes::WebP,
        Tyfes::Pdf,
        Tyfes::Ico,
    ]
}

/// A format is supported when it has a place in `priority()`: every format
/// but `Nothing`.
pub open spec fn supported(format: Tyfes) -> bool {
    format != Tyfes::Nothing
}

/// The place of a format in the order of priority, counted from 0. `Nothing`
/// comes after all the supported formats.
pub open spec fn rank(format: Tyfes) -> int {
    match format {
        Tyfes::FPaper => 0,
        Tyfes::Jpeg => 1,
        Tyfes::Png => 2,
        Tyfes::Gif => 3,
        Tyfes::Bmp => 4,
        Tyfes::WebP => 5,
        Tyfes::Pdf => 6,
        Tyfes::Ico => 7,
        Tyfes::Nothing => 8,
    }
}

/// The signature of a format: pairs of an offset into the content and the
/// byte expected there. `Nothing` has no signature.
///
/// | format | offsets | bytes             |
/// |--------|---------|-------------------|
/// | FPaper | 0 to 5  | 02 46 50 61 67 65 |
/// | JPEG   | 0 to 2  | FF D8 FF          |
/// | PNG    | 0 to 3  | 89 50 4E 47       |
/// | GIF    | 0 to 2  | 47 49 46          |
/// | BMP    | 0 to 1  | 42 4D             |
/// | WebP   | 8 to 11 | 57 45 42 50       |
/// | PDF    | 0 to 3  | 25 44 46 50       |
/// | ICO    | 0 to 3  | 00 00 01 00       |
pub open spec fn signature(format: Tyfes) -> Seq<(usize, u8)> {
    match format {
        Tyfes::Nothing => seq![],
        Tyfes::Jpeg => seq![
            (0usize, Markers::JpegStart.val()),
            (1usize, Markers::JpegSoi.val()),
            (2usize, Markers::JpegStart.val()),
        ],
        Tyfes::Png => seq![
            (0usize, Markers::PngSoi.val()),
            (1usize, Markers::PngStart2.val()),
            (2usize, Markers::PngStart3.val()),
            (3usize, Markers::PngStart4.val()),
        ],
        Tyfes::Gif => seq![
            (0usize, Markers::GifSoi.val()),
            (1usize, Markers::GifStart2.val()),
            (2usize, Markers::GifStart3.val()),
        ],
        Tyfes::Bmp => seq![
            (0usize, Markers::BmpSoi.val()),
            (1usize, Markers::BmpStart2.val()),
        ],
        Tyfes::WebP => seq![
            (8usize, Markers::WebpSoi.val()),
            (9usize, Markers::WebpStart2.val()),
            (10usize, Markers::WebpStart3.val()),
            (11usize, Markers::WebpStart4.val()),
        ],
        Tyfes::Pdf => seq![
            (0usize, Markers::PdfSoi.val()),
            (1usize, Markers::PdfStart3.val()),
            (2usize, Markers::PdfStart4.val()),
            (3usize, Markers::PdfStart2.val()),
        ],
        Tyfes::Ico => seq![
            (0usize, Markers::IcoSoi.val()),
            (1usize, Markers::IcoSoi.val()),
            (2usize, Markers::IcoStart3.val()),
            (3usize, Markers::IcoSoi.val()),
        ],
        Tyfes::FPaper => seq![
            (0usize, Markers::FPaperSoi.val()),
            (1usize, Markers::FPaperStart2.val()),
            (2usize, Markers::FPaperStart3.val()),
            (3usize, Markers::FPaperStart4.val()),
            (4usize, Markers::FPaperStart5.val()),
            (5usize, Markers::FPaperStart6.val()),
        ],
    }
}

/// One constraint of a signature holds of a buffer: the offset lies inside
/// the buffer and the byte there is the expected one.
pub open spec fn holds(constraint: (usize, u8), buf: Seq<u8>) -> bool {
    constraint.0 < buf.len() && buf[constraint.0 as int] == constraint.1
}

/// A buffer satisfies a rule when every constraint of the rule holds of it.
pub open spec fn satisfies(buf: Seq<u8>, rule: Seq<(usize, u8)>) -> bool {
    forall|k: int| 0 <= k < rule.len() ==> holds(#[trigger] rule[k], buf)
}

/// The least length of a buffer that reaches every offset of the rule.
pub open spec fn reach(rule: Seq<(usize, u8)>) -> nat
    decreases rule.len(),
{
    if rule.len() == 0 {
        0
    } else {
        let rest = reach(rule.drop_last());
        let here = (rule.last().0 + 1) as nat;
        if here > rest { here } else { rest }
    }
}

/// The first format of `order` whose signature the buffer satisfies, or
/// `Nothing` where it satisfies none of them.
pub open spec fn first_match(order: Seq<Tyfes>, buf: Seq<u8>) -> Tyfes
    decreases order.len(),
{
    if order.len() == 0 {
        Tyfes::Nothing
    } else if satisfies(buf, signature(order[0])) {
        order[0]
    } else {
        first_match(order.drop_first(), buf)
    }
}

/// The format that the content of a buffer shows.
pub open spec fn content_format(buf: Seq<u8>) -> Tyfes {
    first_match(priority(), buf)
}

/// The number of leading bytes that decide what the content shows: no
/// signature reaches further.
pub const HEADER_LEN: usize = 12;

/// Returns the supported formats in the order in which they are tried.
pub fn priority_order() -> (order: Vec<Tyfes>)
    ensures
        order@ == priority(),
{
    vec![
        Tyfes::FPaper,
        Tyfes::Jpeg,
        Tyfes::Png,
        Tyfes::Gif,
        Tyfes::Bmp,
        Tyfes::WebP,
        Tyfes::Pdf,
        Tyfes::Ico,
    ]
}

/// Returns the signature of a format, empty for `Nothing`.
pub fn signature_of(format: Tyfes) -> (rule: Vec<(usize, u8)>)
    ensures
        rule@ == signature(format),
{
    match format {
        Tyfes::Nothing => vec![],
        Tyfes::Jpeg => vec![
            (0, Markers::JpegStart.val()),
            (1, Markers::JpegSoi.val()),
            (2, Markers::JpegStart.val()),
        ],
        Tyfes::Png => vec![
            (0, Markers::PngSoi.val()),
            (1, Markers::PngStart2.val()),
            (2, Markers::PngStart3.val()),
            (3, Markers::PngStart4.val()),
        ],
        Tyfes::Gif => vec![
            (0, Markers::GifSoi.val()),
            (1, Markers::GifStart2.val()),
            (2, Markers::GifStart3.val()),
        ],
        Tyfes::Bmp => vec![(0, Markers::BmpSoi.val()), (1, Markers::BmpStart2.val())],
        Tyfes::WebP => vec![
            (8, Markers::WebpSoi.val()),
            (9, Markers::WebpStart2.val()),
            (10, Markers::WebpStart3.val()),
            (11, Markers::WebpStart4.val()),
        ],
        Tyfes::Pdf => vec![
            (0, Markers::PdfSoi.val()),
            (1, Markers::PdfStart3.val()),
            (2, Markers::PdfStart4.val()),
            (3, Markers::PdfStart2.val()),
        ],
        Tyfes::Ico => vec![
            (0, Markers::IcoSoi.val()),
            (1, Markers::IcoSoi.val()),
            (2, Markers::IcoStart3.val()),
            (3, Markers::IcoSoi.val()),
        ],
        Tyfes::FPaper => vec![
            (0, Markers::FPaperSoi.val()),
            (1, Markers::FPaperStart2.val()),
            (2, Markers::FPaperStart3.val()),
            (3, Markers::FPaperStart4.val()),
            (4, Markers::FPaperStart5.val()),
            (5, Markers::FPaperStart6.val()),
        ],
    }
}

/// Tells whether the buffer satisfies the rule. An offset beyond the end of
/// the buffer makes the rule fail; nothing outside the buffer is read.
pub fn matches_rule(data: &[u8], rule: &[(usize, u8)]) -> (hit: bool)
    ensures
        hit == satisfies(data@, rule@),
{
    let mut k: usize = 0;
    while k < rule.len()
        invariant
            k <= rule.len(),
            forall|j: int| 0 <= j < k ==> holds(#[trigger] rule@[j], data@),
        decreases rule.len() - k,
    {
        let (offset, expected) = rule[k];
        if offset >= data.len() || data[offset] != expected {
            assert(!holds(rule@[k as int], data@));
            return false;
        }
        k += 1;
    }
    true
}

/// The order of priority holds each supported format once, at its rank, and
/// nothing else.
pub proof fn lemma_priority_ranks(format: Tyfes)
    ensures
        priority().len() == 8,
        supported(format) ==> 0 <= rank(format) < 8 && priority()[rank(format)] == format,
        forall|i: int| 0 <= i < 8 ==> supported(#[trigger] priority()[i]) && rank(priority()[i]) == i,
{
}

/// The signatures, byte by byte: a buffer satisfies the signature of a
/// format exactly when it is long enough and shows these bytes.
pub proof fn lemma_signature_bytes(buf: Seq<u8>)
    ensures
        satisfies(buf, signature(Tyfes::Jpeg)) <==> buf.len() >= 3 && buf[0] == 0xFF && buf[1]
            == 0xD8 && buf[2] == 0xFF,
        satisfies(buf, signature(Tyfes::Png)) <==> buf.len() >= 4 && buf[0] == 0x89 && buf[1]
            == 0x50 && buf[2] == 0x4E && buf[3] == 0x47,
        satisfies(buf, signature(Tyfes::Gif)) <==> buf.len() >= 3 && buf[0] == 0x47 && buf[1]
            == 0x49 && buf[2] == 0x46,
        satisfies(buf, signature(Tyfes::Bmp)) <==> buf.len() >= 2 && buf[0] == 0x42 && buf[1]
            == 0x4D,
        satisfies(buf, signature(Tyfes::WebP)) <==> buf.len() >= 12 && buf[8] == 0x57 && buf[9]
            == 0x45 && buf[10] == 0x42 && buf[11] == 0x50,
        satisfies(buf, signature(Tyfes::Pdf)) <==> buf.len() >= 4 && buf[0] == 0x25 && buf[1]
            == 0x44 && buf[2] == 0x46 && buf[3] == 0x50,
        satisfies(buf, signature(Tyfes::Ico)) <==> buf.len() >= 4 && buf[0] == 0x00 && buf[1]
            == 0x00 && buf[2] == 0x01 && buf[3] == 0x00,
        satisfies(buf, signature(Tyfes::FPaper)) <==> buf.len() >= 6 && buf[0] == 0x02 && buf[1]
            == 0x46 && buf[2] == 0x50 && buf[3] == 0x61 && buf[4] == 0x67 && buf[5] == 0x65,
{
    let jpeg = signature(Tyfes::Jpeg);
    if satisfies(buf, jpeg) {
        assert(holds(jpeg[0], buf) && holds(jpeg[1], buf) && holds(jpeg[2], buf));
    }
    let png = signature(Tyfes::Png);
    if satisfies(buf, png) {
        assert(holds(png[0], buf) && holds(png[1], buf) && holds(png[2], buf) && holds(png[3], buf));
    }
    let gif = signature(Tyfes::Gif);
    if satisfies(buf, gif) {
        assert(holds(gif[0], buf) && holds(gif[1], buf) && holds(gif[2], buf));
    }
    let bmp = signature(Tyfes::Bmp);
    if satisfies(buf, bmp) {
        assert(holds(bmp[0], buf) && holds(bmp[1], buf));
    }
    let webp = signature(Tyfes::WebP);
    if satisfies(buf, webp) {
        assert(holds(webp[0], buf) && holds(webp[1], buf) && holds(webp[2], buf) && holds(webp[3], buf));
    }
    let pdf = signature(Tyfes::Pdf);
    if satisfies(buf, pdf) {
        assert(holds(pdf[0], buf) && holds(pdf[1], buf) && holds(pdf[2], buf) && holds(pdf[3], buf));
    }
    let ico = signature(Tyfes::Ico);
    if satisfies(buf, ico) {
        assert(holds(ico[0], buf) && holds(ico[1], buf) && holds(ico[2], buf) && holds(ico[3], buf));
    }
    let fpaper = signature(Tyfes::FPaper);
    if satisfies(buf, fpaper) {
        assert(holds(fpaper[0], buf) && holds(fpaper[1], buf) && holds(fpaper[2], buf));
        assert(holds(fpaper[3], buf) && holds(fpaper[4], buf) && holds(fpaper[5], buf));
    }
}

/// No buffer satisfies two of the signatures that start at offset 0: they
/// differ in their first byte. Only the signature of WebP, which starts at
/// offset 8, can be satisfied together with another.
pub proof fn lemma_leading_signatures_exclusive(buf: Seq<u8>, one: Tyfes, other: Tyfes)
    requires
        supported(one),
        supported(other),
        one != other,
        one != Tyfes::WebP,
        other != Tyfes::WebP,
    ensures
        !(satisfies(buf, signature(one)) && satisfies(buf, signature(other))),
{
    lemma_signature_bytes(buf);
}

/// A buffer that satisfies a rule reaches every offset of the rule.
pub proof fn lemma_satisfied_rule_is_reached(buf: Seq<u8>, rule: Seq<(usize, u8)>)
    requires
        satisfies(buf, rule),
    ensures
        buf.len() >= reach(rule),
    decreases rule.len(),
{
    if rule.len() > 0 {
        assert(holds(rule[rule.len() - 1], buf));
        assert forall|k: int| 0 <= k < rule.drop_last().len() implies holds(
            #[trigger] rule.drop_last()[k],
            buf,
        ) by {
            assert(rule.drop_last()[k] == rule[k]);
        }
        lemma_satisfied_rule_is_reached(buf, rule.drop_last());
    }
}

/// Every offset of a rule lies below the reach of the rule.
pub proof fn lemma_offsets_within_reach(rule: Seq<(usize, u8)>, k: int)
    requires
        0 <= k < rule.len(),
    ensures
        rule[k].0 < reach(rule),
    decreases rule.len(),
{
    if k < rule.len() - 1 {
        assert(rule.drop_last()[k] == rule[k]);
        lemma_offsets_within_reach(rule.drop_last(), k);
    }
}

/// A rule looks at no byte beyond its reach: the first `len` bytes of a
/// buffer satisfy it exactly when the whole buffer does, for every `len`
/// from the reach of the rule on.
pub proof fn lemma_rule_reads_its_reach(buf: Seq<u8>, len: int, rule: Seq<(usize, u8)>)
    requires
        reach(rule) <= len <= buf.len(),
    ensures
        satisfies(buf.subrange(0, len), rule) == satisfies(buf, rule),
{
    let head = buf.subrange(0, len);
    assert forall|k: int| 0 <= k < rule.len() implies holds(#[trigger] rule[k], head) == holds(
        rule[k],
        buf,
    ) by {
        lemma_offsets_within_reach(rule, k);
    }
}

/// Where the offsets of a rule rise, the rule reaches one past its last
/// offset.
proof fn lemma_reach_of_run(rule: Seq<(usize, u8)>)
    requires
        rule.len() > 0,
        forall|k: int| 0 < k < rule.len() ==> rule[k - 1].0 < (#[trigger] rule[k]).0,
    ensures
        reach(rule) == rule.last().0 + 1,
    decreases rule.len(),
{
    if rule.len() > 1 {
        let front = rule.drop_last();
        assert forall|k: int| 0 < k < front.len() implies front[k - 1].0 < (#[trigger] front[k]).0 by {
            assert(front[k] == rule[k] && front[k - 1] == rule[k - 1]);
        }
        lemma_reach_of_run(front);
        assert(front.last() == rule[rule.len() - 2]);
        assert(rule[rule.len() - 2].0 < rule[rule.len() - 1].0);
    } else {
        assert(reach(rule.drop_last()) == 0);
    }
}

/// The length that each signature asks of a buffer. The least of them is 2
/// and the greatest is `HEADER_LEN`.
pub proof fn lemma_reach_of_signatures()
    ensures
        reach(signature(Tyfes::FPaper)) == 6,
        reach(signature(Tyfes::Jpeg)) == 3,
        reach(signature(Tyfes::Png)) == 4,
        reach(signature(Tyfes::Gif)) == 3,
        reach(signature(Tyfes::Bmp)) == 2,
        reach(signature(Tyfes::WebP)) == 12,
        reach(signature(Tyfes::Pdf)) == 4,
        reach(signature(Tyfes::Ico)) == 4,
        forall|format: Tyfes| reach(#[trigger] signature(format)) <= HEADER_LEN,
        forall|format: Tyfes| supported(format) ==> reach(#[trigger] signature(format)) >= 2,
{
    lemma_reach_of_run(signature(Tyfes::FPaper));
    lemma_reach_of_run(signature(Tyfes::Jpeg));
    lemma_reach_of_run(signature(Tyfes::Png));
    lemma_reach_of_run(signature(Tyfes::Gif));
    lemma_reach_of_run(signature(Tyfes::Bmp));
    lemma_reach_of_run(signature(Tyfes::WebP));
    lemma_reach_of_run(signature(Tyfes::Pdf));
    lemma_reach_of_run(signature(Tyfes::Ico));
}

/// `first_match` returns the earliest format of the order whose signature
/// the buffer satisfies, and `Nothing` exactly where there is none (or where
/// the earliest is `Nothing` itself).
pub proof fn lemma_first_match_is_earliest(order: Seq<Tyfes>, buf: Seq<u8>)
    ensures
        ({
            let found = first_match(order, buf);
            ||| found == Tyfes::Nothing && forall|i: int|
                0 <= i < order.len() ==> !satisfies(buf, signature(#[trigger] order[i]))
            ||| exists|i: int|
                0 <= i < order.len() && #[trigger] order[i] == found && satisfies(
                    buf,
                    signature(found),
                ) && forall|j: int| 0 <= j < i ==> !satisfies(buf, signature(#[trigger] order[j]))
        }),
    decreases order.len(),
{
    if order.len() == 0 {
    } else if satisfies(buf, signature(order[0])) {
        assert(order[0] == first_match(order, buf));
    } else {
        let rest = order.drop_first();
        lemma_first_match_is_earliest(rest, buf);
        let found = first_match(rest, buf);
        if exists|i: int|
            0 <= i < rest.len() && #[trigger] rest[i] == found && satisfies(buf, signature(found))
                && forall|j: int| 0 <= j < i ==> !satisfies(buf, signature(#[trigger] rest[j])) {
            let i = choose|i: int|
                0 <= i < rest.len() && #[trigger] rest[i] == found && satisfies(
                    buf,
                    signature(found),
                ) && forall|j: int| 0 <= j < i ==> !satisfies(buf, signature(#[trigger] rest[j]));
            assert(order[i + 1] == rest[i]);
            assert forall|j: int| 0 <= j < i + 1 implies !satisfies(
                buf,
                signature(#[trigger] order[j]),
            ) by {
                if j > 0 {
                    assert(order[j] == rest[j - 1]);
                }
            }
        } else {
            assert forall|i: int| 0 <= i < order.len() implies !satisfies(
                buf,
                signature(#[trigger] order[i]),
            ) by {
                if i > 0 {
                    assert(order[i] == rest[i - 1]);
                }
            }
        }
    }
}

/// What the content shows is the supported format of least rank whose
/// signature the buffer satisfies; it is `Nothing` exactly where the buffer
/// satisfies no signature.
pub proof fn lemma_content_format_is_earliest(buf: Seq<u8>)
    ensures
        content_format(buf) == Tyfes::Nothing <==> forall|format: Tyfes|
            supported(format) ==> !satisfies(buf, #[trigger] signature(format)),
        supported(content_format(buf)) ==> satisfies(buf, signature(content_format(buf))),
        forall|format: Tyfes|
            supported(format) && satisfies(buf, #[trigger] signature(format)) ==> rank(
                content_format(buf),
            ) <= rank(format),
{
    lemma_first_match_is_earliest(priority(), buf);
    let found = content_format(buf);
    assert forall|format: Tyfes| supported(format) implies (priority()[rank(format)] == format
        && 0 <= rank(format) < 8) by {
        lemma_priority_ranks(format);
    }
    lemma_priority_ranks(found);
    if found == Tyfes::Nothing {
        assert forall|format: Tyfes| supported(format) implies !satisfies(
            buf,
            #[trigger] signature(format),
        ) by {
            assert(priority()[rank(format)] == format);
        }
    } else {
        let i = choose|i: int|
            0 <= i < priority().len() && #[trigger] priority()[i] == found && satisfies(
                buf,
                signature(found),
            ) && forall|j: int| 0 <= j < i ==> !satisfies(buf, signature(#[trigger] priority()[j]));
        assert(rank(priority()[i]) == i);
        assert forall|format: Tyfes|
            supported(format) && satisfies(buf, #[trigger] signature(format)) implies rank(found)
            <= rank(format) by {
            assert(priority()[rank(format)] == format);
        }
        assert(satisfies(buf, signature(found)));
    }
}

} // verus!
