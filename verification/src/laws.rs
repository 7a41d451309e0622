//! What holds of every classification, stated over the spec functions that
//! the contracts of the classifier use.

use vstd::prelude::*;
use crate::catalog::{
    content_format, lemma_content_format_is_earliest, lemma_leading_signatures_exclusive,
    lemma_priority_ranks, lemma_reach_of_signatures, lemma_rule_reads_its_reach,
    lemma_satisfied_rule_is_reached, rank, reach, satisfies, signature, supported, HEADER_LEN,
};
use crate::classifier::{classification, suffixes};
use crate::extension::{
    accepts, gate, in_gate, lemma_gate_texts, lemma_gate_words, lemma_trimmed_keeps_gate_words,
    trimmed,
};
use crate::formats::Tyfes;

verus! {

/// A buffer that satisfies the signature of a supported format, under an
/// extension that the format accepts, is classified as that format.
///
/// The signature of WebP leaves the first eight bytes open, so a buffer can
/// satisfy it together with one other signature, and the order of priority
/// then decides. These buffers are left out: for WebP those that satisfy a
/// signature tried before it, for PDF and ICO those that satisfy WebP's.
pub proof fn lemma_signature_under_own_extension(format: Tyfes, ext: Seq<char>, buf: Seq<u8>)
    requires
        supported(format),
        satisfies(buf, signature(format)),
        accepts(format, ext) || accepts(format, trimmed(ext)),
        format == Tyfes::WebP ==> !satisfies(buf, signature(Tyfes::FPaper)) && !satisfies(
            buf,
            signature(Tyfes::Jpeg),
        ) && !satisfies(buf, signature(Tyfes::Png)) && !satisfies(buf, signature(Tyfes::Gif))
            && !satisfies(buf, signature(Tyfes::Bmp)),
        format == Tyfes::Pdf || format == Tyfes::Ico ==> !satisfies(buf, signature(Tyfes::WebP)),
    ensures
        classification(ext, buf) == format,
{
    lemma_priority_ranks(format);
    if accepts(format, ext) {
        assert(in_gate(ext));
        lemma_trimmed_keeps_gate_words(ext);
    }
    assert(in_gate(trimmed(ext)));
    lemma_content_format_is_earliest(buf);
    let found = content_format(buf);
    assert(rank(found) <= rank(format));
    if found != format {
        if found != Tyfes::WebP && format != Tyfes::WebP {
            lemma_leading_signatures_exclusive(buf, found, format);
        }
    }
}

/// A buffer too short for every signature is `Nothing`, whatever extension
/// is claimed. Every signature asks for two bytes at least, so the empty
/// buffer and the buffers of one byte are among them.
pub proof fn lemma_short_buffer_is_nothing(ext: Seq<char>, buf: Seq<u8>)
    requires
        buf.len() < 2 || forall|format: Tyfes|
            supported(format) ==> buf.len() < reach(#[trigger] signature(format)),
    ensures
        content_format(buf) == Tyfes::Nothing,
        classification(ext, buf) == Tyfes::Nothing,
{
    lemma_reach_of_signatures();
    assert forall|format: Tyfes| supported(format) implies !satisfies(
        buf,
        #[trigger] signature(format),
    ) by {
        if satisfies(buf, signature(format)) {
            lemma_satisfied_rule_is_reached(buf, signature(format));
        }
    }
    lemma_content_format_is_earliest(buf);
}

/// An extension that is not recognised is `Nothing`, whatever the
/// buffer holds.
pub proof fn lemma_unrecognised_extension_is_nothing(ext: Seq<char>, buf: Seq<u8>)
    requires
        !gate().contains(trimmed(ext)),
    ensures
        classification(ext, buf) == Tyfes::Nothing,
{
    lemma_gate_words(trimmed(ext));
}

/// Classifying the same extension and the same buffer again gives the same
/// format: the result depends on the two and on nothing else.
pub proof fn lemma_classification_repeats(
    ext: Seq<char>,
    buf: Seq<u8>,
    again_ext: Seq<char>,
    again_buf: Seq<u8>,
)
    requires
        again_ext == ext,
        again_buf == buf,
    ensures
        classification(again_ext, again_buf) == classification(ext, buf),
{
}

/// Where a buffer satisfies the signatures of two supported formats, the
/// one that stands earlier in the order of priority is reported, under any
/// extension that is recognised.
pub proof fn lemma_earlier_format_wins(ext: Seq<char>, buf: Seq<u8>, earlier: Tyfes, later: Tyfes)
    requires
        supported(earlier),
        supported(later),
        rank(earlier) < rank(later),
        satisfies(buf, signature(earlier)),
        satisfies(buf, signature(later)),
    ensures
        content_format(buf) == earlier,
        in_gate(trimmed(ext)) ==> classification(ext, buf) == earlier,
        earlier == Tyfes::WebP || later == Tyfes::WebP,
{
    lemma_content_format_is_earliest(buf);
    let found = content_format(buf);
    assert(rank(found) <= rank(earlier));
    if earlier != Tyfes::WebP && later != Tyfes::WebP {
        lemma_leading_signatures_exclusive(buf, earlier, later);
    }
    if found != earlier {
        if found != Tyfes::WebP && earlier != Tyfes::WebP {
            lemma_leading_signatures_exclusive(buf, found, earlier);
        }
        if found != Tyfes::WebP && later != Tyfes::WebP {
            lemma_leading_signatures_exclusive(buf, found, later);
        }
    }
}

/// The first `HEADER_LEN` bytes decide: a buffer and any of its prefixes
/// of that length or more are classified alike.
pub proof fn lemma_header_decides(ext: Seq<char>, buf: Seq<u8>, len: int)
    requires
        HEADER_LEN <= len <= buf.len(),
    ensures
        content_format(buf.subrange(0, len)) == content_format(buf),
        classification(ext, buf.subrange(0, len)) == classification(ext, buf),
{
    let head = buf.subrange(0, len);
    lemma_reach_of_signatures();
    assert forall|format: Tyfes| satisfies(head, #[trigger] signature(format)) == satisfies(
        buf,
        signature(format),
    ) by {
        lemma_rule_reads_its_reach(buf, len, signature(format));
    }
    lemma_content_format_is_earliest(head);
    lemma_content_format_is_earliest(buf);
}

/// Each suffix that a classifier knows is a dot followed by a recognised
/// extension, in the order of `gate()`.
pub proof fn lemma_suffixes_are_dotted_gate()
    ensures
        suffixes().len() == gate().len(),
        forall|k: int| 0 <= k < gate().len() ==> #[trigger] suffixes()[k] == seq!['.'] + gate()[k],
{
    reveal_strlit(".fpaper");
    reveal_strlit(".jpg");
    reveal_strlit(".jpeg");
    reveal_strlit(".png");
    reveal_strlit(".gif");
    reveal_strlit(".bmp");
    reveal_strlit(".webp");
    reveal_strlit(".pdf");
    reveal_strlit(".ico");
    lemma_gate_texts();
    assert(suffixes()[0] =~= seq!['.'] + gate()[0]);
    assert(suffixes()[1] =~= seq!['.'] + gate()[1]);
    assert(suffixes()[2] =~= seq!['.'] + gate()[2]);
    assert(suffixes()[3] =~= seq!['.'] + gate()[3]);
    assert(suffixes()[4] =~= seq!['.'] + gate()[4]);
    assert(suffixes()[5] =~= seq!['.'] + gate()[5]);
    assert(suffixes()[6] =~= seq!['.'] + gate()[6]);
    assert(suffixes()[7] =~= seq!['.'] + gate()[7]);
    assert(suffixes()[8] =~= seq!['.'] + gate()[8]);
}

} // verus!
