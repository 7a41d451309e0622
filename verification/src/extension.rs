//! The extension gate: which claimed extensions are recognised, after the
//! white space around them has been removed.

use vstd::prelude::*;
use vstd::std_specs::iter::IteratorSpec;
use crate::catalog::{priority, priority_order};
use crate::formats::Tyfes;

verus! {

/// The characters that count as white space: the code points that Unicode
/// gives the property `White_Space`.
pub open spec fn is_white_space(c: char) -> bool {
    let n = c as u32;
    ||| 0x0009 <= n <= 0x000D
    ||| n == 0x0020
    ||| n == 0x0085
    ||| n == 0x00A0
    ||| n == 0x1680
    ||| 0x2000 <= n <= 0x200A
    ||| n == 0x2028
    ||| n == 0x2029
    ||| n == 0x202F
    ||| n == 0x205F
    ||| n == 0x3000
}

/// The text without the white space at its start.
pub open spec fn trim_start(s: Seq<char>) -> Seq<char>
    decreases s.len(),
{
    if s.len() > 0 && is_white_space(s.first()) {
        trim_start(s.drop_first())
    } else {
        s
    }
}

/// The text without the white space at its end.
pub open spec fn trim_end(s: Seq<char>) -> Seq<char>
    decreases s.len(),
{
    if s.len() > 0 && is_white_space(s.last()) {
        trim_end(s.drop_last())
    } else {
        s
    }
}

/// The text without the white space at either end.
pub open spec fn trimmed(s: Seq<char>) -> Seq<char> {
    trim_end(trim_start(s))
}

/// The extensions under which files of a format are named. `Nothing` has
/// none.
pub open spec fn extensions(format: Tyfes) -> Seq<Seq<char>> {
    match format {
        Tyfes::Nothing => seq![],
        Tyfes::Jpeg => seq!["jpg"@, "jpeg"@],
        Tyfes::Png => seq!["png"@],
        Tyfes::Gif => seq!["gif"@],
        Tyfes::Bmp => seq!["bmp"@],
        Tyfes::WebP => seq!["webp"@],
        Tyfes::Pdf => seq!["pdf"@],
        Tyfes::Ico => seq!["ico"@],
        Tyfes::FPaper => seq!["fpaper"@],
    }
}

/// The format is one that files with this extension claim to have. The
/// comparison is exact: case counts.
pub open spec fn accepts(format: Tyfes, ext: Seq<char>) -> bool {
    extensions(format).contains(ext)
}

/// The extension is recognised: some supported format accepts it.
pub open spec fn in_gate(ext: Seq<char>) -> bool {
    exists|i: int| 0 <= i < priority().len() && accepts(#[trigger] priority()[i], ext)
}

/// The recognised extensions, in the order of their formats.
pub open spec fn gate() -> Seq<Seq<char>> {
    seq!["fpaper"@, "jpg"@, "jpeg"@, "png"@, "gif"@, "bmp"@, "webp"@, "pdf"@, "ico"@]
}

/// Tells whether the character is white space.
pub fn is_whitespace(c: char) -> (white: bool)
    ensures
        white == is_white_space(c),
{
    let n: u32 = c as u32;
    (0x0009 <= n && n <= 0x000D) || n == 0x0020 || n == 0x0085 || n == 0x00A0 || n == 0x1680
        || (0x2000 <= n && n <= 0x200A) || n == 0x2028 || n == 0x2029 || n == 0x202F
        || n == 0x205F || n == 0x3000
}

/// Returns the characters of a text, in order.
pub fn chars_of(text: &str) -> (chars: Vec<char>)
    ensures
        chars@ == text@,
{
    broadcast use vstd::string::group_string_axioms;

    let mut chars: Vec<char> = Vec::new();
    let mut rest = text.chars();
    loop
        invariant
            chars@ + rest.remaining() == text@,
            rest.decrease() is Some,
        ensures
            chars@ == text@,
        decreases rest.decrease()->0,
    {
        match rest.next() {
            Some(c) => {
                chars.push(c);
            },
            None => {
                break ;
            },
        }
    }
    chars
}

/// Returns the bounds of the text that remains when the white space at both
/// ends is removed: `chars[start..end]` is the trimmed text. Where the text
/// holds white space only, both bounds are its length.
pub fn trim_bounds(chars: &[char]) -> (bounds: (usize, usize))
    ensures
        bounds.0 <= bounds.1 <= chars@.len(),
        chars@.subrange(bounds.0 as int, bounds.1 as int) == trimmed(chars@),
        forall|k: int| 0 <= k < bounds.0 ==> is_white_space(#[trigger] chars@[k]),
        forall|k: int| bounds.1 <= k < chars@.len() ==> is_white_space(#[trigger] chars@[k]),
        bounds.0 < chars@.len() ==> !is_white_space(chars@[bounds.0 as int]),
        bounds.0 < bounds.1 ==> !is_white_space(chars@[bounds.1 - 1]),
{
    let len = chars.len();
    let mut start: usize = 0;
    assert(chars@.subrange(0, len as int) == chars@);
    while start < len && is_whitespace(chars[start])
        invariant
            start <= len == chars@.len(),
            trim_start(chars@.subrange(start as int, len as int)) == trim_start(chars@),
            forall|k: int| 0 <= k < start ==> is_white_space(#[trigger] chars@[k]),
        decreases len - start,
    {
        assert(chars@.subrange(start as int, len as int).drop_first() == chars@.subrange(
            start + 1,
            len as int,
        ));
        start += 1;
    }
    let mut end: usize = len;
    while end > start && is_whitespace(chars[end - 1])
        invariant
            start <= end <= len == chars@.len(),
            trim_end(chars@.subrange(start as int, end as int)) == trimmed(chars@),
            forall|k: int| end <= k < len ==> is_white_space(#[trigger] chars@[k]),
            start < len ==> !is_white_space(chars@[start as int]),
        decreases end - start,
    {
        assert(chars@.subrange(start as int, end as int).drop_last() == chars@.subrange(
            start as int,
            end - 1,
        ));
        end -= 1;
    }
    (start, end)
}

/// Returns the extensions under which files of a format are named.
pub fn extensions_of(format: Tyfes) -> (words: Vec<&'static str>)
    ensures
        words@.len() == extensions(format).len(),
        forall|j: int| 0 <= j < words@.len() ==> (#[trigger] words@[j])@ == extensions(format)[j],
{
    match format {
        Tyfes::Nothing => vec![],
        Tyfes::Jpeg => vec!["jpg", "jpeg"],
        Tyfes::Png => vec!["png"],
        Tyfes::Gif => vec!["gif"],
        Tyfes::Bmp => vec!["bmp"],
        Tyfes::WebP => vec!["webp"],
        Tyfes::Pdf => vec!["pdf"],
        Tyfes::Ico => vec!["ico"],
        Tyfes::FPaper => vec!["fpaper"],
    }
}

/// Tells whether `chars[start..end]` is the text of `word`.
pub fn same_text(word: &str, chars: &[char], start: usize, end: usize) -> (same: bool)
    requires
        start <= end <= chars@.len(),
    ensures
        same == (word@ == chars@.subrange(start as int, end as int)),
{
    let len = word.unicode_len();
    if len != end - start {
        return false;
    }
    let mut k: usize = 0;
    while k < len
        invariant
            k <= len == word@.len(),
            len == end - start,
            start <= end <= chars@.len(),
            forall|j: int| 0 <= j < k ==> word@[j] == chars@[start + j],
        decreases len - k,
    {
        if word.get_char(k) != chars[start + k] {
            assert(chars@.subrange(start as int, end as int)[k as int] == chars@[start + k]);
            return false;
        }
        k += 1;
    }
    assert(word@ =~= chars@.subrange(start as int, end as int));
    true
}

/// Tells whether a claimed extension is recognised, once the white space
/// around it is removed.
pub fn recognised(extension: &str) -> (known: bool)
    ensures
        known == in_gate(trimmed(extension@)),
{
    let chars = chars_of(extension);
    let (start, end) = trim_bounds(chars.as_slice());
    let ghost ext = trimmed(extension@);
    let order = priority_order();
    let mut i: usize = 0;
    while i < order.len()
        invariant
            i <= order@.len(),
            order@ == priority(),
            start <= end <= chars@.len(),
            chars@.subrange(start as int, end as int) == ext,
            ext == trimmed(extension@),
            forall|p: int| 0 <= p < i ==> !accepts(#[trigger] priority()[p], ext),
        decreases order.len() - i,
    {
        let words = extensions_of(order[i]);
        let mut j: usize = 0;
        while j < words.len()
            invariant
                i < order@.len(),
                order@ == priority(),
                j <= words@.len() == extensions(order@[i as int]).len(),
                forall|q: int| 0 <= q < words@.len() ==> (#[trigger] words@[q])@ == extensions(order@[i as int])[q],
                start <= end <= chars@.len(),
                chars@.subrange(start as int, end as int) == ext,
                ext == trimmed(extension@),
                forall|q: int| 0 <= q < j ==> extensions(order@[i as int])[q] != ext,
            decreases words.len() - j,
        {
            if same_text(words[j], chars.as_slice(), start, end) {
                assert(extensions(order@[i as int])[j as int] == ext);
                assert(accepts(priority()[i as int], ext));
                return true;
            }
            j += 1;
        }
        i += 1;
    }
    false
}

/// `trim_start` removes the longest run of white space that the text starts
/// with. The result is where the remaining text starts.
pub proof fn lemma_trim_start_is_suffix(text: Seq<char>) -> (start: int)
    ensures
        0 <= start <= text.len(),
        trim_start(text) == text.subrange(start, text.len() as int),
        forall|k: int| 0 <= k < start ==> is_white_space(#[trigger] text[k]),
        start < text.len() ==> !is_white_space(text[start]),
    decreases text.len(),
{
    if text.len() > 0 && is_white_space(text.first()) {
        let rest = text.drop_first();
        let inner = lemma_trim_start_is_suffix(rest);
        assert(rest.subrange(inner, rest.len() as int) == text.subrange(
            inner + 1,
            text.len() as int,
        ));
        assert forall|k: int| 0 <= k < inner + 1 implies is_white_space(#[trigger] text[k]) by {
            if k > 0 {
                assert(text[k] == rest[k - 1]);
            }
        }
        inner + 1
    } else {
        assert(text.subrange(0, text.len() as int) == text);
        0
    }
}

/// `trim_end` removes the longest run of white space that the text ends
/// with. The result is where the remaining text ends.
pub proof fn lemma_trim_end_is_prefix(text: Seq<char>) -> (end: int)
    ensures
        0 <= end <= text.len(),
        trim_end(text) == text.subrange(0, end),
        forall|k: int| end <= k < text.len() ==> is_white_space(#[trigger] text[k]),
        end > 0 ==> !is_white_space(text[end - 1]),
    decreases text.len(),
{
    if text.len() > 0 && is_white_space(text.last()) {
        let rest = text.drop_last();
        let inner = lemma_trim_end_is_prefix(rest);
        assert(rest.subrange(0, inner) == text.subrange(0, inner));
        assert forall|k: int| inner <= k < text.len() implies is_white_space(#[trigger] text[k]) by {
            if k < text.len() - 1 {
                assert(text[k] == rest[k]);
            }
        }
        inner
    } else {
        assert(text.subrange(0, text.len() as int) == text);
        text.len() as int
    }
}

/// The trimmed text is the part of the text between its first and its last
/// character that is not white space, both included; it is empty where the
/// text holds white space only. The result gives the bounds of that part.
pub proof fn lemma_trimmed_is_core(text: Seq<char>) -> (bounds: (int, int))
    ensures
        0 <= bounds.0 <= bounds.1 <= text.len(),
        trimmed(text) == text.subrange(bounds.0, bounds.1),
        forall|k: int| 0 <= k < bounds.0 ==> is_white_space(#[trigger] text[k]),
        forall|k: int| bounds.1 <= k < text.len() ==> is_white_space(#[trigger] text[k]),
        bounds.0 < bounds.1 ==> !is_white_space(text[bounds.0]) && !is_white_space(
            text[bounds.1 - 1],
        ),
{
    let start = lemma_trim_start_is_suffix(text);
    let tail = text.subrange(start, text.len() as int);
    let end = lemma_trim_end_is_prefix(tail);
    assert(tail.subrange(0, end) == text.subrange(start, start + end));
    assert forall|k: int| start + end <= k < text.len() implies is_white_space(
        #[trigger] text[k],
    ) by {
        assert(text[k] == tail[k - start]);
    }
    if end > 0 {
        assert(tail[end - 1] == text[start + end - 1]);
        assert(tail[0] == text[start]);
    }
    (start, start + end)
}

/// Trimming leaves a text as it is where the text is empty or neither
/// starts nor ends with white space.
pub proof fn lemma_trimmed_keeps_plain_text(text: Seq<char>)
    requires
        text.len() > 0 ==> !is_white_space(text.first()) && !is_white_space(text.last()),
    ensures
        trimmed(text) == text,
{
}

/// The recognised extensions, letter by letter.
pub proof fn lemma_gate_texts()
    ensures
        "fpaper"@ == seq!['f', 'p', 'a', 'p', 'e', 'r'],
        "jpg"@ == seq!['j', 'p', 'g'],
        "jpeg"@ == seq!['j', 'p', 'e', 'g'],
        "png"@ == seq!['p', 'n', 'g'],
        "gif"@ == seq!['g', 'i', 'f'],
        "bmp"@ == seq!['b', 'm', 'p'],
        "webp"@ == seq!['w', 'e', 'b', 'p'],
        "pdf"@ == seq!['p', 'd', 'f'],
        "ico"@ == seq!['i', 'c', 'o'],
{
    reveal_strlit("fpaper");
    reveal_strlit("jpg");
    reveal_strlit("jpeg");
    reveal_strlit("png");
    reveal_strlit("gif");
    reveal_strlit("bmp");
    reveal_strlit("webp");
    reveal_strlit("pdf");
    reveal_strlit("ico");
    assert("fpaper"@ =~= seq!['f', 'p', 'a', 'p', 'e', 'r']);
    assert("jpg"@ =~= seq!['j', 'p', 'g']);
    assert("jpeg"@ =~= seq!['j', 'p', 'e', 'g']);
    assert("png"@ =~= seq!['p', 'n', 'g']);
    assert("gif"@ =~= seq!['g', 'i', 'f']);
    assert("bmp"@ =~= seq!['b', 'm', 'p']);
    assert("webp"@ =~= seq!['w', 'e', 'b', 'p']);
    assert("pdf"@ =~= seq!['p', 'd', 'f']);
    assert("ico"@ =~= seq!['i', 'c', 'o']);
}

/// The extension gate and the catalog are in step: an extension is
/// recognised exactly when it is one of the nine words of `gate()`, and each
/// of them belongs to one supported format, `jpg` and `jpeg` both to JPEG.
pub proof fn lemma_gate_words(ext: Seq<char>)
    ensures
        in_gate(ext) <==> gate().contains(ext),
        accepts(Tyfes::FPaper, ext) <==> ext == "fpaper"@,
        accepts(Tyfes::Jpeg, ext) <==> ext == "jpg"@ || ext == "jpeg"@,
        accepts(Tyfes::Png, ext) <==> ext == "png"@,
        accepts(Tyfes::Gif, ext) <==> ext == "gif"@,
        accepts(Tyfes::Bmp, ext) <==> ext == "bmp"@,
        accepts(Tyfes::WebP, ext) <==> ext == "webp"@,
        accepts(Tyfes::Pdf, ext) <==> ext == "pdf"@,
        accepts(Tyfes::Ico, ext) <==> ext == "ico"@,
        !accepts(Tyfes::Nothing, ext),
{
    assert(extensions(Tyfes::FPaper)[0] == "fpaper"@);
    assert(extensions(Tyfes::Jpeg)[0] == "jpg"@ && extensions(Tyfes::Jpeg)[1] == "jpeg"@);
    assert(extensions(Tyfes::Png)[0] == "png"@);
    assert(extensions(Tyfes::Gif)[0] == "gif"@);
    assert(extensions(Tyfes::Bmp)[0] == "bmp"@);
    assert(extensions(Tyfes::WebP)[0] == "webp"@);
    assert(extensions(Tyfes::Pdf)[0] == "pdf"@);
    assert(extensions(Tyfes::Ico)[0] == "ico"@);
    let words = gate();
    assert(words[0] == "fpaper"@ && words[1] == "jpg"@ && words[2] == "jpeg"@ && words[3]
        == "png"@ && words[4] == "gif"@ && words[5] == "bmp"@ && words[6] == "webp"@ && words[7]
        == "pdf"@ && words[8] == "ico"@);
    let order = priority();
    assert(order[0] == Tyfes::FPaper && order[1] == Tyfes::Jpeg && order[2] == Tyfes::Png
        && order[3] == Tyfes::Gif && order[4] == Tyfes::Bmp && order[5] == Tyfes::WebP
        && order[6] == Tyfes::Pdf && order[7] == Tyfes::Ico);
}

/// The recognised extensions hold no white space, so trimming keeps them.
pub proof fn lemma_trimmed_keeps_gate_words(ext: Seq<char>)
    requires
        in_gate(ext),
    ensures
        trimmed(ext) == ext,
{
    lemma_gate_words(ext);
    lemma_gate_texts();
    lemma_trimmed_keeps_plain_text(ext);
}

} // verus!
