//! The classifier: decides the format of a buffer whose file claims a given
//! extension.

use vstd::prelude::*;
use crate::catalog::{content_format, first_match, matches_rule, priority, priority_order, signature_of};
use crate::extension::{in_gate, recognised, trimmed};
use crate::formats::Tyfes;

verus! {

/// The format reported for a buffer whose file claims the extension `ext`:
/// what the content shows where the extension is recognised, and `Nothing`
/// otherwise.
pub open spec fn classification(ext: Seq<char>, buf: Seq<u8>) -> Tyfes {
    if in_gate(trimmed(ext)) {
        content_format(buf)
    } else {
        Tyfes::Nothing
    }
}

/// The file-name suffixes that the classifier knows: a dot and a recognised
/// extension each.
pub open spec fn suffixes() -> Seq<Seq<char>> {
    seq![
        ".fpaper"@,
        ".jpg"@,
        ".jpeg"@,
        ".png"@,
        ".gif"@,
        ".bmp"@,
        ".webp"@,
        ".pdf"@,
        ".ico"@,
    ]
}

/// The texts of a list of strings.
pub open spec fn texts(strings: Seq<String>) -> Seq<Seq<char>> {
    Seq::new(strings.len(), |i: int| strings[i]@)
}

/// What a `Tyfe` holds, as plain values.
pub struct TyfeView {
    /// The extension of the file checked last, as it was given.
    pub extension: Seq<char>,
    /// The name of the file checked last.
    pub filename: Seq<char>,
    /// The file-name suffixes that the classifier knows.
    pub binary_ext: Seq<Seq<char>>,
}

/// A classifier. It remembers the name and the extension of the file that it
/// checked last.
pub struct Tyfe {
    extension: String,
    filename: String,
    binary_ext: Vec<String>,
}

impl View for Tyfe {
    type V = TyfeView;

    closed spec fn view(&self) -> TyfeView {
        TyfeView {
            extension: self.extension@,
            filename: self.filename@,
            binary_ext: texts(self.binary_ext@),
        }
    }
}

impl Default for Tyfe {
    /// A classifier that has checked no file yet.
    fn default() -> (tyfe: Tyfe)
        ensures
            tyfe@.extension == Seq::<char>::empty(),
            tyfe@.filename == Seq::<char>::empty(),
            tyfe@.binary_ext == suffixes(),
    {
        let mut binary_ext: Vec<String> = Vec::new();
        binary_ext.push(".fpaper".to_owned());
        binary_ext.push(".jpg".to_owned());
        binary_ext.push(".jpeg".to_owned());
        binary_ext.push(".png".to_owned());
        binary_ext.push(".gif".to_owned());
        binary_ext.push(".bmp".to_owned());
        binary_ext.push(".webp".to_owned());
        binary_ext.push(".pdf".to_owned());
        binary_ext.push(".ico".to_owned());
        assert(texts(binary_ext@) =~= suffixes());
        Tyfe { extension: String::new(), filename: String::new(), binary_ext }
    }
}

impl Tyfe {
    #[verifier::type_invariant]
    spec fn well_formed(&self) -> bool {
        self@.binary_ext == suffixes()
    }

    /// The name of the file checked last, empty before the first check.
    pub fn filename(&self) -> (name: &str)
        ensures
            name@ == self@.filename,
    {
        self.filename.as_str()
    }

    /// The extension of the file checked last, as it was given; empty before
    /// the first check and where the file had none.
    pub fn extension(&self) -> (ext: &str)
        ensures
            ext@ == self@.extension,
    {
        self.extension.as_str()
    }

    /// The file-name suffixes that the classifier knows. They are the same
    /// for every classifier.
    pub fn binary_ext(&self) -> (list: &[String])
        ensures
            texts(list@) == self@.binary_ext,
            self@.binary_ext == suffixes(),
    {
        proof {
            use_type_invariant(self);
        }
        self.binary_ext.as_slice()
    }

    /// Records the file and the extension that it claims, and returns the
    /// format of its content `data`. A file without an extension, or with one
    /// that is not recognised, is `Nothing` whatever its content.
    pub fn check(&mut self, file: String, extension: Option<String>, data: &[u8]) -> (format: Tyfes)
        ensures
            final(self)@.filename == file@,
            final(self)@.extension == match extension {
                Some(ext) => ext@,
                None => Seq::<char>::empty(),
            },
            final(self)@.binary_ext == old(self)@.binary_ext,
            format == match extension {
                Some(ext) => classification(ext@, data@),
                None => Tyfes::Nothing,
            },
    {
        proof {
            use_type_invariant(&*self);
        }
        self.filename = file;
        match extension {
            Some(ext) => {
                self.extension = ext;
                self.classify(self.extension.as_str(), data)
            },
            None => {
                self.extension = String::new();
                Tyfes::Nothing
            },
        }
    }

    /// Returns the format of a buffer whose file claims `extension`: the
    /// format that the content shows where the extension, without the white
    /// space around it, is recognised, and `Nothing` otherwise.
    pub fn classify(&self, extension: &str, buffer: &[u8]) -> (format: Tyfes)
        ensures
            format == classification(extension@, buffer@),
    {
        if recognised(extension) {
            self.what_is_this(buffer)
        } else {
            Tyfes::Nothing
        }
    }

    /// Returns the format that the content shows: the first format in the
    /// order of priority whose signature `data` satisfies, or `Nothing`
    /// where it satisfies none.
    pub fn what_is_this(&self, data: &[u8]) -> (format: Tyfes)
        ensures
            format == content_format(data@),
    {
        let order = priority_order();
        let mut i: usize = 0;
        assert(priority().subrange(0, priority().len() as int) == priority());
        while i < order.len()
            invariant
                i <= order@.len(),
                order@ == priority(),
                first_match(priority().subrange(i as int, priority().len() as int), data@)
                    == content_format(data@),
            decreases order.len() - i,
        {
            let format = order[i];
            let rule = signature_of(format);
            let ghost rest = priority().subrange(i as int, priority().len() as int);
            assert(rest[0] == format);
            assert(rest.drop_first() == priority().subrange(i + 1, priority().len() as int));
            if matches_rule(data, rule.as_slice()) {
                return format;
            }
            i += 1;
        }
        Tyfes::Nothing
    }
}

} // verus!
