//! The fonts of a page, by resource name, and the text encoding each selects.

use vstd::prelude::*;
use vstd::string::StringSliceAdditionalSpecFns;
use vstd::utf8::{decode_utf8, valid_utf8};
use crate::text::same_bytes;

verus! {

#[verifier::external_type_specification]
#[verifier::external_body]
pub struct ExDictionary(lopdf::Dictionary);

/// The names that a dictionary holds, each under its key. An entry whose value
/// is anything but a name has no part in it.
pub uninterp spec fn dictionary_names(dictionary: lopdf::Dictionary) -> Map<Seq<u8>, Seq<u8>>;

/// The key under which a font dictionary names its encoding.
pub open spec fn encoding_key() -> Seq<u8> {
    "Encoding".spec_bytes()
}

/// The encoding identifier among the names of a font dictionary: the name under
/// the key `Encoding`, read as UTF-8. Where there is no such name, or it is not
/// UTF-8, the identifier is `StandardEncoding`.
pub open spec fn encoding_among(names: Map<Seq<u8>, Seq<u8>>) -> Seq<char> {
    if names.contains_key(encoding_key()) && valid_utf8(names[encoding_key()]) {
        decode_utf8(names[encoding_key()])
    } else {
        "StandardEncoding"@
    }
}

/// The encoding identifier that a font dictionary selects.
pub open spec fn font_encoding_name(font: lopdf::Dictionary) -> Seq<char> {
    encoding_among(dictionary_names(font))
}

/// Reads the encoding identifier of a font through
/// `lopdf::Dictionary::get_font_encoding`.
///
/// The contract is taken on trust: the identifier is the UTF-8 name that the
/// dictionary holds under `Encoding`, and `StandardEncoding` where it holds
/// none.
#[verifier::external_body]
pub(crate) fn font_encoding<'a>(font: &'a lopdf::Dictionary) -> (encoding: &'a str)
    ensures
        encoding@ == encoding_among(dictionary_names(*font)),
{
    font.get_font_encoding()
}

/// A font of a page under its resource name.
struct FontEntry<'a> {
    name: Vec<u8>,
    font: &'a lopdf::Dictionary,
}

/// The map that a list of entries stands for: a later entry replaces an
/// earlier one of the same name.
spec fn entries_map(entries: Seq<FontEntry<'_>>) -> Map<Seq<u8>, lopdf::Dictionary>
    decreases entries.len(),
{
    if entries.len() == 0 {
        Map::empty()
    } else {
        entries_map(entries.drop_last()).insert(entries.last().name@, *entries.last().font)
    }
}

/// Where no entry carries `name`, the map has no such key.
proof fn lemma_absent(entries: Seq<FontEntry<'_>>, name: Seq<u8>)
    requires
        forall|j: int| 0 <= j < entries.len() ==> entries[j].name@ != name,
    ensures
        !entries_map(entries).contains_key(name),
    decreases entries.len(),
{
    if entries.len() > 0 {
        lemma_absent(entries.drop_last(), name);
    }
}

/// The last entry that carries `name` decides what the map holds for it.
proof fn lemma_present(entries: Seq<FontEntry<'_>>, name: Seq<u8>, i: int)
    requires
        0 <= i < entries.len(),
        entries[i].name@ == name,
        forall|j: int| i < j < entries.len() ==> entries[j].name@ != name,
    ensures
        entries_map(entries).contains_key(name),
        entries_map(entries)[name] == *entries[i].font,
    decreases entries.len(),
{
    if i < entries.len() - 1 {
        lemma_present(entries.drop_last(), name, i);
    }
}

/// The fonts that a page can select, by resource name.
pub struct FontTable<'a> {
    entries: Vec<FontEntry<'a>>,
}

impl<'a> View for FontTable<'a> {
    type V = Map<Seq<u8>, lopdf::Dictionary>;

    closed spec fn view(&self) -> Map<Seq<u8>, lopdf::Dictionary> {
        entries_map(self.entries@)
    }
}

impl<'a> FontTable<'a> {
    /// A table without fonts.
    pub fn new() -> (table: Self)
        ensures
            table@ == Map::<Seq<u8>, lopdf::Dictionary>::empty(),
    {
        FontTable { entries: Vec::new() }
    }

    /// Binds `name` to `font`; an earlier font of that name is replaced.
    pub fn insert(&mut self, name: Vec<u8>, font: &'a lopdf::Dictionary)
        ensures
            final(self)@ == old(self)@.insert(name@, *font),
    {
        self.entries.push(FontEntry { name, font });
        assert(self.entries@.drop_last() =~= old(self).entries@);
    }

    /// The font bound to `name`, if there is one.
    pub fn get(&self, name: &Vec<u8>) -> (found: Option<&'a lopdf::Dictionary>)
        ensures
            match found {
                Some(font) => self@.contains_key(name@) && self@[name@] == *font,
                None => !self@.contains_key(name@),
            },
    {
        let mut i: usize = self.entries.len();
        while i > 0
            invariant
                i <= self.entries.len(),
                forall|j: int| i <= j < self.entries.len() ==> self.entries@[j].name@ != name@,
            decreases i,
        {
            i = i - 1;
            if same_bytes(&self.entries[i].name, name) {
                proof {
                    lemma_present(self.entries@, name@, i as int);
                }
                return Some(self.entries[i].font);
            }
        }
        proof {
            lemma_absent(self.entries@, name@);
        }
        None
    }
}

} // verus!
