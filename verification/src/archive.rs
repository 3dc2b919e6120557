//! The byte store: a ZIP container held in memory, whose entries come out as
//! raw bytes or as decoded text.
//!
//! Text decoding inspects the bytes as consecutive little-endian 16-bit
//! units: when the first unit is the UTF-16 byte-order mark, the remaining
//! units decode as UTF-16, and an odd remaining byte count is malformed;
//! otherwise the whole byte sequence decodes as UTF-8.

use std::io::Read;

use vstd::prelude::*;

use crate::error::Error;

verus! {

/// Declares `zip::ZipArchive`, the open container; it stays opaque here and
/// its contents are spoken of through [`zip_entries`].
#[verifier::external_type_specification]
#[verifier::external_body]
#[verifier::reject_recursive_types(R)]
pub struct ExZipArchive<R>(zip::ZipArchive<R>);

/// Declares `std::io::Cursor`, the in-memory reader the container sits on;
/// it stays opaque here.
#[verifier::external_type_specification]
#[verifier::external_body]
#[verifier::reject_recursive_types(T)]
pub struct ExCursor<T>(std::io::Cursor<T>);

/// The contents of an opened container: each entry name mapped to the bytes
/// that reading that entry yields.  An entry whose data cannot be read back
/// has no key here.
pub uninterp spec fn zip_entries(z: zip::ZipArchive<std::io::Cursor<Vec<u8>>>) -> Map<
    Seq<char>,
    Seq<u8>,
>;

/// An open ZIP-like container held in memory.
pub struct Archive {
    pub zip: zip::ZipArchive<std::io::Cursor<Vec<u8>>>,
}

impl Archive {
    /// The entries of the container: names mapped to bytes.
    pub open spec fn entries(&self) -> Map<Seq<char>, Seq<u8>> {
        zip_entries(self.zip)
    }

    /// Relies on `zip::ZipArchive::new`: reads the central directory of the
    /// archive held in the given bytes, and fails on a malformed archive.
    #[verifier::external_body]
    pub fn new(data: Vec<u8>) -> (r: Result<Archive, Error>)
        ensures
            r matches Err(e) ==> e == Error::Zip,
    {
        match zip::ZipArchive::new(std::io::Cursor::new(data)) {
            Ok(zip) => Ok(Archive { zip }),
            Err(_) => Err(Error::Zip),
        }
    }

    /// Relies on `zip::ZipArchive::by_name` and `std::io::Read::read_to_end`:
    /// yields the named entry's bytes; fails exactly when the container has
    /// no readable entry of that name.  Reading moves the underlying cursor
    /// but leaves the contents as they were.
    #[verifier::external_body]
    pub fn get(&mut self, name: &str) -> (r: Result<Vec<u8>, Error>)
        ensures
            zip_entries(final(self).zip) == zip_entries(old(self).zip),
            match r {
                Ok(bytes) => zip_entries(old(self).zip).contains_key(name@) && bytes@ == zip_entries(
                    old(self).zip,
                )[name@],
                Err(e) => !zip_entries(old(self).zip).contains_key(name@) && (e == Error::Zip || e
                    == Error::Io),
            },
    {
        match self.zip.by_name(name) {
            Ok(mut entry) => {
                let mut buf: Vec<u8> = Vec::new();
                match entry.read_to_end(&mut buf) {
                    Ok(_) => Ok(buf),
                    Err(_) => Err(Error::Io),
                }
            },
            Err(_) => Err(Error::Zip),
        }
    }

    /// The named entry decoded as text.  An absent or unreadable entry gives
    /// the container or read error; an entry whose bytes do not decode gives
    /// the decode error.
    pub fn get_as_string(&mut self, name: &str) -> (r: Result<String, Error>)
        ensures
            final(self).entries() == old(self).entries(),
            match r {
                Ok(s) => spec_read_text(old(self).entries(), name@) == Some(s@),
                Err(e) => spec_read_text(old(self).entries(), name@) is None && (
                if old(self).entries().contains_key(name@) {
                    spec_decode_text(old(self).entries()[name@]) == Err::<Seq<char>, Error>(e)
                } else {
                    e == Error::Zip || e == Error::Io
                }) && (e == Error::Zip || e == Error::Io || e == Error::Utf8 || e == Error::Utf16),
            },
    {
        let bytes = match self.get(name) {
            Ok(bytes) => bytes,
            Err(e) => {
                return Err(e);
            },
        };
        proof {
            lemma_decode_text_err(bytes@);
        }
        decode_text(bytes)
    }
}

/// The text of the named entry: present exactly when the entry exists and
/// its bytes decode.
pub open spec fn spec_read_text(m: Map<Seq<char>, Seq<u8>>, name: Seq<char>) -> Option<Seq<char>> {
    if m.contains_key(name) {
        match spec_decode_text(m[name]) {
            Ok(s) => Some(s),
            Err(_) => None,
        }
    } else {
        None
    }
}

/// Whether the bytes begin with the little-endian UTF-16 byte-order mark.
pub open spec fn has_bom(bytes: Seq<u8>) -> bool {
    bytes.len() >= 2 && bytes[0] == 0xffu8 && bytes[1] == 0xfeu8
}

/// The bytes taken as consecutive little-endian 16-bit units; a trailing
/// odd byte is dropped.
pub open spec fn units_of(bytes: Seq<u8>) -> Seq<u16> {
    Seq::new((bytes.len() / 2) as nat, |i: int| (bytes[2 * i] + 256 * bytes[2 * i + 1]) as u16)
}

/// The characters that UTF-16 decoding yields for the units, or `None` when
/// the units are malformed.  The outcome depends on the units alone.
pub uninterp spec fn utf16_chars(units: Seq<u16>) -> Option<Seq<char>>;

/// What decoding an entry's bytes as text yields: with a byte-order mark the
/// remaining units decode as UTF-16 (an odd remaining byte count is
/// malformed), and without one the whole sequence decodes as UTF-8.
pub open spec fn spec_decode_text(bytes: Seq<u8>) -> Result<Seq<char>, Error> {
    if has_bom(bytes) {
        let rest = bytes.skip(2);
        if rest.len() % 2 != 0 {
            Err(Error::Utf16)
        } else {
            match utf16_chars(units_of(rest)) {
                Some(s) => Ok(s),
                None => Err(Error::Utf16),
            }
        }
    } else {
        if vstd::utf8::valid_utf8(bytes) {
            Ok(vstd::utf8::decode_utf8(bytes))
        } else {
            Err(Error::Utf8)
        }
    }
}

/// Relies on `String::from_utf8`: succeeds exactly on valid UTF-8 and then
/// yields the decoded characters.
#[verifier::external_body]
fn from_utf8(bytes: Vec<u8>) -> (r: Result<String, Error>)
    ensures
        match r {
            Ok(s) => vstd::utf8::valid_utf8(bytes@) && s@ == vstd::utf8::decode_utf8(bytes@),
            Err(e) => !vstd::utf8::valid_utf8(bytes@) && e == Error::Utf8,
        },
{
    match String::from_utf8(bytes) {
        Ok(s) => Ok(s),
        Err(_) => Err(Error::Utf8),
    }
}

/// Relies on `String::from_utf16`: succeeds exactly on well-formed UTF-16
/// code units and then yields the decoded characters.
#[verifier::external_body]
fn from_utf16(units: &Vec<u16>) -> (r: Result<String, Error>)
    ensures
        match r {
            Ok(s) => utf16_chars(units@) == Some(s@),
            Err(e) => utf16_chars(units@) is None && e == Error::Utf16,
        },
{
    match String::from_utf16(units.as_slice()) {
        Ok(s) => Ok(s),
        Err(_) => Err(Error::Utf16),
    }
}

/// Decodes a part's bytes as text under the byte-order-mark rule.
pub fn decode_text(bytes: Vec<u8>) -> (r: Result<String, Error>)
    ensures
        match r {
            Ok(s) => spec_decode_text(bytes@) == Ok::<Seq<char>, Error>(s@),
            Err(e) => spec_decode_text(bytes@) == Err::<Seq<char>, Error>(e),
        },
{
    if bytes.len() >= 2 && bytes[0] == 0xff && bytes[1] == 0xfe {
        let m = bytes.len() - 2;
        if m % 2 != 0 {
            return Err(Error::Utf16);
        }
        let ghost rest = bytes@.skip(2);
        let count = m / 2;
        let mut units: Vec<u16> = Vec::new();
        for i in 0..count
            invariant
                bytes@.len() >= 2,
                m == bytes@.len() - 2,
                m % 2 == 0,
                count == m / 2,
                rest == bytes@.skip(2),
                units@.len() == i,
                forall|j: int| 0 <= j < i ==> units@[j] == units_of(rest)[j],
        {
            let lo = bytes[2 + 2 * i] as u16;
            let hi = bytes[3 + 2 * i] as u16;
            units.push(lo + 256 * hi);
            proof {
                assert(rest[2 * (i as int)] == bytes@[2 + 2 * (i as int)]);
                assert(rest[2 * (i as int) + 1] == bytes@[3 + 2 * (i as int)]);
            }
        }
        proof {
            assert(units@ =~= units_of(rest));
        }
        match from_utf16(&units) {
            Ok(s) => Ok(s),
            Err(e) => Err(e),
        }
    } else {
        from_utf8(bytes)
    }
}

/// Text decoding fails only with one of the two decode-class errors.
pub proof fn lemma_decode_text_err(bytes: Seq<u8>)
    ensures
        spec_decode_text(bytes) matches Err(e) ==> e == Error::Utf8 || e == Error::Utf16,
{
}

/// Without a byte-order mark, text decoding is exactly UTF-8 decoding.
pub proof fn lemma_decode_without_bom(bytes: Seq<u8>)
    requires
        !has_bom(bytes),
    ensures
        vstd::utf8::valid_utf8(bytes) ==> spec_decode_text(bytes) == Ok::<Seq<char>, Error>(
            vstd::utf8::decode_utf8(bytes),
        ),
        !vstd::utf8::valid_utf8(bytes) ==> spec_decode_text(bytes) is Err,
{
}

/// With the `FF FE` byte-order mark, text decoding treats the remaining
/// bytes as little-endian UTF-16 code units.
pub proof fn lemma_decode_with_bom(bytes: Seq<u8>)
    requires
        has_bom(bytes),
        (bytes.len() - 2) % 2 == 0,
    ensures
        spec_decode_text(bytes) == match utf16_chars(units_of(bytes.skip(2))) {
            Some(s) => Ok::<Seq<char>, Error>(s),
            None => Err::<Seq<char>, Error>(Error::Utf16),
        },
{
}

} // verus!
