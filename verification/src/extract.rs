use vstd::prelude::*;
use vstd::string::*;
use crate::descriptor::{DescriptorModel, EncryptionDescriptor, ExtractError};
use crate::pdf_string::{read_string, string_at};
use crate::scan::{
    after_spaces, find_key, find_last_key, first_key, holds_at, is_regular, key_at, last_key,
    lemma_last_key_is_greatest, name_at, number_at, read_number, read_signed, regular, signed_at,
    skip_spaces, starts_at,
};
use crate::search::DocumentTask;

verus! {

/// The bytes of a keyword of the file format.
pub open spec fn token(s: &str) -> Seq<u8> {
    s.spec_bytes()
}

/// Whether a dictionary opens at `pos`, with `<<`.
pub open spec fn opens_at(data: Seq<u8>, pos: int) -> bool {
    0 <= pos && pos + 1 < data.len() && data[pos] == 0x3C && data[pos + 1] == 0x3C
}

/// Whether a dictionary closes at `pos`, with `>>`.
pub open spec fn closes_at(data: Seq<u8>, pos: int) -> bool {
    0 <= pos && pos + 1 < data.len() && data[pos] == 0x3E && data[pos + 1] == 0x3E
}

/// Where the name `key` stands as an entry of the dictionary that is read
/// from `pos` on, `depth` dictionaries deep: the first place at depth one,
/// before the dictionary closes. Nested dictionaries are passed over, and
/// so are strings, whose bytes are no names; a string that does not end
/// ends the search.
pub open spec fn entry_from(data: Seq<u8>, key: Seq<u8>, pos: int, depth: nat) -> Option<int>
    decreases data.len() - pos,
{
    if pos < 0 || pos >= data.len() {
        None
    } else if opens_at(data, pos) {
        entry_from(data, key, pos + 2, depth + 1)
    } else if closes_at(data, pos) {
        if depth <= 1 {
            None
        } else {
            entry_from(data, key, pos + 2, (depth - 1) as nat)
        }
    } else if data[pos] == 0x28 || data[pos] == 0x3C {
        let after = string_at(data, pos);
        if after is Some && pos < after.unwrap().1 <= data.len() {
            entry_from(data, key, after.unwrap().1, depth)
        } else {
            None
        }
    } else if depth == 1 && key_at(data, pos, key) {
        Some(pos)
    } else {
        entry_from(data, key, pos + 1, depth)
    }
}

/// Where the value of the entry `key` of the dictionary that opens at `ds`
/// starts: the white space after the name is passed over.
pub open spec fn value_start(data: Seq<u8>, key: Seq<u8>, ds: int) -> Option<int> {
    match entry_from(data, key, ds + 2, 1) {
        Some(k) => Some(after_spaces(data, k + key.len())),
        None => None,
    }
}

/// The object number and generation of the indirect reference at `pos`.
pub open spec fn reference_at(data: Seq<u8>, pos: int) -> Option<(int, int)> {
    match number_at(data, pos) {
        None => None,
        Some((n, e1)) => match number_at(data, after_spaces(data, e1)) {
            None => None,
            Some((g, e2)) => if key_at(data, after_spaces(data, e2), token("R")) {
                Some((n, g))
            } else {
                None
            },
        },
    }
}

/// The number, the generation and the start of the content of the object
/// whose header stands at `pos`.
pub open spec fn header_at(data: Seq<u8>, pos: int) -> Option<(int, int, int)> {
    if pos > 0 && is_regular(data[pos - 1]) {
        None
    } else {
        match number_at(data, pos) {
            None => None,
            Some((n, e1)) => match number_at(data, after_spaces(data, e1)) {
                None => None,
                Some((g, e2)) => {
                    let s = after_spaces(data, e2);
                    if key_at(data, s, token("obj")) {
                        Some((n, g, after_spaces(data, s + token("obj").len())))
                    } else {
                        None
                    }
                },
            },
        }
    }
}

/// Whether the header of object `n`, generation `g`, starts at `pos`; if so,
/// where the object's content starts.
pub open spec fn object_at(data: Seq<u8>, pos: int, n: int, g: int) -> Option<int> {
    match header_at(data, pos) {
        Some((n2, g2, b)) => if n2 == n && g2 == g {
            Some(b)
        } else {
            None
        },
        None => None,
    }
}

/// Where the content of the last object `n`, generation `g`, whose header
/// stands before `upto` starts: a later definition of an object replaces an
/// earlier one.
pub open spec fn last_object(data: Seq<u8>, n: int, g: int, upto: int) -> Option<int>
    decreases upto,
{
    if upto <= 0 || upto > data.len() {
        None
    } else {
        match object_at(data, upto - 1, n, g) {
            Some(b) => Some(b),
            None => last_object(data, n, g, upto - 1),
        }
    }
}

/// Where the trailer dictionary of the file opens. The last `startxref`
/// gives the offset of the newest cross-reference section. Where that is a
/// table, the dictionary follows the next `trailer` keyword; where it is a
/// stream object, the dictionary is the object's own.
pub open spec fn trailer_start(data: Seq<u8>) -> Option<int> {
    match last_key(data, token("startxref"), data.len() as int) {
        None => None,
        Some(s) => match number_at(data, after_spaces(data, s + token("startxref").len())) {
            None => None,
            Some((off, _)) => if off >= data.len() {
                None
            } else if key_at(data, off, token("xref")) {
                match first_key(data, token("trailer"), off) {
                    None => None,
                    Some(t) => {
                        let v = after_spaces(data, t + token("trailer").len());
                        if opens_at(data, v) {
                            Some(v)
                        } else {
                            None
                        }
                    },
                }
            } else {
                match header_at(data, off) {
                    None => None,
                    Some((_, _, b)) => if opens_at(data, b) {
                        Some(b)
                    } else {
                        None
                    },
                }
            },
        },
    }
}

/// Where the encryption dictionary opens, given the trailer dictionary at
/// `trailer`. A trailer without an `/Encrypt` entry belongs to a document
/// that is not encrypted; the entry's value is the dictionary itself or a
/// reference to the object that holds it.
pub open spec fn dictionary_start(data: Seq<u8>, trailer: int) -> Result<int, ExtractError> {
    match value_start(data, token("/Encrypt"), trailer) {
        None => Err(ExtractError::NotEncrypted),
        Some(v) => if opens_at(data, v) {
            Ok(v)
        } else {
            match reference_at(data, v) {
                None => Err(ExtractError::Malformed),
                Some((n, g)) => match last_object(data, n, g, data.len() as int) {
                    None => Err(ExtractError::Malformed),
                    Some(b) => if opens_at(data, b) {
                        Ok(b)
                    } else {
                        Err(ExtractError::Malformed)
                    },
                },
            }
        },
    }
}

/// The number that is the value of the entry `key` of the dictionary at `ds`.
pub open spec fn number_entry(data: Seq<u8>, key: Seq<u8>, ds: int) -> Option<int> {
    match value_start(data, key, ds) {
        None => None,
        Some(v) => match signed_at(data, v) {
            None => None,
            Some((x, _)) => Some(x),
        },
    }
}

/// The string that is the value of the entry `key` of the dictionary at `ds`.
pub open spec fn string_entry(data: Seq<u8>, key: Seq<u8>, ds: int) -> Option<Seq<u8>> {
    match value_start(data, key, ds) {
        None => None,
        Some(v) => match string_at(data, v) {
            None => None,
            Some((s, _)) => Some(s),
        },
    }
}

/// The first string of the `/ID` array of the trailer dictionary.
pub open spec fn first_id(data: Seq<u8>, trailer: int) -> Option<Seq<u8>> {
    match value_start(data, token("/ID"), trailer) {
        None => None,
        Some(v) => if holds_at(data, v, token("[")) {
            match string_at(data, after_spaces(data, v + token("[").len())) {
                None => None,
                Some((s, _)) => Some(s),
            }
        } else {
            None
        },
    }
}

/// Whether metadata is encrypted: yes, unless the dictionary says `false`.
pub open spec fn metadata_flag(data: Seq<u8>, ds: int) -> bool {
    match value_start(data, token("/EncryptMetadata"), ds) {
        None => true,
        Some(v) => !key_at(data, v, token("false")),
    }
}

/// The key length in bits: 40 for revision 2; for revision 3 what
/// `/Length` says, or 40 without it; 128 for revision 4; 256 above.
pub open spec fn key_bits(revision: int, length: Option<int>) -> int {
    if revision <= 2 {
        40
    } else if revision == 3 {
        match length {
            Some(l) => if 0 <= l <= u32::MAX {
                l
            } else {
                40
            },
            None => 40,
        }
    } else if revision == 4 {
        128
    } else {
        256
    }
}

/// The permission flags as a signed 32-bit number. Writers give them signed
/// or as the unsigned number with the same 32 bits.
pub open spec fn permission_value(p: int) -> Option<i32> {
    if i32::MIN <= p <= i32::MAX {
        Some(p as i32)
    } else if i32::MAX < p <= u32::MAX {
        Some((p - 0x1_0000_0000) as i32)
    } else {
        None
    }
}

/// The descriptor that the encryption dictionary at `ds` and the trailer
/// dictionary at `trailer` give. A filter other than `/Standard` is not
/// supported; a missing filter, revision, owner or user entry or permission
/// value is malformed, and so is a missing file identifier below revision 5.
pub open spec fn descriptor_from(data: Seq<u8>, ds: int, trailer: int) -> Result<
    DescriptorModel,
    ExtractError,
> {
    match value_start(data, token("/Filter"), ds) {
        None => Err(ExtractError::Malformed),
        Some(f) => if !key_at(data, f, token("/Standard")) {
            Err(ExtractError::UnsupportedHandler)
        } else {
            match (
                number_entry(data, token("/R"), ds),
                string_entry(data, token("/O"), ds),
                string_entry(data, token("/U"), ds),
                number_entry(data, token("/P"), ds),
            ) {
                (Some(r), Some(o), Some(u), Some(p)) => {
                    let id = first_id(data, trailer);
                    if r < 0 || r > u32::MAX || permission_value(p) is None || (id is None && r
                        < 5) {
                        Err(ExtractError::Malformed)
                    } else {
                        Ok(
                            DescriptorModel {
                                revision: r,
                                key_length_bits: key_bits(
                                    r,
                                    number_entry(data, token("/Length"), ds),
                                ),
                                owner_entry: o,
                                user_entry: u,
                                permissions: permission_value(p).unwrap(),
                                file_id: match id {
                                    Some(s) => s,
                                    None => Seq::empty(),
                                },
                                encrypt_metadata: metadata_flag(data, ds),
                            },
                        )
                    }
                },
                _ => Err(ExtractError::Malformed),
            }
        },
    }
}

/// What reading the bytes of a document gives: its descriptor, or why there
/// is none. A file that does not begin with the format's header, or whose
/// trailer dictionary cannot be found, is malformed.
pub open spec fn extraction(data: Seq<u8>) -> Result<DescriptorModel, ExtractError> {
    if !holds_at(data, 0, token("%PDF-")) {
        Err(ExtractError::Malformed)
    } else {
        match trailer_start(data) {
            None => Err(ExtractError::Malformed),
            Some(t) => match dictionary_start(data, t) {
                Err(e) => Err(e),
                Ok(ds) => descriptor_from(data, ds, t),
            },
        }
    }
}

fn dictionary_opens(data: &[u8], pos: usize) -> (r: bool)
    ensures
        r == opens_at(data@, pos as int),
{
    pos < data.len() && data.len() - pos > 1 && data[pos] == 0x3C && data[pos + 1] == 0x3C
}

fn find_entry(data: &[u8], key: &[u8], start: usize) -> (r: Option<usize>)
    ensures
        match r {
            Some(k) => entry_from(data@, key@, start as int, 1) == Some(k as int) && k
                + key.len() <= data.len(),
            None => entry_from(data@, key@, start as int, 1) is None,
        },
{
    let mut pos: usize = start;
    let mut depth: usize = 1;
    while pos < data.len()
        invariant
            start <= pos,
            depth <= pos - start + 1,
            entry_from(data@, key@, start as int, 1) == entry_from(
                data@,
                key@,
                pos as int,
                depth as nat,
            ),
        decreases data.len() - pos,
    {
        let b: u8 = data[pos];
        let paired: bool = data.len() - pos > 1 && data[pos + 1] == b;
        if b == 0x3C && paired {
            depth += 1;
            pos += 2;
        } else if b == 0x3E && paired {
            if depth <= 1 {
                return None;
            }
            depth -= 1;
            pos += 2;
        } else if b == 0x28 || b == 0x3C {
            match read_string(data, pos) {
                Some((_, e)) => {
                    pos = e;
                },
                None => {
                    return None;
                },
            }
        } else if depth == 1 && name_at(data, pos, key) {
            return Some(pos);
        } else {
            pos += 1;
        }
    }
    None
}

fn find_value(data: &[u8], key: &str, ds: usize) -> (r: Option<usize>)
    requires
        opens_at(data@, ds as int),
    ensures
        match r {
            Some(v) => value_start(data@, token(key), ds as int) == Some(v as int) && v
                <= data.len(),
            None => value_start(data@, token(key), ds as int) is None,
        },
{
    let n: usize = data.len();
    assert(ds + 2 <= n);
    match find_entry(data, key.as_bytes(), ds + 2) {
        Some(k) => Some(skip_spaces(data, k + key.as_bytes().len())),
        None => None,
    }
}

fn read_reference(data: &[u8], pos: usize) -> (r: Option<(u64, u64)>)
    ensures
        match r {
            Some((n, g)) => reference_at(data@, pos as int) == Some((n as int, g as int)),
            None => reference_at(data@, pos as int) is None,
        },
{
    match read_number(data, pos) {
        None => None,
        Some((n, e1)) => match read_number(data, skip_spaces(data, e1)) {
            None => None,
            Some((g, e2)) => if name_at(data, skip_spaces(data, e2), "R".as_bytes()) {
                Some((n, g))
            } else {
                None
            },
        },
    }
}

fn read_header(data: &[u8], pos: usize) -> (r: Option<(u64, u64, usize)>)
    requires
        pos < data.len(),
    ensures
        match r {
            Some((n, g, b)) => header_at(data@, pos as int) == Some((n as int, g as int, b as int))
                && b <= data.len(),
            None => header_at(data@, pos as int) is None,
        },
{
    if pos > 0 && regular(data[pos - 1]) {
        return None;
    }
    match read_number(data, pos) {
        None => None,
        Some((n, e1)) => match read_number(data, skip_spaces(data, e1)) {
            None => None,
            Some((g, e2)) => {
                let s = skip_spaces(data, e2);
                let word = "obj".as_bytes();
                if name_at(data, s, word) {
                    Some((n, g, skip_spaces(data, s + word.len())))
                } else {
                    None
                }
            },
        },
    }
}

fn find_object(data: &[u8], n: u64, g: u64) -> (r: Option<usize>)
    ensures
        match r {
            Some(b) => last_object(data@, n as int, g as int, data.len() as int) == Some(b as int)
                && b <= data.len(),
            None => last_object(data@, n as int, g as int, data.len() as int) is None,
        },
{
    let mut i: usize = data.len();
    while i > 0
        invariant
            i <= data.len(),
            last_object(data@, n as int, g as int, data.len() as int) == last_object(
                data@,
                n as int,
                g as int,
                i as int,
            ),
        decreases i,
    {
        match read_header(data, i - 1) {
            Some((n2, g2, b)) => {
                if n2 == n && g2 == g {
                    return Some(b);
                }
            },
            None => {},
        }
        i -= 1;
    }
    None
}

fn find_trailer(data: &[u8]) -> (r: Option<usize>)
    ensures
        match r {
            Some(t) => trailer_start(data@) == Some(t as int) && opens_at(data@, t as int),
            None => trailer_start(data@) is None,
        },
{
    let word = "startxref".as_bytes();
    let s = match find_last_key(data, word) {
        None => {
            return None;
        },
        Some(s) => s,
    };
    let off = match read_number(data, skip_spaces(data, s + word.len())) {
        None => {
            return None;
        },
        Some((off, _)) => off,
    };
    if off >= data.len() as u64 {
        return None;
    }
    let at: usize = off as usize;
    if name_at(data, at, "xref".as_bytes()) {
        let mark = "trailer".as_bytes();
        match find_key(data, mark, at) {
            None => None,
            Some(t) => {
                let v = skip_spaces(data, t + mark.len());
                if dictionary_opens(data, v) {
                    Some(v)
                } else {
                    None
                }
            },
        }
    } else {
        match read_header(data, at) {
            None => None,
            Some((_, _, b)) => if dictionary_opens(data, b) {
                Some(b)
            } else {
                None
            },
        }
    }
}

fn find_dictionary(data: &[u8], trailer: usize) -> (r: Result<usize, ExtractError>)
    requires
        opens_at(data@, trailer as int),
    ensures
        match r {
            Ok(ds) => dictionary_start(data@, trailer as int) == Ok::<int, ExtractError>(ds as int)
                && opens_at(data@, ds as int),
            Err(e) => dictionary_start(data@, trailer as int) == Err::<int, ExtractError>(e),
        },
{
    match find_value(data, "/Encrypt", trailer) {
        None => Err(ExtractError::NotEncrypted),
        Some(v) => {
            if dictionary_opens(data, v) {
                return Ok(v);
            }
            match read_reference(data, v) {
                None => Err(ExtractError::Malformed),
                Some((n, g)) => match find_object(data, n, g) {
                    None => Err(ExtractError::Malformed),
                    Some(b) => if dictionary_opens(data, b) {
                        Ok(b)
                    } else {
                        Err(ExtractError::Malformed)
                    },
                },
            }
        },
    }
}

fn read_number_entry(data: &[u8], key: &str, ds: usize) -> (r: Option<i64>)
    requires
        opens_at(data@, ds as int),
    ensures
        match r {
            Some(x) => number_entry(data@, token(key), ds as int) == Some(x as int),
            None => number_entry(data@, token(key), ds as int) is None,
        },
{
    match find_value(data, key, ds) {
        None => None,
        Some(v) => match read_signed(data, v) {
            None => None,
            Some((x, _)) => Some(x),
        },
    }
}

fn read_string_entry(data: &[u8], key: &str, ds: usize) -> (r: Option<Vec<u8>>)
    requires
        opens_at(data@, ds as int),
    ensures
        match r {
            Some(s) => string_entry(data@, token(key), ds as int) == Some(s@),
            None => string_entry(data@, token(key), ds as int) is None,
        },
{
    match find_value(data, key, ds) {
        None => None,
        Some(v) => match read_string(data, v) {
            None => None,
            Some((s, _)) => Some(s),
        },
    }
}

fn read_first_id(data: &[u8], trailer: usize) -> (r: Option<Vec<u8>>)
    requires
        opens_at(data@, trailer as int),
    ensures
        match r {
            Some(s) => first_id(data@, trailer as int) == Some(s@),
            None => first_id(data@, trailer as int) is None,
        },
{
    match find_value(data, "/ID", trailer) {
        None => None,
        Some(v) => {
            let open = "[".as_bytes();
            if starts_at(data, v, open) {
                match read_string(data, skip_spaces(data, v + open.len())) {
                    None => None,
                    Some((s, _)) => Some(s),
                }
            } else {
                None
            }
        },
    }
}

fn read_metadata_flag(data: &[u8], ds: usize) -> (r: bool)
    requires
        opens_at(data@, ds as int),
    ensures
        r == metadata_flag(data@, ds as int),
{
    match find_value(data, "/EncryptMetadata", ds) {
        None => true,
        Some(v) => !name_at(data, v, "false".as_bytes()),
    }
}

fn key_length(revision: u32, length: Option<i64>) -> (bits: u32)
    ensures
        bits == key_bits(
            revision as int,
            match length {
                Some(l) => Some(l as int),
                None => None,
            },
        ),
{
    if revision <= 2 {
        40
    } else if revision == 3 {
        match length {
            Some(l) => if 0 <= l && l <= 0xFFFF_FFFF {
                l as u32
            } else {
                40
            },
            None => 40,
        }
    } else if revision == 4 {
        128
    } else {
        256
    }
}

fn permissions_of(p: i64) -> (r: Option<i32>)
    ensures
        r == permission_value(p as int),
{
    if -0x8000_0000 <= p && p <= 0x7FFF_FFFF {
        Some(p as i32)
    } else if 0x7FFF_FFFF < p && p <= 0xFFFF_FFFF {
        Some((p - 0x1_0000_0000) as i32)
    } else {
        None
    }
}

fn read_descriptor(data: &[u8], ds: usize, trailer: usize) -> (r: Result<
    EncryptionDescriptor,
    ExtractError,
>)
    requires
        opens_at(data@, ds as int),
        opens_at(data@, trailer as int),
    ensures
        match r {
            Ok(d) => descriptor_from(data@, ds as int, trailer as int) == Ok::<
                DescriptorModel,
                ExtractError,
            >(d@),
            Err(e) => descriptor_from(data@, ds as int, trailer as int) == Err::<
                DescriptorModel,
                ExtractError,
            >(e),
        },
{
    match find_value(data, "/Filter", ds) {
        None => {
            return Err(ExtractError::Malformed);
        },
        Some(f) => {
            if !name_at(data, f, "/Standard".as_bytes()) {
                return Err(ExtractError::UnsupportedHandler);
            }
        },
    }
    let r = read_number_entry(data, "/R", ds);
    let o = read_string_entry(data, "/O", ds);
    let u = read_string_entry(data, "/U", ds);
    let p = read_number_entry(data, "/P", ds);
    match (r, o, u, p) {
        (Some(r), Some(o), Some(u), Some(p)) => {
            let id = read_first_id(data, trailer);
            let perm = permissions_of(p);
            if r < 0 || r > 0xFFFF_FFFF || perm.is_none() || (id.is_none() && r < 5) {
                return Err(ExtractError::Malformed);
            }
            let revision: u32 = r as u32;
            let length = read_number_entry(data, "/Length", ds);
            let file_id: Vec<u8> = match id {
                Some(s) => s,
                None => Vec::new(),
            };
            Ok(
                EncryptionDescriptor {
                    revision,
                    key_length_bits: key_length(revision, length),
                    owner_entry: o,
                    user_entry: u,
                    permissions: perm.unwrap(),
                    file_id,
                    encrypt_metadata: read_metadata_flag(data, ds),
                },
            )
        },
        _ => Err(ExtractError::Malformed),
    }
}

/// Reads the descriptor of a document from its bytes. Only the trailer
/// dictionary, the encryption dictionary it names and the first file
/// identifier are read.
pub fn extract_from_bytes(data: &[u8]) -> (r: Result<EncryptionDescriptor, ExtractError>)
    ensures
        match r {
            Ok(d) => extraction(data@) == Ok::<DescriptorModel, ExtractError>(d@),
            Err(e) => extraction(data@) == Err::<DescriptorModel, ExtractError>(e),
        },
{
    if !starts_at(data, 0, "%PDF-".as_bytes()) {
        return Err(ExtractError::Malformed);
    }
    match find_trailer(data) {
        None => Err(ExtractError::Malformed),
        Some(t) => match find_dictionary(data, t) {
            Err(e) => Err(e),
            Ok(ds) => read_descriptor(data, ds, t),
        },
    }
}

/// Makes the task for the document at `path` from the document's bytes,
/// or says why the document needs none.
pub fn extract_task(path: String, data: &[u8]) -> (r: Result<DocumentTask, ExtractError>)
    ensures
        match r {
            Ok(task) => task.path == path && extraction(data@) == Ok::<
                DescriptorModel,
                ExtractError,
            >(task.descriptor@),
            Err(e) => extraction(data@) == Err::<DescriptorModel, ExtractError>(e),
        },
{
    match extract_from_bytes(data) {
        Ok(descriptor) => Ok(DocumentTask { path, descriptor }),
        Err(e) => Err(e),
    }
}

/// A document whose trailer dictionary holds no `/Encrypt` entry is
/// reported as not encrypted, whatever stands elsewhere in the file.
pub proof fn lemma_without_encrypt_entry(data: Seq<u8>)
    requires
        holds_at(data, 0, token("%PDF-")),
        trailer_start(data) matches Some(t) && entry_from(data, token("/Encrypt"), t + 2, 1)
            is None,
    ensures
        extraction(data) == Err::<DescriptorModel, ExtractError>(ExtractError::NotEncrypted),
{
}

/// A document that does not begin with the format's header, or in which
/// the keyword `startxref` stands nowhere, is malformed.
pub proof fn lemma_without_header_or_trailer(data: Seq<u8>)
    requires
        !holds_at(data, 0, token("%PDF-")) || forall|q: int|
            0 <= q < data.len() ==> !key_at(data, q, token("startxref")),
    ensures
        extraction(data) == Err::<DescriptorModel, ExtractError>(ExtractError::Malformed),
{
    lemma_last_key_is_greatest(data, token("startxref"), data.len() as int);
}

} // verus!
