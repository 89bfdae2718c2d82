//! The boot descriptor: `{ "guid": "<GUID>", "fs": "FAT", "kernel": "<path>" }`,
//! read from the boot image's own file system and checked against its schema.

use vstd::prelude::*;
use crate::guid::{is_guid_text, guid_bytes_of, Guid};

verus! {

#[verifier::external_type_specification]
#[verifier::external_body]
pub struct ExJsonValue(serde_json::Value);

#[verifier::external_type_specification]
#[verifier::external_body]
pub struct ExJsonError(serde_json::Error);

/// The JSON document that `serde_json` reads from `text`; `None` where the
/// text is not valid JSON.
pub uninterp spec fn json_document(text: Seq<char>) -> Option<serde_json::Value>;

/// The members of a JSON object whose values are strings, by key; empty for
/// a document that is not an object.
pub uninterp spec fn json_string_members(v: serde_json::Value) -> Map<Seq<char>, Seq<char>>;

/// The text that lossy UTF-8 decoding makes of `bytes`.
pub uninterp spec fn utf8_lossy(bytes: Seq<u8>) -> Seq<char>;

/// Relies on `serde_json::from_str::<serde_json::Value>`: it succeeds exactly
/// on valid JSON text, and its document depends on the text alone.
#[verifier::external_body]
fn parse_json(text: &str) -> (r: Result<serde_json::Value, serde_json::Error>)
    ensures
        match r {
            Ok(v) => json_document(text@) == Some(v),
            Err(_) => json_document(text@) is None,
        },
{
    serde_json::from_str::<serde_json::Value>(text)
}

/// Relies on `serde_json::Value::get` with a string key (the member of an
/// object, `None` for any other value) followed by `Value::as_str`.
#[verifier::external_body]
fn string_member(v: &serde_json::Value, key: &str) -> (r: Option<String>)
    ensures
        match r {
            Some(s) => json_string_members(*v).contains_key(key@) && json_string_members(
                *v,
            )[key@] == s@,
            None => !json_string_members(*v).contains_key(key@),
        },
{
    v.get(key).and_then(serde_json::Value::as_str).map(String::from)
}

/// Relies on `String::from_utf8_lossy`: the result depends on the bytes alone.
#[verifier::external_body]
fn decode_utf8_lossy(bytes: &[u8]) -> (r: String)
    ensures
        r@ == utf8_lossy(bytes@),
{
    String::from_utf8_lossy(bytes).into_owned()
}

/// File systems that a kernel can be read from.
#[derive(Clone, Copy, Debug, PartialEq, Eq)]
pub enum FileSystemType {
    FAT,
}

/// Why the boot descriptor could not be had.
#[derive(Clone, Copy, Debug, PartialEq, Eq)]
pub enum ConfigError {
    /// The descriptor file is absent.
    NotFound,
    /// The descriptor is not valid structured (JSON) text.
    Decode,
    /// A required field is missing or not a string, the file-system kind is
    /// not recognised, the GUID is not canonical, or the kernel path is empty.
    Schema,
}

/// The boot descriptor.
#[derive(Debug, PartialEq, Eq)]
pub struct BootConfig {
    /// The target partition's GUID, in canonical text form.
    pub guid: String,
    pub fs: FileSystemType,
    /// The kernel's path on the target partition.
    pub kernel: String,
}

pub open spec fn guid_key() -> Seq<char> {
    seq!['g', 'u', 'i', 'd']
}

pub open spec fn fs_key() -> Seq<char> {
    seq!['f', 's']
}

pub open spec fn kernel_key() -> Seq<char> {
    seq!['k', 'e', 'r', 'n', 'e', 'l']
}

pub open spec fn fat_name() -> Seq<char> {
    seq!['F', 'A', 'T']
}

/// The descriptor that the three field values make, as (GUID text, kernel
/// path); `None` when one is missing or breaks the schema.
pub open spec fn descriptor_of(
    guid: Option<Seq<char>>,
    fs: Option<Seq<char>>,
    kernel: Option<Seq<char>>,
) -> Option<(Seq<char>, Seq<char>)> {
    match (guid, fs, kernel) {
        (Some(g), Some(f), Some(k)) => if is_guid_text(g) && f == fat_name() && k.len() > 0 {
            Some((g, k))
        } else {
            None
        },
        _ => None,
    }
}

/// `r` is the configuration that `d` gives, or the schema error where `d`
/// gives none.
pub open spec fn yields(r: Result<BootConfig, ConfigError>, d: Option<(Seq<char>, Seq<char>)>) -> bool {
    match d {
        Some(p) => r matches Ok(c) && c.guid@ == p.0 && c.fs == FileSystemType::FAT && c.kernel@
            == p.1,
        None => r == Err::<BootConfig, ConfigError>(ConfigError::Schema),
    }
}

impl BootConfig {
    /// Well-formed: the fields meet the descriptor's schema.
    pub open spec fn wf(&self) -> bool {
        is_guid_text(self.guid@) && self.fs == FileSystemType::FAT && self.kernel@.len() > 0
    }
}

pub open spec fn member(m: Map<Seq<char>, Seq<char>>, key: Seq<char>) -> Option<Seq<char>> {
    if m.contains_key(key) {
        Some(m[key])
    } else {
        None
    }
}

/// What parsing the descriptor text `text` gives.
pub open spec fn config_of_text(text: Seq<char>, r: Result<BootConfig, ConfigError>) -> bool {
    match json_document(text) {
        None => r == Err::<BootConfig, ConfigError>(ConfigError::Decode),
        Some(v) => {
            let m = json_string_members(v);
            yields(r, descriptor_of(member(m, guid_key()), member(m, fs_key()), member(m, kernel_key())))
        },
    }
}

/// Whether `s` is the text `FAT`.
fn is_fat_name(s: &str) -> (r: bool)
    ensures
        r == (s@ == fat_name()),
{
    if s.unicode_len() != 3 {
        return false;
    }
    let r = s.get_char(0) == 'F' && s.get_char(1) == 'A' && s.get_char(2) == 'T';
    if r {
        assert(s@ =~= fat_name());
    }
    r
}

/// Builds the descriptor from the string values of its three fields (`None`
/// for a field that is missing or not a string), checking the schema.
pub fn config_from_fields(guid: Option<String>, fs: Option<String>, kernel: Option<String>) -> (r:
    Result<BootConfig, ConfigError>)
    ensures
        yields(
            r,
            descriptor_of(
                match guid {
                    Some(x) => Some(x@),
                    None => None,
                },
                match fs {
                    Some(x) => Some(x@),
                    None => None,
                },
                match kernel {
                    Some(x) => Some(x@),
                    None => None,
                },
            ),
        ),
        r matches Ok(c) ==> c.wf(),
{
    match (guid, fs, kernel) {
        (Some(g), Some(f), Some(k)) => {
            if !is_fat_name(f.as_str()) {
                return Err(ConfigError::Schema);
            }
            if Guid::parse(g.as_str()).is_none() {
                return Err(ConfigError::Schema);
            }
            if k.unicode_len() == 0 {
                return Err(ConfigError::Schema);
            }
            Ok(BootConfig { guid: g, fs: FileSystemType::FAT, kernel: k })
        },
        _ => Err(ConfigError::Schema),
    }
}

/// Parses descriptor text: `Decode` unless it is valid JSON, then the schema
/// of [`config_from_fields`] over its string-valued members.
pub fn parse_boot_config(text: &str) -> (r: Result<BootConfig, ConfigError>)
    ensures
        config_of_text(text@, r),
        r matches Ok(c) ==> c.wf(),
{
    let doc = match parse_json(text) {
        Ok(v) => v,
        Err(_) => {
            return Err(ConfigError::Decode);
        },
    };
    proof {
        reveal_strlit("guid");
        reveal_strlit("fs");
        reveal_strlit("kernel");
    }
    let guid = string_member(&doc, "guid");
    let fs = string_member(&doc, "fs");
    let kernel = string_member(&doc, "kernel");
    assert("guid"@ =~= guid_key());
    assert("fs"@ =~= fs_key());
    assert("kernel"@ =~= kernel_key());
    config_from_fields(guid, fs, kernel)
}

/// Decodes the descriptor file's bytes as UTF-8 (lossy on invalid sequences)
/// and parses the text.
pub fn decode_boot_config(bytes: &[u8]) -> (r: Result<BootConfig, ConfigError>)
    ensures
        config_of_text(utf8_lossy(bytes@), r),
        r matches Ok(c) ==> c.wf(),
{
    let text = decode_utf8_lossy(bytes);
    parse_boot_config(text.as_str())
}

impl BootConfig {
    /// The target partition's GUID.
    pub fn guid(&self) -> (r: Guid)
        requires
            self.wf(),
        ensures
            r@ == guid_bytes_of(self.guid@),
    {
        match Guid::parse(self.guid.as_str()) {
            Some(g) => g,
            None => Guid { bytes: [0u8; 16] },
        }
    }

    pub fn fs(&self) -> (r: &FileSystemType)
        ensures
            *r == self.fs,
    {
        &self.fs
    }

    pub fn kernel(&self) -> (r: &String)
        ensures
            r@ == self.kernel@,
    {
        &self.kernel
    }
}

} // verus!
