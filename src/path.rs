//! Kernel paths in the firmware's UCS-2 path representation.

use vstd::prelude::*;

verus! {

#[verifier::external_type_specification]
#[verifier::external_body]
pub struct ExCString16(uefi::CString16);

#[verifier::external_type_specification]
#[verifier::external_body]
pub struct ExFromStrError(uefi::data_types::FromStrError);

/// The UCS-2 code units that a `CString16` holds, its trailing NUL included.
pub uninterp spec fn ucs2_units(s: uefi::CString16) -> Seq<u16>;

/// Whether every character of `s` is a UCS-2 character (in the basic
/// multilingual plane) other than NUL.
pub open spec fn is_ucs2_text(s: Seq<char>) -> bool {
    forall|i: int| 0 <= i < s.len() ==> #[trigger] s[i] != '\0' && (s[i] as u32) < 0x10000
}

/// The code units of a UCS-2 text.
pub open spec fn ucs2_of(s: Seq<char>) -> Seq<u16> {
    Seq::new(s.len(), |i: int| s[i] as u32 as u16)
}

/// Relies on `uefi::CString16::try_from(&str)`: each character becomes one
/// UCS-2 code unit, a NUL is appended, and it fails on a character outside
/// UCS-2 or an interior NUL.
#[verifier::external_body]
fn to_cstring16(s: &str) -> (r: Result<uefi::CString16, uefi::data_types::FromStrError>)
    ensures
        r is Ok <==> is_ucs2_text(s@),
        r matches Ok(c) ==> ucs2_units(c) == ucs2_of(s@).push(0u16),
{
    uefi::CString16::try_from(s)
}

/// Why the kernel file could not be read from its partition.
#[derive(Clone, Copy, Debug, PartialEq, Eq)]
pub enum FileError {
    /// The file-system capability could not be bound on the partition.
    BindFailed,
    /// The path has no firmware (UCS-2) representation.
    PathInvalid,
    /// Reading the file failed, for instance because it is absent.
    IO,
}

/// Converts `path` to the firmware's NUL-terminated UCS-2 path;
/// `PathInvalid` when a character has no UCS-2 form or is NUL.
pub fn to_firmware_path(path: &str) -> (r: Result<uefi::CString16, FileError>)
    ensures
        r is Ok <==> is_ucs2_text(path@),
        r matches Ok(c) ==> ucs2_units(c) == ucs2_of(path@).push(0u16),
        r is Err ==> r == Err::<uefi::CString16, FileError>(FileError::PathInvalid),
{
    match to_cstring16(path) {
        Ok(c) => Ok(c),
        Err(_) => Err(FileError::PathInvalid),
    }
}

} // verus!
