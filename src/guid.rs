//! 128-bit globally unique identifiers and their canonical text form
//! `xxxxxxxx-xxxx-xxxx-xxxx-xxxxxxxxxxxx`.

use vstd::prelude::*;

verus! {

/// Whether `c` is a hexadecimal digit of either case.
pub open spec fn is_hex_digit(c: char) -> bool {
    ('0' <= c && c <= '9') || ('a' <= c && c <= 'f') || ('A' <= c && c <= 'F')
}

/// Whether `c` is a digit or a lower-case hexadecimal letter.
pub open spec fn is_lower_hex_digit(c: char) -> bool {
    ('0' <= c && c <= '9') || ('a' <= c && c <= 'f')
}

/// The value of a hexadecimal digit.
pub open spec fn hex_value(c: char) -> int {
    if '0' <= c && c <= '9' {
        c as int - '0' as int
    } else if 'a' <= c && c <= 'f' {
        c as int - 'a' as int + 10
    } else {
        c as int - 'A' as int + 10
    }
}

/// Where the two digits of byte `k` of a GUID start in its text form.
/// The first three groups spell their bytes in reverse (little-endian) order.
pub open spec fn pair_start(k: int) -> int {
    seq![6int, 4, 2, 0, 11, 9, 16, 14, 19, 21, 24, 26, 28, 30, 32, 34][k]
}

/// Whether `s` is a GUID in canonical text form: 36 characters, hyphens at
/// 8, 13, 18 and 23, and a hexadecimal digit (of either case) elsewhere.
pub open spec fn is_guid_text(s: Seq<char>) -> bool {
    &&& s.len() == 36
    &&& s[8] == '-' && s[13] == '-' && s[18] == '-' && s[23] == '-'
    &&& forall|k: int|
        0 <= k < 16 ==> #[trigger] is_hex_digit(s[pair_start(k)]) && is_hex_digit(
            s[pair_start(k) + 1],
        )
}

/// The value of byte `k` as written in the text `s`.
pub open spec fn text_byte(s: Seq<char>, k: int) -> int {
    hex_value(s[pair_start(k)]) * 16 + hex_value(s[pair_start(k) + 1])
}

/// The sixteen bytes that the GUID text `s` denotes.
pub open spec fn guid_bytes_of(s: Seq<char>) -> Seq<u8> {
    Seq::new(16, |k: int| text_byte(s, k) as u8)
}

/// Whether `s` is the lower-case canonical text of the bytes `b`.
pub open spec fn is_lower_text_of(s: Seq<char>, b: Seq<u8>) -> bool {
    &&& s.len() == 36
    &&& s[8] == '-' && s[13] == '-' && s[18] == '-' && s[23] == '-'
    &&& forall|k: int|
        0 <= k < 16 ==> {
            &&& #[trigger] is_lower_hex_digit(s[pair_start(k)])
            &&& is_lower_hex_digit(s[pair_start(k) + 1])
            &&& hex_value(s[pair_start(k)]) == b[k] / 16
            &&& hex_value(s[pair_start(k) + 1]) == b[k] % 16
        }
}

/// A GUID, as the sixteen bytes of its in-memory (mixed-endian) layout.
#[derive(Clone, Copy, Debug, PartialEq, Eq)]
pub struct Guid {
    pub bytes: [u8; 16],
}

impl View for Guid {
    type V = Seq<u8>;

    open spec fn view(&self) -> Seq<u8> {
        self.bytes@
    }
}

/// Relies on `uefi::Guid::try_parse` (uguid): it accepts exactly the canonical
/// text form, with hex digits of either case, and `to_bytes` gives the byte
/// at index k from the digit pair at `pair_start(k)`.
#[verifier::external_body]
fn parse_guid_bytes(s: &str) -> (r: Option<[u8; 16]>)
    ensures
        r is Some <==> is_guid_text(s@),
        r matches Some(b) ==> b@ == guid_bytes_of(s@),
{
    uefi::Guid::try_parse(s).ok().map(|g| g.to_bytes())
}

/// Relies on the `Display` impl of `uefi::Guid` (uguid's `to_ascii_hex_lower`
/// over `from_bytes`): lower-case canonical text of the bytes.
#[verifier::external_body]
fn guid_bytes_to_text(b: [u8; 16]) -> (r: String)
    ensures
        is_lower_text_of(r@, b@),
{
    uefi::Guid::from_bytes(b).to_string()
}

impl Guid {
    /// Parses the canonical text form; `None` for anything else.
    pub fn parse(s: &str) -> (r: Option<Guid>)
        ensures
            r is Some <==> is_guid_text(s@),
            r matches Some(g) ==> g@ == guid_bytes_of(s@),
    {
        match parse_guid_bytes(s) {
            Some(b) => Some(Guid { bytes: b }),
            None => None,
        }
    }

    /// The lower-case canonical text form.
    pub fn to_text(&self) -> (r: String)
        ensures
            is_lower_text_of(r@, self@),
    {
        guid_bytes_to_text(self.bytes)
    }

    /// Whether two GUIDs are the same identifier.
    pub fn same_as(&self, other: &Guid) -> (r: bool)
        ensures
            r == (self@ == other@),
    {
        let mut i: usize = 0;
        while i < 16
            invariant
                0 <= i <= 16,
                self@.len() == 16,
                other@.len() == 16,
                forall|j: int| 0 <= j < i ==> self@[j] == other@[j],
            decreases 16 - i,
        {
            if self.bytes[i] != other.bytes[i] {
                return false;
            }
            i = i + 1;
        }
        assert(self@ =~= other@);
        true
    }
}

/// Formatting a GUID and parsing the text back gives the same GUID: the
/// lower-case canonical text of any sixteen bytes is canonical text that
/// denotes exactly those bytes.
pub proof fn lemma_parse_of_text(b: Seq<u8>, s: Seq<char>)
    requires
        b.len() == 16,
        is_lower_text_of(s, b),
    ensures
        is_guid_text(s),
        guid_bytes_of(s) == b,
{
    assert forall|k: int| 0 <= k < 16 implies #[trigger] is_hex_digit(s[pair_start(k)])
        && is_hex_digit(s[pair_start(k) + 1]) by {
        assert(is_lower_hex_digit(s[pair_start(k)]));
    }
    assert forall|k: int| 0 <= k < 16 implies #[trigger] guid_bytes_of(s)[k] == b[k] by {
        assert(is_lower_hex_digit(s[pair_start(k)]));
        assert(text_byte(s, k) == (b[k] / 16) * 16 + b[k] % 16);
    }
    assert(guid_bytes_of(s) =~= b);
}

} // verus!
