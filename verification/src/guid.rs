//! 128-bit GUIDs with the two binary renderings used by GPT: canonical
//! big-endian bytes, and the mixed-endian ("ME") bytes stored on disk.

use vstd::prelude::*;
use vstd::string::StrSliceExecFns;
use vstd::string::StringSliceAdditionalSpecFns;
use vstd::string::StringExecFns;

verus! {

/// The all-zero GUID bytes: the nil GUID, which marks an unused partition
/// entry.
pub open spec fn nil_guid() -> Seq<u8> {
    Seq::new(16, |i: int| 0u8)
}

/// The mixed-endian rendering of canonical GUID bytes: the first three groups
/// (4, 2 and 2 bytes) are byte-swapped, the last two (2 and 6 bytes) kept.
pub open spec fn me_swapped(s: Seq<u8>) -> Seq<u8> {
    seq![
        s[3],
        s[2],
        s[1],
        s[0],
        s[5],
        s[4],
        s[7],
        s[6],
        s[8],
        s[9],
        s[10],
        s[11],
        s[12],
        s[13],
        s[14],
        s[15],
    ]
}

/// Swapping into mixed-endian order twice gives the bytes back.
pub proof fn lemma_me_involution(s: Seq<u8>)
    requires
        s.len() == 16,
    ensures
        me_swapped(me_swapped(s)) == s,
{
    assert(me_swapped(me_swapped(s)) =~= s);
}

/// True of an ASCII hexadecimal digit, either case.
pub open spec fn is_hex(c: u8) -> bool {
    (0x30 <= c <= 0x39) || (0x41 <= c <= 0x46) || (0x61 <= c <= 0x66)
}

/// The value of an ASCII hexadecimal digit.
pub open spec fn hex_val(c: u8) -> u8 {
    if 0x30 <= c <= 0x39 {
        (c - 0x30) as u8
    } else if 0x41 <= c <= 0x46 {
        (c - 0x41 + 10) as u8
    } else if 0x61 <= c <= 0x66 {
        (c - 0x61 + 10) as u8
    } else {
        0
    }
}

/// Position in the canonical text form of the first hexadecimal digit of GUID
/// byte `j`: the four dashes sit after bytes 3, 5, 7 and 9.
pub open spec fn guid_pos(j: int) -> int {
    if j < 4 {
        2 * j
    } else if j < 6 {
        2 * j + 1
    } else if j < 8 {
        2 * j + 2
    } else if j < 10 {
        2 * j + 3
    } else {
        2 * j + 4
    }
}

/// True of the ASCII bytes of a well-formed canonical GUID string:
/// 36 bytes, dashes at positions 8, 13, 18 and 23, hexadecimal elsewhere.
pub open spec fn guid_string_ok(s: Seq<u8>) -> bool {
    &&& s.len() == 36
    &&& s[8] == 0x2du8
    &&& s[13] == 0x2du8
    &&& s[18] == 0x2du8
    &&& s[23] == 0x2du8
    &&& forall|j: int|
        0 <= j < 16 ==> is_hex(#[trigger] s[guid_pos(j)]) && is_hex(s[guid_pos(j) + 1])
}

/// The canonical GUID bytes encoded by a well-formed canonical GUID string.
pub open spec fn guid_parsed(s: Seq<u8>) -> Seq<u8> {
    Seq::new(16, |j: int| (hex_val(s[guid_pos(j)]) * 16 + hex_val(s[guid_pos(j) + 1])) as u8)
}

/// The lowercase hexadecimal digit for a value below 16.
pub open spec fn hex_char(n: u8) -> char {
    if n == 0 {
        '0'
    } else if n == 1 {
        '1'
    } else if n == 2 {
        '2'
    } else if n == 3 {
        '3'
    } else if n == 4 {
        '4'
    } else if n == 5 {
        '5'
    } else if n == 6 {
        '6'
    } else if n == 7 {
        '7'
    } else if n == 8 {
        '8'
    } else if n == 9 {
        '9'
    } else if n == 10 {
        'a'
    } else if n == 11 {
        'b'
    } else if n == 12 {
        'c'
    } else if n == 13 {
        'd'
    } else if n == 14 {
        'e'
    } else {
        'f'
    }
}

/// The two lowercase hexadecimal digits of one byte.
pub open spec fn hex_pair(b: u8) -> Seq<char> {
    seq![hex_char((b / 16) as u8), hex_char((b % 16) as u8)]
}

/// The canonical text form of GUID bytes `g`: five dash-separated groups of
/// lowercase hexadecimal digits.
#[verifier::opaque]
pub open spec fn guid_chars(g: Seq<u8>) -> Seq<char> {
    hex_pair(g[0]) + hex_pair(g[1]) + hex_pair(g[2]) + hex_pair(g[3]) + seq!['-'] + hex_pair(
        g[4],
    ) + hex_pair(g[5]) + seq!['-'] + hex_pair(g[6]) + hex_pair(g[7]) + seq!['-'] + hex_pair(g[8])
        + hex_pair(g[9]) + seq!['-'] + hex_pair(g[10]) + hex_pair(g[11]) + hex_pair(g[12])
        + hex_pair(g[13]) + hex_pair(g[14]) + hex_pair(g[15])
}

/// The canonical text form of any GUID bytes holds 36 characters.
pub proof fn lemma_guid_chars_len(g: Seq<u8>)
    ensures
        guid_chars(g).len() == 36,
{
    reveal(guid_chars);
}

/// A 128-bit GUID held as its sixteen canonical (big-endian) bytes.
#[derive(Clone, Copy, Debug)]
pub struct Guid {
    b: [u8; 16],
}

/// The view of every GUID holds exactly sixteen bytes.
pub broadcast proof fn lemma_guid_len(g: Guid)
    ensures
        (#[trigger] g@).len() == 16,
{
}

impl View for Guid {
    type V = Seq<u8>;

    closed spec fn view(&self) -> Seq<u8> {
        self.b@
    }
}

/// Relies on nuuid::Uuid::new_v4 and Uuid::to_bytes: sixteen bytes drawn from
/// the operating system's random source, with the version nibble forced to 4
/// and the variant bits to the RFC 4122 pattern; nothing else is promised of
/// them.
#[verifier::external_body]
fn random_v4_bytes() -> (r: [u8; 16])
    ensures
        r@[6] & 0xf0 == 0x40,
        r@[8] & 0xc0 == 0x80,
{
    nuuid::Uuid::new_v4().to_bytes()
}

impl Guid {
    /// The nil GUID: all sixteen bytes zero.
    pub fn nil() -> (r: Guid)
        ensures
            r@ == nil_guid(),
    {
        let r = Guid { b: [0u8; 16] };
        proof {
            assert(r@ =~= nil_guid());
        }
        r
    }

    /// A fresh random version-4 GUID. Only the version and variant bits are
    /// fixed; the rest is random.
    pub fn new_v4() -> (r: Guid)
        ensures
            r@.len() == 16,
            r@[6] & 0xf0 == 0x40,
            r@[8] & 0xc0 == 0x80,
    {
        Guid { b: random_v4_bytes() }
    }

    /// The GUID whose canonical bytes are `b`.
    pub fn from_bytes_canonical(b: &[u8; 16]) -> (r: Guid)
        ensures
            r@ == b@,
    {
        Guid { b: *b }
    }

    /// The canonical bytes of this GUID.
    pub fn to_bytes_canonical(&self) -> (r: [u8; 16])
        ensures
            r@ == self@,
    {
        self.b
    }

    /// The GUID whose mixed-endian (on-disk) bytes are `b`.
    pub fn from_bytes_me(b: &[u8; 16]) -> (r: Guid)
        ensures
            r@ == me_swapped(b@),
    {
        let a = [
            b[3],
            b[2],
            b[1],
            b[0],
            b[5],
            b[4],
            b[7],
            b[6],
            b[8],
            b[9],
            b[10],
            b[11],
            b[12],
            b[13],
            b[14],
            b[15],
        ];
        let r = Guid { b: a };
        proof {
            assert(r@ =~= me_swapped(b@));
        }
        r
    }

    /// The mixed-endian (on-disk) bytes of this GUID.
    pub fn to_bytes_me(&self) -> (r: [u8; 16])
        ensures
            r@ == me_swapped(self@),
    {
        let r = [
            self.b[3],
            self.b[2],
            self.b[1],
            self.b[0],
            self.b[5],
            self.b[4],
            self.b[7],
            self.b[6],
            self.b[8],
            self.b[9],
            self.b[10],
            self.b[11],
            self.b[12],
            self.b[13],
            self.b[14],
            self.b[15],
        ];
        proof {
            assert(r@ =~= me_swapped(self@));
        }
        r
    }

    /// True when this GUID is nil.
    pub fn is_nil(&self) -> (r: bool)
        ensures
            r == (self@ == nil_guid()),
    {
        let mut i: usize = 0;
        while i < 16
            invariant
                i <= 16,
                forall|k: int| 0 <= k < i ==> self@[k] == 0u8,
            decreases 16 - i,
        {
            if self.b[i] != 0 {
                proof {
                    assert(self@[i as int] != 0u8);
                    assert(nil_guid()[i as int] == 0u8);
                }
                return false;
            }
            i = i + 1;
        }
        proof {
            assert(self@ =~= nil_guid());
        }
        true
    }

    /// True when the two GUIDs hold the same bytes.
    pub fn same_as(&self, other: &Guid) -> (r: bool)
        ensures
            r == (self@ == other@),
    {
        let mut i: usize = 0;
        while i < 16
            invariant
                i <= 16,
                forall|k: int| 0 <= k < i ==> self@[k] == other@[k],
            decreases 16 - i,
        {
            if self.b[i] != other.b[i] {
                proof {
                    assert(self@[i as int] != other@[i as int]);
                }
                return false;
            }
            i = i + 1;
        }
        proof {
            assert(self@ =~= other@);
        }
        true
    }

    /// Parse the canonical text form. Returns the GUID exactly when the
    /// string is 36 ASCII bytes with dashes at positions 8, 13, 18 and 23 and
    /// hexadecimal digits (either case) elsewhere.
    pub fn parse(s: &str) -> (r: Option<Guid>)
        ensures
            r is Some <==> guid_string_ok(s.spec_bytes()),
            r matches Some(g) ==> g@ == guid_parsed(s.spec_bytes()),
    {
        let bytes = s.as_bytes_vec();
        if bytes.len() != 36 {
            return None;
        }
        if bytes[8] != 0x2d || bytes[13] != 0x2d || bytes[18] != 0x2d || bytes[23] != 0x2d {
            return None;
        }
        let mut out: Vec<u8> = Vec::new();
        let mut j: usize = 0;
        while j < 16
            invariant
                j <= 16,
                out@.len() == j,
                bytes@ == s.spec_bytes(),
                bytes@.len() == 36,
                forall|k: int|
                    0 <= k < j ==> is_hex(bytes@[#[trigger] guid_pos(k)]) && is_hex(
                        bytes@[guid_pos(k) + 1],
                    ),
                forall|k: int| 0 <= k < j ==> out@[k] == guid_parsed(bytes@)[k],
            decreases 16 - j,
        {
            let p: usize = if j < 4 {
                2 * j
            } else if j < 6 {
                2 * j + 1
            } else if j < 8 {
                2 * j + 2
            } else if j < 10 {
                2 * j + 3
            } else {
                2 * j + 4
            };
            proof {
                assert(p == guid_pos(j as int));
            }
            let hi = match hex_nibble(bytes[p]) {
                Some(v) => v,
                None => {
                    return None;
                },
            };
            let lo = match hex_nibble(bytes[p + 1]) {
                Some(v) => v,
                None => {
                    return None;
                },
            };
            out.push(hi * 16 + lo);
            proof {
                assert(is_hex(bytes@[guid_pos(j as int)]));
                assert(is_hex(bytes@[guid_pos(j as int) + 1]));
                assert(out@[j as int] == guid_parsed(bytes@)[j as int]);
                assert forall|k: int| 0 <= k < j + 1 implies is_hex(
                    #[trigger] bytes@[guid_pos(k)],
                ) && is_hex(bytes@[guid_pos(k) + 1]) by {
                    if k < j as int {
                        assert(is_hex(bytes@[guid_pos(k)]) && is_hex(bytes@[guid_pos(k) + 1]));
                    }
                }
            }
            j = j + 1;
        }
        let g = Guid::from_bytes_canonical(&crate::bytes::array_from::<16>(&out, 0));
        proof {
            assert(out@ =~= guid_parsed(bytes@));
            assert(g@ =~= guid_parsed(bytes@));
        }
        Some(g)
    }

    /// The canonical text form: five dash-separated groups of lowercase
    /// hexadecimal digits.
    pub fn to_string_canonical(&self) -> (r: String)
        ensures
            r@ == guid_chars(self@),
    {
        let mut out = String::new();
        append_hex_pair(&mut out, self.b[0]);
        append_hex_pair(&mut out, self.b[1]);
        append_hex_pair(&mut out, self.b[2]);
        append_hex_pair(&mut out, self.b[3]);
        append_dash(&mut out);
        append_hex_pair(&mut out, self.b[4]);
        append_hex_pair(&mut out, self.b[5]);
        append_dash(&mut out);
        append_hex_pair(&mut out, self.b[6]);
        append_hex_pair(&mut out, self.b[7]);
        append_dash(&mut out);
        append_hex_pair(&mut out, self.b[8]);
        append_hex_pair(&mut out, self.b[9]);
        append_dash(&mut out);
        append_hex_pair(&mut out, self.b[10]);
        append_hex_pair(&mut out, self.b[11]);
        append_hex_pair(&mut out, self.b[12]);
        append_hex_pair(&mut out, self.b[13]);
        append_hex_pair(&mut out, self.b[14]);
        append_hex_pair(&mut out, self.b[15]);
        proof {
            reveal(guid_chars);
            assert(out@ =~= guid_chars(self@));
        }
        out
    }
}

/// The value of one ASCII hexadecimal digit, or nothing.
fn hex_nibble(c: u8) -> (r: Option<u8>)
    ensures
        r is Some <==> is_hex(c),
        r matches Some(v) ==> v == hex_val(c) && v < 16,
{
    if 0x30 <= c && c <= 0x39 {
        Some(c - 0x30)
    } else if 0x41 <= c && c <= 0x46 {
        Some(c - 0x41 + 10)
    } else if 0x61 <= c && c <= 0x66 {
        Some(c - 0x61 + 10)
    } else {
        None
    }
}

/// Append one dash to `out`.
fn append_dash(out: &mut String)
    ensures
        final(out)@ == old(out)@ + seq!['-'],
{
    proof {
        reveal_strlit("-");
    }
    out.append("-");
}

/// Append the two lowercase hexadecimal digits of `b` to `out`.
fn append_hex_pair(out: &mut String, b: u8)
    ensures
        final(out)@ == old(out)@ + hex_pair(b),
{
    let hi = b / 16;
    let lo = b % 16;
    append_hex_digit(out, hi);
    append_hex_digit(out, lo);
    proof {
        assert(out@ =~= old(out)@ + hex_pair(b));
    }
}

/// Append the lowercase hexadecimal digit of a value below 16 to `out`.
fn append_hex_digit(out: &mut String, n: u8)
    requires
        n < 16,
    ensures
        final(out)@ == old(out)@ + seq![hex_char(n)],
{
    proof {
        reveal_strlit("0");
        reveal_strlit("1");
        reveal_strlit("2");
        reveal_strlit("3");
        reveal_strlit("4");
        reveal_strlit("5");
        reveal_strlit("6");
        reveal_strlit("7");
        reveal_strlit("8");
        reveal_strlit("9");
        reveal_strlit("a");
        reveal_strlit("b");
        reveal_strlit("c");
        reveal_strlit("d");
        reveal_strlit("e");
        reveal_strlit("f");
    }
    if n == 0 {
        out.append("0");
    } else if n == 1 {
        out.append("1");
    } else if n == 2 {
        out.append("2");
    } else if n == 3 {
        out.append("3");
    } else if n == 4 {
        out.append("4");
    } else if n == 5 {
        out.append("5");
    } else if n == 6 {
        out.append("6");
    } else if n == 7 {
        out.append("7");
    } else if n == 8 {
        out.append("8");
    } else if n == 9 {
        out.append("9");
    } else if n == 10 {
        out.append("a");
    } else if n == 11 {
        out.append("b");
    } else if n == 12 {
        out.append("c");
    } else if n == 13 {
        out.append("d");
    } else if n == 14 {
        out.append("e");
    } else {
        out.append("f");
    }
}

} // verus!
