//! The integers of the wire format.
//!
//! All of them are little-endian. Channel identifiers and message lengths come in one of three
//! widths, which a two-bit code in the message header announces.
use vstd::prelude::*;

verus! {

/// The two bytes of `v`, least significant first.
pub open spec fn u16_bytes(v: u16) -> Seq<u8> {
    seq![(v % 256) as u8, (v / 256) as u8]
}

/// The four bytes of `v`, least significant first.
pub open spec fn u32_bytes(v: u32) -> Seq<u8> {
    seq![
        (v % 256) as u8,
        (v / 256 % 256) as u8,
        (v / 65536 % 256) as u8,
        (v / 16777216) as u8,
    ]
}

/// The integer whose two bytes stand in `s` from `at` on.
pub open spec fn u16_at(s: Seq<u8>, at: int) -> u16 {
    (s[at] + 256 * s[at + 1]) as u16
}

/// The integer whose four bytes stand in `s` from `at` on.
pub open spec fn u32_at(s: Seq<u8>, at: int) -> u32 {
    (s[at] + 256 * s[at + 1] + 65536 * s[at + 2] + 16777216 * s[at + 3]) as u32
}

/// Reads the two-byte integer at `at`.
pub fn read_u16(s: &[u8], at: usize) -> (r: u16)
    requires
        at + 2 <= s@.len(),
    ensures
        r == u16_at(s@, at as int),
{
    (s[at] as u16) + 256 * (s[at + 1] as u16)
}

/// Reads the four-byte integer at `at`.
pub fn read_u32(s: &[u8], at: usize) -> (r: u32)
    requires
        at + 4 <= s@.len(),
    ensures
        r == u32_at(s@, at as int),
{
    (s[at] as u32) + 256 * (s[at + 1] as u32) + 65536 * (s[at + 2] as u32) + 16777216 * (s[at
        + 3] as u32)
}

/// Appends the two bytes of `v`.
pub fn write_u16(out: &mut Vec<u8>, v: u16)
    ensures
        final(out)@ == old(out)@ + u16_bytes(v),
{
    out.push((v % 256) as u8);
    out.push((v / 256) as u8);
    assert(out@ =~= old(out)@ + u16_bytes(v));
}

/// Appends the four bytes of `v`.
pub fn write_u32(out: &mut Vec<u8>, v: u32)
    ensures
        final(out)@ == old(out)@ + u32_bytes(v),
{
    out.push((v % 256) as u8);
    out.push((v / 256 % 256) as u8);
    out.push((v / 65536 % 256) as u8);
    out.push((v / 16777216) as u8);
    assert(out@ =~= old(out)@ + u32_bytes(v));
}

/// The width of an integer of variable width, as the header announces it.
#[derive(Debug, Clone, Copy, PartialEq, Eq, Structural)]
pub enum FieldType {
    U8,
    U16,
    U32,
    /// The code that announces no width at all.
    Invalid,
}

impl FieldType {
    /// The width that the two-bit code `code` announces.
    pub open spec fn of_code(code: u8) -> FieldType {
        if code == 0 {
            FieldType::U8
        } else if code == 1 {
            FieldType::U16
        } else if code == 2 {
            FieldType::U32
        } else {
            FieldType::Invalid
        }
    }

    /// The two-bit code of the width.
    pub open spec fn code(self) -> u8 {
        match self {
            FieldType::U8 => 0,
            FieldType::U16 => 1,
            FieldType::U32 => 2,
            FieldType::Invalid => 3,
        }
    }

    /// The number of bytes that an integer of this width takes.
    pub open spec fn width(self) -> int {
        match self {
            FieldType::U8 => 1,
            FieldType::U16 => 2,
            FieldType::U32 => 4,
            FieldType::Invalid => 0,
        }
    }

    /// The narrowest width that holds `v`.
    pub open spec fn narrowest(v: u32) -> FieldType {
        if v < 0x100 {
            FieldType::U8
        } else if v < 0x10000 {
            FieldType::U16
        } else {
            FieldType::U32
        }
    }

    /// The integer of this width that stands in `s` from `at` on.
    pub open spec fn value_at(self, s: Seq<u8>, at: int) -> u32 {
        match self {
            FieldType::U8 => s[at] as u32,
            FieldType::U16 => u16_at(s, at) as u32,
            FieldType::U32 => u32_at(s, at),
            FieldType::Invalid => 0,
        }
    }

    /// The width that the two-bit code `code` announces.
    pub fn from_code(code: u8) -> (r: FieldType)
        ensures
            r == FieldType::of_code(code),
    {
        if code == 0 {
            FieldType::U8
        } else if code == 1 {
            FieldType::U16
        } else if code == 2 {
            FieldType::U32
        } else {
            FieldType::Invalid
        }
    }

    /// The two-bit code of the width.
    pub fn to_code(self) -> (r: u8)
        ensures
            r == self.code(),
    {
        match self {
            FieldType::U8 => 0,
            FieldType::U16 => 1,
            FieldType::U32 => 2,
            FieldType::Invalid => 3,
        }
    }

    /// The number of bytes that an integer of this width takes.
    pub fn size_of_val(self) -> (r: usize)
        ensures
            r == self.width(),
    {
        match self {
            FieldType::U8 => 1,
            FieldType::U16 => 2,
            FieldType::U32 => 4,
            FieldType::Invalid => 0,
        }
    }

    /// The narrowest width that holds `v`.
    pub fn for_val(v: u32) -> (r: FieldType)
        ensures
            r == FieldType::narrowest(v),
    {
        if v < 0x100 {
            FieldType::U8
        } else if v < 0x10000 {
            FieldType::U16
        } else {
            FieldType::U32
        }
    }

    /// Reads an integer of this width at `at`.
    pub fn read(self, s: &[u8], at: usize) -> (r: u32)
        requires
            at + self.width() <= s@.len(),
        ensures
            r == self.value_at(s@, at as int),
    {
        match self {
            FieldType::U8 => s[at] as u32,
            FieldType::U16 => read_u16(s, at) as u32,
            FieldType::U32 => read_u32(s, at),
            FieldType::Invalid => 0,
        }
    }
}

/// The bytes of `v` in the narrowest width that holds it.
pub open spec fn narrow_bytes(v: u32) -> Seq<u8> {
    if v < 0x100 {
        seq![v as u8]
    } else if v < 0x10000 {
        u16_bytes(v as u16)
    } else {
        u32_bytes(v)
    }
}

/// Appends `v` in the narrowest width that holds it.
pub fn write_narrow(out: &mut Vec<u8>, v: u32)
    ensures
        final(out)@ == old(out)@ + narrow_bytes(v),
{
    if v < 0x100 {
        out.push(v as u8);
        assert(out@ =~= old(out)@ + narrow_bytes(v));
    } else if v < 0x10000 {
        write_u16(out, v as u16);
    } else {
        write_u32(out, v);
    }
}

/// An integer is read back from its bytes, wherever they stand.
pub proof fn lemma_narrow_round_trip(v: u32, before: Seq<u8>, after: Seq<u8>)
    ensures
        narrow_bytes(v).len() == FieldType::narrowest(v).width(),
        FieldType::narrowest(v).value_at(before + narrow_bytes(v) + after, before.len() as int)
            == v,
        FieldType::of_code(FieldType::narrowest(v).code()) == FieldType::narrowest(v),
{
    let s = before + narrow_bytes(v) + after;
    let at = before.len() as int;
    assert forall|i: int| 0 <= i < narrow_bytes(v).len() implies s[at + i] == narrow_bytes(
        v,
    )[i] by {}
    if v < 0x100 {
        assert(s[at + 0] == narrow_bytes(v)[0]);
    } else if v < 0x10000 {
        assert(s[at + 0] == narrow_bytes(v)[0]);
        assert(s[at + 1] == narrow_bytes(v)[1]);
    } else {
        assert(s[at + 0] == narrow_bytes(v)[0]);
        assert(s[at + 1] == narrow_bytes(v)[1]);
        assert(s[at + 2] == narrow_bytes(v)[2]);
        assert(s[at + 3] == narrow_bytes(v)[3]);
    }
}

} // verus!
