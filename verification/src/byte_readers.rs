//! Fixed-width binary readers: integers and `bool` read from the first
//! bytes of a buffer, in native, little-endian or big-endian byte order.

use vstd::prelude::*;

verus! {

/// The buffer held fewer bytes than the target type needs.
#[derive(Debug, PartialEq, Eq, Clone, Copy)]
pub struct EndOfInput;

/// The signed value with two's complement representation `v`, for a type
/// whose sign bit has weight `half` and whose modulus is `full`.
pub open spec fn to_signed(v: int, half: int, full: int) -> int {
    if v < half {
        v
    } else {
        v - full
    }
}

/// A fixed-width type that can be read from the first bytes of a buffer in
/// native, little-endian or big-endian byte order.
///
/// On the little-endian targets this crate supports, the native order reads
/// exactly as the little-endian one.
pub trait FromBytes: Sized {
    /// How many bytes one value takes.
    spec fn byte_size() -> nat;

    /// The value read little-endian from exactly `byte_size()` bytes.
    spec fn from_le_spec(b: Seq<u8>) -> Self;

    /// The value read big-endian from exactly `byte_size()` bytes.
    spec fn from_be_spec(b: Seq<u8>) -> Self;

    /// Read a value in native byte order from the front of `data`.
    fn from_bytes_ne(data: &[u8]) -> (r: Result<Self, EndOfInput>)
        ensures
            data@.len() >= Self::byte_size() ==> (r matches Ok(v) && v == Self::from_le_spec(
                data@.take(Self::byte_size() as int),
            )),
            data@.len() < Self::byte_size() ==> r == Err::<Self, EndOfInput>(EndOfInput),
    ;

    /// Read a value in little-endian byte order from the front of `data`.
    fn from_bytes_le(data: &[u8]) -> (r: Result<Self, EndOfInput>)
        ensures
            data@.len() >= Self::byte_size() ==> (r matches Ok(v) && v == Self::from_le_spec(
                data@.take(Self::byte_size() as int),
            )),
            data@.len() < Self::byte_size() ==> r == Err::<Self, EndOfInput>(EndOfInput),
    ;

    /// Read a value in big-endian byte order from the front of `data`.
    fn from_bytes_be(data: &[u8]) -> (r: Result<Self, EndOfInput>)
        ensures
            data@.len() >= Self::byte_size() ==> (r matches Ok(v) && v == Self::from_be_spec(
                data@.take(Self::byte_size() as int),
            )),
            data@.len() < Self::byte_size() ==> r == Err::<Self, EndOfInput>(EndOfInput),
    ;
}

impl FromBytes for u8 {
    open spec fn byte_size() -> nat {
        1
    }

    open spec fn from_le_spec(b: Seq<u8>) -> u8 {
        (b[0]) as u8
    }

    open spec fn from_be_spec(b: Seq<u8>) -> u8 {
        (b[0]) as u8
    }

    fn from_bytes_ne(data: &[u8]) -> Result<u8, EndOfInput> {
        Self::from_bytes_le(data)
    }

    fn from_bytes_le(data: &[u8]) -> Result<u8, EndOfInput> {
        if data.len() < 1 {
            return Err(EndOfInput);
        }
        let v: u8 = data[0];
        Ok(v)
    }

    fn from_bytes_be(data: &[u8]) -> Result<u8, EndOfInput> {
        if data.len() < 1 {
            return Err(EndOfInput);
        }
        let v: u8 = data[0];
        Ok(v)
    }
}

impl FromBytes for u16 {
    open spec fn byte_size() -> nat {
        2
    }

    open spec fn from_le_spec(b: Seq<u8>) -> u16 {
        (b[0] + b[1] * 0x100) as u16
    }

    open spec fn from_be_spec(b: Seq<u8>) -> u16 {
        (b[1] + b[0] * 0x100) as u16
    }

    fn from_bytes_ne(data: &[u8]) -> Result<u16, EndOfInput> {
        Self::from_bytes_le(data)
    }

    fn from_bytes_le(data: &[u8]) -> Result<u16, EndOfInput> {
        if data.len() < 2 {
            return Err(EndOfInput);
        }
        let v: u16 = data[0] as u16 + (data[1] as u16) * 0x100;
        Ok(v)
    }

    fn from_bytes_be(data: &[u8]) -> Result<u16, EndOfInput> {
        if data.len() < 2 {
            return Err(EndOfInput);
        }
        let v: u16 = data[1] as u16 + (data[0] as u16) * 0x100;
        Ok(v)
    }
}

impl FromBytes for u32 {
    open spec fn byte_size() -> nat {
        4
    }

    open spec fn from_le_spec(b: Seq<u8>) -> u32 {
        (b[0] + b[1] * 0x100 + b[2] * 0x10000 + b[3] * 0x1000000) as u32
    }

    open spec fn from_be_spec(b: Seq<u8>) -> u32 {
        (b[3] + b[2] * 0x100 + b[1] * 0x10000 + b[0] * 0x1000000) as u32
    }

    fn from_bytes_ne(data: &[u8]) -> Result<u32, EndOfInput> {
        Self::from_bytes_le(data)
    }

    fn from_bytes_le(data: &[u8]) -> Result<u32, EndOfInput> {
        if data.len() < 4 {
            return Err(EndOfInput);
        }
        let v: u32 = data[0] as u32 + (data[1] as u32) * 0x100 + (data[2] as u32) * 0x10000 + (data[3] as u32) * 0x1000000;
        Ok(v)
    }

    fn from_bytes_be(data: &[u8]) -> Result<u32, EndOfInput> {
        if data.len() < 4 {
            return Err(EndOfInput);
        }
        let v: u32 = data[3] as u32 + (data[2] as u32) * 0x100 + (data[1] as u32) * 0x10000 + (data[0] as u32) * 0x1000000;
        Ok(v)
    }
}

impl FromBytes for u64 {
    open spec fn byte_size() -> nat {
        8
    }

    open spec fn from_le_spec(b: Seq<u8>) -> u64 {
        (b[0] + b[1] * 0x100 + b[2] * 0x10000 + b[3] * 0x1000000 + b[4] * 0x100000000 + b[5] * 0x10000000000 + b[6] * 0x1000000000000 + b[7] * 0x100000000000000) as u64
    }

    open spec fn from_be_spec(b: Seq<u8>) -> u64 {
        (b[7] + b[6] * 0x100 + b[5] * 0x10000 + b[4] * 0x1000000 + b[3] * 0x100000000 + b[2] * 0x10000000000 + b[1] * 0x1000000000000 + b[0] * 0x100000000000000) as u64
    }

    fn from_bytes_ne(data: &[u8]) -> Result<u64, EndOfInput> {
        Self::from_bytes_le(data)
    }

    fn from_bytes_le(data: &[u8]) -> Result<u64, EndOfInput> {
        if data.len() < 8 {
            return Err(EndOfInput);
        }
        let v: u64 = data[0] as u64 + (data[1] as u64) * 0x100 + (data[2] as u64) * 0x10000 + (data[3] as u64) * 0x1000000 + (data[4] as u64) * 0x100000000 + (data[5] as u64) * 0x10000000000 + (data[6] as u64) * 0x1000000000000 + (data[7] as u64) * 0x100000000000000;
        Ok(v)
    }

    fn from_bytes_be(data: &[u8]) -> Result<u64, EndOfInput> {
        if data.len() < 8 {
            return Err(EndOfInput);
        }
        let v: u64 = data[7] as u64 + (data[6] as u64) * 0x100 + (data[5] as u64) * 0x10000 + (data[4] as u64) * 0x1000000 + (data[3] as u64) * 0x100000000 + (data[2] as u64) * 0x10000000000 + (data[1] as u64) * 0x1000000000000 + (data[0] as u64) * 0x100000000000000;
        Ok(v)
    }
}

impl FromBytes for u128 {
    open spec fn byte_size() -> nat {
        16
    }

    open spec fn from_le_spec(b: Seq<u8>) -> u128 {
        (b[0] + b[1] * 0x100 + b[2] * 0x10000 + b[3] * 0x1000000 + b[4] * 0x100000000 + b[5] * 0x10000000000 + b[6] * 0x1000000000000 + b[7] * 0x100000000000000 + b[8] * 0x10000000000000000 + b[9] * 0x1000000000000000000 + b[10] * 0x100000000000000000000 + b[11] * 0x10000000000000000000000 + b[12] * 0x1000000000000000000000000 + b[13] * 0x100000000000000000000000000 + b[14] * 0x10000000000000000000000000000 + b[15] * 0x1000000000000000000000000000000) as u128
    }

    open spec fn from_be_spec(b: Seq<u8>) -> u128 {
        (b[15] + b[14] * 0x100 + b[13] * 0x10000 + b[12] * 0x1000000 + b[11] * 0x100000000 + b[10] * 0x10000000000 + b[9] * 0x1000000000000 + b[8] * 0x100000000000000 + b[7] * 0x10000000000000000 + b[6] * 0x1000000000000000000 + b[5] * 0x100000000000000000000 + b[4] * 0x10000000000000000000000 + b[3] * 0x1000000000000000000000000 + b[2] * 0x100000000000000000000000000 + b[1] * 0x10000000000000000000000000000 + b[0] * 0x1000000000000000000000000000000) as u128
    }

    fn from_bytes_ne(data: &[u8]) -> Result<u128, EndOfInput> {
        Self::from_bytes_le(data)
    }

    fn from_bytes_le(data: &[u8]) -> Result<u128, EndOfInput> {
        if data.len() < 16 {
            return Err(EndOfInput);
        }
        let v: u128 = data[0] as u128 + (data[1] as u128) * 0x100 + (data[2] as u128) * 0x10000 + (data[3] as u128) * 0x1000000 + (data[4] as u128) * 0x100000000 + (data[5] as u128) * 0x10000000000 + (data[6] as u128) * 0x1000000000000 + (data[7] as u128) * 0x100000000000000 + (data[8] as u128) * 0x10000000000000000 + (data[9] as u128) * 0x1000000000000000000 + (data[10] as u128) * 0x100000000000000000000 + (data[11] as u128) * 0x10000000000000000000000 + (data[12] as u128) * 0x1000000000000000000000000 + (data[13] as u128) * 0x100000000000000000000000000 + (data[14] as u128) * 0x10000000000000000000000000000 + (data[15] as u128) * 0x1000000000000000000000000000000;
        Ok(v)
    }

    fn from_bytes_be(data: &[u8]) -> Result<u128, EndOfInput> {
        if data.len() < 16 {
            return Err(EndOfInput);
        }
        let v: u128 = data[15] as u128 + (data[14] as u128) * 0x100 + (data[13] as u128) * 0x10000 + (data[12] as u128) * 0x1000000 + (data[11] as u128) * 0x100000000 + (data[10] as u128) * 0x10000000000 + (data[9] as u128) * 0x1000000000000 + (data[8] as u128) * 0x100000000000000 + (data[7] as u128) * 0x10000000000000000 + (data[6] as u128) * 0x1000000000000000000 + (data[5] as u128) * 0x100000000000000000000 + (data[4] as u128) * 0x10000000000000000000000 + (data[3] as u128) * 0x1000000000000000000000000 + (data[2] as u128) * 0x100000000000000000000000000 + (data[1] as u128) * 0x10000000000000000000000000000 + (data[0] as u128) * 0x1000000000000000000000000000000;
        Ok(v)
    }
}

impl FromBytes for i8 {
    open spec fn byte_size() -> nat {
        1
    }

    open spec fn from_le_spec(b: Seq<u8>) -> i8 {
        to_signed(b[0] as int, 0x80, 0x100) as i8
    }

    open spec fn from_be_spec(b: Seq<u8>) -> i8 {
        to_signed(b[0] as int, 0x80, 0x100) as i8
    }

    fn from_bytes_ne(data: &[u8]) -> Result<i8, EndOfInput> {
        Self::from_bytes_le(data)
    }

    fn from_bytes_le(data: &[u8]) -> Result<i8, EndOfInput> {
        if data.len() < 1 {
            return Err(EndOfInput);
        }
        let v: u8 = data[0];
        let r: i8 = if v < 0x80 {
            v as i8
        } else {
            ((v - 0x80) as i8 - 0x7f) - 1
        };
        Ok(r)
    }

    fn from_bytes_be(data: &[u8]) -> Result<i8, EndOfInput> {
        if data.len() < 1 {
            return Err(EndOfInput);
        }
        let v: u8 = data[0];
        let r: i8 = if v < 0x80 {
            v as i8
        } else {
            ((v - 0x80) as i8 - 0x7f) - 1
        };
        Ok(r)
    }
}

impl FromBytes for i16 {
    open spec fn byte_size() -> nat {
        2
    }

    open spec fn from_le_spec(b: Seq<u8>) -> i16 {
        to_signed(b[0] + b[1] * 0x100, 0x8000, 0x10000) as i16
    }

    open spec fn from_be_spec(b: Seq<u8>) -> i16 {
        to_signed(b[1] + b[0] * 0x100, 0x8000, 0x10000) as i16
    }

    fn from_bytes_ne(data: &[u8]) -> Result<i16, EndOfInput> {
        Self::from_bytes_le(data)
    }

    fn from_bytes_le(data: &[u8]) -> Result<i16, EndOfInput> {
        if data.len() < 2 {
            return Err(EndOfInput);
        }
        let v: u16 = data[0] as u16 + (data[1] as u16) * 0x100;
        let r: i16 = if v < 0x8000 {
            v as i16
        } else {
            ((v - 0x8000) as i16 - 0x7fff) - 1
        };
        Ok(r)
    }

    fn from_bytes_be(data: &[u8]) -> Result<i16, EndOfInput> {
        if data.len() < 2 {
            return Err(EndOfInput);
        }
        let v: u16 = data[1] as u16 + (data[0] as u16) * 0x100;
        let r: i16 = if v < 0x8000 {
            v as i16
        } else {
            ((v - 0x8000) as i16 - 0x7fff) - 1
        };
        Ok(r)
    }
}

impl FromBytes for i32 {
    open spec fn byte_size() -> nat {
        4
    }

    open spec fn from_le_spec(b: Seq<u8>) -> i32 {
        to_signed(b[0] + b[1] * 0x100 + b[2] * 0x10000 + b[3] * 0x1000000, 0x80000000, 0x100000000) as i32
    }

    open spec fn from_be_spec(b: Seq<u8>) -> i32 {
        to_signed(b[3] + b[2] * 0x100 + b[1] * 0x10000 + b[0] * 0x1000000, 0x80000000, 0x100000000) as i32
    }

    fn from_bytes_ne(data: &[u8]) -> Result<i32, EndOfInput> {
        Self::from_bytes_le(data)
    }

    fn from_bytes_le(data: &[u8]) -> Result<i32, EndOfInput> {
        if data.len() < 4 {
            return Err(EndOfInput);
        }
        let v: u32 = data[0] as u32 + (data[1] as u32) * 0x100 + (data[2] as u32) * 0x10000 + (data[3] as u32) * 0x1000000;
        let r: i32 = if v < 0x80000000 {
            v as i32
        } else {
            ((v - 0x80000000) as i32 - 0x7fffffff) - 1
        };
        Ok(r)
    }

    fn from_bytes_be(data: &[u8]) -> Result<i32, EndOfInput> {
        if data.len() < 4 {
            return Err(EndOfInput);
        }
        let v: u32 = data[3] as u32 + (data[2] as u32) * 0x100 + (data[1] as u32) * 0x10000 + (data[0] as u32) * 0x1000000;
        let r: i32 = if v < 0x80000000 {
            v as i32
        } else {
            ((v - 0x80000000) as i32 - 0x7fffffff) - 1
        };
        Ok(r)
    }
}

impl FromBytes for i64 {
    open spec fn byte_size() -> nat {
        8
    }

    open spec fn from_le_spec(b: Seq<u8>) -> i64 {
        to_signed(b[0] + b[1] * 0x100 + b[2] * 0x10000 + b[3] * 0x1000000 + b[4] * 0x100000000 + b[5] * 0x10000000000 + b[6] * 0x1000000000000 + b[7] * 0x100000000000000, 0x8000000000000000, 0x10000000000000000) as i64
    }

    open spec fn from_be_spec(b: Seq<u8>) -> i64 {
        to_signed(b[7] + b[6] * 0x100 + b[5] * 0x10000 + b[4] * 0x1000000 + b[3] * 0x100000000 + b[2] * 0x10000000000 + b[1] * 0x1000000000000 + b[0] * 0x100000000000000, 0x8000000000000000, 0x10000000000000000) as i64
    }

    fn from_bytes_ne(data: &[u8]) -> Result<i64, EndOfInput> {
        Self::from_bytes_le(data)
    }

    fn from_bytes_le(data: &[u8]) -> Result<i64, EndOfInput> {
        if data.len() < 8 {
            return Err(EndOfInput);
        }
        let v: u64 = data[0] as u64 + (data[1] as u64) * 0x100 + (data[2] as u64) * 0x10000 + (data[3] as u64) * 0x1000000 + (data[4] as u64) * 0x100000000 + (data[5] as u64) * 0x10000000000 + (data[6] as u64) * 0x1000000000000 + (data[7] as u64) * 0x100000000000000;
        let r: i64 = if v < 0x8000000000000000 {
            v as i64
        } else {
            ((v - 0x8000000000000000) as i64 - 0x7fffffffffffffff) - 1
        };
        Ok(r)
    }

    fn from_bytes_be(data: &[u8]) -> Result<i64, EndOfInput> {
        if data.len() < 8 {
            return Err(EndOfInput);
        }
        let v: u64 = data[7] as u64 + (data[6] as u64) * 0x100 + (data[5] as u64) * 0x10000 + (data[4] as u64) * 0x1000000 + (data[3] as u64) * 0x100000000 + (data[2] as u64) * 0x10000000000 + (data[1] as u64) * 0x1000000000000 + (data[0] as u64) * 0x100000000000000;
        let r: i64 = if v < 0x8000000000000000 {
            v as i64
        } else {
            ((v - 0x8000000000000000) as i64 - 0x7fffffffffffffff) - 1
        };
        Ok(r)
    }
}

impl FromBytes for i128 {
    open spec fn byte_size() -> nat {
        16
    }

    open spec fn from_le_spec(b: Seq<u8>) -> i128 {
        to_signed(b[0] + b[1] * 0x100 + b[2] * 0x10000 + b[3] * 0x1000000 + b[4] * 0x100000000 + b[5] * 0x10000000000 + b[6] * 0x1000000000000 + b[7] * 0x100000000000000 + b[8] * 0x10000000000000000 + b[9] * 0x1000000000000000000 + b[10] * 0x100000000000000000000 + b[11] * 0x10000000000000000000000 + b[12] * 0x1000000000000000000000000 + b[13] * 0x100000000000000000000000000 + b[14] * 0x10000000000000000000000000000 + b[15] * 0x1000000000000000000000000000000, 0x80000000000000000000000000000000, 0x100000000000000000000000000000000int) as i128
    }

    open spec fn from_be_spec(b: Seq<u8>) -> i128 {
        to_signed(b[15] + b[14] * 0x100 + b[13] * 0x10000 + b[12] * 0x1000000 + b[11] * 0x100000000 + b[10] * 0x10000000000 + b[9] * 0x1000000000000 + b[8] * 0x100000000000000 + b[7] * 0x10000000000000000 + b[6] * 0x1000000000000000000 + b[5] * 0x100000000000000000000 + b[4] * 0x10000000000000000000000 + b[3] * 0x1000000000000000000000000 + b[2] * 0x100000000000000000000000000 + b[1] * 0x10000000000000000000000000000 + b[0] * 0x1000000000000000000000000000000, 0x80000000000000000000000000000000, 0x100000000000000000000000000000000int) as i128
    }

    fn from_bytes_ne(data: &[u8]) -> Result<i128, EndOfInput> {
        Self::from_bytes_le(data)
    }

    fn from_bytes_le(data: &[u8]) -> Result<i128, EndOfInput> {
        if data.len() < 16 {
            return Err(EndOfInput);
        }
        let v: u128 = data[0] as u128 + (data[1] as u128) * 0x100 + (data[2] as u128) * 0x10000 + (data[3] as u128) * 0x1000000 + (data[4] as u128) * 0x100000000 + (data[5] as u128) * 0x10000000000 + (data[6] as u128) * 0x1000000000000 + (data[7] as u128) * 0x100000000000000 + (data[8] as u128) * 0x10000000000000000 + (data[9] as u128) * 0x1000000000000000000 + (data[10] as u128) * 0x100000000000000000000 + (data[11] as u128) * 0x10000000000000000000000 + (data[12] as u128) * 0x1000000000000000000000000 + (data[13] as u128) * 0x100000000000000000000000000 + (data[14] as u128) * 0x10000000000000000000000000000 + (data[15] as u128) * 0x1000000000000000000000000000000;
        let r: i128 = if v < 0x80000000000000000000000000000000 {
            v as i128
        } else {
            ((v - 0x80000000000000000000000000000000) as i128 - 0x7fffffffffffffffffffffffffffffff) - 1
        };
        Ok(r)
    }

    fn from_bytes_be(data: &[u8]) -> Result<i128, EndOfInput> {
        if data.len() < 16 {
            return Err(EndOfInput);
        }
        let v: u128 = data[15] as u128 + (data[14] as u128) * 0x100 + (data[13] as u128) * 0x10000 + (data[12] as u128) * 0x1000000 + (data[11] as u128) * 0x100000000 + (data[10] as u128) * 0x10000000000 + (data[9] as u128) * 0x1000000000000 + (data[8] as u128) * 0x100000000000000 + (data[7] as u128) * 0x10000000000000000 + (data[6] as u128) * 0x1000000000000000000 + (data[5] as u128) * 0x100000000000000000000 + (data[4] as u128) * 0x10000000000000000000000 + (data[3] as u128) * 0x1000000000000000000000000 + (data[2] as u128) * 0x100000000000000000000000000 + (data[1] as u128) * 0x10000000000000000000000000000 + (data[0] as u128) * 0x1000000000000000000000000000000;
        let r: i128 = if v < 0x80000000000000000000000000000000 {
            v as i128
        } else {
            ((v - 0x80000000000000000000000000000000) as i128 - 0x7fffffffffffffffffffffffffffffff) - 1
        };
        Ok(r)
    }
}

impl FromBytes for bool {
    open spec fn byte_size() -> nat {
        1
    }

    open spec fn from_le_spec(b: Seq<u8>) -> bool {
        b[0] != 0
    }

    open spec fn from_be_spec(b: Seq<u8>) -> bool {
        b[0] != 0
    }

    fn from_bytes_ne(data: &[u8]) -> Result<bool, EndOfInput> {
        if data.len() < 1 {
            return Err(EndOfInput);
        }
        match data[0] {
            0 => Ok(false),
            _ => Ok(true),
        }
    }

    fn from_bytes_le(data: &[u8]) -> Result<bool, EndOfInput> {
        Self::from_bytes_ne(data)
    }

    fn from_bytes_be(data: &[u8]) -> Result<bool, EndOfInput> {
        Self::from_bytes_ne(data)
    }
}

/// Read a `T` from the front of `data` in native byte order.
pub fn from_bytes_ne<T: FromBytes>(data: &[u8]) -> (r: Result<T, EndOfInput>)
    ensures
        data@.len() >= T::byte_size() ==> (r matches Ok(v) && v == T::from_le_spec(
            data@.take(T::byte_size() as int),
        )),
        data@.len() < T::byte_size() ==> r == Err::<T, EndOfInput>(EndOfInput),
{
    T::from_bytes_ne(data)
}

/// Read a `T` from the front of `data` in little-endian byte order.
pub fn from_bytes_le<T: FromBytes>(data: &[u8]) -> (r: Result<T, EndOfInput>)
    ensures
        data@.len() >= T::byte_size() ==> (r matches Ok(v) && v == T::from_le_spec(
            data@.take(T::byte_size() as int),
        )),
        data@.len() < T::byte_size() ==> r == Err::<T, EndOfInput>(EndOfInput),
{
    T::from_bytes_le(data)
}

/// Read a `T` from the front of `data` in big-endian byte order.
pub fn from_bytes_be<T: FromBytes>(data: &[u8]) -> (r: Result<T, EndOfInput>)
    ensures
        data@.len() >= T::byte_size() ==> (r matches Ok(v) && v == T::from_be_spec(
            data@.take(T::byte_size() as int),
        )),
        data@.len() < T::byte_size() ==> r == Err::<T, EndOfInput>(EndOfInput),
{
    T::from_bytes_be(data)
}

} // verus!
