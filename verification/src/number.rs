//! The numeric sub-model: a single logical number that can be queried at
//! any fixed signed or unsigned integer width.

use vstd::prelude::*;

verus! {

/// A single number, stored wide enough that every fixed-width query can be
/// answered from one canonical representation.
///
/// The mathematical value is the view (an `int`). Each width accessor
/// returns `Some` exactly when that value is representable at the requested
/// width; it never truncates or wraps.
#[derive(Clone, Copy)]
pub enum NumberValue {
    /// A number within the signed 128-bit range.
    Signed(i128),
    /// A number above `i128::MAX`, stored unsigned.
    Unsigned(u128),
}

impl View for NumberValue {
    type V = int;

    open spec fn view(&self) -> int {
        match *self {
            NumberValue::Signed(n) => n as int,
            NumberValue::Unsigned(n) => n as int,
        }
    }
}

impl NumberValue {
    /// The number at signed 8-bit width, if exactly representable.
    pub fn get_i8(&self) -> (r: Option<i8>)
        ensures
            r == (if i8::MIN <= self@ <= i8::MAX {
                Some(self@ as i8)
            } else {
                None::<i8>
            }),
    {
        match *self {
            NumberValue::Signed(n) => {
                if i8::MIN as i128 <= n && n <= i8::MAX as i128 {
                    Some(n as i8)
                } else {
                    None
                }
            },
            NumberValue::Unsigned(n) => {
                if n <= i8::MAX as u128 {
                    Some(n as i8)
                } else {
                    None
                }
            },
        }
    }

    /// The number at signed 16-bit width, if exactly representable.
    pub fn get_i16(&self) -> (r: Option<i16>)
        ensures
            r == (if i16::MIN <= self@ <= i16::MAX {
                Some(self@ as i16)
            } else {
                None::<i16>
            }),
    {
        match *self {
            NumberValue::Signed(n) => {
                if i16::MIN as i128 <= n && n <= i16::MAX as i128 {
                    Some(n as i16)
                } else {
                    None
                }
            },
            NumberValue::Unsigned(n) => {
                if n <= i16::MAX as u128 {
                    Some(n as i16)
                } else {
                    None
                }
            },
        }
    }

    /// The number at signed 32-bit width, if exactly representable.
    pub fn get_i32(&self) -> (r: Option<i32>)
        ensures
            r == (if i32::MIN <= self@ <= i32::MAX {
                Some(self@ as i32)
            } else {
                None::<i32>
            }),
    {
        match *self {
            NumberValue::Signed(n) => {
                if i32::MIN as i128 <= n && n <= i32::MAX as i128 {
                    Some(n as i32)
                } else {
                    None
                }
            },
            NumberValue::Unsigned(n) => {
                if n <= i32::MAX as u128 {
                    Some(n as i32)
                } else {
                    None
                }
            },
        }
    }

    /// The number at signed 64-bit width, if exactly representable.
    pub fn get_i64(&self) -> (r: Option<i64>)
        ensures
            r == (if i64::MIN <= self@ <= i64::MAX {
                Some(self@ as i64)
            } else {
                None::<i64>
            }),
    {
        match *self {
            NumberValue::Signed(n) => {
                if i64::MIN as i128 <= n && n <= i64::MAX as i128 {
                    Some(n as i64)
                } else {
                    None
                }
            },
            NumberValue::Unsigned(n) => {
                if n <= i64::MAX as u128 {
                    Some(n as i64)
                } else {
                    None
                }
            },
        }
    }

    /// The number at signed 128-bit width, if exactly representable.
    pub fn get_i128(&self) -> (r: Option<i128>)
        ensures
            r == (if i128::MIN <= self@ <= i128::MAX {
                Some(self@ as i128)
            } else {
                None::<i128>
            }),
    {
        match *self {
            NumberValue::Signed(n) => Some(n),
            NumberValue::Unsigned(n) => {
                if n <= i128::MAX as u128 {
                    Some(n as i128)
                } else {
                    None
                }
            },
        }
    }

    /// The number at unsigned 8-bit width, if exactly representable.
    pub fn get_u8(&self) -> (r: Option<u8>)
        ensures
            r == (if 0 <= self@ <= u8::MAX {
                Some(self@ as u8)
            } else {
                None::<u8>
            }),
    {
        match *self {
            NumberValue::Signed(n) => {
                if 0 <= n && n <= u8::MAX as i128 {
                    Some(n as u8)
                } else {
                    None
                }
            },
            NumberValue::Unsigned(n) => {
                if n <= u8::MAX as u128 {
                    Some(n as u8)
                } else {
                    None
                }
            },
        }
    }

    /// The number at unsigned 16-bit width, if exactly representable.
    pub fn get_u16(&self) -> (r: Option<u16>)
        ensures
            r == (if 0 <= self@ <= u16::MAX {
                Some(self@ as u16)
            } else {
                None::<u16>
            }),
    {
        match *self {
            NumberValue::Signed(n) => {
                if 0 <= n && n <= u16::MAX as i128 {
                    Some(n as u16)
                } else {
                    None
                }
            },
            NumberValue::Unsigned(n) => {
                if n <= u16::MAX as u128 {
                    Some(n as u16)
                } else {
                    None
                }
            },
        }
    }

    /// The number at unsigned 32-bit width, if exactly representable.
    pub fn get_u32(&self) -> (r: Option<u32>)
        ensures
            r == (if 0 <= self@ <= u32::MAX {
                Some(self@ as u32)
            } else {
                None::<u32>
            }),
    {
        match *self {
            NumberValue::Signed(n) => {
                if 0 <= n && n <= u32::MAX as i128 {
                    Some(n as u32)
                } else {
                    None
                }
            },
            NumberValue::Unsigned(n) => {
                if n <= u32::MAX as u128 {
                    Some(n as u32)
                } else {
                    None
                }
            },
        }
    }

    /// The number at unsigned 64-bit width, if exactly representable.
    pub fn get_u64(&self) -> (r: Option<u64>)
        ensures
            r == (if 0 <= self@ <= u64::MAX {
                Some(self@ as u64)
            } else {
                None::<u64>
            }),
    {
        match *self {
            NumberValue::Signed(n) => {
                if 0 <= n && n <= u64::MAX as i128 {
                    Some(n as u64)
                } else {
                    None
                }
            },
            NumberValue::Unsigned(n) => {
                if n <= u64::MAX as u128 {
                    Some(n as u64)
                } else {
                    None
                }
            },
        }
    }

    /// The number at unsigned 128-bit width, if exactly representable.
    pub fn get_u128(&self) -> (r: Option<u128>)
        ensures
            r == (if 0 <= self@ <= u128::MAX {
                Some(self@ as u128)
            } else {
                None::<u128>
            }),
    {
        match *self {
            NumberValue::Signed(n) => {
                if 0 <= n {
                    Some(n as u128)
                } else {
                    None
                }
            },
            NumberValue::Unsigned(n) => Some(n),
        }
    }
}

} // verus!
