use crate::maps::{parse_u64_key, parsed_u64};
use vstd::prelude::*;
use vstd::string::{StrSliceExecFns, StringExecFns};

verus! {

/// A type that a map key, which is always a string, can be read as.
pub trait MapKey: Sized + DeepView {
    /// The key that the string `s` reads as, if it reads as one.
    spec fn spec_parse(s: Seq<char>) -> Option<Self::V>;

    /// The name of the key type, for error messages.
    spec fn spec_key_kind_name() -> Seq<char>;

    /// Read the string `s` as a key.
    fn parse_key(s: &String) -> (r: Option<Self>)
        ensures
            match r {
                Some(k) => Self::spec_parse(s@) == Some(k.deep_view()),
                None => Self::spec_parse(s@) is None,
            },
    ;

    /// The name of the key type.
    fn key_kind_name() -> (r: &'static str)
        ensures
            r@ == Self::spec_key_kind_name(),
    ;

    /// Whether two keys are the same key.
    fn same_key(&self, other: &Self) -> (r: bool)
        ensures
            r == (self.deep_view() == other.deep_view()),
    ;
}

/// A string read as a possibly signed integer, as the signed integer types'
/// `from_str` read it: an optional `-` or `+`, then one or more digits.
pub open spec fn parsed_int(s: Seq<char>) -> Option<int> {
    if s.len() > 0 && s[0] == '-' {
        let d = s.drop_first();
        if d.len() > 0 && d[0] != '+' {
            match parsed_u64(d) {
                Some(m) => Some(-(m as int)),
                None => None,
            }
        } else {
            None
        }
    } else {
        match parsed_u64(s) {
            Some(m) => Some(m as int),
            None => None,
        }
    }
}

/// Read a string as a possibly signed integer whose magnitude fits a `u64`.
pub fn parse_int_key(s: &str) -> (r: Option<i128>)
    ensures
        match r {
            Some(v) => parsed_int(s@) == Some(v as int),
            None => parsed_int(s@) is None,
        },
{
    let n = s.unicode_len();
    if n > 0 && s.get_char(0) == '-' {
        let rest = s.substring_char(1, n);
        assert(rest@ =~= s@.drop_first());
        if n > 1 && rest.get_char(0) != '+' {
            match parse_u64_key(rest) {
                Some(m) => Some(-(m as i128)),
                None => None,
            }
        } else {
            None
        }
    } else {
        match parse_u64_key(s) {
            Some(m) => Some(m as i128),
            None => None,
        }
    }
}

/// A string key is read as itself.
impl MapKey for String {
    open spec fn spec_parse(s: Seq<char>) -> Option<Seq<char>> {
        Some(s)
    }

    open spec fn spec_key_kind_name() -> Seq<char> {
        "alloc::string::String"@
    }

    fn parse_key(s: &String) -> (r: Option<String>) {
        Some(s.clone())
    }

    fn same_key(&self, other: &Self) -> (r: bool) {
        *self == *other
    }

    fn key_kind_name() -> (r: &'static str) {
        "alloc::string::String"
    }
}

/// A character key must be exactly one character.
impl MapKey for char {
    open spec fn spec_parse(s: Seq<char>) -> Option<char> {
        if s.len() == 1 {
            Some(s[0])
        } else {
            None
        }
    }

    open spec fn spec_key_kind_name() -> Seq<char> {
        "char"@
    }

    fn parse_key(s: &String) -> (r: Option<char>) {
        if s.as_str().unicode_len() == 1 {
            Some(s.as_str().get_char(0))
        } else {
            None
        }
    }

    fn same_key(&self, other: &Self) -> (r: bool) {
        *self == *other
    }

    fn key_kind_name() -> (r: &'static str) {
        "char"
    }
}

/// An unsigned key: digits after an optional `+`, within the type's range.
impl MapKey for u8 {
    open spec fn spec_parse(s: Seq<char>) -> Option<u8> {
        match parsed_u64(s) {
            Some(m) => if m <= u8::MAX {
                Some(m as u8)
            } else {
                None
            },
            None => None,
        }
    }

    open spec fn spec_key_kind_name() -> Seq<char> {
        "u8"@
    }

    fn parse_key(s: &String) -> (r: Option<u8>) {
        match parse_u64_key(s.as_str()) {
            Some(m) => if m <= u8::MAX as u64 {
                Some(m as u8)
            } else {
                None
            },
            None => None,
        }
    }

    fn same_key(&self, other: &Self) -> (r: bool) {
        *self == *other
    }

    fn key_kind_name() -> (r: &'static str) {
        "u8"
    }
}

/// An unsigned key: digits after an optional `+`, within the type's range.
impl MapKey for u16 {
    open spec fn spec_parse(s: Seq<char>) -> Option<u16> {
        match parsed_u64(s) {
            Some(m) => if m <= u16::MAX {
                Some(m as u16)
            } else {
                None
            },
            None => None,
        }
    }

    open spec fn spec_key_kind_name() -> Seq<char> {
        "u16"@
    }

    fn parse_key(s: &String) -> (r: Option<u16>) {
        match parse_u64_key(s.as_str()) {
            Some(m) => if m <= u16::MAX as u64 {
                Some(m as u16)
            } else {
                None
            },
            None => None,
        }
    }

    fn same_key(&self, other: &Self) -> (r: bool) {
        *self == *other
    }

    fn key_kind_name() -> (r: &'static str) {
        "u16"
    }
}

/// An unsigned key: digits after an optional `+`, within the type's range.
impl MapKey for u32 {
    open spec fn spec_parse(s: Seq<char>) -> Option<u32> {
        match parsed_u64(s) {
            Some(m) => if m <= u32::MAX {
                Some(m as u32)
            } else {
                None
            },
            None => None,
        }
    }

    open spec fn spec_key_kind_name() -> Seq<char> {
        "u32"@
    }

    fn parse_key(s: &String) -> (r: Option<u32>) {
        match parse_u64_key(s.as_str()) {
            Some(m) => if m <= u32::MAX as u64 {
                Some(m as u32)
            } else {
                None
            },
            None => None,
        }
    }

    fn same_key(&self, other: &Self) -> (r: bool) {
        *self == *other
    }

    fn key_kind_name() -> (r: &'static str) {
        "u32"
    }
}

/// An unsigned key: digits after an optional `+`, within the type's range.
impl MapKey for u64 {
    open spec fn spec_parse(s: Seq<char>) -> Option<u64> {
        match parsed_u64(s) {
            Some(m) => if m <= u64::MAX {
                Some(m as u64)
            } else {
                None
            },
            None => None,
        }
    }

    open spec fn spec_key_kind_name() -> Seq<char> {
        "u64"@
    }

    fn parse_key(s: &String) -> (r: Option<u64>) {
        match parse_u64_key(s.as_str()) {
            Some(m) => if m <= u64::MAX as u64 {
                Some(m as u64)
            } else {
                None
            },
            None => None,
        }
    }

    fn same_key(&self, other: &Self) -> (r: bool) {
        *self == *other
    }

    fn key_kind_name() -> (r: &'static str) {
        "u64"
    }
}

/// An unsigned key: digits after an optional `+`, within the type's range.
impl MapKey for usize {
    open spec fn spec_parse(s: Seq<char>) -> Option<usize> {
        match parsed_u64(s) {
            Some(m) => if m <= usize::MAX {
                Some(m as usize)
            } else {
                None
            },
            None => None,
        }
    }

    open spec fn spec_key_kind_name() -> Seq<char> {
        "usize"@
    }

    fn parse_key(s: &String) -> (r: Option<usize>) {
        match parse_u64_key(s.as_str()) {
            Some(m) => if m <= usize::MAX as u64 {
                Some(m as usize)
            } else {
                None
            },
            None => None,
        }
    }

    fn same_key(&self, other: &Self) -> (r: bool) {
        *self == *other
    }

    fn key_kind_name() -> (r: &'static str) {
        "usize"
    }
}

/// A signed key: digits after an optional sign, within the type's range.
impl MapKey for i8 {
    open spec fn spec_parse(s: Seq<char>) -> Option<i8> {
        match parsed_int(s) {
            Some(v) => if i8::MIN <= v <= i8::MAX {
                Some(v as i8)
            } else {
                None
            },
            None => None,
        }
    }

    open spec fn spec_key_kind_name() -> Seq<char> {
        "i8"@
    }

    fn parse_key(s: &String) -> (r: Option<i8>) {
        match parse_int_key(s.as_str()) {
            Some(v) => if i8::MIN as i128 <= v && v <= i8::MAX as i128 {
                Some(v as i8)
            } else {
                None
            },
            None => None,
        }
    }

    fn same_key(&self, other: &Self) -> (r: bool) {
        *self == *other
    }

    fn key_kind_name() -> (r: &'static str) {
        "i8"
    }
}

/// A signed key: digits after an optional sign, within the type's range.
impl MapKey for i16 {
    open spec fn spec_parse(s: Seq<char>) -> Option<i16> {
        match parsed_int(s) {
            Some(v) => if i16::MIN <= v <= i16::MAX {
                Some(v as i16)
            } else {
                None
            },
            None => None,
        }
    }

    open spec fn spec_key_kind_name() -> Seq<char> {
        "i16"@
    }

    fn parse_key(s: &String) -> (r: Option<i16>) {
        match parse_int_key(s.as_str()) {
            Some(v) => if i16::MIN as i128 <= v && v <= i16::MAX as i128 {
                Some(v as i16)
            } else {
                None
            },
            None => None,
        }
    }

    fn same_key(&self, other: &Self) -> (r: bool) {
        *self == *other
    }

    fn key_kind_name() -> (r: &'static str) {
        "i16"
    }
}

/// A signed key: digits after an optional sign, within the type's range.
impl MapKey for i32 {
    open spec fn spec_parse(s: Seq<char>) -> Option<i32> {
        match parsed_int(s) {
            Some(v) => if i32::MIN <= v <= i32::MAX {
                Some(v as i32)
            } else {
                None
            },
            None => None,
        }
    }

    open spec fn spec_key_kind_name() -> Seq<char> {
        "i32"@
    }

    fn parse_key(s: &String) -> (r: Option<i32>) {
        match parse_int_key(s.as_str()) {
            Some(v) => if i32::MIN as i128 <= v && v <= i32::MAX as i128 {
                Some(v as i32)
            } else {
                None
            },
            None => None,
        }
    }

    fn same_key(&self, other: &Self) -> (r: bool) {
        *self == *other
    }

    fn key_kind_name() -> (r: &'static str) {
        "i32"
    }
}

/// A signed key: digits after an optional sign, within the type's range.
impl MapKey for i64 {
    open spec fn spec_parse(s: Seq<char>) -> Option<i64> {
        match parsed_int(s) {
            Some(v) => if i64::MIN <= v <= i64::MAX {
                Some(v as i64)
            } else {
                None
            },
            None => None,
        }
    }

    open spec fn spec_key_kind_name() -> Seq<char> {
        "i64"@
    }

    fn parse_key(s: &String) -> (r: Option<i64>) {
        match parse_int_key(s.as_str()) {
            Some(v) => if i64::MIN as i128 <= v && v <= i64::MAX as i128 {
                Some(v as i64)
            } else {
                None
            },
            None => None,
        }
    }

    fn same_key(&self, other: &Self) -> (r: bool) {
        *self == *other
    }

    fn key_kind_name() -> (r: &'static str) {
        "i64"
    }
}

/// A signed key: digits after an optional sign, within the type's range.
impl MapKey for isize {
    open spec fn spec_parse(s: Seq<char>) -> Option<isize> {
        match parsed_int(s) {
            Some(v) => if isize::MIN <= v <= isize::MAX {
                Some(v as isize)
            } else {
                None
            },
            None => None,
        }
    }

    open spec fn spec_key_kind_name() -> Seq<char> {
        "isize"@
    }

    fn parse_key(s: &String) -> (r: Option<isize>) {
        match parse_int_key(s.as_str()) {
            Some(v) => if isize::MIN as i128 <= v && v <= isize::MAX as i128 {
                Some(v as isize)
            } else {
                None
            },
            None => None,
        }
    }

    fn same_key(&self, other: &Self) -> (r: bool) {
        *self == *other
    }

    fn key_kind_name() -> (r: &'static str) {
        "isize"
    }
}

} // verus!
