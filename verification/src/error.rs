//! Error values of the class-file reader and of constant-pool lookups.
use crate::constant::ConstantTag;
use vstd::prelude::*;

verus! {

/// Why a byte sequence was rejected as a class file.
#[derive(Clone, Copy, Debug, PartialEq, Eq, Structural)]
pub enum ParseError {
    /// The input ended before a field was complete.
    TruncatedInput,
    /// The first four bytes are not `0xCAFEBABE`.
    BadMagic,
    /// The major version lies outside the supported range.
    UnsupportedVersion(u16),
    /// A constant-pool entry starts with an unknown tag byte.
    BadConstantTag(u8),
    /// A constant-pool index does not lead to an entry of the kind that its place asks for.
    BadIndex(u16),
}

/// A constant-pool lookup found an entry of another kind than the one it needs.
///
/// `actual` is `Reserved` where `index` is 0, lies outside the pool, or names the
/// unusable second index of a `Long` or `Double`.
#[derive(Clone, Copy, Debug, PartialEq, Eq, Structural)]
pub struct InvalidConstantReference {
    pub expected: ConstantTag,
    pub actual: ConstantTag,
    pub index: u16,
}

} // verus!
