//! Construction of values: the five recognized input forms, their
//! validation, and the arity-checked dispatch over optional arguments.

use crate::model::{be_bytes_of, be_digits, be_val, bytes_range, lemma_pow256_values};
use crate::text::{all_hex, clean, clean_chars, hex_chars_to_bytes, parse_hex};
use crate::value::{spec_mixed, uuid_from_canonical, UUID};
use vstd::prelude::*;

verus! {

/// Why a construction was rejected.
#[derive(Clone, Copy, PartialEq, Eq, Structural, Debug)]
pub enum UuidError {
    /// Cleaned hexadecimal text not exactly 32 hexadecimal digits, or a
    /// byte buffer not exactly 16 bytes long.
    FormatError,
    /// A quantity out of range: a node at or above `2^48`, or a version
    /// hint outside `1 ..= 5`.
    RangeError,
    /// Zero, or more than one, of the construction forms supplied.
    ArityError,
}

/// One discriminated construction input.
pub enum UuidInput {
    /// Hexadecimal text, possibly decorated with `urn:`/`uuid:` prefixes,
    /// enclosing braces, and hyphens.
    Hex(String),
    /// 16 canonical big-endian bytes.
    Bytes(Vec<u8>),
    /// 16 bytes in the Microsoft mixed-endian order.
    BytesLe(Vec<u8>),
    /// The six canonical fields.
    Fields((u32, u16, u16, u8, u8, u64)),
    /// The value as an unsigned 128-bit integer.
    Int(u128),
}

/// The canonical bytes that a fields tuple packs to.
pub open spec fn pack_fields(f: (u32, u16, u16, u8, u8, u64)) -> Seq<u8> {
    be_digits(f.0 as int, 4) + be_digits(f.1 as int, 2) + be_digits(f.2 as int, 2) + seq![f.3, f.4]
        + be_digits(f.5 as int, 6)
}

/// Whether a cleaned hexadecimal input denotes a value.
pub open spec fn hex_input_ok(s: Seq<char>) -> bool {
    clean(s).len() == 32 && all_hex(clean(s))
}

/// Whether a version hint is in range.
pub open spec fn version_ok(version: Option<u8>) -> bool {
    match version {
        Some(v) => 1 <= v <= 5,
        None => true,
    }
}

impl UUID {
    /// Constructs from hexadecimal text: after cleanup the text must be
    /// exactly 32 hexadecimal digits.
    pub fn from_hex_str(s: &str) -> (r: Result<UUID, UuidError>)
        ensures
            hex_input_ok(s@) ==> (r matches Ok(u) && u@ == parse_hex(clean(s@))),
            !hex_input_ok(s@) ==> r == Err::<UUID, UuidError>(UuidError::FormatError),
    {
        let cv = clean_chars(s);
        match hex_chars_to_bytes(&cv) {
            Some(b) => Ok(uuid_from_canonical(b)),
            None => Err(UuidError::FormatError),
        }
    }

    /// Constructs from the 16 canonical big-endian bytes.
    pub fn from_bytes(b: &Vec<u8>) -> (r: Result<UUID, UuidError>)
        ensures
            b@.len() == 16 ==> (r matches Ok(u) && u@ == b@),
            b@.len() != 16 ==> r == Err::<UUID, UuidError>(UuidError::FormatError),
    {
        if b.len() != 16 {
            Err(UuidError::FormatError)
        } else {
            Ok(uuid_from_canonical(bytes_range(b, 0, 16)))
        }
    }

    /// Constructs from 16 bytes in the Microsoft mixed-endian order.
    pub fn from_bytes_le(b: &Vec<u8>) -> (r: Result<UUID, UuidError>)
        ensures
            b@.len() == 16 ==> (r matches Ok(u) && u@ == spec_mixed(b@)),
            b@.len() != 16 ==> r == Err::<UUID, UuidError>(UuidError::FormatError),
    {
        if b.len() != 16 {
            return Err(UuidError::FormatError);
        }
        let mut out: Vec<u8> = Vec::new();
        out.push(*crate::construct::byte_at(b, 3));
        out.push(*crate::construct::byte_at(b, 2));
        out.push(*crate::construct::byte_at(b, 1));
        out.push(*crate::construct::byte_at(b, 0));
        out.push(*crate::construct::byte_at(b, 5));
        out.push(*crate::construct::byte_at(b, 4));
        out.push(*crate::construct::byte_at(b, 7));
        out.push(*crate::construct::byte_at(b, 6));
        let mut tail = bytes_range(b, 8, 16);
        out.append(&mut tail);
        proof {
            assert(out@ =~= spec_mixed(b@));
        }
        Ok(uuid_from_canonical(out))
    }

    /// Constructs from the six canonical fields; the node must fit 48 bits.
    pub fn from_fields(f: (u32, u16, u16, u8, u8, u64)) -> (r: Result<UUID, UuidError>)
        ensures
            f.5 < 0x1_0000_0000_0000 ==> (r matches Ok(u) && u@ == pack_fields(f)),
            f.5 >= 0x1_0000_0000_0000 ==> r == Err::<UUID, UuidError>(UuidError::RangeError),
    {
        if f.5 >= 0x1_0000_0000_0000 {
            return Err(UuidError::RangeError);
        }
        Ok(uuid_from_canonical(pack_fields_vec(f)))
    }

    /// Constructs from the value as an unsigned 128-bit integer.
    pub fn from_u128(n: u128) -> (r: UUID)
        ensures
            be_val(r@) == n,
            r@ == be_digits(n as int, 16),
            r@.len() == 16,
    {
        proof {
            lemma_pow256_values();
        }
        uuid_from_canonical(be_bytes_of(n, 16))
    }

    /// Constructs from one discriminated input.
    pub fn from_input(input: &UuidInput) -> (r: Result<UUID, UuidError>)
        ensures
            input matches UuidInput::Hex(s) ==> {
                &&& hex_input_ok(s@) ==> (r matches Ok(u) && u@ == parse_hex(clean(s@)))
                &&& !hex_input_ok(s@) ==> r == Err::<UUID, UuidError>(UuidError::FormatError)
            },
            input matches UuidInput::Bytes(b) ==> {
                &&& b@.len() == 16 ==> (r matches Ok(u) && u@ == b@)
                &&& b@.len() != 16 ==> r == Err::<UUID, UuidError>(UuidError::FormatError)
            },
            input matches UuidInput::BytesLe(b) ==> {
                &&& b@.len() == 16 ==> (r matches Ok(u) && u@ == spec_mixed(b@))
                &&& b@.len() != 16 ==> r == Err::<UUID, UuidError>(UuidError::FormatError)
            },
            input matches UuidInput::Fields(f) ==> {
                &&& f.5 < 0x1_0000_0000_0000 ==> (r matches Ok(u) && u@ == pack_fields(*f))
                &&& f.5 >= 0x1_0000_0000_0000 ==> r == Err::<UUID, UuidError>(
                    UuidError::RangeError,
                )
            },
            input matches UuidInput::Int(n) ==> (r matches Ok(u) && be_val(u@) == *n),
    {
        match input {
            UuidInput::Hex(s) => UUID::from_hex_str(s.as_str()),
            UuidInput::Bytes(b) => UUID::from_bytes(b),
            UuidInput::BytesLe(b) => UUID::from_bytes_le(b),
            UuidInput::Fields(f) => UUID::from_fields(*f),
            UuidInput::Int(n) => Ok(UUID::from_u128(*n)),
        }
    }

    /// Constructs from exactly one of the five recognized forms; supplying
    /// none or several is an arity error. A branch's own format or range
    /// error takes precedence over the version hint; the hint itself must
    /// lie in `1 ..= 5` and is used for validation only — it never alters
    /// the constructed value.
    pub fn new(
        hex: Option<&str>,
        bytes: Option<Vec<u8>>,
        bytes_le: Option<Vec<u8>>,
        fields: Option<(u32, u16, u16, u8, u8, u64)>,
        int_value: Option<u128>,
        version: Option<u8>,
    ) -> (r: Result<UUID, UuidError>)
        ensures
            ({
                let n_given: int = (if hex is Some {
                    1int
                } else {
                    0int
                }) + (if bytes is Some {
                    1int
                } else {
                    0int
                }) + (if bytes_le is Some {
                    1int
                } else {
                    0int
                }) + (if fields is Some {
                    1int
                } else {
                    0int
                }) + (if int_value is Some {
                    1int
                } else {
                    0int
                });
                &&& n_given != 1 ==> r == Err::<UUID, UuidError>(UuidError::ArityError)
                &&& n_given == 1 && hex is Some ==> {
                    if !hex_input_ok(hex.unwrap()@) {
                        r == Err::<UUID, UuidError>(UuidError::FormatError)
                    } else if !version_ok(version) {
                        r == Err::<UUID, UuidError>(UuidError::RangeError)
                    } else {
                        r matches Ok(u) && u@ == parse_hex(clean(hex.unwrap()@))
                    }
                }
                &&& n_given == 1 && bytes is Some ==> {
                    if bytes.unwrap()@.len() != 16 {
                        r == Err::<UUID, UuidError>(UuidError::FormatError)
                    } else if !version_ok(version) {
                        r == Err::<UUID, UuidError>(UuidError::RangeError)
                    } else {
                        r matches Ok(u) && u@ == bytes.unwrap()@
                    }
                }
                &&& n_given == 1 && bytes_le is Some ==> {
                    if bytes_le.unwrap()@.len() != 16 {
                        r == Err::<UUID, UuidError>(UuidError::FormatError)
                    } else if !version_ok(version) {
                        r == Err::<UUID, UuidError>(UuidError::RangeError)
                    } else {
                        r matches Ok(u) && u@ == spec_mixed(bytes_le.unwrap()@)
                    }
                }
                &&& n_given == 1 && fields is Some ==> {
                    if fields.unwrap().5 >= 0x1_0000_0000_0000 {
                        r == Err::<UUID, UuidError>(UuidError::RangeError)
                    } else if !version_ok(version) {
                        r == Err::<UUID, UuidError>(UuidError::RangeError)
                    } else {
                        r matches Ok(u) && u@ == pack_fields(fields.unwrap())
                    }
                }
                &&& n_given == 1 && int_value is Some ==> {
                    if !version_ok(version) {
                        r == Err::<UUID, UuidError>(UuidError::RangeError)
                    } else {
                        r matches Ok(u) && be_val(u@) == int_value.unwrap()
                    }
                }
            }),
    {
        let mut count: u32 = 0;
        if hex.is_some() {
            count += 1;
        }
        if bytes.is_some() {
            count += 1;
        }
        if bytes_le.is_some() {
            count += 1;
        }
        if fields.is_some() {
            count += 1;
        }
        if int_value.is_some() {
            count += 1;
        }
        if count != 1 {
            return Err(UuidError::ArityError);
        }
        let base: Result<UUID, UuidError> = if let Some(h) = hex {
            UUID::from_hex_str(h)
        } else if let Some(b) = &bytes_le {
            UUID::from_bytes_le(b)
        } else if let Some(b) = &bytes {
            UUID::from_bytes(b)
        } else if let Some(f) = fields {
            UUID::from_fields(f)
        } else {
            let n = int_value.unwrap();
            Ok(UUID::from_u128(n))
        };
        match base {
            Err(e) => Err(e),
            Ok(u) => {
                if let Some(v) = version {
                    if v < 1 || v > 5 {
                        return Err(UuidError::RangeError);
                    }
                }
                Ok(u)
            },
        }
    }
}

/// The 16 canonical bytes of a fields tuple whose node fits 48 bits.
pub(crate) fn pack_fields_vec(f: (u32, u16, u16, u8, u8, u64)) -> (r: Vec<u8>)
    requires
        f.5 < 0x1_0000_0000_0000,
    ensures
        r@ == pack_fields(f),
        r@.len() == 16,
{
    proof {
        lemma_pow256_values();
    }
    let mut out = be_bytes_of(f.0 as u128, 4);
    let mut t1 = be_bytes_of(f.1 as u128, 2);
    out.append(&mut t1);
    let mut t2 = be_bytes_of(f.2 as u128, 2);
    out.append(&mut t2);
    out.push(f.3);
    out.push(f.4);
    let mut t3 = be_bytes_of(f.5 as u128, 6);
    out.append(&mut t3);
    proof {
        assert(out@ =~= pack_fields(f));
    }
    out
}

/// Reference to element `i` of `v`.
pub(crate) fn byte_at(v: &Vec<u8>, i: usize) -> (r: &u8)
    requires
        i < v@.len(),
    ensures
        *r == v@[i as int],
{
    &v[i]
}

} // verus!
