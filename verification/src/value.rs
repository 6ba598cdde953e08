//! The immutable 128-bit value type: canonical byte storage, field views,
//! variant and version classification, equality, ordering, and hashing.

use crate::model::{
    be_val, be_value_of, bytes_range, lemma_be_val_bound, lemma_be_val_injective,
    lemma_pow256_values,
};
use std::cmp::Ordering;
use vstd::prelude::*;
use vstd::string::StringExecFns;

verus! {

/// Layout family of a value, classified from the top bits of
/// `clock_seq_hi_and_reserved` (byte 8 of the canonical layout).
#[derive(Clone, Copy, PartialEq, Eq, Structural, Debug)]
pub enum Variant {
    NCS,
    RFC4122,
    Microsoft,
    Future,
}

/// An RFC 4122 universally unique identifier: an immutable 128-bit quantity
/// held as its 16 canonical big-endian bytes. Equality, ordering and hashing
/// go by those bytes alone, never by derived fields.
#[derive(Debug)]
pub struct UUID {
    b: Vec<u8>,
}

/// `time_low`: bits 0-31 of the canonical layout.
pub open spec fn spec_time_low(s: Seq<u8>) -> int {
    be_val(s.subrange(0, 4))
}

/// `time_mid`: bits 32-47.
pub open spec fn spec_time_mid(s: Seq<u8>) -> int {
    be_val(s.subrange(4, 6))
}

/// `time_hi_and_version`: bits 48-63.
pub open spec fn spec_time_hi_version(s: Seq<u8>) -> int {
    be_val(s.subrange(6, 8))
}

/// `clock_seq_hi_and_reserved`: bits 64-71.
pub open spec fn spec_clock_seq_hi_variant(s: Seq<u8>) -> int {
    s[8] as int
}

/// `clock_seq_low`: bits 72-79.
pub open spec fn spec_clock_seq_low(s: Seq<u8>) -> int {
    s[9] as int
}

/// `node`: bits 80-127.
pub open spec fn spec_node(s: Seq<u8>) -> int {
    be_val(s.subrange(10, 16))
}

/// The 14-bit clock sequence: the low 6 bits of byte 8 followed by byte 9.
pub open spec fn spec_clock_seq(s: Seq<u8>) -> int {
    (s[8] % 64) * 256 + s[9]
}

/// The 60-bit timestamp of a time-based value.
pub open spec fn spec_time(s: Seq<u8>) -> int {
    (spec_time_hi_version(s) % 0x1000) * 0x1_0000_0000_0000 + spec_time_mid(s) * 0x1_0000_0000
        + spec_time_low(s)
}

/// Variant classification: `0xx` NCS, `10x` RFC 4122, `110` Microsoft,
/// `111` future/reserved.
pub open spec fn spec_variant(s: Seq<u8>) -> Variant {
    if s[8] < 0x80 {
        Variant::NCS
    } else if s[8] < 0xC0 {
        Variant::RFC4122
    } else if s[8] < 0xE0 {
        Variant::Microsoft
    } else {
        Variant::Future
    }
}

/// The version nibble, reported only for RFC 4122 variant values; for the
/// other variants the nibble carries no meaning and `None` is reported.
pub open spec fn spec_version(s: Seq<u8>) -> Option<u8> {
    if spec_variant(s) == Variant::RFC4122 {
        Some((s[6] / 16) as u8)
    } else {
        None
    }
}

/// The Microsoft mixed-endian transform: the first three fields (4, 2 and 2
/// bytes) each byte-reversed, the final 8 bytes unchanged. Applied to
/// canonical bytes it yields the `bytes_le` form, and it is its own inverse.
pub open spec fn spec_mixed(s: Seq<u8>) -> Seq<u8> {
    seq![s[3], s[2], s[1], s[0], s[5], s[4], s[7], s[6]] + s.subrange(8, 16)
}

/// The label under which a variant is exposed.
pub open spec fn variant_label(v: Variant) -> Seq<char> {
    match v {
        Variant::NCS => "reserved for NCS compatibility"@,
        Variant::RFC4122 => "RFC4122"@,
        Variant::Microsoft => "reserved for Microsoft compatibility"@,
        Variant::Future => "reserved for future definition"@,
    }
}

/// FNV-1a over a byte sequence: the hash is a function of the canonical
/// bytes alone.
pub open spec fn spec_hash(s: Seq<u8>) -> u64
    decreases s.len(),
{
    if s.len() == 0 {
        0xcbf2_9ce4_8422_2325u64
    } else {
        (((spec_hash(s.drop_last()) ^ (s.last() as u64)) as nat * 0x100_0000_01b3)
            % 0x1_0000_0000_0000_0000) as u64
    }
}

impl View for UUID {
    type V = Seq<u8>;

    closed spec fn view(&self) -> Seq<u8> {
        self.b@
    }
}

/// Builds a value from canonical big-endian bytes; the crate's verified
/// constructors all funnel through here.
pub(crate) fn uuid_from_canonical(b: Vec<u8>) -> (r: UUID)
    requires
        b@.len() == 16,
    ensures
        r@ == b@,
{
    UUID { b }
}

impl UUID {
    #[verifier::type_invariant]
    spec fn canonical(self) -> bool {
        self.b@.len() == 16
    }

    /// The 16 canonical big-endian bytes.
    pub fn bytes(&self) -> (r: Vec<u8>)
        ensures
            r@ == self@,
            r@.len() == 16,
    {
        proof {
            use_type_invariant(self);
        }
        bytes_range(&self.b, 0, 16)
    }

    /// The 16 bytes in the Microsoft mixed-endian order.
    pub fn bytes_le(&self) -> (r: Vec<u8>)
        ensures
            r@ == spec_mixed(self@),
            r@.len() == 16,
    {
        proof {
            use_type_invariant(self);
        }
        let mut out: Vec<u8> = Vec::new();
        out.push(self.b[3]);
        out.push(self.b[2]);
        out.push(self.b[1]);
        out.push(self.b[0]);
        out.push(self.b[5]);
        out.push(self.b[4]);
        out.push(self.b[7]);
        out.push(self.b[6]);
        let mut tail = bytes_range(&self.b, 8, 16);
        out.append(&mut tail);
        proof {
            assert(out@ =~= spec_mixed(self@));
        }
        out
    }

    /// The first of the six canonical fields.
    pub fn time_low(&self) -> (r: u32)
        ensures
            r == spec_time_low(self@),
    {
        proof {
            use_type_invariant(self);
            lemma_be_val_bound(self@.subrange(0, 4));
            lemma_pow256_values();
        }
        be_value_of(&self.b, 0, 4) as u32
    }

    /// The second of the six canonical fields.
    pub fn time_mid(&self) -> (r: u16)
        ensures
            r == spec_time_mid(self@),
    {
        proof {
            use_type_invariant(self);
            lemma_be_val_bound(self@.subrange(4, 6));
            lemma_pow256_values();
        }
        be_value_of(&self.b, 4, 6) as u16
    }

    /// The third of the six canonical fields, version nibble and all.
    pub fn time_hi_version(&self) -> (r: u16)
        ensures
            r == spec_time_hi_version(self@),
    {
        proof {
            use_type_invariant(self);
            lemma_be_val_bound(self@.subrange(6, 8));
            lemma_pow256_values();
        }
        be_value_of(&self.b, 6, 8) as u16
    }

    /// Byte 8: the clock sequence high bits together with the variant bits.
    pub fn clock_seq_hi_variant(&self) -> (r: u8)
        ensures
            r == spec_clock_seq_hi_variant(self@),
    {
        proof {
            use_type_invariant(self);
        }
        self.b[8]
    }

    /// Byte 9: the low byte of the clock sequence.
    pub fn clock_seq_low(&self) -> (r: u8)
        ensures
            r == spec_clock_seq_low(self@),
    {
        proof {
            use_type_invariant(self);
        }
        self.b[9]
    }

    /// The 48-bit node field.
    pub fn node(&self) -> (r: u64)
        ensures
            r == spec_node(self@),
            r < 0x1_0000_0000_0000,
    {
        proof {
            use_type_invariant(self);
            lemma_be_val_bound(self@.subrange(10, 16));
            lemma_pow256_values();
        }
        be_value_of(&self.b, 10, 16) as u64
    }

    /// The 14-bit clock sequence, reassembled from bytes 8 and 9.
    pub fn clock_seq(&self) -> (r: u16)
        ensures
            r == spec_clock_seq(self@),
    {
        proof {
            use_type_invariant(self);
        }
        let hi = self.b[8];
        let lo = self.b[9];
        ((hi % 64) as u16) * 256 + (lo as u16)
    }

    /// The 60-bit timestamp of a time-based value.
    pub fn time(&self) -> (r: u128)
        ensures
            r == spec_time(self@),
    {
        let tl = self.time_low();
        let tm = self.time_mid();
        let th = self.time_hi_version();
        ((th % 0x1000) as u128) * 0x1_0000_0000_0000 + (tm as u128) * 0x1_0000_0000 + (tl as u128)
    }

    /// All six canonical fields at once.
    pub fn fields(&self) -> (r: (u32, u16, u16, u8, u8, u64))
        ensures
            r.0 == spec_time_low(self@),
            r.1 == spec_time_mid(self@),
            r.2 == spec_time_hi_version(self@),
            r.3 == spec_clock_seq_hi_variant(self@),
            r.4 == spec_clock_seq_low(self@),
            r.5 == spec_node(self@),
    {
        (
            self.time_low(),
            self.time_mid(),
            self.time_hi_version(),
            self.clock_seq_hi_variant(),
            self.clock_seq_low(),
            self.node(),
        )
    }

    /// The value as an unsigned 128-bit big-endian integer.
    pub fn int_val(&self) -> (r: u128)
        ensures
            r == be_val(self@),
    {
        proof {
            use_type_invariant(self);
            assert(self@.subrange(0, 16) =~= self@);
        }
        be_value_of(&self.b, 0, 16)
    }

    /// The variant as a classification.
    pub fn variant_kind(&self) -> (r: Variant)
        ensures
            r == spec_variant(self@),
    {
        proof {
            use_type_invariant(self);
        }
        let v = self.b[8];
        if v < 0x80 {
            Variant::NCS
        } else if v < 0xC0 {
            Variant::RFC4122
        } else if v < 0xE0 {
            Variant::Microsoft
        } else {
            Variant::Future
        }
    }

    /// The variant under its exposed label.
    pub fn variant(&self) -> (r: String)
        ensures
            r@ == variant_label(spec_variant(self@)),
    {
        match self.variant_kind() {
            Variant::NCS => String::from_str("reserved for NCS compatibility"),
            Variant::RFC4122 => String::from_str("RFC4122"),
            Variant::Microsoft => String::from_str("reserved for Microsoft compatibility"),
            Variant::Future => String::from_str("reserved for future definition"),
        }
    }

    /// The version nibble, reported only for RFC 4122 variant values.
    pub fn version(&self) -> (r: Option<u8>)
        ensures
            r == spec_version(self@),
    {
        proof {
            use_type_invariant(self);
        }
        match self.variant_kind() {
            Variant::RFC4122 => Some(self.b[6] / 16),
            _ => None,
        }
    }

    /// Safety classification of how the value was generated; the process-wide
    /// generation here never uses a system-provided safe source, so this is
    /// the `safe` placeholder code.
    pub fn is_safe(&self) -> (r: u8)
        ensures
            r == 0,
    {
        let tmp = SafeUUID {};
        tmp.safe()
    }

    /// Hash of the canonical bytes (FNV-1a, 64 bit).
    pub fn hash(&self) -> (r: u64)
        ensures
            r == spec_hash(self@),
    {
        proof {
            use_type_invariant(self);
        }
        let mut h: u64 = 0xcbf2_9ce4_8422_2325;
        let mut i: usize = 0;
        while i < 16
            invariant
                i <= 16,
                self.b@.len() == 16,
                h == spec_hash(self@.take(i as int)),
            decreases 16 - i,
        {
            proof {
                assert(self@.take((i + 1) as int).drop_last() =~= self@.take(i as int));
                assert(self@.take((i + 1) as int).last() == self@[i as int]);
            }
            let x = h ^ (self.b[i] as u64);
            h = x.wrapping_mul(0x100_0000_01b3);
            i += 1;
        }
        proof {
            assert(self@.take(16) =~= self@);
        }
        h
    }
}

impl Clone for UUID {
    /// A clone holds the same canonical bytes.
    fn clone(&self) -> (r: Self)
        ensures
            r@ == self@,
    {
        proof {
            use_type_invariant(self);
        }
        UUID { b: bytes_range(&self.b, 0, 16) }
    }
}

impl PartialEq for UUID {
    fn eq(&self, other: &UUID) -> (r: bool) {
        proof {
            use_type_invariant(self);
            use_type_invariant(other);
        }
        let a = self.int_val();
        let b = other.int_val();
        proof {
            if a == b {
                lemma_be_val_injective(self@, other@);
            }
        }
        a == b
    }
}

impl vstd::std_specs::cmp::PartialEqSpecImpl for UUID {
    open spec fn obeys_eq_spec() -> bool {
        true
    }

    open spec fn eq_spec(&self, other: &UUID) -> bool {
        self@ == other@
    }
}

impl Eq for UUID {

}

impl PartialOrd for UUID {
    fn partial_cmp(&self, other: &UUID) -> (r: Option<Ordering>) {
        proof {
            use_type_invariant(self);
            use_type_invariant(other);
        }
        let a = self.int_val();
        let b = other.int_val();
        if a < b {
            Some(Ordering::Less)
        } else if a == b {
            Some(Ordering::Equal)
        } else {
            Some(Ordering::Greater)
        }
    }
}

impl vstd::std_specs::cmp::PartialOrdSpecImpl for UUID {
    open spec fn obeys_partial_cmp_spec() -> bool {
        true
    }

    open spec fn partial_cmp_spec(&self, other: &UUID) -> Option<Ordering> {
        if be_val(self@) < be_val(other@) {
            Some(Ordering::Less)
        } else if be_val(self@) == be_val(other@) {
            Some(Ordering::Equal)
        } else {
            Some(Ordering::Greater)
        }
    }
}

/// Placeholder classification of how safely a value was generated, mirroring
/// the three conventional codes: safe, not safe, unknown.
pub struct SafeUUID {}

impl SafeUUID {
    /// Code for a value generated by a method safe for multiprocessing.
    pub fn safe(&self) -> (r: u8)
        ensures
            r == 0,
    {
        0
    }

    /// Code for a value generated by a method not safe for multiprocessing.
    pub fn not_safe(&self) -> (r: i8)
        ensures
            r == -1,
    {
        -1
    }

    /// Code for a value whose generation method is unknown.
    pub fn unknown(&self) -> (r: Option<u8>)
        ensures
            r is None,
    {
        None
    }
}

} // verus!
