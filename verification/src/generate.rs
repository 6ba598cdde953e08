//! Generation of values: the time-based algorithm's arithmetic, version and
//! variant stamping, the well-known namespaces, and the clock-sequence step.

use crate::construct::{byte_at, pack_fields_vec, UuidError};
use crate::laws::lemma_fields_round_trip;
use crate::model::{be_val, bytes_range};
use crate::node::{select_spec, views_of};
use crate::value::{
    spec_clock_seq, spec_node, spec_time, spec_variant, spec_version, uuid_from_canonical, Variant,
    UUID,
};
use vstd::arithmetic::div_mod::{
    lemma_breakdown, lemma_fundamental_div_mod, lemma_mod_add_multiples_vanish,
    lemma_mod_multiples_vanish, lemma_multiply_divide_lt, lemma_small_mod,
};
use vstd::prelude::*;

verus! {

/// 100-nanosecond intervals between 1582-10-15T00:00:00Z, the epoch of the
/// time-based algorithm, and the Unix epoch 1970-01-01T00:00:00Z.
pub const GREGORIAN_OFFSET_100NS: u64 = 0x01B2_1DD2_1381_4000;

/// The 60-bit timestamp of the time-based algorithm: 100-nanosecond
/// intervals since 1582-10-15, computed from Unix-epoch seconds and
/// subsecond nanoseconds, reduced modulo `2^60`.
pub fn gregorian_timestamp_100ns(secs: u64, nanos: u32) -> (t: u64)
    ensures
        t == (secs * 10_000_000 + nanos / 100 + GREGORIAN_OFFSET_100NS) % 0x1000_0000_0000_0000,
        t < 0x1000_0000_0000_0000,
{
    proof {
        assert((secs as int) * 10_000_000 < 0x1_0000_0000_0000_0000_0000_0000)
            by (nonlinear_arith)
            requires
                secs < 0x1_0000_0000_0000_0000,
        ;
    }
    let wide: u128 = (secs as u128) * 10_000_000 + ((nanos / 100) as u128) + (
    GREGORIAN_OFFSET_100NS as u128);
    (wide % 0x1000_0000_0000_0000) as u64
}

/// Bytes stamped with version nibble `v` and the RFC 4122 variant bits.
pub open spec fn with_version(s: Seq<u8>, v: int) -> Seq<u8> {
    s.update(6, (s[6] % 16 + v * 16) as u8).update(8, (s[8] % 64 + 128) as u8)
}

/// Stamping sets the variant to RFC 4122 and the version to `v`, and leaves
/// every byte but 6 and 8 alone.
pub proof fn lemma_with_version(s: Seq<u8>, v: int)
    requires
        s.len() == 16,
        0 <= v < 16,
    ensures
        with_version(s, v).len() == 16,
        spec_variant(with_version(s, v)) == Variant::RFC4122,
        spec_version(with_version(s, v)) == Some(v as u8),
        forall|i: int| 0 <= i < 16 && i != 6 && i != 8 ==> with_version(s, v)[i] == s[i],
{
    let t = with_version(s, v);
    assert(t[8] == (s[8] % 64 + 128) as u8);
    assert(128 <= s[8] % 64 + 128 < 192);
    assert(t[6] == (s[6] % 16 + v * 16) as u8);
    assert((s[6] % 16 + v * 16) / 16 == v) by (nonlinear_arith)
        requires
            0 <= v < 16,
            0 <= s[6] % 16 < 16,
    ;
}

/// Returns `b` with the version nibble and the variant bits stamped.
pub fn stamp_version(b: &Vec<u8>, v: u8) -> (r: Vec<u8>)
    requires
        b@.len() == 16,
        v < 16,
    ensures
        r@ == with_version(b@, v as int),
        r@.len() == 16,
{
    let mut out = bytes_range(b, 0, 6);
    let b6 = *byte_at(b, 6);
    out.push(b6 % 16 + v * 16);
    out.push(*byte_at(b, 7));
    let b8 = *byte_at(b, 8);
    out.push(b8 % 64 + 128);
    let mut tail = bytes_range(b, 9, 16);
    out.append(&mut tail);
    proof {
        assert(out@ =~= with_version(b@, v as int));
    }
    out
}

/// Assembles a time-based value from its three ingredients, stamping the
/// version nibble and the variant bits.
pub fn uuid1_from_parts(timestamp: u64, clock_seq: u16, node: u64) -> (u: UUID)
    requires
        timestamp < 0x1000_0000_0000_0000,
        clock_seq < 0x4000,
        node < 0x1_0000_0000_0000,
    ensures
        spec_time(u@) == timestamp,
        spec_clock_seq(u@) == clock_seq,
        spec_node(u@) == node,
        spec_variant(u@) == Variant::RFC4122,
        spec_version(u@) == Some(1u8),
        u@.len() == 16,
{
    proof {
        lemma_multiply_divide_lt(
            timestamp as int,
            0x1_0000_0000_0000,
            0x1000,
        );
        lemma_multiply_divide_lt(clock_seq as int, 256, 64);
    }
    let tl = (timestamp % 0x1_0000_0000) as u32;
    let tm = ((timestamp / 0x1_0000_0000) % 0x1_0000) as u16;
    let th = (timestamp / 0x1_0000_0000_0000) as u16 + 0x1000;
    let chi = (clock_seq / 256) as u8 + 128;
    let clo = (clock_seq % 256) as u8;
    let f = (tl, tm, th, chi, clo, node);
    proof {
        lemma_fields_round_trip(f);
        let ts = timestamp as int;
        // the version nibble leaves the 12 timestamp bits of `th` alone
        assert(th % 0x1000 == ts / 0x1_0000_0000_0000) by {
            lemma_mod_add_multiples_vanish(ts / 0x1_0000_0000_0000, 0x1000);
            lemma_small_mod((ts / 0x1_0000_0000_0000) as nat, 0x1000);
        }
        // the three timestamp fields recombine to the timestamp
        assert(ts == (ts / 0x1_0000_0000_0000) * 0x1_0000_0000_0000 + ((ts / 0x1_0000_0000)
            % 0x1_0000) * 0x1_0000_0000 + ts % 0x1_0000_0000) by {
            lemma_fundamental_div_mod(ts, 0x1_0000_0000_0000);
            lemma_breakdown(ts, 0x1_0000_0000, 0x1_0000);
        }
        // the variant bits leave the 6 high clock-sequence bits alone
        let cs = clock_seq as int;
        assert((cs / 256 + 128) % 64 == cs / 256) by {
            lemma_mod_multiples_vanish(2, cs / 256, 64);
            lemma_small_mod((cs / 256) as nat, 64);
        }
        assert((cs / 256) * 256 + cs % 256 == cs) by {
            lemma_fundamental_div_mod(cs, 256);
        }
    }
    uuid_from_canonical(pack_fields_vec(f))
}

/// One step of the default clock sequence: the 14-bit counter advances by
/// one, wrapping around.
pub fn next_clock_seq(prev: u16) -> (r: u16)
    ensures
        r == (prev + 1) % 0x4000,
        r < 0x4000,
{
    (prev % 0x4000 + 1) % 0x4000
}

/// The DNS namespace, 6ba7b810-9dad-11d1-80b4-00c04fd430c8.
pub fn namespace_dns() -> (u: UUID)
    ensures
        be_val(u@) == 0x6ba7b8109dad11d180b400c04fd430c8,
        u@.len() == 16,
{
    UUID::from_u128(0x6ba7b8109dad11d180b400c04fd430c8)
}

/// The URL namespace, 6ba7b811-9dad-11d1-80b4-00c04fd430c8.
pub fn namespace_url() -> (u: UUID)
    ensures
        be_val(u@) == 0x6ba7b8119dad11d180b400c04fd430c8,
        u@.len() == 16,
{
    UUID::from_u128(0x6ba7b8119dad11d180b400c04fd430c8)
}

/// The ISO OID namespace, 6ba7b812-9dad-11d1-80b4-00c04fd430c8.
pub fn namespace_oid() -> (u: UUID)
    ensures
        be_val(u@) == 0x6ba7b8129dad11d180b400c04fd430c8,
        u@.len() == 16,
{
    UUID::from_u128(0x6ba7b8129dad11d180b400c04fd430c8)
}

/// The X.500 DN namespace, 6ba7b814-9dad-11d1-80b4-00c04fd430c8.
pub fn namespace_x500() -> (u: UUID)
    ensures
        be_val(u@) == 0x6ba7b8149dad11d180b400c04fd430c8,
        u@.len() == 16,
{
    UUID::from_u128(0x6ba7b8149dad11d180b400c04fd430c8)
}

/// What the MD5 digest of a byte sequence is: a function of the bytes
/// alone, left unnamed beyond that.
pub uninterp spec fn md5_of(data: Seq<u8>) -> Seq<u8>;

/// Relies on `md5::compute`: the 16-byte MD5 digest of the input, a
/// function of the input bytes alone.
#[verifier::external_body]
fn md5_digest(data: &Vec<u8>) -> (r: Vec<u8>)
    ensures
        r@ == md5_of(data@),
        r@.len() == 16,
{
    md5::compute(data.as_slice()).0.to_vec()
}

/// What the SHA-1 digest of a byte sequence is: a function of the bytes
/// alone, left unnamed beyond that.
pub uninterp spec fn sha1_of(data: Seq<u8>) -> Seq<u8>;

/// Relies on `sha1_smol::Sha1`: the 20-byte SHA-1 digest of the input, a
/// function of the input bytes alone.
#[verifier::external_body]
fn sha1_digest(data: &Vec<u8>) -> (r: Vec<u8>)
    ensures
        r@ == sha1_of(data@),
        r@.len() == 20,
{
    sha1_smol::Sha1::from(data.as_slice()).digest().bytes().to_vec()
}

/// Relies on `rand::random`: a random 128-bit value; nothing is promised
/// of it.
#[verifier::external_body]
fn random_u128() -> u128 {
    rand::random()
}

/// Relies on `std::time::SystemTime::now` and its `duration_since`: the
/// wall clock as whole seconds since the Unix epoch with the subsecond
/// nanoseconds, which std documents to lie under one billion; a clock
/// reading from before the epoch is taken as the epoch itself.
#[verifier::external_body]
fn clock_now() -> (r: (u64, u32))
    ensures
        r.1 < 1_000_000_000,
{
    match std::time::SystemTime::now().duration_since(std::time::UNIX_EPOCH) {
        Ok(d) => (d.as_secs(), d.subsec_nanos()),
        Err(_) => (0, 0),
    }
}

/// Append the bytes of `s` to `out`.
fn push_slice(out: &mut Vec<u8>, s: &[u8])
    ensures
        final (out)@ == old(out)@ + s@,
{
    let mut j: usize = 0;
    proof {
        assert(old(out)@ + s@.take(0) =~= old(out)@);
    }
    while j < s.len()
        invariant
            j <= s@.len(),
            out@ == old(out)@ + s@.take(j as int),
        decreases s@.len() - j,
    {
        proof {
            assert(old(out)@ + s@.take((j + 1) as int) =~= (old(out)@ + s@.take(
                j as int,
            )).push(s@[j as int]));
        }
        out.push(*vstd::slice::slice_index_get(s, j));
        j += 1;
    }
    proof {
        assert(s@.take(s@.len() as int) =~= s@);
    }
}

/// The input that the name-based algorithms digest: the namespace's
/// canonical bytes followed by the UTF-8 bytes of the name.
pub open spec fn name_input(ns: Seq<u8>, name: Seq<char>) -> Seq<u8> {
    ns + vstd::utf8::encode_utf8(name)
}

/// The name-based MD5 algorithm: digest the namespace's bytes followed by
/// the name's UTF-8 bytes, and stamp the result as version 3. Identical
/// namespace and name always yield an identical value.
pub fn uuid3(namespace: &UUID, name: &str) -> (u: UUID)
    ensures
        u@ == with_version(md5_of(name_input(namespace@, name@)), 3),
        spec_variant(u@) == Variant::RFC4122,
        spec_version(u@) == Some(3u8),
        u@.len() == 16,
{
    let mut data = namespace.bytes();
    push_slice(&mut data, name.as_bytes());
    let digest = md5_digest(&data);
    let stamped = stamp_version(&digest, 3);
    proof {
        lemma_with_version(md5_of(data@), 3);
    }
    uuid_from_canonical(stamped)
}

/// The name-based SHA-1 algorithm: digest the namespace's bytes followed
/// by the name's UTF-8 bytes, keep the first 16 digest bytes, and stamp
/// them as version 5. Identical namespace and name always yield an
/// identical value.
pub fn uuid5(namespace: &UUID, name: &str) -> (u: UUID)
    ensures
        u@ == with_version(sha1_of(name_input(namespace@, name@)).subrange(0, 16), 5),
        spec_variant(u@) == Variant::RFC4122,
        spec_version(u@) == Some(5u8),
        u@.len() == 16,
{
    let mut data = namespace.bytes();
    push_slice(&mut data, name.as_bytes());
    let digest = sha1_digest(&data);
    let head = bytes_range(&digest, 0, 16);
    let stamped = stamp_version(&head, 5);
    proof {
        lemma_with_version(sha1_of(data@).subrange(0, 16), 5);
    }
    uuid_from_canonical(stamped)
}

/// The random algorithm: 16 random bytes stamped as version 4. Every value
/// generated here reports the RFC 4122 variant and version 4.
pub fn uuid4() -> (u: UUID)
    ensures
        spec_variant(u@) == Variant::RFC4122,
        spec_version(u@) == Some(4u8),
        u@.len() == 16,
{
    proof {
        crate::model::lemma_pow256_values();
    }
    let n = random_u128();
    let b = crate::model::be_bytes_of(n, 16);
    let stamped = stamp_version(&b, 4);
    proof {
        lemma_with_version(b@, 4);
    }
    uuid_from_canonical(stamped)
}

/// A 14-bit clock sequence drawn from the random source.
pub fn random_clock_seq() -> (r: u16)
    ensures
        r < 0x4000,
{
    (random_u128() % 0x4000) as u16
}

/// A random 48-bit node with the multicast bit (the low bit of the first
/// octet) set: the fallback when no hardware address is available.
pub fn random_multicast_node() -> (r: u64)
    ensures
        r < 0x1_0000_0000_0000,
        (r / 0x100_0000_0000) % 2 == 1,
{
    let x = random_u128();
    let low = (x % 0x100_0000_0000) as u64;
    let first = ((x / 0x100_0000_0000) % 256) as u64;
    let first_odd: u64 = if first % 2 == 1 {
        first
    } else {
        first + 1
    };
    proof {
        assert(first_odd * 0x100_0000_0000 + low < 0x1_0000_0000_0000) by (nonlinear_arith)
            requires
                first_odd <= 255,
                low < 0x100_0000_0000,
        ;
        vstd::arithmetic::div_mod::lemma_fundamental_div_mod_converse(
            first_odd * 0x100_0000_0000 + low,
            0x100_0000_0000,
            first_odd as int,
            low as int,
        );
    }
    first_odd * 0x100_0000_0000 + low
}

/// The node from a list of textual hardware addresses: the first usable
/// one, or, when none is, a random node with the multicast bit set.
pub fn getnode_from(addresses: &Vec<String>) -> (r: u64)
    ensures
        r < 0x1_0000_0000_0000,
        select_spec(views_of(addresses@)) matches Some(v) ==> r == v,
        select_spec(views_of(addresses@)) is None ==> (r / 0x100_0000_0000) % 2 == 1,
{
    match crate::node::select_node(addresses) {
        Some(n) => n,
        None => random_multicast_node(),
    }
}

/// The time-based algorithm. A caller-supplied node or clock sequence is
/// validated for range; a missing clock sequence is drawn from the random
/// source, and a missing node falls back to a random node with the
/// multicast bit set (resolving a hardware address is the caller's I/O).
/// The timestamp comes from the system clock.
pub fn uuid1(node: Option<u64>, clock_seq: Option<u16>) -> (r: Result<UUID, UuidError>)
    ensures
        ({
            let node_bad = (node matches Some(n) && n >= 0x1_0000_0000_0000);
            let cs_bad = (clock_seq matches Some(c) && c >= 0x4000);
            &&& (node_bad || cs_bad) <==> r is Err
            &&& r is Err ==> r == Err::<UUID, UuidError>(UuidError::RangeError)
            &&& !(node_bad || cs_bad) ==> (r matches Ok(u) && {
                &&& spec_variant(u@) == Variant::RFC4122
                &&& spec_version(u@) == Some(1u8)
                &&& u@.len() == 16
                &&& spec_time(u@) < 0x1000_0000_0000_0000
                &&& spec_clock_seq(u@) < 0x4000
                &&& spec_node(u@) < 0x1_0000_0000_0000
                &&& (node matches Some(n) ==> spec_node(u@) == n)
                &&& (node is None ==> (spec_node(u@) / 0x100_0000_0000) % 2 == 1)
                &&& (clock_seq matches Some(c) ==> spec_clock_seq(u@) == c)
            })
        }),
{
    let node_val: u64 = match node {
        Some(n) => {
            if n >= 0x1_0000_0000_0000 {
                return Err(UuidError::RangeError);
            }
            n
        },
        None => random_multicast_node(),
    };
    let cs_val: u16 = match clock_seq {
        Some(c) => {
            if c >= 0x4000 {
                return Err(UuidError::RangeError);
            }
            c
        },
        None => random_clock_seq(),
    };
    let now = clock_now();
    let ts = gregorian_timestamp_100ns(now.0, now.1);
    Ok(uuid1_from_parts(ts, cs_val, node_val))
}

/// No system-provided generation routines are loaded; kept for interface
/// parity with the conventional module surface.
pub fn _load_system_functions() -> (r: Option<bool>)
    ensures
        r is None,
{
    None
}

/// No system-provided safe time-based generation exists here; kept for
/// interface parity with the conventional module surface.
pub fn _generate_time_safe() -> (r: Option<bool>)
    ensures
        r is None,
{
    None
}

} // verus!
