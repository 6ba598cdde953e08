//! Node acquisition: parsing textual hardware addresses handed in by the
//! caller and selecting the first usable one. Reading the interface files
//! themselves is I/O and stays with the caller.

use crate::model::{lemma_pow256_mono, lemma_pow256_values, pow256};
use crate::text::{hex_digit, hex_digit_val, is_hex_digit, str_chars, v_index};
use vstd::prelude::*;

verus! {

/// A textual hardware address: six hexadecimal byte pairs separated by
/// colons, as `sysfs` publishes them.
pub open spec fn is_mac(s: Seq<char>) -> bool {
    &&& s.len() == 17
    &&& forall|k: int|
        0 <= k < 6 ==> is_hex_digit(#[trigger] s[3 * k]) && is_hex_digit(s[3 * k + 1])
    &&& forall|k: int| 0 <= k < 5 ==> #[trigger] s[3 * k + 2] == ':'
}

/// Byte `k` of a textual hardware address.
pub open spec fn mac_byte(s: Seq<char>, k: int) -> int {
    hex_digit_val(s[3 * k]) * 16 + hex_digit_val(s[3 * k + 1])
}

/// The first `k` bytes of a textual hardware address as a big-endian value.
pub open spec fn mac_val_prefix(s: Seq<char>, k: int) -> int
    decreases k,
{
    if k <= 0 {
        0
    } else {
        mac_val_prefix(s, k - 1) * 256 + mac_byte(s, k - 1)
    }
}

/// The 48-bit value of a textual hardware address.
pub open spec fn mac_val(s: Seq<char>) -> int {
    mac_val_prefix(s, 6)
}

/// The numeric value of a textual hardware address, if it is one.
pub fn parse_mac(s: &str) -> (r: Option<u64>)
    ensures
        r is Some <==> is_mac(s@),
        r is Some ==> r.unwrap() == mac_val(s@) && r.unwrap() < 0x1_0000_0000_0000,
{
    let v = str_chars(s);
    if v.len() != 17 {
        return None;
    }
    let mut val: u64 = 0;
    let mut k: usize = 0;
    while k < 6
        invariant
            k <= 6,
            v@.len() == 17,
            v@ == s@,
            forall|j: int|
                0 <= j < k ==> is_hex_digit(#[trigger] v@[3 * j]) && is_hex_digit(v@[3 * j + 1]),
            forall|j: int| 0 <= j < k && j < 5 ==> #[trigger] v@[3 * j + 2] == ':',
            val == mac_val_prefix(v@, k as int),
            val < pow256(k as nat),
        decreases 6 - k,
    {
        proof {
            lemma_pow256_values();
            lemma_pow256_mono(k as nat, 5);
        }
        let c1 = hex_digit(*v_index(&v, 3 * k));
        let c2 = hex_digit(*v_index(&v, 3 * k + 1));
        match (c1, c2) {
            (Some(hi), Some(lo)) => {
                val = val * 256 + (hi as u64) * 16 + (lo as u64);
            },
            _ => {
                return None;
            },
        }
        if k < 5 {
            if *v_index(&v, 3 * k + 2) != ':' {
                return None;
            }
        }
        k += 1;
    }
    proof {
        lemma_pow256_values();
    }
    Some(val)
}

/// The value of the first entry that is a hardware address other than the
/// all-zero address; entries that do not parse are passed over.
pub open spec fn select_spec(l: Seq<Seq<char>>) -> Option<int>
    decreases l.len(),
{
    if l.len() == 0 {
        None
    } else if is_mac(l[0]) && mac_val(l[0]) != 0 {
        Some(mac_val(l[0]))
    } else {
        select_spec(l.drop_first())
    }
}

/// The character sequences of a sequence of strings.
pub open spec fn views_of(l: Seq<String>) -> Seq<Seq<char>> {
    l.map_values(|s: String| s@)
}

/// Selects the node from a list of textual hardware addresses: the value
/// of the first entry that parses and is not all-zero. `None` is the
/// non-fatal resolution failure; the caller falls back to a random
/// multicast-bit node.
pub fn select_node(addresses: &Vec<String>) -> (r: Option<u64>)
    ensures
        r is Some ==> Some(r.unwrap() as int) == select_spec(views_of(addresses@)) && r.unwrap()
            < 0x1_0000_0000_0000,
        r is None ==> select_spec(views_of(addresses@)) is None,
{
    let ghost all = views_of(addresses@);
    let mut i: usize = 0;
    proof {
        assert(all.skip(0) =~= all);
    }
    while i < addresses.len()
        invariant
            i <= addresses@.len(),
            all == views_of(addresses@),
            all.len() == addresses@.len(),
            select_spec(all) == select_spec(all.skip(i as int)),
        decreases addresses@.len() - i,
    {
        let a = addr_at(addresses, i);
        proof {
            assert(all.skip(i as int)[0] == all[i as int]);
            assert(all[i as int] == addresses@[i as int]@);
        }
        match parse_mac(a.as_str()) {
            Some(vl) => {
                if vl != 0 {
                    return Some(vl);
                }
            },
            None => {},
        }
        proof {
            assert(all.skip(i as int).drop_first() =~= all.skip((i + 1) as int));
        }
        i += 1;
    }
    proof {
        assert(all.skip(addresses@.len() as int) =~= Seq::<Seq<char>>::empty());
    }
    None
}

/// Reference to element `i` of `v`.
fn addr_at(v: &Vec<String>, i: usize) -> (r: &String)
    requires
        i < v@.len(),
    ensures
        *r == v@[i as int],
{
    &v[i]
}

} // verus!
