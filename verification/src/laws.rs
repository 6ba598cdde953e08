//! The library-wide laws: round trips between the representations, the
//! ordering's agreement with byte-sequence comparison, and the hash's
//! agreement with equality.

use crate::model::{
    be_digits, be_val, lemma_be_digits_of_val, lemma_be_val_append, lemma_be_val_bound,
    lemma_be_val_injective, lemma_be_val_of_digits, lemma_pow256_pos, lemma_pow256_values,
    pow256,
};
use crate::construct::pack_fields;
use crate::text::{
    all_hex, clean, hex_char, hex_digit_val, hex_of, hyphenated_of, is_brace, is_hex_digit,
    parse_hex, strip_hyphens, strip_prefix, trim_lead, trim_trail, urn_of, urn_prefix,
    uuid_prefix,
};
use crate::value::{
    spec_clock_seq_hi_variant, spec_clock_seq_low, spec_hash, spec_mixed, spec_node,
    spec_time_hi_version, spec_time_low, spec_time_mid,
};
use vstd::prelude::*;

verus! {

/// A hexadecimal digit character produced by `hex_char` reads back as the
/// digit it was produced from, and is none of the decoration characters
/// that cleanup strips.
pub proof fn lemma_hex_char_props(n: int)
    requires
        0 <= n < 16,
    ensures
        is_hex_digit(hex_char(n)),
        hex_digit_val(hex_char(n)) == n,
        48 <= hex_char(n) as u32 <= 102,
        !is_brace(hex_char(n)),
        hex_char(n) != '-',
        hex_char(n) != 'u',
        hex_char(n) != ':',
{
}

/// Every character of a hexadecimal expansion is a hexadecimal digit, and
/// none is a decoration character.
pub proof fn lemma_hex_of_digits(s: Seq<u8>)
    ensures
        hex_of(s).len() == 2 * s.len(),
        all_hex(hex_of(s)),
        forall|i: int|
            0 <= i < 2 * s.len() ==> 48 <= #[trigger] hex_of(s)[i] as u32 <= 102,
{
    assert forall|i: int| 0 <= i < hex_of(s).len() implies is_hex_digit(#[trigger] hex_of(s)[i])
        && 48 <= hex_of(s)[i] as u32 <= 102 by {
        if i % 2 == 0 {
            lemma_hex_char_props((s[i / 2] / 16) as int);
        } else {
            lemma_hex_char_props((s[i / 2] % 16) as int);
        }
    }
}

/// Removing hyphens from a sequence without hyphens changes nothing.
pub proof fn lemma_strip_hyphens_id(s: Seq<char>)
    requires
        forall|i: int| 0 <= i < s.len() ==> #[trigger] s[i] != '-',
    ensures
        strip_hyphens(s) == s,
    decreases s.len(),
{
    if s.len() > 0 {
        lemma_strip_hyphens_id(s.drop_last());
        assert(s.drop_last().push(s.last()) =~= s);
    } else {
        assert(strip_hyphens(s) =~= s);
    }
}

/// Hyphen removal distributes over concatenation.
pub proof fn lemma_strip_hyphens_append(x: Seq<char>, y: Seq<char>)
    ensures
        strip_hyphens(x + y) == strip_hyphens(x) + strip_hyphens(y),
    decreases y.len(),
{
    if y.len() == 0 {
        assert(x + y =~= x);
        assert(strip_hyphens(x) + strip_hyphens(y) =~= strip_hyphens(x));
    } else {
        let y0 = y.drop_last();
        assert((x + y).drop_last() =~= x + y0);
        lemma_strip_hyphens_append(x, y0);
        if y.last() == '-' {
            assert(strip_hyphens(y) == strip_hyphens(y0));
        } else {
            assert(strip_hyphens(x) + strip_hyphens(y0).push(y.last()) =~= (strip_hyphens(x)
                + strip_hyphens(y0)).push(y.last()));
        }
    }
}

/// Cleanup leaves a sequence of bare hexadecimal digits unchanged.
pub proof fn lemma_clean_of_hex(h: Seq<char>)
    requires
        h.len() > 0,
        forall|i: int| 0 <= i < h.len() ==> 48 <= #[trigger] h[i] as u32 <= 102,
    ensures
        clean(h) == h,
{
    // neither scheme prefix can lead it: 'u' has code 117
    if urn_prefix().len() <= h.len() {
        assert(urn_prefix()[0] == 'u');
        if h.subrange(0, 4) == urn_prefix() {
            assert(h.subrange(0, 4)[0] == h[0]);
            assert(h[0] as u32 == 'u' as u32);
        }
    }
    assert(strip_prefix(h, urn_prefix()) == h);
    if uuid_prefix().len() <= h.len() {
        assert(uuid_prefix()[0] == 'u');
        if h.subrange(0, 5) == uuid_prefix() {
            assert(h.subrange(0, 5)[0] == h[0]);
            assert(h[0] as u32 == 'u' as u32);
        }
    }
    assert(strip_prefix(h, uuid_prefix()) == h);
    // no brace leads or trails it: '{' is 123, '}' is 125
    assert(h[0] as u32 <= 102);
    assert(!is_brace(h[0])) by {
        assert('{' as u32 == 123 && '}' as u32 == 125);
    }
    assert(trim_lead(h) == h);
    assert(!is_brace(h.last())) by {
        assert('{' as u32 == 123 && '}' as u32 == 125);
    }
    assert(trim_trail(h) == h);
    // and it holds no hyphen: '-' is 45
    assert forall|i: int| 0 <= i < h.len() implies #[trigger] h[i] != '-' by {
        assert('-' as u32 == 45);
    }
    lemma_strip_hyphens_id(h);
}

/// Parsing the hexadecimal expansion of 16 bytes yields those bytes: the
/// hex round trip; cleanup leaves the bare digits alone.
pub proof fn lemma_hex_round_trip(s: Seq<u8>)
    requires
        s.len() == 16,
    ensures
        hex_of(s).len() == 32,
        all_hex(hex_of(s)),
        clean(hex_of(s)) == hex_of(s),
        parse_hex(hex_of(s)) == s,
{
    lemma_hex_of_digits(s);
    lemma_clean_of_hex(hex_of(s));
    let h = hex_of(s);
    assert forall|i: int| 0 <= i < 16 implies parse_hex(h)[i] == s[i] by {
        assert(h[2 * i] == hex_char((s[i] / 16) as int));
        assert(h[2 * i + 1] == hex_char((s[i] % 16) as int));
        lemma_hex_char_props((s[i] / 16) as int);
        lemma_hex_char_props((s[i] % 16) as int);
        assert(hex_digit_val(h[2 * i]) * 16 + hex_digit_val(h[2 * i + 1]) == (s[i] / 16) * 16 + (
        s[i] % 16));
    }
    assert(parse_hex(h) =~= s);
}

/// The decorated text forms parse back to the same value: cleanup turns the
/// hyphenated form, the URN form, and the brace-enclosed hyphenated form
/// into the bare 32 hexadecimal digits.
pub proof fn lemma_decorated_round_trip(s: Seq<u8>)
    requires
        s.len() == 16,
    ensures
        clean(hyphenated_of(s)) == hex_of(s),
        clean(urn_of(s)) == hex_of(s),
        clean(seq!['{'] + hyphenated_of(s) + seq!['}']) == hex_of(s),
{
    let h = hex_of(s);
    let hy = hyphenated_of(s);
    lemma_hex_of_digits(s);
    lemma_strip_hyphens_of_hyphenated(s);
    // the hyphenated form: no prefix leads it, no brace borders it
    assert(hy[0] == h[0] && 48 <= hy[0] as u32 <= 102);
    assert(hy.len() == 36);
    assert(hy.last() == h[31] && 48 <= hy.last() as u32 <= 102) by {
        assert(hy[35] == h.subrange(20, 32)[11]);
    }
    assert(strip_prefix(hy, urn_prefix()) == hy) by {
        if hy.subrange(0, 4) == urn_prefix() {
            assert(hy.subrange(0, 4)[0] == hy[0]);
            assert(urn_prefix()[0] == 'u' && 'u' as u32 == 117);
        }
    }
    assert(strip_prefix(hy, uuid_prefix()) == hy) by {
        if hy.subrange(0, 5) == uuid_prefix() {
            assert(hy.subrange(0, 5)[0] == hy[0]);
            assert(uuid_prefix()[0] == 'u' && 'u' as u32 == 117);
        }
    }
    assert(trim_lead(hy) == hy) by {
        assert('{' as u32 == 123 && '}' as u32 == 125);
    }
    assert(trim_trail(hy) == hy) by {
        assert('{' as u32 == 123 && '}' as u32 == 125);
    }
    // the URN form: both prefixes strip off
    let u9 = seq!['u', 'r', 'n', ':', 'u', 'u', 'i', 'd', ':'];
    assert(urn_of(s) == u9 + hy);
    let after1 = strip_prefix(u9 + hy, urn_prefix());
    assert((u9 + hy).subrange(0, 4) =~= urn_prefix());
    assert(after1 =~= seq!['u', 'u', 'i', 'd', ':'] + hy);
    let after2 = strip_prefix(after1, uuid_prefix());
    assert(after1.subrange(0, 5) =~= uuid_prefix());
    assert(after2 =~= hy);
    // the brace-enclosed form: one brace trims from each side
    let br = seq!['{'] + hy + seq!['}'];
    assert(strip_prefix(br, urn_prefix()) == br) by {
        if br.subrange(0, 4) == urn_prefix() {
            assert(br.subrange(0, 4)[0] == br[0]);
            assert(br[0] == '{' && urn_prefix()[0] == 'u');
            assert('{' as u32 == 123 && 'u' as u32 == 117);
        }
    }
    assert(strip_prefix(br, uuid_prefix()) == br) by {
        if br.subrange(0, 5) == uuid_prefix() {
            assert(br.subrange(0, 5)[0] == br[0]);
            assert(br[0] == '{' && uuid_prefix()[0] == 'u');
            assert('{' as u32 == 123 && 'u' as u32 == 117);
        }
    }
    assert(br[0] == '{');
    assert(br.drop_first() =~= hy + seq!['}']);
    assert((hy + seq!['}'])[0] == hy[0]);
    assert(!is_brace(hy[0])) by {
        assert('{' as u32 == 123 && '}' as u32 == 125);
    }
    assert(trim_lead(hy + seq!['}']) == hy + seq!['}']);
    assert(trim_lead(br) == trim_lead(br.drop_first()));
    assert(trim_lead(br) == hy + seq!['}']);
    assert((hy + seq!['}']).last() == '}');
    assert((hy + seq!['}']).drop_last() =~= hy);
    assert(trim_trail(hy + seq!['}']) == trim_trail(hy));
}

/// Hyphen removal turns the hyphenated form back into the bare digits.
proof fn lemma_strip_hyphens_of_hyphenated(s: Seq<u8>)
    requires
        s.len() == 16,
    ensures
        strip_hyphens(hyphenated_of(s)) == hex_of(s),
{
    let h = hex_of(s);
    lemma_hex_of_digits(s);
    let sep = seq!['-'];
    let g1 = h.subrange(0, 8);
    let g2 = h.subrange(8, 12);
    let g3 = h.subrange(12, 16);
    let g4 = h.subrange(16, 20);
    let g5 = h.subrange(20, 32);
    assert(strip_hyphens(sep) == Seq::<char>::empty()) by {
        assert(sep.last() == '-');
        assert(sep.drop_last() =~= Seq::<char>::empty());
        assert(strip_hyphens(Seq::<char>::empty()) == Seq::<char>::empty());
        assert(strip_hyphens(sep) == strip_hyphens(sep.drop_last()));
    }
    assert forall|i: int| 0 <= i < g1.len() implies #[trigger] g1[i] != '-' by {
        assert(g1[i] == h[i] && 48 <= h[i] as u32 <= 102 && '-' as u32 == 45);
    }
    assert forall|i: int| 0 <= i < g2.len() implies #[trigger] g2[i] != '-' by {
        assert(g2[i] == h[i + 8] && 48 <= h[i + 8] as u32 <= 102 && '-' as u32 == 45);
    }
    assert forall|i: int| 0 <= i < g3.len() implies #[trigger] g3[i] != '-' by {
        assert(g3[i] == h[i + 12] && 48 <= h[i + 12] as u32 <= 102 && '-' as u32 == 45);
    }
    assert forall|i: int| 0 <= i < g4.len() implies #[trigger] g4[i] != '-' by {
        assert(g4[i] == h[i + 16] && 48 <= h[i + 16] as u32 <= 102 && '-' as u32 == 45);
    }
    assert forall|i: int| 0 <= i < g5.len() implies #[trigger] g5[i] != '-' by {
        assert(g5[i] == h[i + 20] && 48 <= h[i + 20] as u32 <= 102 && '-' as u32 == 45);
    }
    lemma_strip_hyphens_id(g1);
    lemma_strip_hyphens_id(g2);
    lemma_strip_hyphens_id(g3);
    lemma_strip_hyphens_id(g4);
    lemma_strip_hyphens_id(g5);
    let p1 = g1 + sep;
    let p2 = p1 + g2;
    let p3 = p2 + sep;
    let p4 = p3 + g3;
    let p5 = p4 + sep;
    let p6 = p5 + g4;
    let p7 = p6 + sep;
    lemma_strip_hyphens_append(g1, sep);
    lemma_strip_hyphens_append(p1, g2);
    lemma_strip_hyphens_append(p2, sep);
    lemma_strip_hyphens_append(p3, g3);
    lemma_strip_hyphens_append(p4, sep);
    lemma_strip_hyphens_append(p5, g4);
    lemma_strip_hyphens_append(p6, sep);
    lemma_strip_hyphens_append(p7, g5);
    assert(strip_hyphens(hyphenated_of(s)) =~= g1 + g2 + g3 + g4 + g5);
    assert(g1 + g2 + g3 + g4 + g5 =~= h);
}

/// The mixed-endian transform is its own inverse: the bytes_le round trip.
pub proof fn lemma_mixed_involution(s: Seq<u8>)
    requires
        s.len() == 16,
    ensures
        spec_mixed(s).len() == 16,
        spec_mixed(spec_mixed(s)) == s,
{
    let m = spec_mixed(s);
    assert(m[0] == s[3] && m[1] == s[2] && m[2] == s[1] && m[3] == s[0]);
    assert(m[4] == s[5] && m[5] == s[4] && m[6] == s[7] && m[7] == s[6]);
    assert(forall|i: int| 8 <= i < 16 ==> m[i] == s[i]);
    assert(spec_mixed(m) =~= s);
}

/// The unsigned 128-bit integer round trip: the 16 digits of a value read
/// back as that value, and the value of 16 bytes redigits to those bytes.
pub proof fn lemma_int_round_trip(s: Seq<u8>, n: int)
    requires
        s.len() == 16,
        0 <= n < 0x1_0000_0000_0000_0000_0000_0000_0000_0000,
    ensures
        0 <= be_val(s) < 0x1_0000_0000_0000_0000_0000_0000_0000_0000,
        be_digits(be_val(s), 16) == s,
        be_val(be_digits(n, 16)) == n,
{
    lemma_pow256_values();
    lemma_be_val_bound(s);
    lemma_be_digits_of_val(s);
    lemma_be_val_of_digits(n, 16);
    lemma_pow256_pos(16);
    vstd::arithmetic::div_mod::lemma_small_mod(n as nat, pow256(16) as nat);
}

/// The fields round trip, packing direction: each canonical field of a
/// packed tuple is the component it was packed from.
pub proof fn lemma_fields_round_trip(f: (u32, u16, u16, u8, u8, u64))
    requires
        f.5 < 0x1_0000_0000_0000,
    ensures
        pack_fields(f).len() == 16,
        spec_time_low(pack_fields(f)) == f.0,
        spec_time_mid(pack_fields(f)) == f.1,
        spec_time_hi_version(pack_fields(f)) == f.2,
        spec_clock_seq_hi_variant(pack_fields(f)) == f.3,
        spec_clock_seq_low(pack_fields(f)) == f.4,
        spec_node(pack_fields(f)) == f.5,
{
    lemma_pow256_values();
    let p = pack_fields(f);
    let d0 = be_digits(f.0 as int, 4);
    let d1 = be_digits(f.1 as int, 2);
    let d2 = be_digits(f.2 as int, 2);
    let d5 = be_digits(f.5 as int, 6);
    assert(p.subrange(0, 4) =~= d0);
    assert(p.subrange(4, 6) =~= d1);
    assert(p.subrange(6, 8) =~= d2);
    assert(p.subrange(10, 16) =~= d5);
    lemma_be_val_of_digits(f.0 as int, 4);
    lemma_be_val_of_digits(f.1 as int, 2);
    lemma_be_val_of_digits(f.2 as int, 2);
    lemma_be_val_of_digits(f.5 as int, 6);
    vstd::arithmetic::div_mod::lemma_small_mod(f.0 as nat, pow256(4) as nat);
    vstd::arithmetic::div_mod::lemma_small_mod(f.1 as nat, pow256(2) as nat);
    vstd::arithmetic::div_mod::lemma_small_mod(f.2 as nat, pow256(2) as nat);
    vstd::arithmetic::div_mod::lemma_small_mod(f.5 as nat, pow256(6) as nat);
    assert(p[8] == f.3);
    assert(p[9] == f.4);
}

/// The fields round trip, unpacking direction: repacking the extracted
/// fields of any 16 canonical bytes yields those bytes.
pub proof fn lemma_fields_repack(s: Seq<u8>)
    requires
        s.len() == 16,
    ensures
        spec_time_low(s) < 0x1_0000_0000,
        spec_time_mid(s) < 0x1_0000,
        spec_time_hi_version(s) < 0x1_0000,
        spec_node(s) < 0x1_0000_0000_0000,
        pack_fields(
            (
                spec_time_low(s) as u32,
                spec_time_mid(s) as u16,
                spec_time_hi_version(s) as u16,
                spec_clock_seq_hi_variant(s) as u8,
                spec_clock_seq_low(s) as u8,
                spec_node(s) as u64,
            ),
        ) == s,
{
    lemma_pow256_values();
    lemma_be_val_bound(s.subrange(0, 4));
    lemma_be_val_bound(s.subrange(4, 6));
    lemma_be_val_bound(s.subrange(6, 8));
    lemma_be_val_bound(s.subrange(10, 16));
    lemma_be_digits_of_val(s.subrange(0, 4));
    lemma_be_digits_of_val(s.subrange(4, 6));
    lemma_be_digits_of_val(s.subrange(6, 8));
    lemma_be_digits_of_val(s.subrange(10, 16));
    let f = (
        spec_time_low(s) as u32,
        spec_time_mid(s) as u16,
        spec_time_hi_version(s) as u16,
        spec_clock_seq_hi_variant(s) as u8,
        spec_clock_seq_low(s) as u8,
        spec_node(s) as u64,
    );
    assert(pack_fields(f) =~= s);
}

/// Lexicographic comparison of equal-length byte sequences: some position
/// holds a smaller byte after a common prefix.
pub open spec fn lex_lt(a: Seq<u8>, b: Seq<u8>) -> bool {
    exists|i: int|
        0 <= i < a.len() && #[trigger] a.subrange(0, i) == b.subrange(0, i) && a[i] < b[i]
}

/// The value of a nonempty sequence splits into its head scaled by the
/// weight of the tail, plus the tail.
proof fn lemma_be_val_head(s: Seq<u8>)
    requires
        s.len() > 0,
    ensures
        be_val(s) == s[0] * pow256((s.len() - 1) as nat) + be_val(s.drop_first()),
{
    let h = seq![s[0]];
    assert(h.drop_last() =~= Seq::<u8>::empty());
    assert(be_val(Seq::<u8>::empty()) == 0);
    assert(h.last() == s[0]);
    assert(be_val(h) == be_val(h.drop_last()) * 256 + h.last());
    assert(be_val(h) == s[0]);
    assert(s =~= h + s.drop_first());
    lemma_be_val_append(h, s.drop_first());
}

/// The order by 128-bit integer value agrees with lexicographic comparison
/// of the canonical big-endian bytes.
pub proof fn lemma_order_matches_byte_order(a: Seq<u8>, b: Seq<u8>)
    requires
        a.len() == b.len(),
    ensures
        lex_lt(a, b) <==> be_val(a) < be_val(b),
    decreases a.len(),
{
    if a.len() == 0 {
        return ;
    }
    let k = (a.len() - 1) as nat;
    lemma_be_val_head(a);
    lemma_be_val_head(b);
    lemma_be_val_bound(a.drop_first());
    lemma_be_val_bound(b.drop_first());
    lemma_pow256_pos(k);
    if a[0] < b[0] {
        assert(a.subrange(0, 0) =~= b.subrange(0, 0));
        assert(lex_lt(a, b));
        assert(a[0] * pow256(k) + (pow256(k) - 1) < b[0] * pow256(k)) by (nonlinear_arith)
            requires
                a[0] < b[0],
                pow256(k) >= 1,
        ;
        assert(be_val(a) < be_val(b));
    } else if a[0] > b[0] {
        assert(b[0] * pow256(k) + (pow256(k) - 1) < a[0] * pow256(k)) by (nonlinear_arith)
            requires
                b[0] < a[0],
                pow256(k) >= 1,
        ;
        assert(!(be_val(a) < be_val(b)));
        if lex_lt(a, b) {
            let i = choose|i: int|
                0 <= i < a.len() && #[trigger] a.subrange(0, i) == b.subrange(0, i) && a[i] < b[i];
            if i == 0 {
                assert(a[0] < b[0]);
            } else {
                assert(a.subrange(0, i)[0] == a[0] && b.subrange(0, i)[0] == b[0]);
            }
        }
    } else {
        let a1 = a.drop_first();
        let b1 = b.drop_first();
        lemma_order_matches_byte_order(a1, b1);
        assert(be_val(a) < be_val(b) <==> be_val(a1) < be_val(b1));
        if lex_lt(a1, b1) {
            let i = choose|i: int|
                0 <= i < a1.len() && #[trigger] a1.subrange(0, i) == b1.subrange(0, i) && a1[i]
                    < b1[i];
            assert forall|m: int|
                0 <= m < i + 1 implies #[trigger] a.subrange(0, i + 1)[m] == b.subrange(
                0,
                i + 1,
            )[m] by {
                assert(a.subrange(0, i + 1)[m] == a[m]);
                assert(b.subrange(0, i + 1)[m] == b[m]);
                if m > 0 {
                    assert(a1.subrange(0, i)[m - 1] == b1.subrange(0, i)[m - 1]);
                    assert(a1.subrange(0, i)[m - 1] == a1[m - 1]);
                    assert(b1.subrange(0, i)[m - 1] == b1[m - 1]);
                    assert(a1[m - 1] == a[m]);
                    assert(b1[m - 1] == b[m]);
                }
            }
            assert(a.subrange(0, i + 1) =~= b.subrange(0, i + 1));
            assert(a[i + 1] == a1[i] && b[i + 1] == b1[i]);
            assert(lex_lt(a, b));
        }
        if lex_lt(a, b) {
            let i = choose|i: int|
                0 <= i < a.len() && #[trigger] a.subrange(0, i) == b.subrange(0, i) && a[i] < b[i];
            if i == 0 {
                assert(a[0] < b[0]);
            } else {
                assert forall|m: int|
                    0 <= m < i - 1 implies #[trigger] a1.subrange(0, i - 1)[m] == b1.subrange(
                    0,
                    i - 1,
                )[m] by {
                    assert(a.subrange(0, i)[m + 1] == b.subrange(0, i)[m + 1]);
                    assert(a.subrange(0, i)[m + 1] == a[m + 1]);
                    assert(b.subrange(0, i)[m + 1] == b[m + 1]);
                    assert(a1.subrange(0, i - 1)[m] == a1[m]);
                    assert(b1.subrange(0, i - 1)[m] == b1[m]);
                    assert(a1[m] == a[m + 1]);
                    assert(b1[m] == b[m + 1]);
                }
                assert(a1.subrange(0, i - 1) =~= b1.subrange(0, i - 1));
                assert(a1[i - 1] == a[i] && b1[i - 1] == b[i]);
                assert(lex_lt(a1, b1));
            }
        }
    }
}

/// The ordering is a strict total order consistent with equality: exactly
/// one of `<`, `==`, `>` holds of any two values, `<` is transitive, and
/// equal integer values mean equal byte sequences.
pub proof fn lemma_order_strict_total(a: Seq<u8>, b: Seq<u8>, c: Seq<u8>)
    requires
        a.len() == 16,
        b.len() == 16,
        c.len() == 16,
    ensures
        be_val(a) < be_val(b) || be_val(b) < be_val(a) || a == b,
        !(be_val(a) < be_val(b) && be_val(b) < be_val(a)),
        be_val(a) < be_val(b) && be_val(b) < be_val(c) ==> be_val(a) < be_val(c),
        be_val(a) == be_val(b) <==> a == b,
{
    if be_val(a) == be_val(b) {
        lemma_be_val_injective(a, b);
    }
}

/// Equal values hash equally: the hash is a function of the canonical
/// bytes alone.
pub proof fn lemma_hash_respects_eq(a: Seq<u8>, b: Seq<u8>)
    requires
        a == b,
    ensures
        spec_hash(a) == spec_hash(b),
{
}

} // verus!
