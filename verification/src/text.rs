//! Textual representations: cleanup of decorated input strings, hexadecimal
//! parsing, and the hex / hyphenated / URN output forms.

use crate::value::UUID;
use vstd::prelude::*;
use vstd::string::StrSliceExecFns;

verus! {

/// ASCII hexadecimal digit, either case (codes 48-57, 97-102, 65-70).
pub open spec fn is_hex_digit(c: char) -> bool {
    (48 <= c as u32 && c as u32 <= 57) || (97 <= c as u32 && c as u32 <= 102) || (65 <= c as u32
        && c as u32 <= 70)
}

/// Numeric value of a hexadecimal digit.
pub open spec fn hex_digit_val(c: char) -> int {
    if 48 <= c as u32 && c as u32 <= 57 {
        c as u32 - 48
    } else if 97 <= c as u32 {
        c as u32 - 87
    } else {
        c as u32 - 55
    }
}

/// The lowercase hexadecimal digit for `n` in `0 .. 16`.
pub open spec fn hex_char(n: int) -> char {
    if n < 10 {
        ((48 + n) as u8) as char
    } else {
        ((87 + n) as u8) as char
    }
}

/// Lowercase hexadecimal expansion of a byte sequence, two digits per byte.
pub open spec fn hex_of(s: Seq<u8>) -> Seq<char> {
    Seq::new(
        s.len() * 2,
        |i: int|
            if i % 2 == 0 {
                hex_char((s[i / 2] / 16) as int)
            } else {
                hex_char((s[i / 2] % 16) as int)
            },
    )
}

/// Bytes denoted by a sequence of hexadecimal digits, two digits per byte.
pub open spec fn parse_hex(s: Seq<char>) -> Seq<u8> {
    Seq::new(
        s.len() / 2,
        |i: int| (hex_digit_val(s[2 * i]) * 16 + hex_digit_val(s[2 * i + 1])) as u8,
    )
}

pub open spec fn all_hex(s: Seq<char>) -> bool {
    forall|i: int| 0 <= i < s.len() ==> is_hex_digit(#[trigger] s[i])
}

pub open spec fn urn_prefix() -> Seq<char> {
    seq!['u', 'r', 'n', ':']
}

pub open spec fn uuid_prefix() -> Seq<char> {
    seq!['u', 'u', 'i', 'd', ':']
}

/// `s` without the leading occurrence of `p`, if `p` leads it.
pub open spec fn strip_prefix(s: Seq<char>, p: Seq<char>) -> Seq<char> {
    if p.len() <= s.len() && s.subrange(0, p.len() as int) == p {
        s.skip(p.len() as int)
    } else {
        s
    }
}

pub open spec fn is_brace(c: char) -> bool {
    c == '{' || c == '}'
}

/// `s` without its leading brace characters.
pub open spec fn trim_lead(s: Seq<char>) -> Seq<char>
    decreases s.len(),
{
    if s.len() > 0 && is_brace(s[0]) {
        trim_lead(s.drop_first())
    } else {
        s
    }
}

/// `s` without its trailing brace characters.
pub open spec fn trim_trail(s: Seq<char>) -> Seq<char>
    decreases s.len(),
{
    if s.len() > 0 && is_brace(s.last()) {
        trim_trail(s.drop_last())
    } else {
        s
    }
}

/// `s` with every hyphen removed.
pub open spec fn strip_hyphens(s: Seq<char>) -> Seq<char>
    decreases s.len(),
{
    if s.len() == 0 {
        Seq::empty()
    } else if s.last() == '-' {
        strip_hyphens(s.drop_last())
    } else {
        strip_hyphens(s.drop_last()).push(s.last())
    }
}

/// Input cleanup: strip the optional `urn:` and `uuid:` prefixes, trim
/// enclosing braces, and remove hyphens.
pub open spec fn clean(s: Seq<char>) -> Seq<char> {
    strip_hyphens(trim_trail(trim_lead(strip_prefix(strip_prefix(s, urn_prefix()), uuid_prefix()))))
}

/// Canonical hyphenated display form: hex digits grouped 8-4-4-4-12.
pub open spec fn hyphenated_of(s: Seq<u8>) -> Seq<char> {
    let h = hex_of(s);
    h.subrange(0, 8) + seq!['-'] + h.subrange(8, 12) + seq!['-'] + h.subrange(12, 16) + seq!['-']
        + h.subrange(16, 20) + seq!['-'] + h.subrange(20, 32)
}

/// URN form: `urn:uuid:` followed by the hyphenated form.
pub open spec fn urn_of(s: Seq<u8>) -> Seq<char> {
    seq!['u', 'r', 'n', ':', 'u', 'u', 'i', 'd', ':'] + hyphenated_of(s)
}

/// Debugging form: the hyphenated form wrapped as a constructor call.
pub open spec fn repr_of(s: Seq<u8>) -> Seq<char> {
    seq!['U', 'U', 'I', 'D', '(', '\''] + hyphenated_of(s) + seq!['\'', ')']
}

/// Relies on `String`'s `FromIterator<char>` implementation: collecting
/// characters yields the string of exactly those characters, in order.
#[verifier::external_body]
fn chars_to_string(v: &Vec<char>) -> (r: String)
    ensures
        r@ == v@,
{
    v.iter().collect()
}

/// The characters of `s`, as a vector.
pub fn str_chars(s: &str) -> (r: Vec<char>)
    ensures
        r@ == s@,
{
    let n = s.unicode_len();
    let mut out: Vec<char> = Vec::new();
    let mut i: usize = 0;
    while i < n
        invariant
            i <= n,
            n == s@.len(),
            out@ == s@.take(i as int),
        decreases n - i,
    {
        out.push(s.get_char(i));
        proof {
            assert(s@.take((i + 1) as int) =~= s@.take(i as int).push(s@[i as int]));
        }
        i += 1;
    }
    proof {
        assert(s@.take(n as int) =~= s@);
    }
    out
}

/// The numeric value of a hexadecimal digit character, if it is one.
pub fn hex_digit(c: char) -> (r: Option<u8>)
    ensures
        r is Some <==> is_hex_digit(c),
        r is Some ==> r.unwrap() == hex_digit_val(c),
{
    let n = c as u32;
    if 48 <= n && n <= 57 {
        Some((n - 48) as u8)
    } else if 97 <= n && n <= 102 {
        Some((n - 87) as u8)
    } else if 65 <= n && n <= 70 {
        Some((n - 55) as u8)
    } else {
        None
    }
}

/// The lowercase hexadecimal digit character for `n`.
pub fn hex_digit_char(n: u8) -> (r: char)
    requires
        n < 16,
    ensures
        r == hex_char(n as int),
{
    if n < 10 {
        (48 + n) as char
    } else {
        (87 + n) as char
    }
}

/// Cleanup as performed on construction input, character level.
pub fn clean_chars(s: &str) -> (r: Vec<char>)
    ensures
        r@ == clean(s@),
{
    let v = str_chars(s);
    let len = v.len();
    // strip the optional schemes
    let mut start: usize = 0;
    if len >= 4 && *v_index(&v, 0) == 'u' && *v_index(&v, 1) == 'r' && *v_index(&v, 2) == 'n'
        && *v_index(&v, 3) == ':' {
        proof {
            assert(v@.subrange(0, 4) =~= urn_prefix());
        }
        start = 4;
    } else {
        proof {
            if v@.len() >= 4 {
                assert(v@.subrange(0, 4)[0] == v@[0]);
                assert(v@.subrange(0, 4)[1] == v@[1]);
                assert(v@.subrange(0, 4)[2] == v@[2]);
                assert(v@.subrange(0, 4)[3] == v@[3]);
                assert(urn_prefix()[0] == 'u' && urn_prefix()[1] == 'r' && urn_prefix()[2] == 'n'
                    && urn_prefix()[3] == ':');
            }
            assert(strip_prefix(v@, urn_prefix()) == v@);
        }
    }
    let ghost after_urn = strip_prefix(v@, urn_prefix());
    proof {
        assert(after_urn =~= v@.skip(start as int));
    }
    if len - start >= 5 && *v_index(&v, start) == 'u' && *v_index(&v, start + 1) == 'u' && *v_index(
        &v,
        start + 2,
    ) == 'i' && *v_index(&v, start + 3) == 'd' && *v_index(&v, start + 4) == ':' {
        proof {
            assert(after_urn.subrange(0, 5) =~= uuid_prefix());
        }
        start = start + 5;
    } else {
        proof {
            if after_urn.len() >= 5 {
                assert(after_urn.subrange(0, 5)[0] == after_urn[0]);
                assert(after_urn.subrange(0, 5)[1] == after_urn[1]);
                assert(after_urn.subrange(0, 5)[2] == after_urn[2]);
                assert(after_urn.subrange(0, 5)[3] == after_urn[3]);
                assert(after_urn.subrange(0, 5)[4] == after_urn[4]);
                assert(uuid_prefix()[0] == 'u' && uuid_prefix()[1] == 'u' && uuid_prefix()[2]
                    == 'i' && uuid_prefix()[3] == 'd' && uuid_prefix()[4] == ':');
                assert(forall|m: int| 0 <= m < after_urn.len() ==> after_urn[m] == v@[m + start]);
            }
            assert(strip_prefix(after_urn, uuid_prefix()) == after_urn);
        }
    }
    let ghost stripped = strip_prefix(after_urn, uuid_prefix());
    proof {
        assert(stripped =~= v@.skip(start as int));
    }
    // trim braces from both ends
    let mut i: usize = start;
    while i < len && (*v_index(&v, i) == '{' || *v_index(&v, i) == '}')
        invariant
            start <= i <= len,
            len == v@.len(),
            trim_lead(stripped) == trim_lead(v@.skip(i as int)),
        decreases len - i,
    {
        proof {
            assert(v@.skip(i as int).drop_first() =~= v@.skip((i + 1) as int));
        }
        i += 1;
    }
    proof {
        assert(trim_lead(stripped) =~= v@.subrange(i as int, len as int));
    }
    let mut j: usize = len;
    while j > i && (*v_index(&v, j - 1) == '{' || *v_index(&v, j - 1) == '}')
        invariant
            i <= j <= len,
            len == v@.len(),
            trim_trail(v@.subrange(i as int, len as int)) == trim_trail(
                v@.subrange(i as int, j as int),
            ),
        decreases j,
    {
        proof {
            assert(v@.subrange(i as int, j as int).drop_last() =~= v@.subrange(
                i as int,
                (j - 1) as int,
            ));
        }
        j -= 1;
    }
    proof {
        assert(trim_trail(trim_lead(stripped)) == v@.subrange(i as int, j as int));
    }
    // remove hyphens
    let mut out: Vec<char> = Vec::new();
    let mut k: usize = i;
    proof {
        assert(v@.subrange(i as int, i as int) =~= Seq::<char>::empty());
    }
    while k < j
        invariant
            i <= k <= j <= len,
            len == v@.len(),
            out@ == strip_hyphens(v@.subrange(i as int, k as int)),
        decreases j - k,
    {
        proof {
            assert(v@.subrange(i as int, (k + 1) as int).drop_last() =~= v@.subrange(
                i as int,
                k as int,
            ));
        }
        let c = *v_index(&v, k);
        if c != '-' {
            out.push(c);
        }
        k += 1;
    }
    out
}

/// Reference to element `i` of `v`.
pub(crate) fn v_index(v: &Vec<char>, i: usize) -> (r: &char)
    requires
        i < v@.len(),
    ensures
        *r == v@[i as int],
{
    &v[i]
}

/// Input cleanup on a string: strip the optional `urn:` and `uuid:`
/// prefixes, trim enclosing braces, and remove hyphens.
pub fn clean_uuid_string(s: &str) -> (r: String)
    ensures
        r@ == clean(s@),
{
    let v = clean_chars(s);
    chars_to_string(&v)
}

/// Bytes denoted by exactly 32 hexadecimal digit characters.
pub fn hex_chars_to_bytes(v: &Vec<char>) -> (r: Option<Vec<u8>>)
    ensures
        r is Some <==> (v@.len() == 32 && all_hex(v@)),
        r is Some ==> r.unwrap()@ == parse_hex(v@),
{
    if v.len() != 32 {
        return None;
    }
    let mut out: Vec<u8> = Vec::new();
    let mut i: usize = 0;
    while i < 16
        invariant
            i <= 16,
            v@.len() == 32,
            out@.len() == i,
            forall|j: int|
                0 <= j < i ==> is_hex_digit(#[trigger] v@[2 * j]) && is_hex_digit(v@[2 * j + 1]),
            forall|j: int| 0 <= j < i ==> out@[j] == parse_hex(v@)[j],
        decreases 16 - i,
    {
        let c1 = hex_digit(*v_index(v, 2 * i));
        let c2 = hex_digit(*v_index(v, 2 * i + 1));
        match (c1, c2) {
            (Some(hi), Some(lo)) => {
                out.push(hi * 16 + lo);
            },
            _ => {
                return None;
            },
        }
        i += 1;
    }
    proof {
        assert forall|idx: int| 0 <= idx < 32 implies is_hex_digit(#[trigger] v@[idx]) by {
            let j = idx / 2;
            assert(0 <= j < 16);
            assert(is_hex_digit(v@[2 * j]) && is_hex_digit(v@[2 * j + 1]));
            assert(idx == 2 * j || idx == 2 * j + 1);
        }
        assert(out@ =~= parse_hex(v@));
    }
    Some(out)
}

/// Lowercase hexadecimal digits of a byte vector.
pub fn bytes_to_hex_chars(v: &Vec<u8>) -> (r: Vec<char>)
    ensures
        r@ == hex_of(v@),
{
    let mut out: Vec<char> = Vec::new();
    let mut i: usize = 0;
    while i < v.len()
        invariant
            i <= v@.len(),
            out@.len() == 2 * i,
            forall|j: int| 0 <= j < 2 * i ==> out@[j] == hex_of(v@)[j],
        decreases v@.len() - i,
    {
        let b = *vb_index(v, i);
        out.push(hex_digit_char(b / 16));
        out.push(hex_digit_char(b % 16));
        i += 1;
    }
    proof {
        assert(out@ =~= hex_of(v@));
    }
    out
}

/// Reference to element `i` of `v`.
fn vb_index(v: &Vec<u8>, i: usize) -> (r: &u8)
    requires
        i < v@.len(),
    ensures
        *r == v@[i as int],
{
    &v[i]
}

/// Append characters `from .. to` of `src` to `out`.
fn push_chars_range(out: &mut Vec<char>, src: &Vec<char>, from: usize, to: usize)
    requires
        from <= to <= src@.len(),
    ensures
        final (out)@ == old(out)@ + src@.subrange(from as int, to as int),
{
    let mut j: usize = from;
    proof {
        assert(old(out)@ + src@.subrange(from as int, from as int) =~= old(out)@);
    }
    while j < to
        invariant
            from <= j <= to <= src@.len(),
            out@ == old(out)@ + src@.subrange(from as int, j as int),
        decreases to - j,
    {
        proof {
            assert(old(out)@ + src@.subrange(from as int, (j + 1) as int) =~= (old(out)@
                + src@.subrange(from as int, j as int)).push(src@[j as int]));
        }
        let c = *v_index(src, j);
        out.push(c);
        j += 1;
    }
}

impl UUID {
    /// The 32 lowercase hexadecimal digits, no separators.
    pub fn hex(&self) -> (r: String)
        ensures
            r@ == hex_of(self@),
    {
        let b = self.bytes();
        let hc = bytes_to_hex_chars(&b);
        chars_to_string(&hc)
    }

    /// The canonical 8-4-4-4-12 hyphenated display form.
    pub fn hyphenated(&self) -> (r: String)
        ensures
            r@ == hyphenated_of(self@),
    {
        let b = self.bytes();
        let hc = bytes_to_hex_chars(&b);
        let mut out: Vec<char> = Vec::new();
        push_chars_range(&mut out, &hc, 0, 8);
        out.push('-');
        push_chars_range(&mut out, &hc, 8, 12);
        out.push('-');
        push_chars_range(&mut out, &hc, 12, 16);
        out.push('-');
        push_chars_range(&mut out, &hc, 16, 20);
        out.push('-');
        push_chars_range(&mut out, &hc, 20, 32);
        proof {
            assert(out@ =~= hyphenated_of(self@));
        }
        chars_to_string(&out)
    }

    /// The URN form: `urn:uuid:` followed by the hyphenated form.
    pub fn urn(&self) -> (r: String)
        ensures
            r@ == urn_of(self@),
    {
        let b = self.bytes();
        let hc = bytes_to_hex_chars(&b);
        let mut out: Vec<char> = Vec::new();
        out.push('u');
        out.push('r');
        out.push('n');
        out.push(':');
        out.push('u');
        out.push('u');
        out.push('i');
        out.push('d');
        out.push(':');
        push_chars_range(&mut out, &hc, 0, 8);
        out.push('-');
        push_chars_range(&mut out, &hc, 8, 12);
        out.push('-');
        push_chars_range(&mut out, &hc, 12, 16);
        out.push('-');
        push_chars_range(&mut out, &hc, 16, 20);
        out.push('-');
        push_chars_range(&mut out, &hc, 20, 32);
        proof {
            assert(out@ =~= urn_of(self@));
        }
        chars_to_string(&out)
    }

    /// The debugging form: the hyphenated form wrapped as a constructor
    /// call.
    pub fn repr(&self) -> (r: String)
        ensures
            r@ == repr_of(self@),
    {
        let b = self.bytes();
        let hc = bytes_to_hex_chars(&b);
        let mut out: Vec<char> = Vec::new();
        out.push('U');
        out.push('U');
        out.push('I');
        out.push('D');
        out.push('(');
        out.push('\'');
        push_chars_range(&mut out, &hc, 0, 8);
        out.push('-');
        push_chars_range(&mut out, &hc, 8, 12);
        out.push('-');
        push_chars_range(&mut out, &hc, 12, 16);
        out.push('-');
        push_chars_range(&mut out, &hc, 16, 20);
        out.push('-');
        push_chars_range(&mut out, &hc, 20, 32);
        out.push('\'');
        out.push(')');
        proof {
            assert(out@ =~= repr_of(self@));
        }
        chars_to_string(&out)
    }
}

} // verus!
