//! Text forms of link and network addresses: MAC addresses as six two-digit
//! hex bytes, IPv4 addresses in dotted decimal, IPv6 addresses as eight
//! four-digit hex groups; and their readers.

use vstd::prelude::*;
use vstd::string::*;

use crate::inspector::{hex_digit, hex_digit_exec};
use crate::text::{chars_of, first_index_of, lemma_first_index_at, lemma_first_index_none, split_char, split_on};

verus! {

/// Lower-case hex digit of `n` (below 16).
pub open spec fn hexc(n: int) -> char {
    "0123456789abcdef"@[n]
}

/// Decimal digit of `n` (below 10).
pub open spec fn digc(n: int) -> char {
    "0123456789"@[n]
}

/// Value of a decimal digit.
pub open spec fn dec_digit(c: char) -> Option<nat> {
    if '0' <= c && c <= '9' {
        Some((c as nat - '0' as nat) as nat)
    } else {
        None
    }
}

pub proof fn lemma_hexc(n: int)
    requires
        0 <= n < 16,
    ensures
        hex_digit(hexc(n)) == Some(n as nat),
        hexc(n) != ':' && hexc(n) != '.',
{
    reveal_strlit("0123456789abcdef");
    let h = "0123456789abcdef"@;
    assert(h[0] == '0' && h[1] == '1' && h[2] == '2' && h[3] == '3' && h[4] == '4' && h[5] == '5');
    assert(h[6] == '6' && h[7] == '7' && h[8] == '8' && h[9] == '9' && h[10] == 'a' && h[11] == 'b');
    assert(h[12] == 'c' && h[13] == 'd' && h[14] == 'e' && h[15] == 'f');
}

pub proof fn lemma_digc(n: int)
    requires
        0 <= n < 10,
    ensures
        dec_digit(digc(n)) == Some(n as nat),
        digc(n) != '.',
{
    reveal_strlit("0123456789");
    let h = "0123456789"@;
    assert(h[0] == '0' && h[1] == '1' && h[2] == '2' && h[3] == '3' && h[4] == '4' && h[5] == '5');
    assert(h[6] == '6' && h[7] == '7' && h[8] == '8' && h[9] == '9');
}

/// Appends the hex digit of `n`.
fn push_hexc(r: &mut String, n: u8)
    requires
        n < 16,
    ensures
        final(r)@ == old(r)@.push(hexc(n as int)),
{
    let h = "0123456789abcdef";
    proof {
        reveal_strlit("0123456789abcdef");
    }
    let d = h.substring_char(n as usize, n as usize + 1);
    assert(d@ =~= seq![hexc(n as int)]);
    r.append(d);
    assert(r@ =~= old(r)@.push(hexc(n as int)));
}

/// Appends the decimal digit of `n`.
fn push_digc(r: &mut String, n: u8)
    requires
        n < 10,
    ensures
        final(r)@ == old(r)@.push(digc(n as int)),
{
    let h = "0123456789";
    proof {
        reveal_strlit("0123456789");
    }
    let d = h.substring_char(n as usize, n as usize + 1);
    assert(d@ =~= seq![digc(n as int)]);
    r.append(d);
    assert(r@ =~= old(r)@.push(digc(n as int)));
}

/// Appends one character given as a one-character literal.
fn push_sep(r: &mut String, sep: &str, c: Ghost<char>)
    requires
        sep@ == seq![c@],
    ensures
        final(r)@ == old(r)@.push(c@),
{
    r.append(sep);
    assert(r@ =~= old(r)@.push(c@));
}

/// The text of a MAC address: `aa:bb:cc:dd:ee:ff`.
pub open spec fn mac_text(b: Seq<u8>) -> Seq<char> {
    Seq::new(
        17,
        |i: int|
            if i % 3 == 2 {
                ':'
            } else if i % 3 == 0 {
                hexc(b[i / 3] as int / 16)
            } else {
                hexc(b[i / 3] as int % 16)
            },
    )
}

/// The byte whose two hex digits stand at `t[i]`, `t[i + 1]`.
pub open spec fn byte_at(t: Seq<char>, i: int) -> Option<u8> {
    match (hex_digit(t[i]), hex_digit(t[i + 1])) {
        (Some(h), Some(l)) => Some((h * 16 + l) as u8),
        _ => None,
    }
}

/// The MAC address a text holds.
pub open spec fn mac_of(t: Seq<char>) -> Option<Seq<u8>> {
    if t.len() == 17 && (forall|i: int| 0 <= i < 17 && i % 3 == 2 ==> t[i] == ':') && (forall|k: int|
        0 <= k < 6 ==> #[trigger] byte_at(t, 3 * k) is Some) {
        Some(Seq::new(6, |k: int| byte_at(t, 3 * k)->0))
    } else {
        None
    }
}

pub proof fn lemma_mac_round_trip(b: Seq<u8>)
    requires
        b.len() == 6,
    ensures
        mac_of(mac_text(b)) == Some(b),
{
    let t = mac_text(b);
    assert forall|k: int| 0 <= k < 6 implies #[trigger] byte_at(t, 3 * k) == Some(b[k]) by {
        lemma_hexc(b[k] as int / 16);
        lemma_hexc(b[k] as int % 16);
        assert(t[3 * k] == hexc(b[k] as int / 16));
        assert(t[3 * k + 1] == hexc(b[k] as int % 16));
    }
    assert(Seq::new(6, |k: int| byte_at(t, 3 * k)->0) =~= b);
}

/// The text of a MAC address.
pub fn mac_to_string(b: &[u8; 6]) -> (r: String)
    ensures
        r@ == mac_text(b@),
{
    let mut r = String::new();
    let mut k: usize = 0;
    while k < 6
        invariant
            k <= 6,
            b@.len() == 6,
            r@.len() == if k == 0 { 0 } else { 3 * k - 1 },
            r@ =~= mac_text(b@).subrange(0, r@.len() as int),
        decreases 6 - k,
    {
        if k > 0 {
            proof {
                reveal_strlit(":");
                assert(":"@ =~= seq![':']);
            }
            push_sep(&mut r, ":", Ghost(':'));
        }
        let v = b[k];
        push_hexc(&mut r, v / 16);
        push_hexc(&mut r, v % 16);
        assert(r@ =~= mac_text(b@).subrange(0, r@.len() as int));
        k += 1;
    }
    assert(mac_text(b@).subrange(0, 17) =~= mac_text(b@));
    r
}

fn byte_exec(v: &Vec<char>, i: usize) -> (r: Option<u8>)
    requires
        i + 1 < v.len(),
    ensures
        r == byte_at(v@, i as int),
{
    match (hex_digit_exec(v[i]), hex_digit_exec(v[i + 1])) {
        (Some(h), Some(l)) => Some((h * 16 + l) as u8),
        _ => None,
    }
}

/// Reads a MAC address text.
pub fn mac_from_str(s: &str) -> (r: Option<[u8; 6]>)
    ensures
        match mac_of(s@) {
            Some(b) => r matches Some(a) && a@ == b,
            None => r is None,
        },
{
    let v = chars_of(s);
    if v.len() != 17 {
        return None;
    }
    let mut out: [u8; 6] = [0; 6];
    let mut k: usize = 0;
    while k < 6
        invariant
            v@ == s@,
            v@.len() == 17,
            k <= 6,
            forall|i: int| 0 <= i < 3 * k && i < 17 && i % 3 == 2 ==> v@[i] == ':',
            forall|j: int| 0 <= j < k ==> #[trigger] byte_at(v@, 3 * j) == Some(out@[j]),
        decreases 6 - k,
    {
        let b = match byte_exec(&v, 3 * k) {
            Some(b) => b,
            None => {
                assert(!(byte_at(s@, 3 * k) is Some));
                return None;
            },
        };
        if k < 5 && v[3 * k + 2] != ':' {
            return None;
        }
        out[k] = b;
        k += 1;
    }
    assert(Seq::new(6, |k: int| byte_at(s@, 3 * k)->0) =~= out@);
    Some(out)
}

/// The text of an IPv6 address: eight groups of four hex digits.
pub open spec fn ipv6_text(b: Seq<u8>) -> Seq<char> {
    Seq::new(
        39,
        |i: int|
            if i % 5 == 4 {
                ':'
            } else {
                let byte = b[2 * (i / 5) + (i % 5) / 2];
                if (i % 5) % 2 == 0 {
                    hexc(byte as int / 16)
                } else {
                    hexc(byte as int % 16)
                }
            },
    )
}

/// The IPv6 address a text holds.
pub open spec fn ipv6_of(t: Seq<char>) -> Option<Seq<u8>> {
    if t.len() == 39 && (forall|i: int| 0 <= i < 39 && i % 5 == 4 ==> t[i] == ':') && (forall|j: int|
        0 <= j < 16 ==> #[trigger] byte_at(t, 5 * (j / 2) + 2 * (j % 2)) is Some) {
        Some(Seq::new(16, |j: int| byte_at(t, 5 * (j / 2) + 2 * (j % 2))->0))
    } else {
        None
    }
}

pub proof fn lemma_ipv6_round_trip(b: Seq<u8>)
    requires
        b.len() == 16,
    ensures
        ipv6_of(ipv6_text(b)) == Some(b),
{
    let t = ipv6_text(b);
    assert forall|j: int| 0 <= j < 16 implies #[trigger] byte_at(t, 5 * (j / 2) + 2 * (j % 2)) == Some(b[j]) by {
        let p = 5 * (j / 2) + 2 * (j % 2);
        assert(p / 5 == j / 2 && p % 5 == 2 * (j % 2));
        assert((p + 1) / 5 == j / 2 && (p + 1) % 5 == 2 * (j % 2) + 1);
        lemma_hexc(b[j] as int / 16);
        lemma_hexc(b[j] as int % 16);
        assert(t[p] == hexc(b[j] as int / 16));
        assert(t[p + 1] == hexc(b[j] as int % 16));
    }
    assert(Seq::new(16, |j: int| byte_at(t, 5 * (j / 2) + 2 * (j % 2))->0) =~= b);
}

/// The text of an IPv6 address.
pub fn ipv6_to_string(b: &[u8; 16]) -> (r: String)
    ensures
        r@ == ipv6_text(b@),
{
    let mut r = String::new();
    let mut g: usize = 0;
    while g < 8
        invariant
            g <= 8,
            b@.len() == 16,
            r@.len() == if g == 0 { 0 } else { 5 * g - 1 },
            r@ =~= ipv6_text(b@).subrange(0, r@.len() as int),
        decreases 8 - g,
    {
        if g > 0 {
            proof {
                reveal_strlit(":");
                assert(":"@ =~= seq![':']);
            }
            push_sep(&mut r, ":", Ghost(':'));
        }
        let hi = b[2 * g];
        let lo = b[2 * g + 1];
        push_hexc(&mut r, hi / 16);
        push_hexc(&mut r, hi % 16);
        push_hexc(&mut r, lo / 16);
        push_hexc(&mut r, lo % 16);
        assert(r@ =~= ipv6_text(b@).subrange(0, r@.len() as int));
        g += 1;
    }
    assert(ipv6_text(b@).subrange(0, 39) =~= ipv6_text(b@));
    r
}

/// Reads an IPv6 address text.
pub fn ipv6_from_str(s: &str) -> (r: Option<[u8; 16]>)
    ensures
        match ipv6_of(s@) {
            Some(b) => r matches Some(a) && a@ == b,
            None => r is None,
        },
{
    let v = chars_of(s);
    if v.len() != 39 {
        return None;
    }
    let mut out: [u8; 16] = [0; 16];
    let mut j: usize = 0;
    while j < 16
        invariant
            v@ == s@,
            v@.len() == 39,
            j <= 16,
            forall|i: int| 0 <= i < 5 * (j / 2) && i < 39 && i % 5 == 4 ==> v@[i] == ':',
            forall|m: int| 0 <= m < j ==> #[trigger] byte_at(v@, 5 * (m / 2) + 2 * (m % 2)) == Some(out@[m]),
        decreases 16 - j,
    {
        let p = 5 * (j / 2) + 2 * (j % 2);
        let b = match byte_exec(&v, p) {
            Some(b) => b,
            None => {
                assert(!(byte_at(s@, 5 * (j as int / 2) + 2 * (j as int % 2)) is Some));
                return None;
            },
        };
        if j % 2 == 1 && j < 15 && v[p + 2] != ':' {
            return None;
        }
        out[j] = b;
        j += 1;
    }
    assert(Seq::new(16, |j: int| byte_at(s@, 5 * (j / 2) + 2 * (j % 2))->0) =~= out@);
    Some(out)
}

/// Decimal text of a byte, without leading zeros.
pub open spec fn dec(v: u8) -> Seq<char> {
    if v < 10 {
        seq![digc(v as int)]
    } else if v < 100 {
        seq![digc(v as int / 10), digc(v as int % 10)]
    } else {
        seq![digc(v as int / 100), digc((v as int / 10) % 10), digc(v as int % 10)]
    }
}

/// The byte a decimal text of one to three digits holds.
pub open spec fn dec_val(s: Seq<char>) -> Option<u8> {
    if s.len() == 1 {
        match dec_digit(s[0]) {
            Some(a) => Some(a as u8),
            None => None,
        }
    } else if s.len() == 2 {
        match (dec_digit(s[0]), dec_digit(s[1])) {
            (Some(a), Some(b)) => Some((10 * a + b) as u8),
            _ => None,
        }
    } else if s.len() == 3 {
        match (dec_digit(s[0]), dec_digit(s[1]), dec_digit(s[2])) {
            (Some(a), Some(b), Some(c)) => if 100 * a + 10 * b + c <= 255 {
                Some((100 * a + 10 * b + c) as u8)
            } else {
                None
            },
            _ => None,
        }
    } else {
        None
    }
}

pub proof fn lemma_dec_round_trip(v: u8)
    ensures
        dec_val(dec(v)) == Some(v),
        forall|i: int| 0 <= i < dec(v).len() ==> dec(v)[i] != '.',
        1 <= dec(v).len() <= 3,
{
    lemma_digc(v as int % 10);
    lemma_digc((v as int / 10) % 10);
    if v < 100 {
        lemma_digc(v as int / 10);
    } else {
        lemma_digc(v as int / 100);
    }
}

/// The text of an IPv4 address, dotted decimal.
pub open spec fn ipv4_text(b: Seq<u8>) -> Seq<char> {
    dec(b[0]) + seq!['.'] + dec(b[1]) + seq!['.'] + dec(b[2]) + seq!['.'] + dec(b[3])
}

/// The IPv4 address a text holds.
pub open spec fn ipv4_of(t: Seq<char>) -> Option<Seq<u8>> {
    let p = split_on(t, '.');
    if p.len() == 4 && dec_val(p[0]) is Some && dec_val(p[1]) is Some && dec_val(p[2]) is Some && dec_val(
        p[3],
    ) is Some {
        Some(seq![dec_val(p[0])->0, dec_val(p[1])->0, dec_val(p[2])->0, dec_val(p[3])->0])
    } else {
        None
    }
}

proof fn lemma_split_dot(x: Seq<char>, y: Seq<char>)
    requires
        forall|i: int| 0 <= i < x.len() ==> x[i] != '.',
    ensures
        split_on(x + seq!['.'] + y, '.') == seq![x] + split_on(y, '.'),
{
    let s = x + seq!['.'] + y;
    assert forall|j: int| 0 <= j < x.len() implies s[j] != '.' by {
        assert(s[j] == x[j]);
    }
    lemma_first_index_at(s, '.', x.len() as int);
    assert(s.subrange(0, x.len() as int) =~= x);
    assert(s.subrange(x.len() as int + 1, s.len() as int) =~= y);
}

pub proof fn lemma_ipv4_round_trip(b: Seq<u8>)
    requires
        b.len() == 4,
    ensures
        ipv4_of(ipv4_text(b)) == Some(b),
{
    lemma_dec_round_trip(b[0]);
    lemma_dec_round_trip(b[1]);
    lemma_dec_round_trip(b[2]);
    lemma_dec_round_trip(b[3]);
    let d3 = dec(b[3]);
    lemma_first_index_none(d3, '.');
    let t2 = dec(b[2]) + seq!['.'] + d3;
    lemma_split_dot(dec(b[2]), d3);
    let t1 = dec(b[1]) + seq!['.'] + t2;
    lemma_split_dot(dec(b[1]), t2);
    lemma_split_dot(dec(b[0]), t1);
    assert(ipv4_text(b) =~= dec(b[0]) + seq!['.'] + t1);
    let p = split_on(ipv4_text(b), '.');
    assert(p =~= seq![dec(b[0]), dec(b[1]), dec(b[2]), d3]);
    assert(seq![b[0], b[1], b[2], b[3]] =~= b);
}

fn push_dec(r: &mut String, v: u8)
    ensures
        final(r)@ == old(r)@ + dec(v),
{
    if v < 10 {
        push_digc(r, v);
    } else if v < 100 {
        push_digc(r, v / 10);
        push_digc(r, v % 10);
    } else {
        push_digc(r, v / 100);
        push_digc(r, (v / 10) % 10);
        push_digc(r, v % 10);
    }
    assert(r@ =~= old(r)@ + dec(v));
}

/// The text of an IPv4 address.
pub fn ipv4_to_string(b: &[u8; 4]) -> (r: String)
    ensures
        r@ == ipv4_text(b@),
{
    let mut r = String::new();
    proof {
        reveal_strlit(".");
        assert("."@ =~= seq!['.']);
    }
    push_dec(&mut r, b[0]);
    push_sep(&mut r, ".", Ghost('.'));
    push_dec(&mut r, b[1]);
    push_sep(&mut r, ".", Ghost('.'));
    push_dec(&mut r, b[2]);
    push_sep(&mut r, ".", Ghost('.'));
    push_dec(&mut r, b[3]);
    assert(r@ =~= ipv4_text(b@));
    r
}

fn dec_digit_exec(c: char) -> (r: Option<u8>)
    ensures
        match dec_digit(c) {
            Some(d) => r == Some(d as u8),
            None => r is None,
        },
{
    if '0' <= c && c <= '9' {
        Some((c as u32 - '0' as u32) as u8)
    } else {
        None
    }
}

fn dec_val_exec(s: &str) -> (r: Option<u8>)
    ensures
        r == dec_val(s@),
{
    let v = chars_of(s);
    if v.len() == 1 {
        match dec_digit_exec(v[0]) {
            Some(a) => Some(a),
            None => None,
        }
    } else if v.len() == 2 {
        match (dec_digit_exec(v[0]), dec_digit_exec(v[1])) {
            (Some(a), Some(b)) => Some(10 * a + b),
            _ => None,
        }
    } else if v.len() == 3 {
        match (dec_digit_exec(v[0]), dec_digit_exec(v[1]), dec_digit_exec(v[2])) {
            (Some(a), Some(b), Some(c)) => {
                let n = 100 * (a as u32) + 10 * (b as u32) + c as u32;
                if n <= 255 {
                    Some(n as u8)
                } else {
                    None
                }
            },
            _ => None,
        }
    } else {
        None
    }
}

/// Reads an IPv4 address text.
pub fn ipv4_from_str(s: &str) -> (r: Option<[u8; 4]>)
    ensures
        match ipv4_of(s@) {
            Some(b) => r matches Some(a) && a@ == b,
            None => r is None,
        },
{
    let parts = split_char(s, '.');
    let ghost p = split_on(s@, '.');
    if parts.len() != 4 {
        return None;
    }
    assert(parts@[0]@ == p[0] && parts@[1]@ == p[1] && parts@[2]@ == p[2] && parts@[3]@ == p[3]);
    let a = match dec_val_exec(parts[0].as_str()) {
        Some(x) => x,
        None => return None,
    };
    let b = match dec_val_exec(parts[1].as_str()) {
        Some(x) => x,
        None => return None,
    };
    let c = match dec_val_exec(parts[2].as_str()) {
        Some(x) => x,
        None => return None,
    };
    let d = match dec_val_exec(parts[3].as_str()) {
        Some(x) => x,
        None => return None,
    };
    let out = [a, b, c, d];
    assert(out@ =~= seq![a, b, c, d]);
    Some(out)
}

} // verus!
