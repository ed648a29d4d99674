//! Address validation and device identifiers.

use vstd::prelude::*;
use crate::text::{digit_char, push_digit, str_chars};
use crate::digest::{sha256, sha256_spec};
use vstd::string::StringSliceAdditionalSpecFns;

verus! {

/// The pieces of `s` between occurrences of `sep`, as `str::split` yields them:
/// always at least one piece, empty pieces included.
pub open spec fn split_on(s: Seq<char>, sep: char) -> Seq<Seq<char>>
    decreases s.len(),
{
    if s.len() == 0 {
        seq![Seq::<char>::empty()]
    } else {
        let p = split_on(s.drop_last(), sep);
        if s.last() == sep {
            p.push(Seq::<char>::empty())
        } else {
            p.update(p.len() - 1, p.last().push(s.last()))
        }
    }
}

/// `split_on` never yields an empty list of pieces.
pub proof fn lemma_split_on_nonempty(s: Seq<char>, sep: char)
    ensures
        split_on(s, sep).len() >= 1,
    decreases s.len(),
{
    if s.len() > 0 {
        lemma_split_on_nonempty(s.drop_last(), sep);
    }
}

pub open spec fn is_ascii_digit(c: char) -> bool {
    '0' <= c && c <= '9'
}

pub open spec fn all_ascii_digits(s: Seq<char>) -> bool {
    forall|i: int| 0 <= i < s.len() ==> is_ascii_digit(#[trigger] s[i])
}

/// The value of a string of decimal digits.
pub open spec fn digits_value(s: Seq<char>) -> nat
    decreases s.len(),
{
    if s.len() == 0 {
        0
    } else {
        digits_value(s.drop_last()) * 10 + ((s.last() as nat) - 48) as nat
    }
}

/// The digits that `u8::from_str` reads: one leading `+` is skipped.
pub open spec fn u8_digits(s: Seq<char>) -> Seq<char> {
    if s.len() > 0 && s[0] == '+' {
        s.drop_first()
    } else {
        s
    }
}

/// Whether `u8::from_str` accepts `s`: an optional `+`, then one or more
/// ASCII digits (leading zeros allowed) whose value is at most 255.
pub open spec fn parses_as_u8(s: Seq<char>) -> bool {
    let d = u8_digits(s);
    d.len() > 0 && all_ascii_digits(d) && digits_value(d) <= 255
}

/// Whether `ip` is a dotted quad: exactly four dot-separated pieces, each of
/// which parses as a `u8`.
pub open spec fn valid_ip_spec(ip: Seq<char>) -> bool {
    let parts = split_on(ip, '.');
    parts.len() == 4 && forall|i: int| 0 <= i < 4 ==> parses_as_u8(#[trigger] parts[i])
}

/// Whether `port` may be used for the service: the unprivileged range.
pub open spec fn valid_port_spec(port: u16) -> bool {
    port >= 1024
}

/// Splits a character sequence at every occurrence of `sep`.
pub fn split_chars(v: &Vec<char>, sep: char) -> (parts: Vec<Vec<char>>)
    ensures
        parts.len() == split_on(v@, sep).len(),
        forall|i: int| 0 <= i < parts.len() ==> #[trigger] parts[i]@ == split_on(v@, sep)[i],
{
    let mut parts: Vec<Vec<char>> = Vec::new();
    let mut cur: Vec<char> = Vec::new();
    let mut i: usize = 0;
    assert(v@.take(0) =~= Seq::<char>::empty());
    while i < v.len()
        invariant
            i <= v.len(),
            parts.len() + 1 == split_on(v@.take(i as int), sep).len(),
            forall|k: int| 0 <= k < parts.len() ==> #[trigger] parts[k]@ == split_on(v@.take(i as int), sep)[k],
            cur@ == split_on(v@.take(i as int), sep).last(),
        decreases v.len() - i,
    {
        let c = v[i];
        proof {
            assert(v@.take(i + 1).drop_last() =~= v@.take(i as int));
            assert(v@.take(i + 1).last() == c);
            lemma_split_on_nonempty(v@.take(i as int), sep);
        }
        if c == sep {
            parts.push(cur);
            cur = Vec::new();
        } else {
            cur.push(c);
        }
        i = i + 1;
    }
    assert(v@.take(v.len() as int) =~= v@);
    parts.push(cur);
    parts
}

/// Whether the characters parse as a `u8` under the rules of `u8::from_str`.
pub fn parses_u8(s: &Vec<char>) -> (b: bool)
    ensures
        b == parses_as_u8(s@),
{
    let start: usize = if s.len() > 0 && s[0] == '+' { 1 } else { 0 };
    let ghost d = u8_digits(s@);
    assert(d =~= s@.subrange(start as int, s.len() as int));
    if start >= s.len() {
        return false;
    }
    let mut acc: u32 = 0;
    let mut j: usize = start;
    while j < s.len()
        invariant
            start <= j <= s.len(),
            d =~= s@.subrange(start as int, s.len() as int),
            d == u8_digits(s@),
            forall|k: int| start <= k < j ==> is_ascii_digit(#[trigger] s@[k]),
            acc <= 256,
            digits_value(s@.subrange(start as int, j as int)) <= 255 ==> acc == digits_value(s@.subrange(start as int, j as int)),
            digits_value(s@.subrange(start as int, j as int)) > 255 ==> acc == 256,
        decreases s.len() - j,
    {
        let c = s[j];
        if !('0' <= c && c <= '9') {
            assert(d[j - start] == c);
            assert(!is_ascii_digit(d[j - start]));
            return false;
        }
        let dig = (c as u32) - 48;
        proof {
            let pre = s@.subrange(start as int, j as int);
            let nxt = s@.subrange(start as int, j + 1);
            assert(nxt.drop_last() =~= pre);
            assert(nxt.last() == c);
        }
        if acc == 256 {
        } else if acc * 10 + dig > 255 {
            acc = 256;
        } else {
            acc = acc * 10 + dig;
        }
        j = j + 1;
    }
    assert(s@.subrange(start as int, s.len() as int) =~= d);
    assert(all_ascii_digits(d)) by {
        assert forall|i: int| 0 <= i < d.len() implies is_ascii_digit(#[trigger] d[i]) by {
            assert(d[i] == s@[start + i]);
        }
    }
    acc <= 255
}

/// Checks whether an IP address is valid.
pub fn is_valid_ip(ip: &str) -> (b: bool)
    ensures
        b == valid_ip_spec(ip@),
{
    let chars = str_chars(ip);
    let parts = split_chars(&chars, '.');
    if parts.len() != 4 {
        return false;
    }
    let mut i: usize = 0;
    while i < 4
        invariant
            parts.len() == 4,
            split_on(ip@, '.').len() == 4,
            forall|k: int| 0 <= k < 4 ==> #[trigger] parts[k]@ == split_on(ip@, '.')[k],
            i <= 4,
            forall|k: int| 0 <= k < i ==> parses_as_u8(#[trigger] split_on(ip@, '.')[k]),
        decreases 4 - i,
    {
        if !parses_u8(&parts[i]) {
            return false;
        }
        i = i + 1;
    }
    true
}

/// Checks whether a port is valid.
pub fn is_valid_port(port: u16) -> (b: bool)
    ensures
        b == valid_port_spec(port),
{
    port >= 1024
}

/// The 32-byte key derived from a text: the SHA-256 digest of its UTF-8 bytes.
pub fn string_to_32_bytes(input: &str) -> (r: [u8; 32])
    ensures
        r@ == sha256_spec(input.spec_bytes()),
        r@.len() == 32,
{
    sha256(input.as_bytes())
}

/// Ten to the power `e`.
pub open spec fn pow10(e: nat) -> nat
    decreases e,
{
    if e == 0 { 1 } else { 10 * pow10((e - 1) as nat) }
}

/// The six-digit, zero-padded decimal text of `n` (below one million), as
/// `format!("{:06}", n)` writes it.
pub open spec fn six_digits(n: nat) -> Seq<char> {
    Seq::new(6, |i: int| digit_char((n / pow10((5 - i) as nat)) % 10))
}

/// A random number from `rand::random::<u32>()`. Nothing is promised of its value.
#[verifier::external_body]
fn random_u32() -> u32 {
    rand::random::<u32>()
}

/// The six-digit text of a number below one million.
pub fn format_device_id(n: u32) -> (s: String)
    requires
        n < 1000000,
    ensures
        s@ == six_digits(n as nat),
{
    let mut s = String::new();
    let mut div: u32 = 100000;
    let mut i: usize = 0;
    assert(pow10(5) == 100000) by {
        reveal_with_fuel(pow10, 6);
    }
    while i < 6
        invariant
            i <= 6,
            s@.len() == i,
            forall|k: int| 0 <= k < i ==> #[trigger] s@[k] == six_digits(n as nat)[k],
            i < 6 ==> div as nat == pow10((5 - i) as nat),
            div >= 1,
        decreases 6 - i,
    {
        let d = (n / div) % 10;
        push_digit(&mut s, d as u64);
        proof {
            assert(s@[i as int] == digit_char(((n as nat) / pow10((5 - i) as nat)) % 10));
            if i < 5 {
                assert(pow10((5 - i) as nat) == 10 * pow10((5 - (i + 1)) as nat));
            }
        }
        if div >= 10 {
            div = div / 10;
        }
        i = i + 1;
    }
    assert(s@ =~= six_digits(n as nat));
    s
}

/// Generates a random six-digit device id.
pub fn generate_device_id() -> (s: String)
    ensures
        exists|n: nat| n < 1000000 && s@ == six_digits(n),
{
    let random_number = random_u32() % 1000000;
    format_device_id(random_number)
}

/// Law: a device id is six ASCII digits.
pub proof fn law_device_id_shape(n: nat)
    ensures
        six_digits(n).len() == 6,
        all_ascii_digits(six_digits(n)),
{
    assert forall|i: int| 0 <= i < 6 implies is_ascii_digit(#[trigger] six_digits(n)[i]) by {
        let d = (n / pow10((5 - i) as nat)) % 10;
        assert(d < 10);
    }
}

} // verus!
