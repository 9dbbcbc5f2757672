//! IPv4 addresses as text: four decimal numbers joined by dots.

use vstd::prelude::*;
use crate::text::to_chars;

verus! {

/// The character for a decimal digit.
pub open spec fn digit_char(d: int) -> char {
    (48 + d) as char
}

/// Whether a character is a decimal digit.
pub open spec fn is_digit(c: char) -> bool {
    48 <= c as int <= 57
}

/// A number below 256 in decimal, without leading zeros.
#[verifier::opaque]
pub open spec fn octet_text(b: u8) -> Seq<char> {
    if b < 10 {
        seq![digit_char(b as int)]
    } else if b < 100 {
        seq![digit_char(b as int / 10), digit_char(b as int % 10)]
    } else {
        seq![digit_char(b as int / 100), digit_char(b as int / 10 % 10), digit_char(b as int % 10)]
    }
}

/// The text of an address: its four numbers in decimal, joined by dots.
pub open spec fn ipv4_text(addr: Seq<u8>) -> Seq<char>
    recommends
        addr.len() == 4,
{
    octet_text(addr[0]) + seq!['.'] + octet_text(addr[1]) + seq!['.'] + octet_text(addr[2]) + seq![
        '.',
    ] + octet_text(addr[3])
}

/// Whether `text` is the text of some address.
pub open spec fn is_ipv4_text(text: Seq<char>) -> bool {
    exists|addr: Seq<u8>| addr.len() == 4 && #[trigger] ipv4_text(addr) == text
}

/// The address that `text` is the text of, if it is one.
pub open spec fn parsed_ipv4(text: Seq<char>) -> Option<Seq<u8>> {
    if is_ipv4_text(text) {
        Some(choose|addr: Seq<u8>| addr.len() == 4 && #[trigger] ipv4_text(addr) == text)
    } else {
        None
    }
}

/// The number `b` stands at `pos` in `s`, and no digit follows it.
pub open spec fn octet_here(s: Seq<char>, pos: int, b: u8) -> bool {
    let end = pos + octet_text(b).len();
    &&& 0 <= pos
    &&& end <= s.len()
    &&& s.subrange(pos, end) == octet_text(b)
    &&& (end == s.len() || !is_digit(s[end]))
}

/// The value of the digits `s[pos..pos + len]`, read as a decimal number.
pub open spec fn digits_value(s: Seq<char>, pos: int, len: int) -> int {
    if len == 1 {
        s[pos] as int - 48
    } else if len == 2 {
        (s[pos] as int - 48) * 10 + (s[pos + 1] as int - 48)
    } else {
        (s[pos] as int - 48) * 100 + (s[pos + 1] as int - 48) * 10 + (s[pos + 2] as int - 48)
    }
}

/// One to three digits without a leading zero, worth at most 255, are the
/// text of their value.
proof fn lemma_digits_are_octet(s: Seq<char>, pos: int, len: int, b: u8)
    requires
        0 <= pos,
        1 <= len <= 3,
        pos + len <= s.len(),
        forall|i: int| 0 <= i < len ==> is_digit(#[trigger] s[pos + i]),
        len > 1 ==> s[pos] as int != 48,
        b as int == digits_value(s, pos, len),
    ensures
        s.subrange(pos, pos + len) == octet_text(b),
        octet_text(b).len() == len,
{
    reveal(octet_text);
    let piece = s.subrange(pos, pos + len);
    let d0 = s[pos] as int - 48;
    assert(is_digit(s[pos + 0]));
    assert(0 <= d0 <= 9);
    assert(digit_char(d0) == s[pos]);
    if len == 1 {
        assert(b as int == d0);
        assert(octet_text(b) =~= seq![digit_char(d0)]);
        assert(piece =~= seq![s[pos]]);
    } else if len == 2 {
        let d1 = s[pos + 1] as int - 48;
        assert(is_digit(s[pos + 1]));
        assert(0 <= d1 <= 9);
        assert(digit_char(d1) == s[pos + 1]);
        assert(b as int == d0 * 10 + d1);
        assert(10 <= b < 100);
        assert(b as int / 10 == d0);
        assert(b as int % 10 == d1);
        assert(octet_text(b) =~= seq![digit_char(d0), digit_char(d1)]);
        assert(piece =~= seq![s[pos], s[pos + 1]]);
    } else {
        let d1 = s[pos + 1] as int - 48;
        let d2 = s[pos + 2] as int - 48;
        assert(is_digit(s[pos + 1]));
        assert(is_digit(s[pos + 2]));
        assert(0 <= d1 <= 9);
        assert(0 <= d2 <= 9);
        assert(digit_char(d1) == s[pos + 1]);
        assert(digit_char(d2) == s[pos + 2]);
        assert(b as int == d0 * 100 + d1 * 10 + d2);
        assert(100 <= b);
        assert(b as int / 100 == d0);
        assert(b as int / 10 % 10 == d1);
        assert(b as int % 10 == d2);
        assert(octet_text(b) =~= seq![digit_char(d0), digit_char(d1), digit_char(d2)]);
        assert(piece =~= seq![s[pos], s[pos + 1], s[pos + 2]]);
    }
}

/// A number that stands at a position is one to three digits without a
/// leading zero, and they are worth the number.
proof fn lemma_octet_is_digits(s: Seq<char>, pos: int, b: u8)
    requires
        octet_here(s, pos, b),
    ensures
        1 <= octet_text(b).len() <= 3,
        forall|i: int| 0 <= i < octet_text(b).len() ==> is_digit(#[trigger] s[pos + i]),
        octet_text(b).len() > 1 ==> s[pos] as int != 48,
        b as int == digits_value(s, pos, octet_text(b).len() as int),
{
    reveal(octet_text);
    let t = octet_text(b);
    let l = t.len() as int;
    assert(forall|i: int| 0 <= i < l ==> #[trigger] s.subrange(pos, pos + l)[i] == s[pos + i]);
    assert(t[0] == s[pos + 0]);
    if l >= 2 {
        assert(t[1] == s[pos + 1]);
    }
    if l >= 3 {
        assert(t[2] == s[pos + 2]);
    }
    assert forall|i: int| 0 <= i < l implies is_digit(#[trigger] s[pos + i]) by {
        assert(s[pos + i] == t[i]);
    }
}

/// At most one number stands at a position.
proof fn lemma_octet_here_unique(s: Seq<char>, pos: int, b: u8, c: u8)
    requires
        octet_here(s, pos, b),
        octet_here(s, pos, c),
    ensures
        b == c,
{
    lemma_octet_is_digits(s, pos, b);
    lemma_octet_is_digits(s, pos, c);
    let lb = octet_text(b).len() as int;
    let lc = octet_text(c).len() as int;
    if lb < lc {
        assert(is_digit(s[pos + lb]));
    } else if lc < lb {
        assert(is_digit(s[pos + lc]));
    }
}

/// Whether a digit stands at `at`.
fn digit_at(s: &Vec<char>, at: usize) -> (yes: bool)
    ensures
        yes == (at < s@.len() && is_digit(s@[at as int])),
{
    at < s.len() && s[at] >= '0' && s[at] <= '9'
}

/// The value of the digit at `at`.
fn digit_value(s: &Vec<char>, at: usize) -> (value: u32)
    requires
        at < s@.len(),
        is_digit(s@[at as int]),
    ensures
        value == s@[at as int] as int - 48,
{
    s[at] as u32 - 48
}

/// Reads the number that stands at `pos`.
fn read_octet(s: &Vec<char>, pos: usize) -> (r: Option<(u8, usize)>)
    requires
        pos <= s@.len(),
    ensures
        match r {
            Some((b, len)) => octet_here(s@, pos as int, b) && len == octet_text(b).len() && 1
                <= len <= 3,
            None => forall|b: u8| !octet_here(s@, pos as int, b),
        },
{
    let n = s.len();
    let mut value: u32 = 0;
    let mut len: usize = 0;
    while len < 3 && pos < n - len && digit_at(s, pos + len)
        invariant
            len <= 3,
            pos + len <= n == s@.len(),
            forall|i: int| 0 <= i < len ==> is_digit(#[trigger] s@[pos + i]),
            len == 0 ==> value == 0,
            len > 0 ==> value == digits_value(s@, pos as int, len as int),
        decreases 3 - len,
    {
        proof {
            assert(is_digit(s@[pos + 0]) || len == 0);
            assert(len >= 2 ==> is_digit(s@[pos + 1]));
        }
        value = value * 10 + digit_value(s, pos + len);
        len += 1;
    }
    let ends = !digit_at(s, pos + len);
    let leading_zero = len > 1 && s[pos] == '0';
    if len == 0 || !ends || leading_zero || value > 255 {
        proof {
            assert forall|b: u8| !octet_here(s@, pos as int, b) by {
                if octet_here(s@, pos as int, b) {
                    lemma_octet_is_digits(s@, pos as int, b);
                    let l = octet_text(b).len() as int;
                    if l < len {
                        assert(is_digit(s@[pos + l]));
                    } else if l > len {
                        assert(is_digit(s@[pos + len]));
                    }
                    assert(l == len);
                }
            }
        }
        return None;
    }
    let b = value as u8;
    proof {
        lemma_digits_are_octet(s@, pos as int, len as int, b);
    }
    Some((b, len))
}

/// Where the four numbers and the three dots of an address stand in its text.
proof fn lemma_ipv4_layout(addr: Seq<u8>)
    requires
        addr.len() == 4,
    ensures
        ({
            let t = ipv4_text(addr);
            let second: int = octet_text(addr[0]).len() as int + 1;
            let third: int = second + octet_text(addr[1]).len() + 1;
            let fourth: int = third + octet_text(addr[2]).len() + 1;
            &&& octet_here(t, 0, addr[0])
            &&& t[second - 1] == '.'
            &&& octet_here(t, second, addr[1])
            &&& t[third - 1] == '.'
            &&& octet_here(t, third, addr[2])
            &&& t[fourth - 1] == '.'
            &&& octet_here(t, fourth, addr[3])
            &&& t.len() == fourth + octet_text(addr[3]).len()
            &&& 7 <= t.len() <= 15
        }),
{
    reveal(octet_text);
    let t = ipv4_text(addr);
    let t0 = octet_text(addr[0]);
    let t1 = octet_text(addr[1]);
    let t2 = octet_text(addr[2]);
    let t3 = octet_text(addr[3]);
    let second: int = t0.len() as int + 1;
    let third: int = second + t1.len() + 1;
    let fourth: int = third + t2.len() + 1;
    assert(t.subrange(0, t0.len() as int) =~= t0);
    assert(t.subrange(second, second + t1.len()) =~= t1);
    assert(t.subrange(third, third + t2.len()) =~= t2);
    assert(t.subrange(fourth, fourth + t3.len()) =~= t3);
}

/// Different addresses have different texts.
pub proof fn lemma_ipv4_text_injective(a: Seq<u8>, b: Seq<u8>)
    requires
        a.len() == 4,
        b.len() == 4,
        ipv4_text(a) == ipv4_text(b),
    ensures
        a == b,
{
    lemma_ipv4_layout(a);
    lemma_ipv4_layout(b);
    let t = ipv4_text(a);
    lemma_octet_here_unique(t, 0, a[0], b[0]);
    let second: int = octet_text(a[0]).len() as int + 1;
    lemma_octet_here_unique(t, second, a[1], b[1]);
    let third: int = second + octet_text(a[1]).len() + 1;
    lemma_octet_here_unique(t, third, a[2], b[2]);
    let fourth: int = third + octet_text(a[2]).len() + 1;
    lemma_octet_here_unique(t, fourth, a[3], b[3]);
    assert(a =~= b);
}

/// Reading the text of an address gives the address back.
pub proof fn lemma_parse_of_text(addr: Seq<u8>)
    requires
        addr.len() == 4,
    ensures
        parsed_ipv4(ipv4_text(addr)) == Some(addr),
{
    let t = ipv4_text(addr);
    assert(is_ipv4_text(t));
    let found = choose|a: Seq<u8>| a.len() == 4 && #[trigger] ipv4_text(a) == t;
    lemma_ipv4_text_injective(found, addr);
}

/// The view of an optional address.
pub open spec fn address_view(addr: Option<[u8; 4]>) -> Option<Seq<u8>> {
    match addr {
        Some(a) => Some(a@),
        None => None,
    }
}

/// Reads an address from its text: four decimal numbers of at most 255,
/// none with a leading zero, joined by single dots, and nothing else.
pub fn parse_ipv4(text: &str) -> (addr: Option<[u8; 4]>)
    ensures
        address_view(addr) == parsed_ipv4(text@),
        addr matches Some(a) ==> ipv4_text(a@) == text@,
{
    let s = to_chars(text);
    let n = s.len();
    proof {
        assert forall|a: Seq<u8>| a.len() == 4 && ipv4_text(a) == s@ implies 7 <= n <= 15 by {
            lemma_ipv4_layout(a);
        }
    }
    if n < 7 || n > 15 {
        return None;
    }
    let (b0, l0) = match read_octet(&s, 0) {
        Some(found) => found,
        None => {
            proof {
                assert forall|a: Seq<u8>| a.len() == 4 implies ipv4_text(a) != s@ by {
                    lemma_ipv4_layout(a);
                }
            }
            return None;
        },
    };
    let second = l0 + 1;
    if s[l0] != '.' {
        proof {
            assert forall|a: Seq<u8>| a.len() == 4 implies ipv4_text(a) != s@ by {
                lemma_ipv4_layout(a);
                if ipv4_text(a) == s@ {
                    lemma_octet_here_unique(s@, 0, a[0], b0);
                }
            }
        }
        return None;
    }
    let (b1, l1) = match read_octet(&s, second) {
        Some(found) => found,
        None => {
            proof {
                assert forall|a: Seq<u8>| a.len() == 4 implies ipv4_text(a) != s@ by {
                    lemma_ipv4_layout(a);
                    if ipv4_text(a) == s@ {
                        lemma_octet_here_unique(s@, 0, a[0], b0);
                    }
                }
            }
            return None;
        },
    };
    let third = second + l1 + 1;
    if second + l1 >= n || s[second + l1] != '.' {
        proof {
            assert forall|a: Seq<u8>| a.len() == 4 implies ipv4_text(a) != s@ by {
                lemma_ipv4_layout(a);
                if ipv4_text(a) == s@ {
                    lemma_octet_here_unique(s@, 0, a[0], b0);
                    lemma_octet_here_unique(s@, second as int, a[1], b1);
                }
            }
        }
        return None;
    }
    let (b2, l2) = match read_octet(&s, third) {
        Some(found) => found,
        None => {
            proof {
                assert forall|a: Seq<u8>| a.len() == 4 implies ipv4_text(a) != s@ by {
                    lemma_ipv4_layout(a);
                    if ipv4_text(a) == s@ {
                        lemma_octet_here_unique(s@, 0, a[0], b0);
                        lemma_octet_here_unique(s@, second as int, a[1], b1);
                    }
                }
            }
            return None;
        },
    };
    let fourth = third + l2 + 1;
    if third + l2 >= n || s[third + l2] != '.' {
        proof {
            assert forall|a: Seq<u8>| a.len() == 4 implies ipv4_text(a) != s@ by {
                lemma_ipv4_layout(a);
                if ipv4_text(a) == s@ {
                    lemma_octet_here_unique(s@, 0, a[0], b0);
                    lemma_octet_here_unique(s@, second as int, a[1], b1);
                    lemma_octet_here_unique(s@, third as int, a[2], b2);
                }
            }
        }
        return None;
    }
    let (b3, l3) = match read_octet(&s, fourth) {
        Some(found) => found,
        None => {
            proof {
                assert forall|a: Seq<u8>| a.len() == 4 implies ipv4_text(a) != s@ by {
                    lemma_ipv4_layout(a);
                    if ipv4_text(a) == s@ {
                        lemma_octet_here_unique(s@, 0, a[0], b0);
                        lemma_octet_here_unique(s@, second as int, a[1], b1);
                        lemma_octet_here_unique(s@, third as int, a[2], b2);
                    }
                }
            }
            return None;
        },
    };
    if fourth + l3 != n {
        proof {
            assert forall|a: Seq<u8>| a.len() == 4 implies ipv4_text(a) != s@ by {
                lemma_ipv4_layout(a);
                if ipv4_text(a) == s@ {
                    lemma_octet_here_unique(s@, 0, a[0], b0);
                    lemma_octet_here_unique(s@, second as int, a[1], b1);
                    lemma_octet_here_unique(s@, third as int, a[2], b2);
                    lemma_octet_here_unique(s@, fourth as int, a[3], b3);
                }
            }
        }
        return None;
    }
    let addr = [b0, b1, b2, b3];
    proof {
        assert(addr@ =~= seq![b0, b1, b2, b3]);
        assert(s@ =~= ipv4_text(addr@));
        lemma_parse_of_text(addr@);
    }
    Some(addr)
}

/// The character for the digit `d`.
fn digit(d: u8) -> (c: char)
    requires
        d < 10,
    ensures
        c == digit_char(d as int),
{
    (48 + d) as char
}

/// Appends a number in decimal.
fn push_octet(text: &mut String, b: u8)
    ensures
        final(text)@ == old(text)@ + octet_text(b),
{
    proof {
        reveal(octet_text);
    }
    if b >= 100 {
        text.push(digit(b / 100));
    }
    if b >= 10 {
        text.push(digit((b / 10) % 10));
    }
    text.push(digit(b % 10));
    assert(text@ =~= old(text)@ + octet_text(b));
}

/// Writes an address as text.
pub fn format_ipv4(addr: &[u8; 4]) -> (text: String)
    ensures
        text@ == ipv4_text(addr@),
{
    let mut text = String::new();
    push_octet(&mut text, addr[0]);
    text.push('.');
    push_octet(&mut text, addr[1]);
    text.push('.');
    push_octet(&mut text, addr[2]);
    text.push('.');
    push_octet(&mut text, addr[3]);
    assert(text@ =~= ipv4_text(addr@));
    text
}

} // verus!
