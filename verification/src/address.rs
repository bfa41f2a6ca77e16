//! IPv6 addresses as hosts of links: in brackets, in their shortest spelling, an address that
//! holds an IPv4 address written in hexadecimal like any other.
use vstd::prelude::*;

use crate::text::{has_prefix, position_from, same_text};

verus! {

/// Whether `c` is a hexadecimal digit.
pub open spec fn is_hex_digit(c: char) -> bool {
    '0' <= c <= '9' || 'a' <= c <= 'f' || 'A' <= c <= 'F'
}

/// The number that a hexadecimal digit stands for.
pub open spec fn hex_digit_value(c: char) -> nat {
    if c <= '9' {
        (c as nat - 48) as nat
    } else if c <= 'F' {
        (c as nat - 55) as nat
    } else {
        (c as nat - 87) as nat
    }
}

/// The number that a run of hexadecimal digits stands for; zero for the empty run.
pub open spec fn hex_value(s: Seq<char>) -> nat
    decreases s.len(),
{
    if s.len() == 0 {
        0
    } else {
        hex_value(s.drop_last()) * 16 + hex_digit_value(s.last())
    }
}

/// The value of a group of an IPv6 address: one to four hexadecimal digits.
pub open spec fn group_value(s: Seq<char>) -> Option<nat> {
    if 1 <= s.len() <= 4 && (forall|i: int| 0 <= i < s.len() ==> is_hex_digit(#[trigger] s[i])) {
        Some(hex_value(s))
    } else {
        None
    }
}

/// The first group of an IPv6 address, unless the address begins with zeros left out.
pub open spec fn first_group(h: Seq<char>) -> Option<nat> {
    if h.len() > 0 && h[0] == '[' && crate::text::find_from(h, ':', 1) < h.len() {
        group_value(h.subrange(1, crate::text::find_from(h, ':', 1)))
    } else {
        None
    }
}

/// The upper and the lower 16 bits of the IPv4 address that an IPv6 address in `::ffff:0:0/96`
/// stands for.
pub open spec fn mapped_ipv4(h: Seq<char>) -> Option<(nat, nat)> {
    let colon = crate::text::find_from(h, ':', 8);
    let end = crate::text::find_from(h, ']', colon + 1);
    if crate::text::begins_with(h, "[::ffff:"@) && colon < h.len() && end == h.len() - 1 {
        match (group_value(h.subrange(8, colon)), group_value(h.subrange(colon + 1, end))) {
            (Some(high), Some(low)) => Some((high, low)),
            _ => None,
        }
    } else {
        None
    }
}

/// Whether an IPv4 address, given by its upper 16 bits, is a loopback address, in 127.0.0.0/8.
pub open spec fn is_loopback_ipv4(high: nat) -> bool {
    high / 256 == 127
}

/// Whether an IPv4 address, given by its upper 16 bits, is in one of the private networks
/// 10.0.0.0/8, 172.16.0.0/12 and 192.168.0.0/16, or link-local, in 169.254.0.0/16.
pub open spec fn is_private_ipv4(high: nat) -> bool {
    high / 256 == 10 || 0xac10 <= high <= 0xac1f || high == 0xc0a8 || high == 0xa9fe
}

/// Whether the first group of an IPv6 address puts it into the private network fc00::/7 or
/// makes it link-local, in fe80::/10.
pub open spec fn is_private_group(first: nat) -> bool {
    0xfc00 <= first <= 0xfdff || 0xfe80 <= first <= 0xfebf
}

/// Whether a host is the loopback address of IPv6, or one of IPv4 mapped into IPv6.
pub open spec fn is_loopback_ipv6(h: Seq<char>) -> bool {
    h == "[::1]"@ || match mapped_ipv4(h) {
        Some((high, _)) => is_loopback_ipv4(high),
        None => false,
    }
}

/// Whether a host is an IPv6 address in a private or link-local network, or such an IPv4
/// address mapped into IPv6.
pub open spec fn is_private_ipv6(h: Seq<char>) -> bool {
    ||| match first_group(h) {
        Some(first) => is_private_group(first),
        None => false,
    }
    ||| match mapped_ipv4(h) {
        Some((high, _)) => is_private_ipv4(high),
        None => false,
    }
}

proof fn lemma_hex_value_bound(s: Seq<char>)
    requires
        s.len() <= 4,
        forall|i: int| 0 <= i < s.len() ==> is_hex_digit(#[trigger] s[i]),
    ensures
        s.len() == 0 ==> hex_value(s) == 0,
        s.len() == 1 ==> hex_value(s) < 0x10,
        s.len() == 2 ==> hex_value(s) < 0x100,
        s.len() == 3 ==> hex_value(s) < 0x1000,
        s.len() == 4 ==> hex_value(s) < 0x1_0000,
    decreases s.len(),
{
    if s.len() > 0 {
        assert(is_hex_digit(s[s.len() - 1]));
        assert forall|i: int| 0 <= i < s.drop_last().len() implies is_hex_digit(
            #[trigger] s.drop_last()[i],
        ) by {
            assert(is_hex_digit(s[i]));
        }
        lemma_hex_value_bound(s.drop_last());
    }
}

/// The value of the group between `from` and `to`.
fn read_group(h: &Vec<char>, from: usize, to: usize) -> (r: Option<u32>)
    requires
        from <= to <= h@.len(),
    ensures
        match r {
            Some(v) => v < 0x1_0000 && group_value(h@.subrange(from as int, to as int)) == Some(
                v as nat,
            ),
            None => group_value(h@.subrange(from as int, to as int)) is None,
        },
{
    let ghost s = h@.subrange(from as int, to as int);
    if to - from < 1 || to - from > 4 {
        return None;
    }
    let mut value: u32 = 0;
    let mut i: usize = from;
    while i < to
        invariant
            from <= i <= to <= h@.len(),
            to - from <= 4,
            s == h@.subrange(from as int, to as int),
            value == hex_value(s.take(i - from)),
            forall|j: int| 0 <= j < i - from ==> is_hex_digit(#[trigger] s[j]),
        decreases to - i,
    {
        let c: char = h[i];
        assert(c == s[i - from]);
        proof {
            lemma_hex_value_bound(s.take(i - from));
            assert(s.take(i - from + 1).drop_last() =~= s.take(i - from));
        }
        let digit: u32 = if '0' <= c && c <= '9' {
            c as u32 - 48
        } else if 'A' <= c && c <= 'F' {
            c as u32 - 55
        } else if 'a' <= c && c <= 'f' {
            c as u32 - 87
        } else {
            assert(!is_hex_digit(s[i - from]));
            return None;
        };
        value = value * 16 + digit;
        i = i + 1;
    }
    proof {
        assert(s.take(to - from) =~= s);
        lemma_hex_value_bound(s);
    }
    Some(value)
}

/// The first group of an IPv6 address.
fn read_first_group(h: &Vec<char>) -> (r: Option<u32>)
    ensures
        match r {
            Some(v) => first_group(h@) == Some(v as nat),
            None => first_group(h@) is None,
        },
{
    if h.len() == 0 || h[0] != '[' {
        return None;
    }
    let colon: usize = position_from(h, ':', 1);
    if colon < h.len() {
        read_group(h, 1, colon)
    } else {
        None
    }
}

/// The IPv4 address that is mapped into an IPv6 address.
fn read_mapped_ipv4(h: &Vec<char>) -> (r: Option<(u32, u32)>)
    ensures
        match r {
            Some((high, low)) => mapped_ipv4(h@) == Some((high as nat, low as nat)),
            None => mapped_ipv4(h@) is None,
        },
{
    proof {
        reveal_strlit("[::ffff:");
    }
    if !has_prefix(h, "[::ffff:") {
        return None;
    }
    let colon: usize = position_from(h, ':', 8);
    if colon >= h.len() {
        return None;
    }
    let end: usize = position_from(h, ']', colon + 1);
    if end != h.len() - 1 {
        return None;
    }
    match (read_group(h, 8, colon), read_group(h, colon + 1, end)) {
        (Some(high), Some(low)) => Some((high, low)),
        _ => None,
    }
}

/// Whether a host is the loopback address of IPv6, or one of IPv4 mapped into IPv6.
pub(crate) fn loopback_ipv6(h: &Vec<char>) -> (r: bool)
    ensures
        r == is_loopback_ipv6(h@),
{
    if same_text(h, "[::1]") {
        return true;
    }
    match read_mapped_ipv4(h) {
        Some((high, _)) => high / 256 == 127,
        None => false,
    }
}

/// Whether a host is an IPv6 address in a private or link-local network.
pub(crate) fn private_ipv6(h: &Vec<char>) -> (r: bool)
    ensures
        r == is_private_ipv6(h@),
{
    if let Some(first) = read_first_group(h) {
        if (0xfc00 <= first && first <= 0xfdff) || (0xfe80 <= first && first <= 0xfebf) {
            return true;
        }
    }
    match read_mapped_ipv4(h) {
        Some((high, _)) => high / 256 == 10 || (0xac10 <= high && high <= 0xac1f) || high == 0xc0a8
            || high == 0xa9fe,
        None => false,
    }
}

/// The small hexadecimal digit of `d`.
pub open spec fn hex_digit(d: nat) -> char {
    if d < 10 {
        (48 + d) as char
    } else {
        (87 + d) as char
    }
}

/// The hexadecimal numeral of `n`, in small letters and without leading zeros.
pub open spec fn hex_numeral(n: nat) -> Seq<char>
    decreases n,
{
    if n < 16 {
        seq![hex_digit(n)]
    } else {
        hex_numeral(n / 16).push(hex_digit(n % 16))
    }
}

proof fn lemma_hex_numeral(n: nat)
    ensures
        hex_numeral(n).len() > 0,
        n < 0x10 ==> hex_numeral(n).len() == 1,
        n < 0x100 ==> hex_numeral(n).len() <= 2,
        n < 0x1000 ==> hex_numeral(n).len() <= 3,
        n < 0x1_0000 ==> hex_numeral(n).len() <= 4,
        forall|i: int|
            0 <= i < hex_numeral(n).len() ==> is_hex_digit(#[trigger] hex_numeral(n)[i]),
        hex_value(hex_numeral(n)) == n,
    decreases n,
{
    let s = hex_numeral(n);
    if n < 16 {
        assert(s.drop_last() =~= seq![]);
        assert(hex_value(s.drop_last()) == 0);
        assert(s.last() == hex_digit(n));
    } else {
        lemma_hex_numeral(n / 16);
        assert(s.drop_last() =~= hex_numeral(n / 16));
        assert(s.last() == hex_digit(n % 16));
    }
}

/// A host that does not begin with a bracket is no IPv6 address.
pub(crate) proof fn lemma_brackets(h: Seq<char>)
    requires
        h.len() == 0 || h[0] != '[',
    ensures
        !is_loopback_ipv6(h),
        !is_private_ipv6(h),
{
    reveal_strlit("[::ffff:");
    reveal_strlit("[::1]");
    if h.len() >= 8 {
        assert(h.take(8)[0] == h[0]);
    }
}

/// An IPv6 address that is written out from its first group on is private or link-local exactly
/// if that group lies in fc00 to fdff or in fe80 to febf.
pub proof fn law_ipv6_private_networks(first: nat, rest: Seq<char>)
    requires
        first < 0x1_0000,
    ensures
        is_private_ipv6("["@ + hex_numeral(first) + ":"@ + rest) <==> is_private_group(first),
{
    let digits = hex_numeral(first);
    let h = "["@ + digits + ":"@ + rest;
    let k = digits.len() as int;
    lemma_hex_numeral(first);
    reveal_strlit("[");
    reveal_strlit(":");
    reveal_strlit("[::ffff:");
    assert forall|i: int| 1 <= i < 1 + k implies #[trigger] h[i] != ':' by {
        assert(h[i] == digits[i - 1]);
    }
    assert(h[1 + k] == ':');
    crate::text::lemma_find_from(h, ':', 1, 1 + k);
    assert(h.subrange(1, 1 + k) =~= digits);
    assert(h[1] == digits[0]);
    if h.len() >= 8 {
        assert(h.take(8)[1] == h[1]);
    }
}

/// An IPv4 address that is mapped into IPv6 counts as a loopback address or as private exactly
/// if its upper 16 bits do.
pub proof fn law_mapped_ipv4(high: nat, low: nat)
    requires
        high < 0x1_0000,
        low < 0x1_0000,
    ensures
        ({
            let h = "[::ffff:"@ + hex_numeral(high) + ":"@ + hex_numeral(low) + "]"@;
            &&& h[0] == '['
            &&& is_loopback_ipv6(h) <==> is_loopback_ipv4(high)
            &&& is_private_ipv6(h) <==> is_private_ipv4(high)
        }),
{
    let upper = hex_numeral(high);
    let lower = hex_numeral(low);
    let h = "[::ffff:"@ + upper + ":"@ + lower + "]"@;
    let k = upper.len() as int;
    let l = lower.len() as int;
    lemma_hex_numeral(high);
    lemma_hex_numeral(low);
    reveal_strlit("[::ffff:");
    reveal_strlit(":");
    reveal_strlit("]");
    reveal_strlit("[::1]");
    assert(h.take(8) =~= "[::ffff:"@);
    assert forall|i: int| 8 <= i < 8 + k implies #[trigger] h[i] != ':' by {
        assert(h[i] == upper[i - 8]);
    }
    assert(h[8 + k] == ':');
    crate::text::lemma_find_from(h, ':', 8, 8 + k);
    assert forall|i: int| 9 + k <= i < 9 + k + l implies #[trigger] h[i] != ']' by {
        assert(h[i] == lower[i - 9 - k]);
    }
    assert(h[9 + k + l] == ']');
    crate::text::lemma_find_from(h, ']', 9 + k, 9 + k + l);
    assert(h.subrange(8, 8 + k) =~= upper);
    assert(h.subrange(9 + k, 9 + k + l) =~= lower);
    assert(h[1] == ':');
    crate::text::lemma_find_from(h, ':', 1, 1);
    assert(h.subrange(1, 1).len() == 0);
}

/// A group is read digit by digit: one more makes it sixteen times as large, plus the digit.
pub proof fn law_groups_are_read_digit_by_digit(s: Seq<char>, c: char)
    requires
        s.len() < 4,
        s.len() > 0 ==> group_value(s) is Some,
        '0' <= c <= '9' || 'a' <= c <= 'f' || 'A' <= c <= 'F',
    ensures
        group_value(s.push(c)) is Some,
        ({
            let before = if s.len() == 0 {
                0
            } else {
                group_value(s)->0
            };
            let v = group_value(s.push(c))->0;
            &&& '0' <= c <= '9' ==> v == 16 * before + (c as u32 - 48)
            &&& 'a' <= c <= 'f' ==> v == 16 * before + (c as u32 - 87)
            &&& 'A' <= c <= 'F' ==> v == 16 * before + (c as u32 - 55)
        }),
{
    let t = s.push(c);
    assert(t.drop_last() =~= s);
    assert(t.last() == c);
    assert(hex_value(t) == hex_value(s) * 16 + hex_digit_value(c));
    if s.len() == 0 {
        assert(hex_value(s) == 0);
    }
    assert forall|i: int| 0 <= i < t.len() implies is_hex_digit(#[trigger] t[i]) by {
        if i < s.len() {
            assert(t[i] == s[i]);
        }
    }
}

/// A group has one to four digits, and nothing else.
pub proof fn law_only_hex_digits_are_groups(s: Seq<char>, i: int)
    ensures
        s.len() == 0 || s.len() > 4 ==> group_value(s) is None,
        0 <= i < s.len() && !('0' <= s[i] <= '9' || 'a' <= s[i] <= 'f' || 'A' <= s[i] <= 'F')
            ==> group_value(s) is None,
{
}

/// The private networks and loopback addresses by their numbers.
pub proof fn law_reserved_numbers(a: nat, b: nat)
    requires
        a < 256,
        b < 256,
    ensures
        is_loopback_ipv4(a * 256 + b) <==> a == 127,
        is_private_ipv4(a * 256 + b) <==> a == 10 || (a == 172 && 16 <= b <= 31) || (a == 192 && b
            == 168) || (a == 169 && b == 254),
        is_private_group(a * 256 + b) <==> a == 0xfc || a == 0xfd || (a == 0xfe && 0x80 <= b
            <= 0xbf),
{
}

/// An address that begins with zeros left out, and does not hold an IPv4 address, is private in
/// no case, and a loopback address exactly if it is `::1`.
pub proof fn law_addresses_that_begin_with_zeros(rest: Seq<char>)
    requires
        !crate::text::begins_with("[:"@ + rest, "[::ffff:"@),
    ensures
        !is_private_ipv6("[:"@ + rest),
        is_loopback_ipv6("[:"@ + rest) <==> "[:"@ + rest == "[::1]"@,
{
    let h = "[:"@ + rest;
    reveal_strlit("[:");
    assert(h[0] == '[' && h[1] == ':');
    crate::text::lemma_find_from(h, ':', 1, 1);
    assert(h.subrange(1, 1).len() == 0);
}

/// An address that is written out from its first group on is private exactly by that group,
/// however it is spelled; a text without a colon is no address.
pub proof fn law_first_groups(group: Seq<char>, rest: Seq<char>)
    requires
        group.len() > 0,
        !group.contains(':'),
    ensures
        is_private_ipv6("["@ + group + ":"@ + rest) <==> (group_value(group) matches Some(n) && (
        0xfc00 <= n <= 0xfdff || 0xfe80 <= n <= 0xfebf)),
        !is_loopback_ipv6("["@ + group + ":"@ + rest),
        !is_private_ipv6("["@ + group),
        !is_loopback_ipv6("["@ + group),
{
    let h = "["@ + group + ":"@ + rest;
    let t = "["@ + group;
    let k = group.len() as int;
    reveal_strlit("[");
    reveal_strlit(":");
    reveal_strlit("[::1]");
    reveal_strlit("[::ffff:");
    assert forall|i: int| 0 <= i < k implies #[trigger] group[i] != ':' by {
        if group[i] == ':' {
            assert(group.contains(':'));
        }
    }
    assert forall|i: int| 1 <= i < 1 + k implies #[trigger] h[i] != ':' by {
        assert(h[i] == group[i - 1]);
    }
    assert(h[1 + k] == ':');
    crate::text::lemma_find_from(h, ':', 1, 1 + k);
    assert(h.subrange(1, 1 + k) =~= group);
    assert(h[1] == group[0] && t[1] == group[0]);
    assert("[::1]"@[1] == ':' && "[::ffff:"@[1] == ':');
    if h.len() >= 8 {
        assert(h.take(8)[1] == h[1]);
    }
    if t.len() >= 8 {
        assert(t.take(8)[1] == t[1]);
    }
    crate::text::law_first_place(t, ':', 1);
    assert forall|i: int| 1 <= i < t.len() implies #[trigger] t[i] != ':' by {
        assert(t[i] == group[i - 1]);
    }
}

/// An address in `::ffff:0:0/96` is judged by its two last groups, however they are spelled: both
/// must be groups, and the first of them decides.
pub proof fn law_mapped_groups(high: Seq<char>, low: Seq<char>)
    requires
        !high.contains(':'),
        !low.contains(']'),
    ensures
        ({
            let h = "[::ffff:"@ + high + ":"@ + low + "]"@;
            let read = group_value(high) is Some && group_value(low) is Some;
            let n = group_value(high)->0;
            &&& is_loopback_ipv6(h) <==> read && n / 256 == 127
            &&& is_private_ipv6(h) <==> read && (n / 256 == 10 || (n / 256 == 172 && 16 <= n % 256
                <= 31) || (n / 256 == 192 && n % 256 == 168) || (n / 256 == 169 && n % 256 == 254))
        }),
{
    let h = "[::ffff:"@ + high + ":"@ + low + "]"@;
    let k = high.len() as int;
    let l = low.len() as int;
    reveal_strlit("[::ffff:");
    reveal_strlit(":");
    reveal_strlit("]");
    reveal_strlit("[::1]");
    assert(h.take(8) =~= "[::ffff:"@);
    assert forall|i: int| 8 <= i < 8 + k implies #[trigger] h[i] != ':' by {
        assert(h[i] == high[i - 8]);
        if high[i - 8] == ':' {
            assert(high.contains(':'));
        }
    }
    assert(h[8 + k] == ':');
    crate::text::lemma_find_from(h, ':', 8, 8 + k);
    assert forall|i: int| 9 + k <= i < 9 + k + l implies #[trigger] h[i] != ']' by {
        assert(h[i] == low[i - 9 - k]);
        if low[i - 9 - k] == ']' {
            assert(low.contains(']'));
        }
    }
    assert(h[9 + k + l] == ']');
    crate::text::lemma_find_from(h, ']', 9 + k, 9 + k + l);
    assert(h.subrange(8, 8 + k) =~= high);
    assert(h.subrange(9 + k, 9 + k + l) =~= low);
    assert(h[1] == ':');
    crate::text::lemma_find_from(h, ':', 1, 1);
    assert(h.subrange(1, 1).len() == 0);
    if group_value(high) is Some {
        lemma_hex_value_bound(high);
    }
}

} // verus!
