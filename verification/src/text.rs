//! Characters and decimal numbers: the small vocabulary that the other modules state
//! their contracts in.
use vstd::prelude::*;

verus! {

/// Std's `String::push` appends one character to the end of the string.
pub assume_specification[ String::push ](s: &mut String, c: char)
    ensures
        final(s)@ == old(s)@.push(c),
;

/// Whether `c` is a letter or a number of Unicode, as std's tables have it.
pub uninterp spec fn char_alphanumeric(c: char) -> bool;

/// Whether `c` is an ASCII letter or digit.
pub open spec fn ascii_alphanumeric(c: char) -> bool {
    '0' <= c <= '9' || 'A' <= c <= 'Z' || 'a' <= c <= 'z'
}

/// Std's `char::is_alphanumeric` tells whether a character is alphabetic or numeric in
/// Unicode's sense; among the ASCII characters these are the letters and the digits.
pub assume_specification[ char::is_alphanumeric ](c: char) -> (r: bool)
    ensures
        r == char_alphanumeric(c),
        (c as u32) < 128 ==> r == ascii_alphanumeric(c),
;

/// The characters of `s`, in order.
pub fn chars_of(s: &str) -> (r: Vec<char>)
    ensures
        r@ == s@,
{
    let mut out: Vec<char> = Vec::new();
    for c in it: s.chars()
        invariant
            it.seq() == s@,
            out@ == s@.take(it.index() as int),
    {
        out.push(c);
        proof {
            assert(s@.take(it.index() + 1) =~= s@.take(it.index() as int).push(c));
        }
    }
    proof {
        assert(s@.take(s@.len() as int) =~= s@);
    }
    out
}

/// The digit character of `d`.
pub open spec fn digit_char(d: nat) -> char {
    (48 + d) as char
}

/// The decimal numeral of `n`, without leading zeros.
pub open spec fn decimal(n: nat) -> Seq<char>
    decreases n,
{
    if n < 10 {
        seq![digit_char(n)]
    } else {
        decimal(n / 10).push(digit_char(n % 10))
    }
}

/// Appends the decimal numeral of `n`.
pub fn push_decimal(out: &mut String, n: u64)
    ensures
        final(out)@ == old(out)@ + decimal(n as nat),
    decreases n,
{
    if n >= 10 {
        push_decimal(out, n / 10);
    }
    let d: u8 = (n % 10) as u8;
    out.push((48 + d) as char);
    proof {
        assert(out@ =~= old(out)@ + decimal(n as nat));
    }
}

/// Whether `c` is one of `0` to `9`.
pub open spec fn is_digit(c: char) -> bool {
    '0' <= c <= '9'
}

/// The number that a run of digits stands for; zero for the empty run.
pub open spec fn digits_value(s: Seq<char>) -> nat
    decreases s.len(),
{
    if s.len() == 0 {
        0
    } else {
        digits_value(s.drop_last()) * 10 + (s.last() as nat - 48) as nat
    }
}

/// What remains of a numeral after the optional sign `+`.
pub open spec fn without_plus(s: Seq<char>) -> Seq<char> {
    if s.len() > 0 && s[0] == '+' {
        s.skip(1)
    } else {
        s
    }
}

/// The number written as an optional `+` followed by at least one digit and nothing else.
pub open spec fn parse_decimal(s: Seq<char>) -> Option<nat> {
    let body = without_plus(s);
    if body.len() > 0 && (forall|i: int| 0 <= i < body.len() ==> is_digit(#[trigger] body[i])) {
        Some(digits_value(body))
    } else {
        None
    }
}

/// `parse_decimal` restricted to the numbers up to `max`.
pub open spec fn parse_up_to(s: Seq<char>, max: nat) -> Option<nat> {
    match parse_decimal(s) {
        Some(v) => if v <= max {
            Some(v)
        } else {
            None
        },
        None => None,
    }
}

proof fn lemma_digits_value_grows(s: Seq<char>, i: int)
    requires
        0 <= i <= s.len(),
    ensures
        digits_value(s.take(i)) <= digits_value(s),
    decreases s.len() - i,
{
    if i == s.len() {
        assert(s.take(i) =~= s);
    } else {
        lemma_digits_value_grows(s, i + 1);
        assert(s.take(i + 1).drop_last() =~= s.take(i));
    }
}

/// Reads an unsigned 64-bit number: an optional `+`, then digits only.
pub fn parse_u64(s: &Vec<char>) -> (r: Option<u64>)
    ensures
        match r {
            Some(v) => parse_up_to(s@, u64::MAX as nat) == Some(v as nat),
            None => parse_up_to(s@, u64::MAX as nat) is None,
        },
{
    let n: usize = s.len();
    let begin: usize = if n > 0 && s[0] == '+' {
        1
    } else {
        0
    };
    let ghost body = without_plus(s@);
    proof {
        assert(body =~= s@.skip(begin as int));
    }
    if begin >= n {
        return None;
    }
    let mut value: u64 = 0;
    let mut i: usize = begin;
    while i < n
        invariant
            n == s@.len(),
            begin <= i <= n,
            body == s@.skip(begin as int),
            body == without_plus(s@),
            value == digits_value(body.take(i - begin)),
            forall|j: int| 0 <= j < i - begin ==> is_digit(#[trigger] body[j]),
        decreases n - i,
    {
        let c: char = s[i];
        assert(c == body[i - begin]);
        if !('0' <= c && c <= '9') {
            return None;
        }
        let d: u64 = (c as u32 - 48) as u64;
        let next: u128 = value as u128 * 10 + d as u128;
        proof {
            let k = i - begin;
            assert(body.take(k + 1).drop_last() =~= body.take(k));
            assert(digits_value(body.take(k + 1)) == value * 10 + d);
            lemma_digits_value_grows(body, k + 1);
        }
        if next > u64::MAX as u128 {
            return None;
        }
        value = next as u64;
        i = i + 1;
    }
    proof {
        assert(body.take(n - begin) =~= body);
    }
    Some(value)
}

/// Whether `s` begins with `p`.
pub open spec fn begins_with(s: Seq<char>, p: Seq<char>) -> bool {
    p.len() <= s.len() && s.take(p.len() as int) == p
}

/// Whether the characters of `p` stand in `s` from `at` on.
pub open spec fn occurs_at(s: Seq<char>, p: Seq<char>, at: int) -> bool {
    0 <= at && at + p.len() <= s.len() && s.subrange(at, at + p.len()) == p
}

/// Whether `p` stands somewhere in `s`.
pub open spec fn contains_text(s: Seq<char>, p: Seq<char>) -> bool {
    exists|at: int| occurs_at(s, p, at)
}

/// Whether the characters of `p` stand in `s` from `at` on.
pub fn has_text_at(s: &Vec<char>, p: &Vec<char>, at: usize) -> (r: bool)
    requires
        at + p@.len() <= s@.len(),
    ensures
        r == occurs_at(s@, p@, at as int),
{
    let n: usize = s.len();
    let mut i: usize = 0;
    while i < p.len()
        invariant
            n == s@.len(),
            at + p@.len() <= n,
            i <= p@.len(),
            forall|j: int| 0 <= j < i ==> s@[at + j] == p@[j],
        decreases p@.len() - i,
    {
        if s[at + i] != p[i] {
            assert(s@.subrange(at as int, at + p@.len())[i as int] != p@[i as int]);
            return false;
        }
        i = i + 1;
    }
    assert(s@.subrange(at as int, at + p@.len()) =~= p@);
    true
}

/// Whether `s` begins with `p`.
pub fn has_prefix(s: &Vec<char>, p: &str) -> (r: bool)
    ensures
        r == begins_with(s@, p@),
{
    let prefix: Vec<char> = chars_of(p);
    if prefix.len() > s.len() {
        return false;
    }
    assert(s@.subrange(0, p@.len() as int) =~= s@.take(p@.len() as int));
    has_text_at(s, &prefix, 0)
}

/// Whether `s` is `p`.
pub fn same_text(s: &Vec<char>, p: &str) -> (r: bool)
    ensures
        r == (s@ == p@),
{
    let other: Vec<char> = chars_of(p);
    if other.len() != s.len() {
        return false;
    }
    assert(s@.subrange(0, p@.len() as int) =~= s@);
    has_text_at(s, &other, 0)
}

/// Whether `p` stands somewhere in `s`.
pub fn has_text(s: &Vec<char>, p: &str) -> (r: bool)
    ensures
        r == contains_text(s@, p@),
{
    let part: Vec<char> = chars_of(p);
    if part.len() > s.len() {
        return false;
    }
    let last: usize = s.len() - part.len();
    let mut at: usize = 0;
    while at <= last
        invariant
            part@ == p@,
            last + part@.len() == s@.len(),
            at <= last + 1,
            forall|j: int| 0 <= j < at ==> !occurs_at(s@, p@, j),
        decreases last + 1 - at,
    {
        if has_text_at(s, &part, at) {
            assert(occurs_at(s@, p@, at as int));
            return true;
        }
        if at == last {
            assert forall|j: int| !occurs_at(s@, p@, j) by {
            }
            return false;
        }
        at = at + 1;
    }
    false
}

/// The first place from `from` on at which `c` stands in `s`; the length of `s` if there is none.
pub open spec fn find_from(s: Seq<char>, c: char, from: int) -> int
    decreases s.len() - from,
{
    if from >= s.len() {
        s.len() as int
    } else if s[from] == c {
        from
    } else {
        find_from(s, c, from + 1)
    }
}

/// The first place from `from` on at which `c` stands in `s`; the length of `s` if there is none.
pub fn position_from(s: &Vec<char>, c: char, from: usize) -> (r: usize)
    requires
        from <= s@.len(),
    ensures
        r == find_from(s@, c, from as int),
        from <= r <= s@.len(),
{
    let mut i: usize = from;
    while i < s.len()
        invariant
            from <= i <= s@.len(),
            find_from(s@, c, from as int) == find_from(s@, c, i as int),
        decreases s@.len() - i,
    {
        if s[i] == c {
            return i;
        }
        i = i + 1;
    }
    i
}

/// The last place at which `c` stands in `s`; -1 if there is none.
pub open spec fn find_last(s: Seq<char>, c: char) -> int
    decreases s.len(),
{
    if s.len() == 0 {
        -1
    } else if s.last() == c {
        s.len() - 1
    } else {
        find_last(s.drop_last(), c)
    }
}

/// What follows the last `c` of `s`, if `c` stands in `s`.
pub open spec fn after_last(s: Seq<char>, c: char) -> Option<Seq<char>> {
    if find_last(s, c) < 0 {
        None
    } else {
        Some(s.skip(find_last(s, c) + 1))
    }
}

/// What follows the last `c` of `s`, if `c` stands in `s`.
pub fn tail_after_last(s: &Vec<char>, c: char) -> (r: Option<Vec<char>>)
    ensures
        match r {
            Some(t) => after_last(s@, c) == Some(t@),
            None => after_last(s@, c) is None,
        },
{
    let n: usize = s.len();
    let mut i: usize = n;
    proof {
        assert(s@.take(n as int) =~= s@);
    }
    while i > 0
        invariant
            n == s@.len(),
            i <= n,
            find_last(s@, c) == find_last(s@.take(i as int), c),
        decreases i,
    {
        proof {
            assert(s@.take(i as int).drop_last() =~= s@.take(i - 1));
        }
        if s[i - 1] == c {
            let t: Vec<char> = part_of(s, i, n);
            proof {
                assert(t@ =~= s@.skip(i as int));
            }
            return Some(t);
        }
        i = i - 1;
    }
    None
}

/// The characters of `s` from `from` up to, not including, `to`.
pub fn part_of(s: &Vec<char>, from: usize, to: usize) -> (r: Vec<char>)
    requires
        from <= to <= s@.len(),
    ensures
        r@ == s@.subrange(from as int, to as int),
{
    let mut out: Vec<char> = Vec::new();
    let mut i: usize = from;
    while i < to
        invariant
            from <= i <= to <= s@.len(),
            out@ == s@.subrange(from as int, i as int),
        decreases to - i,
    {
        out.push(s[i]);
        i = i + 1;
        proof {
            assert(s@.subrange(from as int, i as int) =~= s@.subrange(from as int, i - 1).push(
                s@[i - 1],
            ));
        }
    }
    out
}

/// The string of the characters of `s`.
pub fn string_of(s: &Vec<char>) -> (r: String)
    ensures
        r@ == s@,
{
    let mut out: String = String::new();
    let mut i: usize = 0;
    while i < s.len()
        invariant
            i <= s@.len(),
            out@ == s@.take(i as int),
        decreases s@.len() - i,
    {
        out.push(s[i]);
        i = i + 1;
        proof {
            assert(s@.take(i as int) =~= s@.take(i - 1).push(s@[i - 1]));
        }
    }
    proof {
        assert(s@.take(i as int) =~= s@);
    }
    out
}

/// `c` with an ASCII capital letter turned into its small letter.
pub open spec fn ascii_lower(c: char) -> char {
    if 'A' <= c <= 'Z' {
        (c as u32 + 32) as char
    } else {
        c
    }
}

/// `s` with every ASCII capital letter turned into its small letter.
pub open spec fn lower_text(s: Seq<char>) -> Seq<char> {
    s.map_values(|c: char| ascii_lower(c))
}

/// `s` with every ASCII capital letter turned into its small letter.
pub fn lower_chars(s: &Vec<char>) -> (r: Vec<char>)
    ensures
        r@ == lower_text(s@),
{
    let mut out: Vec<char> = Vec::new();
    let mut i: usize = 0;
    while i < s.len()
        invariant
            i <= s@.len(),
            out@ == lower_text(s@).take(i as int),
        decreases s@.len() - i,
    {
        let c: char = s[i];
        let l: char = if 'A' <= c && c <= 'Z' {
            (c as u8 + 32) as char
        } else {
            c
        };
        out.push(l);
        i = i + 1;
        proof {
            assert(lower_text(s@).take(i as int) =~= lower_text(s@).take(i - 1).push(l));
        }
    }
    proof {
        assert(lower_text(s@).take(i as int) =~= lower_text(s@));
    }
    out
}

proof fn lemma_decimal(n: nat)
    ensures
        decimal(n).len() > 0,
        forall|i: int| 0 <= i < decimal(n).len() ==> is_digit(#[trigger] decimal(n)[i]),
        digits_value(decimal(n)) == n,
    decreases n,
{
    if n < 10 {
        assert(decimal(n).drop_last() =~= seq![]);
        assert(digits_value(decimal(n).drop_last()) == 0);
        assert(decimal(n).last() == digit_char(n));
    } else {
        lemma_decimal(n / 10);
        assert(decimal(n).drop_last() =~= decimal(n / 10));
        assert(decimal(n).last() == digit_char(n % 10));
    }
}

/// A number is read back from its numeral.
pub proof fn law_numerals_are_read_back(n: nat)
    ensures
        parse_decimal(decimal(n)) == Some(n),
{
    lemma_decimal(n);
    assert(is_digit(decimal(n)[0]));
}

pub(crate) proof fn lemma_find_last(s: Seq<char>, c: char, t: Seq<char>)
    requires
        forall|i: int| 0 <= i < t.len() ==> #[trigger] t[i] != c,
    ensures
        find_last(s.push(c) + t, c) == s.len(),
    decreases t.len(),
{
    let whole = s.push(c) + t;
    if t.len() == 0 {
        assert(whole =~= s.push(c));
    } else {
        assert(whole.last() == t[t.len() - 1]);
        assert(whole.drop_last() =~= s.push(c) + t.drop_last());
        lemma_find_last(s, c, t.drop_last());
    }
}

/// A numeral behind the last slash of a text is what follows that slash, whatever stands
/// before it.
pub proof fn law_numeral_after_last_slash(before: Seq<char>, n: nat)
    ensures
        after_last(before.push('/') + decimal(n), '/') == Some(decimal(n)),
{
    lemma_numeral_has_no(n, '/');
    lemma_find_last(before, '/', decimal(n));
    assert((before.push('/') + decimal(n)).skip(before.len() as int + 1) =~= decimal(n));
}

pub(crate) proof fn lemma_find_from(s: Seq<char>, c: char, from: int, to: int)
    requires
        0 <= from <= to < s.len(),
        forall|i: int| from <= i < to ==> #[trigger] s[i] != c,
        s[to] == c,
    ensures
        find_from(s, c, from) == to,
    decreases to - from,
{
    if from < to {
        lemma_find_from(s, c, from + 1, to);
    }
}

pub(crate) proof fn lemma_numeral_has_no(n: nat, c: char)
    requires
        !is_digit(c),
    ensures
        forall|i: int| 0 <= i < decimal(n).len() ==> #[trigger] decimal(n)[i] != c,
{
    lemma_decimal(n);
    assert forall|i: int| 0 <= i < decimal(n).len() implies #[trigger] decimal(n)[i] != c by {
        assert(is_digit(decimal(n)[i]));
    }
}

/// A text begins with another exactly if it is the other with something behind it.
pub proof fn law_beginning(s: Seq<char>, p: Seq<char>)
    ensures
        begins_with(s, p) <==> exists|t: Seq<char>| s == #[trigger] (p + t),
{
    if begins_with(s, p) {
        assert(s =~= p + s.skip(p.len() as int));
    }
    if exists|t: Seq<char>| s == #[trigger] (p + t) {
        let t = choose|t: Seq<char>| s == #[trigger] (p + t);
        assert(s.take(p.len() as int) =~= p);
    }
}

/// A text holds another exactly if it is the other with something, or nothing, on either side.
pub proof fn law_containing(s: Seq<char>, p: Seq<char>)
    ensures
        contains_text(s, p) <==> exists|a: Seq<char>, b: Seq<char>| s == #[trigger] (a + p + b),
{
    if contains_text(s, p) {
        let at = choose|at: int| occurs_at(s, p, at);
        let (a, b) = (s.take(at), s.skip(at + p.len()));
        assert forall|i: int| at <= i < at + p.len() implies s[i] == #[trigger] p[i - at] by {
            assert(s.subrange(at, at + p.len())[i - at] == p[i - at]);
        }
        assert(s =~= a + p + b);
    }
    if exists|a: Seq<char>, b: Seq<char>| s == #[trigger] (a + p + b) {
        let (a, b) = choose|a: Seq<char>, b: Seq<char>| s == #[trigger] (a + p + b);
        assert(s.subrange(a.len() as int, (a.len() + p.len()) as int) =~= p);
        assert(occurs_at(s, p, a.len() as int));
    }
}

/// The place found holds the character, unless it is the end, and no place before it does.
pub proof fn law_first_place(s: Seq<char>, c: char, from: int)
    requires
        0 <= from <= s.len(),
    ensures
        from <= find_from(s, c, from) <= s.len(),
        find_from(s, c, from) < s.len() ==> s[find_from(s, c, from)] == c,
        forall|i: int| from <= i < find_from(s, c, from) ==> #[trigger] s[i] != c,
    decreases s.len() - from,
{
    if from < s.len() && s[from] != c {
        law_first_place(s, c, from + 1);
    }
}

proof fn lemma_last_place(s: Seq<char>, c: char)
    ensures
        -1 <= find_last(s, c) < s.len(),
        find_last(s, c) >= 0 ==> s[find_last(s, c)] == c,
        forall|i: int| find_last(s, c) < i < s.len() ==> #[trigger] s[i] != c,
    decreases s.len(),
{
    if s.len() > 0 && s.last() != c {
        lemma_last_place(s.drop_last(), c);
        assert forall|i: int| find_last(s, c) < i < s.len() implies #[trigger] s[i] != c by {
            if i < s.len() - 1 {
                assert(s[i] == s.drop_last()[i]);
            }
        }
    }
}

/// What follows the last of a character holds that character no more, and with what stands
/// before makes up the text; it is missing exactly where the character is.
pub proof fn law_text_behind_the_last(s: Seq<char>, c: char)
    ensures
        after_last(s, c) is Some <==> s.contains(c),
        after_last(s, c) matches Some(t) ==> !t.contains(c) && exists|before: Seq<char>|
            s == #[trigger] before.push(c) + t,
{
    lemma_last_place(s, c);
    let at = find_last(s, c);
    if at >= 0 {
        let t = s.skip(at + 1);
        assert(s =~= s.take(at).push(c) + t);
        assert forall|i: int| 0 <= i < t.len() implies t[i] != c by {
            assert(t[i] == s[i + at + 1]);
        }
        assert(s.contains(c));
    }
}

/// In lower case, a text keeps its length; capital letters of ASCII move by 32 in the code, and
/// every other character stays.
pub proof fn law_lower_case(s: Seq<char>, i: int)
    requires
        0 <= i < s.len(),
    ensures
        lower_text(s).len() == s.len(),
        s[i] >= 'A' && s[i] <= 'Z' ==> lower_text(s)[i] as u32 == s[i] as u32 + 32,
        s[i] < 'A' || s[i] > 'Z' ==> lower_text(s)[i] == s[i],
{
}

/// A number is read from left to right: one digit more makes it ten times as large, plus the
/// digit. A plus sign in front changes nothing.
pub proof fn law_numbers_are_read_digit_by_digit(s: Seq<char>, c: char)
    requires
        '0' <= c <= '9',
    ensures
        parse_decimal(seq![c]) == Some((c as u32 - 48) as nat),
        s.len() > 0 && s[0] != '+' ==> parse_decimal(seq!['+'] + s) == parse_decimal(s),
        parse_decimal(s) matches Some(v) ==> parse_decimal(s.push(c)) == Some(
            (10 * v + (c as u32 - 48)) as nat,
        ),
{
    let one = seq![c];
    assert(one.drop_last() =~= seq![]);
    assert(digits_value(one.drop_last()) == 0);
    assert(without_plus(one) == one);
    if s.len() > 0 && s[0] != '+' {
        assert((seq!['+'] + s).skip(1) =~= s);
    }
    if parse_decimal(s) is Some {
        let body = without_plus(s);
        let longer = without_plus(s.push(c));
        assert(longer =~= body.push(c));
        assert(body.push(c).drop_last() =~= body);
        assert forall|i: int| 0 <= i < longer.len() implies is_digit(#[trigger] longer[i]) by {
            if i < body.len() {
                assert(longer[i] == body[i]);
            }
        }
    }
}

/// Nothing but digits behind an optional plus sign is a number: not the empty text, not the sign
/// alone, and no text with another character anywhere.
pub proof fn law_only_digits_are_numbers(s: Seq<char>, i: int)
    requires
        0 <= i < s.len(),
        s[i] < '0' || s[i] > '9',
        i > 0 || s[0] != '+',
    ensures
        parse_decimal(s) is None,
        parse_decimal(seq![]) is None,
        parse_decimal(seq!['+']) is None,
{
    let body = without_plus(s);
    if s[0] == '+' {
        assert(body[i - 1] == s[i]);
    } else {
        assert(body[i] == s[i]);
    }
    assert(seq!['+'].skip(1) =~= seq![]);
}

/// A bound changes no number up to it and lets no other pass.
pub proof fn law_bounded_numbers(s: Seq<char>, max: nat, v: nat)
    ensures
        parse_up_to(s, max) == Some(v) <==> parse_decimal(s) == Some(v) && v <= max,
{
}

/// A numeral is made of digits, begins with a zero only if it is that zero, and is read back as
/// its number: there is only one such numeral for each number.
pub proof fn law_numerals(n: nat, i: int)
    requires
        0 <= i < decimal(n).len(),
    ensures
        '0' <= decimal(n)[i] <= '9',
        n > 0 ==> decimal(n)[0] != '0',
        n < 10 ==> decimal(n).len() == 1,
        decimal(10 * n) == (if n == 0 {
            decimal(0)
        } else {
            decimal(n).push('0')
        }),
        parse_decimal(decimal(n)) == Some(n),
    decreases n,
{
    lemma_decimal(n);
    law_numerals_are_read_back(n);
    assert(is_digit(decimal(n)[i]));
    if n >= 10 {
        lemma_decimal(n / 10);
        law_numerals(n / 10, 0);
        assert(decimal(n)[0] == decimal(n / 10)[0]);
    }
    if n > 0 {
        assert(10 * n / 10 == n && 10 * n % 10 == 0);
    }
}

/// `parse_u64` reads exactly the numbers that fit.
pub proof fn law_parsed_numbers_fit(s: &Vec<char>, r: Option<u64>)
    requires
        call_ensures(parse_u64, (s,), r),
    ensures
        r matches Some(v) ==> parse_decimal(s@) == Some(v as nat),
        r is None ==> (parse_decimal(s@) matches Some(v) ==> v > u64::MAX),
{
}

/// Appending a numeral leaves what stands before it.
pub proof fn law_numerals_are_appended(out: &mut String, n: u64)
    requires
        call_ensures(push_decimal, (out, n), ()),
    ensures
        final(out)@ == old(out)@ + decimal(n as nat),
{
}

} // verus!
