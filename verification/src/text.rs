//! Character-level string helpers with exact contracts over `Seq<char>`.
use vstd::prelude::*;

use crate::Cmp;
use vstd::string::*;

verus! {

/// The index of the first occurrence of `c` in `s`, if any.
pub open spec fn first_index_of(s: Seq<char>, c: char) -> Option<int>
    decreases s.len(),
{
    if s.len() == 0 {
        None
    } else if s[0] == c {
        Some(0)
    } else {
        match first_index_of(s.drop_first(), c) {
            Some(i) => Some(i + 1),
            None => None,
        }
    }
}

pub proof fn lemma_first_index_of(s: Seq<char>, c: char)
    ensures
        match first_index_of(s, c) {
            Some(i) => 0 <= i < s.len() && s[i] == c && forall|j: int| 0 <= j < i ==> s[j] != c,
            None => forall|j: int| 0 <= j < s.len() ==> s[j] != c,
        },
    decreases s.len(),
{
    if s.len() > 0 && s[0] != c {
        lemma_first_index_of(s.drop_first(), c);
        match first_index_of(s.drop_first(), c) {
            Some(i) => {
                assert forall|j: int| 0 <= j < i + 1 implies s[j] != c by {
                    if j > 0 {
                        assert(s[j] == s.drop_first()[j - 1]);
                    }
                }
            },
            None => {
                assert forall|j: int| 0 <= j < s.len() implies s[j] != c by {
                    if j > 0 {
                        assert(s[j] == s.drop_first()[j - 1]);
                    }
                }
            },
        }
    }
}

pub proof fn lemma_first_index_of_unique(s: Seq<char>, c: char, i: int)
    requires
        0 <= i < s.len(),
        s[i] == c,
        forall|j: int| 0 <= j < i ==> s[j] != c,
    ensures
        first_index_of(s, c) == Some(i),
{
    lemma_first_index_of(s, c);
}

/// Does `s` contain the character `c`?
pub open spec fn has_char(s: Seq<char>, c: char) -> bool {
    exists|i: int| 0 <= i < s.len() && s[i] == c
}

/// `s` with one trailing `c` removed, if it ends with `c`.
pub open spec fn strip_suffix_char(s: Seq<char>, c: char) -> Option<Seq<char>> {
    if s.len() > 0 && s.last() == c {
        Some(s.drop_last())
    } else {
        None
    }
}

/// Compares two strings character by character.
pub fn str_eq(a: &str, b: &str) -> (r: bool)
    ensures
        r == (a@ == b@),
{
    let n = a.unicode_len();
    let m = b.unicode_len();
    if n != m {
        return false;
    }
    let mut i: usize = 0;
    while i < n
        invariant
            n == a@.len(),
            m == b@.len(),
            n == m,
            i <= n,
            forall|j: int| 0 <= j < i ==> a@[j] == b@[j],
        decreases n - i,
    {
        if a.get_char(i) != b.get_char(i) {
            return false;
        }
        i = i + 1;
    }
    assert(a@ =~= b@);
    true
}

/// Does `s` start with `prefix`?
pub fn starts_with(s: &str, prefix: &str) -> (r: bool)
    ensures
        r == prefix@.is_prefix_of(s@),
{
    let n = s.unicode_len();
    let m = prefix.unicode_len();
    if m > n {
        return false;
    }
    let mut i: usize = 0;
    while i < m
        invariant
            n == s@.len(),
            m == prefix@.len(),
            m <= n,
            i <= m,
            forall|j: int| 0 <= j < i ==> prefix@[j] == s@[j],
        decreases m - i,
    {
        if s.get_char(i) != prefix.get_char(i) {
            assert(prefix@[i as int] != s@.subrange(0, m as int)[i as int]);
            return false;
        }
        i = i + 1;
    }
    assert(prefix@ =~= s@.subrange(0, m as int));
    true
}

/// Does `s` end with `suffix`?
pub fn ends_with(s: &str, suffix: &str) -> (r: bool)
    ensures
        r == suffix@.is_suffix_of(s@),
{
    let n = s.unicode_len();
    let m = suffix.unicode_len();
    if m > n {
        return false;
    }
    let off = n - m;
    let mut i: usize = 0;
    while i < m
        invariant
            n == s@.len(),
            m == suffix@.len(),
            m <= n,
            off == n - m,
            i <= m,
            forall|j: int| 0 <= j < i ==> suffix@[j] == s@[off + j],
        decreases m - i,
    {
        if s.get_char(off + i) != suffix.get_char(i) {
            assert(suffix@[i as int] != s@.subrange(off as int, n as int)[i as int]);
            return false;
        }
        i = i + 1;
    }
    assert(suffix@ =~= s@.subrange(off as int, n as int));
    true
}

/// The index of the first `c` in `s`.
pub fn find_char(s: &str, c: char) -> (r: Option<usize>)
    ensures
        match r {
            Some(i) => first_index_of(s@, c) == Some(i as int),
            None => first_index_of(s@, c) is None,
        },
{
    let n = s.unicode_len();
    let mut i: usize = 0;
    while i < n
        invariant
            n == s@.len(),
            i <= n,
            forall|j: int| 0 <= j < i ==> s@[j] != c,
        decreases n - i,
    {
        if s.get_char(i) == c {
            proof {
                lemma_first_index_of_unique(s@, c, i as int);
            }
            return Some(i);
        }
        i = i + 1;
    }
    proof {
        lemma_first_index_of(s@, c);
        if first_index_of(s@, c) is Some {
            let k = first_index_of(s@, c)->0;
            assert(s@[k] == c);
        }
    }
    None
}

/// Does `s` contain `c`?
pub fn contains_char(s: &str, c: char) -> (r: bool)
    ensures
        r == has_char(s@, c),
{
    let found = find_char(s, c);
    proof {
        lemma_first_index_of(s@, c);
    }
    found.is_some()
}

/// An owned copy of `s`.
pub fn to_owned(s: &str) -> (r: String)
    ensures
        r@ == s@,
{
    String::from_str(s)
}

/// `a` followed by `b`.
pub fn concat(a: &str, b: &str) -> (r: String)
    ensures
        r@ == a@ + b@,
{
    let mut out = String::from_str(a);
    out.append(b);
    out
}

/// The characters of `s` from `from` up to (not including) `to`.
pub fn substring(s: &str, from: usize, to: usize) -> (r: String)
    requires
        from <= to <= s@.len(),
    ensures
        r@ == s@.subrange(from as int, to as int),
{
    String::from_str(s.substring_char(from, to))
}

/// The lexicographic order of two strings, character by character.
pub open spec fn lex_order(a: Seq<char>, b: Seq<char>) -> Cmp
    decreases a.len(),
{
    if a.len() == 0 {
        if b.len() == 0 {
            Cmp::Equal
        } else {
            Cmp::Less
        }
    } else if b.len() == 0 {
        Cmp::Greater
    } else if a[0] < b[0] {
        Cmp::Less
    } else if a[0] > b[0] {
        Cmp::Greater
    } else {
        lex_order(a.drop_first(), b.drop_first())
    }
}

pub proof fn lemma_lex_order_skip(a: Seq<char>, b: Seq<char>, i: int)
    requires
        0 <= i <= a.len(),
        i <= b.len(),
        forall|j: int| 0 <= j < i ==> a[j] == b[j],
    ensures
        lex_order(a, b) == lex_order(a.skip(i), b.skip(i)),
    decreases i,
{
    if i > 0 {
        assert(a.drop_first().skip(i - 1) =~= a.skip(i));
        assert(b.drop_first().skip(i - 1) =~= b.skip(i));
        assert forall|j: int| 0 <= j < i - 1 implies a.drop_first()[j] == b.drop_first()[j] by {
            assert(a[j + 1] == b[j + 1]);
        }
        assert(a[0] == b[0]);
        assert(lex_order(a, b) == lex_order(a.drop_first(), b.drop_first()));
        lemma_lex_order_skip(a.drop_first(), b.drop_first(), i - 1);
    } else {
        assert(a.skip(0) =~= a);
        assert(b.skip(0) =~= b);
    }
}

/// Compares two strings lexicographically.
pub fn str_compare(a: &str, b: &str) -> (r: Cmp)
    ensures
        r == lex_order(a@, b@),
{
    let n = a.unicode_len();
    let m = b.unicode_len();
    let mut i: usize = 0;
    while i < n && i < m
        invariant
            n == a@.len(),
            m == b@.len(),
            i <= n,
            i <= m,
            forall|j: int| 0 <= j < i ==> a@[j] == b@[j],
        decreases n - i,
    {
        let x = a.get_char(i);
        let y = b.get_char(i);
        if x != y {
            proof {
                lemma_lex_order_skip(a@, b@, i as int);
                assert(a@.skip(i as int)[0] == x);
                assert(b@.skip(i as int)[0] == y);
            }
            if x < y {
                return Cmp::Less;
            } else {
                return Cmp::Greater;
            }
        }
        i = i + 1;
    }
    proof {
        lemma_lex_order_skip(a@, b@, i as int);
    }
    if i < m {
        Cmp::Less
    } else if i < n {
        Cmp::Greater
    } else {
        Cmp::Equal
    }
}

/// `String::push` appends one character, as its documentation states.
/// The ASCII digit for `d`.
pub open spec fn digit_char(d: int) -> char {
    if d == 0 {
        '0'
    } else if d == 1 {
        '1'
    } else if d == 2 {
        '2'
    } else if d == 3 {
        '3'
    } else if d == 4 {
        '4'
    } else if d == 5 {
        '5'
    } else if d == 6 {
        '6'
    } else if d == 7 {
        '7'
    } else if d == 8 {
        '8'
    } else {
        '9'
    }
}

/// The decimal digits of `n`, most significant first, without leading zeros.
pub open spec fn digits_of(n: nat) -> Seq<char>
    decreases n,
{
    if n < 10 {
        seq![digit_char(n as int)]
    } else {
        digits_of(n / 10).push(digit_char((n % 10) as int))
    }
}

/// The decimal rendering of `x`, with a leading `-` when negative.
pub open spec fn decimal(x: int) -> Seq<char> {
    if x < 0 {
        seq!['-'] + digits_of((-x) as nat)
    } else {
        digits_of(x as nat)
    }
}

fn digit(d: u64) -> (r: char)
    requires
        d < 10,
    ensures
        r == digit_char(d as int),
{
    if d == 0 {
        '0'
    } else if d == 1 {
        '1'
    } else if d == 2 {
        '2'
    } else if d == 3 {
        '3'
    } else if d == 4 {
        '4'
    } else if d == 5 {
        '5'
    } else if d == 6 {
        '6'
    } else if d == 7 {
        '7'
    } else if d == 8 {
        '8'
    } else {
        '9'
    }
}

/// The decimal digits of `m`.
fn digits_string(m: u64) -> (r: String)
    ensures
        r@ == digits_of(m as nat),
{
    let mut m = m;
    let ghost n0: nat = m as nat;
    let mut low_first: Vec<char> = Vec::new();
    let ghost mut tail: Seq<char> = Seq::empty();
    while m >= 10
        invariant
            digits_of(n0) == digits_of(m as nat) + tail,
            tail.len() == low_first@.len(),
            forall|k: int| 0 <= k < tail.len() ==> tail[k] == low_first@[low_first@.len() - 1 - k],
        decreases m,
    {
        let d = digit(m % 10);
        low_first.push(d);
        proof {
            let t0 = tail;
            assert(digits_of(m as nat) == digits_of((m / 10) as nat).push(digit_char((m % 10) as int)));
            tail = seq![d] + t0;
            assert(digits_of(m as nat) + t0 =~= digits_of((m / 10) as nat) + tail);
            assert forall|k: int| 0 <= k < tail.len() implies tail[k] == low_first@[low_first@.len() - 1 - k] by {
                if k > 0 {
                    assert(tail[k] == t0[k - 1]);
                }
            }
        }
        m = m / 10;
    }
    let d = digit(m);
    low_first.push(d);
    proof {
        let t0 = tail;
        tail = seq![d] + t0;
        assert(digits_of(n0) =~= tail);
        assert forall|k: int| 0 <= k < tail.len() implies tail[k] == low_first@[low_first@.len() - 1 - k] by {
            if k > 0 {
                assert(tail[k] == t0[k - 1]);
            }
        }
    }
    let mut out = String::new();
    let mut i = low_first.len();
    while i > 0
        invariant
            i <= low_first@.len(),
            tail.len() == low_first@.len(),
            forall|k: int| 0 <= k < tail.len() ==> tail[k] == low_first@[low_first@.len() - 1 - k],
            out@ == tail.take(low_first@.len() - i),
        decreases i,
    {
        i = i - 1;
        out.push(low_first[i]);
        proof {
            assert(tail.take(low_first@.len() - i) == tail.take(low_first@.len() - i - 1).push(low_first@[i as int]));
        }
    }
    proof {
        assert(tail.take(low_first@.len() as int) == tail);
    }
    out
}

/// Is `c` an ASCII decimal digit?
pub open spec fn is_digit(c: char) -> bool {
    '0' <= c && c <= '9'
}

/// The value of a run of decimal digits, most significant first.
pub open spec fn digits_value(s: Seq<char>) -> int
    decreases s.len(),
{
    if s.len() == 0 {
        0
    } else {
        digits_value(s.drop_last()) * 10 + (s.last() as int - '0' as int)
    }
}

/// The digits of an unsigned number's text: a leading `+` dropped.
pub open spec fn unsigned_digits(s: Seq<char>) -> Seq<char> {
    if s.len() > 0 && s[0] == '+' {
        s.drop_first()
    } else {
        s
    }
}

/// A non-empty run of decimal digits.
pub open spec fn digit_run(d: Seq<char>) -> bool {
    d.len() > 0 && forall|i: int| 0 <= i < d.len() ==> is_digit(#[trigger] d[i])
}

/// What `u32::from_str` answers for `s`: an optional `+`, then one or more
/// decimal digits whose value fits in 32 bits.
pub open spec fn parsed_u32(s: Seq<char>) -> Option<u32> {
    if digit_run(unsigned_digits(s)) && digits_value(unsigned_digits(s)) <= u32::MAX {
        Some(digits_value(unsigned_digits(s)) as u32)
    } else {
        None
    }
}

/// Parses decimal text as `u32::from_str` does.
pub fn parse_u32(s: &str) -> (r: Option<u32>)
    ensures
        r == parsed_u32(s@),
{
    let n = s.unicode_len();
    let start: usize = if n > 0 && s.get_char(0) == '+' {
        1
    } else {
        0
    };
    let ghost d = unsigned_digits(s@);
    assert(d =~= s@.subrange(start as int, n as int));
    if start >= n {
        return None;
    }
    let mut acc: u64 = 0;
    let mut over = false;
    let mut i: usize = start;
    assert(d.take(0) =~= Seq::<char>::empty());
    while i < n
        invariant
            n == s@.len(),
            start <= i <= n,
            start < n,
            d == s@.subrange(start as int, n as int),
            d == unsigned_digits(s@),
            forall|j: int| 0 <= j < i - start ==> is_digit(#[trigger] d[j]),
            !over ==> acc == digits_value(d.take(i - start)) && acc <= u32::MAX,
            over ==> digits_value(d.take(i - start)) > u32::MAX,
        decreases n - i,
    {
        let c = s.get_char(i);
        assert(c == d[i - start]);
        if c < '0' || c > '9' {
            assert(!is_digit(d[i - start]));
            assert(!digit_run(d));
            return None;
        }
        let v: u64 = (c as u32 - '0' as u32) as u64;
        proof {
            let k = i - start;
            assert(d.take(k + 1).drop_last() =~= d.take(k));
            assert(d.take(k + 1).last() == c);
        }
        if !over {
            let next = acc * 10 + v;
            if next > 0xffff_ffff {
                over = true;
            } else {
                acc = next;
            }
        }
        i = i + 1;
    }
    assert(d.take(n - start) =~= d);
    if over {
        None
    } else {
        Some(acc as u32)
    }
}

/// `c` with an ASCII capital letter made small.
pub open spec fn lower_char(c: char) -> char {
    if 'A' <= c && c <= 'Z' {
        ((c as int) + 32) as char
    } else {
        c
    }
}

/// `s` with its ASCII capital letters made small, as `str::to_ascii_lowercase`
/// makes it.
pub open spec fn ascii_lower(s: Seq<char>) -> Seq<char> {
    s.map_values(|c: char| lower_char(c))
}

/// `s` with its ASCII capital letters made small.
pub fn to_ascii_lower(s: &str) -> (r: String)
    ensures
        r@ == ascii_lower(s@),
{
    let n = s.unicode_len();
    let mut out = String::new();
    let mut i: usize = 0;
    while i < n
        invariant
            n == s@.len(),
            i <= n,
            out@ == ascii_lower(s@.take(i as int)),
        decreases n - i,
    {
        let c = s.get_char(i);
        let d = if c >= 'A' && c <= 'Z' {
            ((c as u8) + 32) as char
        } else {
            c
        };
        assert(d == lower_char(c));
        out.push(d);
        proof {
            assert(ascii_lower(s@.take(i + 1)) =~= ascii_lower(s@.take(i as int)).push(lower_char(s@[i as int])));
        }
        i = i + 1;
    }
    assert(s@.take(n as int) =~= s@);
    out
}

/// `s` up to its first `%`: an IPv6 zone index dropped.
pub open spec fn zone_stripped(s: Seq<char>) -> Seq<char> {
    match first_index_of(s, '%') {
        Some(i) => s.take(i),
        None => s,
    }
}

/// `s` up to its first `%`.
pub fn strip_zone(s: &str) -> (r: String)
    ensures
        r@ == zone_stripped(s@),
{
    match find_char(s, '%') {
        Some(i) => {
            proof {
                lemma_first_index_of(s@, '%');
            }
            substring(s, 0, i)
        },
        None => to_owned(s),
    }
}

/// What `u16::from_str` answers for `s`.
pub open spec fn parsed_u16(s: Seq<char>) -> Option<u16> {
    match parsed_u32(s) {
        Some(v) => if v <= 0xffff {
            Some(v as u16)
        } else {
            None
        },
        None => None,
    }
}

/// Parses decimal text as `u16::from_str` does.
pub fn parse_u16(s: &str) -> (r: Option<u16>)
    ensures
        r == parsed_u16(s@),
{
    match parse_u32(s) {
        Some(v) => if v <= 0xffff {
            Some(v as u16)
        } else {
            None
        },
        None => None,
    }
}

/// The lower-case hexadecimal digit for `d`.
pub open spec fn hex_char(d: int) -> char {
    if d < 10 {
        (d + 48) as char
    } else {
        (d + 87) as char
    }
}

/// The last `k` hexadecimal digits of `n`, most significant first.
pub open spec fn hex_digits(n: nat, k: nat) -> Seq<char>
    decreases k,
{
    if k == 0 {
        Seq::empty()
    } else {
        hex_digits(n / 16, (k - 1) as nat).push(hex_char((n % 16) as int))
    }
}

/// The text `format!("{:032x}")` writes for `id`: 32 lower-case
/// hexadecimal digits, zero-padded.
pub open spec fn hex32(id: u128) -> Seq<char> {
    hex_digits(id as nat, 32)
}

fn hex_digit_char(d: u8) -> (r: char)
    requires
        d < 16,
    ensures
        r == hex_char(d as int),
{
    if d < 10 {
        (d + 48) as char
    } else {
        (d + 87) as char
    }
}

/// Formats `id` as 32 lower-case hexadecimal digits.
pub fn hex32_string(id: u128) -> (r: String)
    ensures
        r@ == hex32(id),
{
    let mut m: u128 = id;
    let mut low_first: Vec<char> = Vec::new();
    let ghost mut tail: Seq<char> = Seq::empty();
    let mut j: usize = 0;
    while j < 32
        invariant
            j <= 32,
            hex_digits(id as nat, 32) == hex_digits(m as nat, (32 - j) as nat) + tail,
            tail.len() == j,
            low_first@.len() == j,
            forall|k: int| 0 <= k < tail.len() ==> tail[k] == low_first@[low_first@.len() - 1 - k],
        decreases 32 - j,
    {
        let d = hex_digit_char((m % 16) as u8);
        low_first.push(d);
        proof {
            let t0 = tail;
            assert(hex_digits(m as nat, (32 - j) as nat) == hex_digits((m / 16) as nat, (32 - j - 1) as nat).push(
                hex_char((m % 16) as int),
            ));
            tail = seq![d] + t0;
            assert(hex_digits(m as nat, (32 - j) as nat) + t0 =~= hex_digits((m / 16) as nat, (32 - j - 1) as nat)
                + tail);
            assert forall|k: int| 0 <= k < tail.len() implies tail[k] == low_first@[low_first@.len() - 1 - k] by {
                if k > 0 {
                    assert(tail[k] == t0[k - 1]);
                }
            }
        }
        m = m / 16;
        j = j + 1;
    }
    assert(hex_digits(m as nat, 0) =~= Seq::<char>::empty());
    assert(hex_digits(id as nat, 32) =~= tail);
    let mut out = String::new();
    let mut i: usize = 32;
    while i > 0
        invariant
            i <= 32,
            low_first@.len() == 32,
            tail.len() == 32,
            forall|k: int| 0 <= k < tail.len() ==> tail[k] == low_first@[low_first@.len() - 1 - k],
            out@ == tail.take(32 - i),
        decreases i,
    {
        i = i - 1;
        out.push(low_first[i]);
        proof {
            assert(tail.take(32 - i) == tail.take(32 - i - 1).push(low_first@[i as int]));
        }
    }
    assert(tail.take(32) =~= tail);
    out
}

/// Is `c` a hexadecimal digit of either case?
pub open spec fn is_hex_digit(c: char) -> bool {
    ('0' <= c && c <= '9') || ('a' <= c && c <= 'f') || ('A' <= c && c <= 'F')
}

/// The value of the hexadecimal digit `c`.
pub open spec fn hex_value(c: char) -> int {
    if '0' <= c && c <= '9' {
        c as int - 48
    } else if 'a' <= c && c <= 'f' {
        c as int - 87
    } else {
        c as int - 55
    }
}

/// The value of a run of hexadecimal digits, most significant first.
pub open spec fn hex_run_value(s: Seq<char>) -> int
    decreases s.len(),
{
    if s.len() == 0 {
        0
    } else {
        hex_run_value(s.drop_last()) * 16 + hex_value(s.last())
    }
}

/// A non-empty run of hexadecimal digits.
pub open spec fn hex_run(d: Seq<char>) -> bool {
    d.len() > 0 && forall|i: int| 0 <= i < d.len() ==> is_hex_digit(#[trigger] d[i])
}

/// What `u128::from_str_radix(s, 16)` answers for `s`: an optional `+`,
/// then one or more hexadecimal digits whose value fits in 128 bits.
pub open spec fn parsed_hex(s: Seq<char>) -> Option<u128> {
    if hex_run(unsigned_digits(s)) && hex_run_value(unsigned_digits(s)) <= u128::MAX {
        Some(hex_run_value(unsigned_digits(s)) as u128)
    } else {
        None
    }
}

/// Parses hexadecimal text as `u128::from_str_radix(s, 16)` does.
pub fn parse_hex_u128(s: &str) -> (r: Option<u128>)
    ensures
        r == parsed_hex(s@),
{
    let n = s.unicode_len();
    let start: usize = if n > 0 && s.get_char(0) == '+' {
        1
    } else {
        0
    };
    let ghost d = unsigned_digits(s@);
    assert(d =~= s@.subrange(start as int, n as int));
    if start >= n {
        return None;
    }
    let mut acc: u128 = 0;
    let mut over = false;
    let mut i: usize = start;
    assert(d.take(0) =~= Seq::<char>::empty());
    while i < n
        invariant
            n == s@.len(),
            start <= i <= n,
            start < n,
            d == s@.subrange(start as int, n as int),
            d == unsigned_digits(s@),
            forall|j: int| 0 <= j < i - start ==> is_hex_digit(#[trigger] d[j]),
            !over ==> acc == hex_run_value(d.take(i - start)),
            over ==> hex_run_value(d.take(i - start)) > u128::MAX,
            hex_run_value(d.take(i - start)) >= 0,
        decreases n - i,
    {
        let c = s.get_char(i);
        assert(c == d[i - start]);
        let v: u128 = if c >= '0' && c <= '9' {
            (c as u32 - 48) as u128
        } else if c >= 'a' && c <= 'f' {
            (c as u32 - 87) as u128
        } else if c >= 'A' && c <= 'F' {
            (c as u32 - 55) as u128
        } else {
            assert(!is_hex_digit(d[i - start]));
            assert(!hex_run(d));
            return None;
        };
        assert(v == hex_value(c));
        proof {
            let k = i - start;
            assert(d.take(k + 1).drop_last() =~= d.take(k));
            assert(d.take(k + 1).last() == c);
        }
        if !over {
            if acc > (0xffff_ffff_ffff_ffff_ffff_ffff_ffff_ffffu128 - v) / 16 {
                over = true;
            } else {
                acc = acc * 16 + v;
            }
        }
        i = i + 1;
    }
    assert(d.take(n - start) =~= d);
    if over {
        None
    } else {
        Some(acc)
    }
}

/// Renders `x` in decimal.
pub fn decimal_i32(x: i32) -> (r: String)
    ensures
        r@ == decimal(x as int),
{
    let wide: i64 = x as i64;
    if x < 0 {
        let digits = digits_string((0i64 - wide) as u64);
        proof {
            reveal_strlit("-");
            assert("-"@ =~= seq!['-']);
        }
        concat("-", digits.as_str())
    } else {
        digits_string(wide as u64)
    }
}

/// Renders `x` in decimal.
pub fn decimal_u32(x: u32) -> (r: String)
    ensures
        r@ == decimal(x as int),
{
    digits_string(x as u64)
}

/// Is `c` Unicode white space (the `White_Space` property, which
/// `char::is_whitespace` tests)?
pub open spec fn is_white(c: char) -> bool {
    ||| ('\u{9}' <= c && c <= '\u{d}')
    ||| c == ' '
    ||| c == '\u{85}'
    ||| c == '\u{a0}'
    ||| c == '\u{1680}'
    ||| ('\u{2000}' <= c && c <= '\u{200a}')
    ||| c == '\u{2028}'
    ||| c == '\u{2029}'
    ||| c == '\u{202f}'
    ||| c == '\u{205f}'
    ||| c == '\u{3000}'
}

fn is_white_char(c: char) -> (r: bool)
    ensures
        r == is_white(c),
{
    ('\u{9}' <= c && c <= '\u{d}') || c == ' ' || c == '\u{85}' || c == '\u{a0}' || c == '\u{1680}' || ('\u{2000}'
        <= c && c <= '\u{200a}') || c == '\u{2028}' || c == '\u{2029}' || c == '\u{202f}' || c == '\u{205f}' || c
        == '\u{3000}'
}

/// The index of the first character of `s` at or after `k` that is not
/// white space, or the length of `s`.
pub open spec fn first_non_white(s: Seq<char>, k: int) -> int
    decreases s.len() - k,
{
    if k < 0 || k >= s.len() {
        s.len() as int
    } else if is_white(s[k]) {
        first_non_white(s, k + 1)
    } else {
        k
    }
}

/// The end of the last character of `s` before `k` that is not white
/// space, or 0.
pub open spec fn end_non_white(s: Seq<char>, k: int) -> int
    decreases k,
{
    if k <= 0 || k > s.len() {
        0
    } else if is_white(s[k - 1]) {
        end_non_white(s, k - 1)
    } else {
        k
    }
}

/// What `str::trim` leaves of `s`: `s` without leading and trailing white
/// space.
pub open spec fn trimmed(s: Seq<char>) -> Seq<char> {
    let a = first_non_white(s, 0);
    let b = end_non_white(s, s.len() as int);
    if a < b {
        s.subrange(a, b)
    } else {
        Seq::empty()
    }
}

/// `s` without leading and trailing white space.
pub fn trim(s: &str) -> (r: String)
    ensures
        r@ == trimmed(s@),
{
    let n = s.unicode_len();
    let mut i: usize = 0;
    while i < n && is_white_char(s.get_char(i))
        invariant
            n == s@.len(),
            i <= n,
            first_non_white(s@, 0) == first_non_white(s@, i as int),
        decreases n - i,
    {
        i = i + 1;
    }
    let mut j: usize = n;
    while j > 0 && is_white_char(s.get_char(j - 1))
        invariant
            n == s@.len(),
            j <= n,
            end_non_white(s@, n as int) == end_non_white(s@, j as int),
        decreases j,
    {
        j = j - 1;
    }
    if i < j {
        substring(s, i, j)
    } else {
        String::new()
    }
}

pub assume_specification[ std::string::String::push ](s: &mut String, ch: char)
    ensures
        final(s)@ == old(s)@.push(ch),
;

} // verus!
