//! The `Writeback:` figure of `/proc/meminfo`.

use vstd::prelude::*;
use crate::numbers::push_decimal;
use crate::numbers::decimal;
use crate::text::push_str;

verus! {

/// `needle` occurs in `hay` at index `i`.
pub open spec fn occurs_at(hay: Seq<u8>, needle: Seq<u8>, i: int) -> bool {
    0 <= i && i + needle.len() <= hay.len() && hay.subrange(i, i + needle.len()) == needle
}

/// The first index at or after `k` where `needle` occurs in `hay`.
pub open spec fn first_occurrence_from(hay: Seq<u8>, needle: Seq<u8>, k: int) -> Option<nat>
    decreases hay.len() + 1 - k,
{
    if k < 0 || k + needle.len() > hay.len() {
        None
    } else if occurs_at(hay, needle, k) {
        Some(k as nat)
    } else {
        first_occurrence_from(hay, needle, k + 1)
    }
}

/// `memchr::memmem::find`: the index of the first occurrence of `needle` in
/// `haystack`, or `None` when there is none.
#[verifier::external_body]
fn find_bytes(haystack: &[u8], needle: &[u8]) -> (r: Option<usize>)
    ensures
        r == match first_occurrence_from(haystack@, needle@, 0) {
            Some(i) => Some(i as usize),
            None => None::<usize>,
        },
{
    memchr::memmem::find(haystack, needle)
}

/// Number of leading bytes of `s` equal to `b`.
pub open spec fn count_leading_byte(s: Seq<u8>, b: u8) -> nat
    decreases s.len(),
{
    if s.len() > 0 && s[0] == b {
        1 + count_leading_byte(s.drop_first(), b)
    } else {
        0
    }
}

pub open spec fn is_ascii_digit(b: u8) -> bool {
    48 <= b <= 57
}

/// Number of leading ASCII digits of `s`.
pub open spec fn count_leading_digits(s: Seq<u8>) -> nat
    decreases s.len(),
{
    if s.len() > 0 && is_ascii_digit(s[0]) {
        1 + count_leading_digits(s.drop_first())
    } else {
        0
    }
}

/// The number that ASCII digits write in base ten.
pub open spec fn ascii_digits_value(s: Seq<u8>) -> nat
    decreases s.len(),
{
    if s.len() == 0 {
        0
    } else {
        ascii_digits_value(s.drop_last()) * 10 + (s.last() - 48) as nat
    }
}

/// The key that introduces the figure.
pub open spec fn writeback_key() -> Seq<u8> {
    seq![87u8, 114u8, 105u8, 116u8, 101u8, 98u8, 97u8, 99u8, 107u8, 58u8]
}

/// The figure after the first `Writeback:` (spaces skipped, then the run of
/// digits, read in base ten; no digits read as 0), or `None` without the key.
pub open spec fn writeback_figure(data: Seq<u8>) -> Option<nat> {
    match first_occurrence_from(data, writeback_key(), 0) {
        Some(i) => {
            let rest = data.skip(i + writeback_key().len() as int);
            let digits = rest.skip(count_leading_byte(rest, 32) as int);
            Some(ascii_digits_value(digits.take(count_leading_digits(digits) as int)))
        },
        None => None,
    }
}

/// Why no figure could be read.
#[derive(Debug, PartialEq, Eq, Structural)]
pub enum WritebackError {
    /// The `Writeback:` key is not in the data.
    NotFound,
}

proof fn lemma_count_leading_byte(s: Seq<u8>, b: u8, i: int)
    requires
        0 <= i <= s.len(),
        forall|j: int| 0 <= j < i ==> #[trigger] s[j] == b,
        i == s.len() || s[i] != b,
    ensures
        count_leading_byte(s, b) == i,
    decreases i,
{
    if i > 0 {
        let t = s.drop_first();
        assert forall|j: int| 0 <= j < i - 1 implies #[trigger] t[j] == b by {
            assert(t[j] == s[j + 1]);
        }
        if i - 1 < t.len() {
            assert(t[i - 1] == s[i]);
        }
        lemma_count_leading_byte(t, b, i - 1);
    }
}

proof fn lemma_count_leading_digits(s: Seq<u8>, i: int)
    requires
        0 <= i <= s.len(),
        forall|j: int| 0 <= j < i ==> is_ascii_digit(#[trigger] s[j]),
        i == s.len() || !is_ascii_digit(s[i]),
    ensures
        count_leading_digits(s) == i,
    decreases i,
{
    if i > 0 {
        let t = s.drop_first();
        assert forall|j: int| 0 <= j < i - 1 implies is_ascii_digit(#[trigger] t[j]) by {
            assert(t[j] == s[j + 1]);
        }
        if i - 1 < t.len() {
            assert(t[i - 1] == s[i]);
        }
        lemma_count_leading_digits(t, i - 1);
    }
}

/// Reads the `Writeback:` figure (in kB) from the start of `/proc/meminfo`.
/// The digits are accumulated in a `u64` that wraps around on overflow.
pub fn parse_writeback_kb(data: &[u8]) -> (r: Result<u64, WritebackError>)
    ensures
        match writeback_figure(data@) {
            Some(v) => r == Ok::<u64, WritebackError>((v % 0x1_0000_0000_0000_0000) as u64),
            None => r == Err::<u64, WritebackError>(WritebackError::NotFound),
        },
{
    let needle: [u8; 10] = [87, 114, 105, 116, 101, 98, 97, 99, 107, 58];
    assert(needle@ =~= writeback_key());
    let idx = match find_bytes(data, &needle) {
        Some(i) => i,
        None => return Err(WritebackError::NotFound),
    };
    let n = data.len();
    let ghost i0 = idx as int;
    proof {
        lemma_first_occurrence_in_bounds(data@, writeback_key(), 0);
        assert(first_occurrence_from(data@, writeback_key(), 0) == Some(i0 as nat));
    }
    let rest_start = idx + 10;
    let ghost rest = data@.skip(rest_start as int);
    let mut p = rest_start;
    while p < n && data[p] == 32
        invariant
            rest_start <= p <= n == data@.len(),
            rest == data@.skip(rest_start as int),
            forall|j: int| rest_start <= j < p ==> #[trigger] data@[j] == 32,
        decreases n - p,
    {
        p += 1;
    }
    proof {
        assert forall|j: int| 0 <= j < p - rest_start implies #[trigger] rest[j] == 32 by {
            assert(rest[j] == data@[rest_start + j]);
        }
        if p < n {
            assert(rest[p - rest_start] == data@[p as int]);
        }
        lemma_count_leading_byte(rest, 32, p - rest_start);
    }
    let ghost digits = rest.skip(p - rest_start);
    assert(digits =~= data@.skip(p as int));
    let mut acc: u64 = 0;
    let mut q = p;
    assert(data@.subrange(p as int, p as int) =~= Seq::<u8>::empty());
    while q < n && 48 <= data[q] && data[q] <= 57
        invariant
            p <= q <= n == data@.len(),
            digits == data@.skip(p as int),
            forall|j: int| p <= j < q ==> is_ascii_digit(#[trigger] data@[j]),
            acc == ascii_digits_value(data@.subrange(p as int, q as int)) % 0x1_0000_0000_0000_0000,
        decreases n - q,
    {
        let d = (data[q] - 48) as u64;
        let ghost prev = data@.subrange(p as int, q as int);
        let ghost next = data@.subrange(p as int, q + 1);
        assert(next.drop_last() =~= prev);
        assert(next.last() == data@[q as int]);
        let ghost v = ascii_digits_value(prev);
        proof { lemma_wrapping_digit_step(acc, v, d); }
        acc = acc.wrapping_mul(10).wrapping_add(d);
        assert(ascii_digits_value(next) == v * 10 + d);
        q += 1;
    }
    proof {
        assert forall|j: int| 0 <= j < q - p implies is_ascii_digit(#[trigger] digits[j]) by {
            assert(digits[j] == data@[p + j]);
        }
        if q < n {
            assert(digits[q - p] == data@[q as int]);
        }
        lemma_count_leading_digits(digits, q - p);
        assert(digits.take(q - p) =~= data@.subrange(p as int, q as int));
    }
    Ok(acc)
}

/// One wrapping step of the digit fold keeps the value modulo 2^64.
proof fn lemma_wrapping_digit_step(acc: u64, v: nat, d: u64)
    requires
        acc == v % 0x1_0000_0000_0000_0000,
        d < 10,
    ensures
        vstd::wrapping::u64_specs::wrapping_add(vstd::wrapping::u64_specs::wrapping_mul(acc, 10), d)
            == (v * 10 + d) % 0x1_0000_0000_0000_0000,
{
    let m: int = 0x1_0000_0000_0000_0000;
    let vi = v as int;
    let di = d as int;
    vstd::arithmetic::div_mod::lemma_mul_mod_noop_left(vi, 10, m);
    let y = (acc as int * 10) % m;
    assert(y == (vi * 10) % m);
    vstd::arithmetic::div_mod::lemma_mod_bound(vi * 10, m);
    vstd::arithmetic::div_mod::lemma_add_mod_noop(vi * 10, di, m);
    vstd::arithmetic::div_mod::lemma_small_mod(d as nat, m as nat);
    vstd::arithmetic::div_mod::lemma_mod_twice(vi * 10, m);
    assert((y + di) % m == (vi * 10 + di) % m);
    if y + di >= m {
        vstd::arithmetic::div_mod::lemma_sub_mod_noop_right(y + di, m, m);
        vstd::arithmetic::div_mod::lemma_mod_self_0(m);
        vstd::arithmetic::div_mod::lemma_small_mod((y + di - m) as nat, m as nat);
        assert((y + di) % m == y + di - m);
    } else {
        vstd::arithmetic::div_mod::lemma_small_mod((y + di) as nat, m as nat);
    }
}

proof fn lemma_first_occurrence_in_bounds(hay: Seq<u8>, needle: Seq<u8>, k: int)
    ensures
        first_occurrence_from(hay, needle, k) matches Some(i) ==> occurs_at(hay, needle, i as int)
            && k <= i,
    decreases hay.len() + 1 - k,
{
    if k >= 0 && k + needle.len() <= hay.len() && !occurs_at(hay, needle, k) {
        lemma_first_occurrence_in_bounds(hay, needle, k + 1);
    }
}

/// The decimal writing of `n` in ASCII bytes, without leading zeros.
pub open spec fn ascii_decimal(n: nat) -> Seq<u8>
    decreases n,
{
    if n < 10 {
        seq![(48 + n) as u8]
    } else {
        ascii_decimal(n / 10).push((48 + n % 10) as u8)
    }
}

proof fn lemma_ascii_decimal(n: nat)
    ensures
        ascii_decimal(n).len() > 0,
        forall|i: int| 0 <= i < ascii_decimal(n).len() ==> is_ascii_digit(#[trigger] ascii_decimal(n)[i]),
        ascii_digits_value(ascii_decimal(n)) == n,
    decreases n,
{
    if n >= 10 {
        lemma_ascii_decimal(n / 10);
        let p = ascii_decimal(n / 10);
        assert(ascii_decimal(n).drop_last() =~= p);
        assert(n == (n / 10) * 10 + n % 10) by (nonlinear_arith);
        assert(ascii_decimal(n).last() == (48 + n % 10) as u8);
        assert(ascii_digits_value(ascii_decimal(n)) == ascii_digits_value(p) * 10 + n % 10);
        assert(ascii_digits_value(ascii_decimal(n)) == (n / 10) * 10 + n % 10);
        assert forall|i: int| 0 <= i < ascii_decimal(n).len() implies is_ascii_digit(
            #[trigger] ascii_decimal(n)[i],
        ) by {
            if i < p.len() {
                assert(ascii_decimal(n)[i] == p[i]);
            }
        }
    } else {
        assert(ascii_decimal(n).drop_last() =~= Seq::<u8>::empty());
        assert(ascii_decimal(n).last() == (48 + n) as u8);
        assert(ascii_digits_value(ascii_decimal(n)) == ascii_digits_value(Seq::<u8>::empty()) * 10
            + n);
    }
}

/// What the kernel writes is what is read: data that starts with
/// `Writeback:`, some spaces and the decimal figure `n` (followed by
/// anything that is not a digit) reads as `n`.
pub proof fn lemma_writeback_line(spaces: nat, n: u64, tail: Seq<u8>)
    requires
        tail.len() > 0 ==> !is_ascii_digit(tail[0]),
    ensures
        writeback_figure(
            writeback_key() + Seq::new(spaces, |i: int| 32u8) + ascii_decimal(n as nat) + tail,
        ) == Some(n as nat),
{
    let sp = Seq::new(spaces, |i: int| 32u8);
    let digits = ascii_decimal(n as nat);
    let data = writeback_key() + sp + digits + tail;
    lemma_ascii_decimal(n as nat);
    assert(data.subrange(0, 10) =~= writeback_key());
    assert(occurs_at(data, writeback_key(), 0));
    let rest = data.skip(10);
    assert(rest =~= sp + digits + tail);
    assert forall|j: int| 0 <= j < spaces implies #[trigger] rest[j] == 32 by {}
    assert(rest[spaces as int] == digits[0]);
    lemma_count_leading_byte(rest, 32, spaces as int);
    let ds = rest.skip(spaces as int);
    assert(ds =~= digits + tail);
    assert forall|j: int| 0 <= j < digits.len() implies is_ascii_digit(#[trigger] ds[j]) by {
        assert(ds[j] == digits[j]);
    }
    if tail.len() > 0 {
        assert(ds[digits.len() as int] == tail[0]);
    }
    lemma_count_leading_digits(ds, digits.len() as int);
    assert(ds.take(digits.len() as int) =~= digits);
}

/// The unit a writeback figure is shown in.
#[derive(Debug, PartialEq, Eq, Structural)]
pub enum SizeUnit {
    Gigabytes,
    Megabytes,
    Kilobytes,
}

/// From 1048576 kB on the figure is shown in GB, from 1024 kB in MB, else in kB.
pub fn writeback_unit(size_kb: u64) -> (u: SizeUnit)
    ensures
        size_kb >= 1048576 ==> u == SizeUnit::Gigabytes,
        1024 <= size_kb < 1048576 ==> u == SizeUnit::Megabytes,
        size_kb < 1024 ==> u == SizeUnit::Kilobytes,
{
    if size_kb >= 1048576 {
        SizeUnit::Gigabytes
    } else if size_kb >= 1024 {
        SizeUnit::Megabytes
    } else {
        SizeUnit::Kilobytes
    }
}

/// A figure below 1024 kB as printed: `<n> kB`.
pub fn kilobytes_line(size_kb: u64) -> (s: String)
    ensures
        s@ == decimal(size_kb as nat) + " kB"@,
{
    let mut s = String::new();
    push_decimal(&mut s, size_kb);
    push_str(&mut s, " kB");
    s
}

} // verus!
