//! Text that user space writes to device files: UTF-8 validity, trimming
//! of white space, splitting at a separator and decimal numbers.
use vstd::prelude::*;
use crate::fs::{contains_byte, first_index, find_byte, lemma_first_index_unique};

verus! {

// ---------------------------------------------------------------------------
// UTF-8
// ---------------------------------------------------------------------------

pub open spec fn is_cont(b: u8) -> bool {
    0x80 <= b <= 0xBF
}

/// The length of the well-formed UTF-8 character that starts at `i`, or 0
/// when none does (no overlong forms, surrogates or code points past U+10FFFF).
pub open spec fn utf8_char_len(s: Seq<u8>, i: int) -> int {
    let n = s.len();
    let b0 = s[i];
    if b0 < 0x80 {
        1
    } else if 0xC2 <= b0 <= 0xDF {
        if i + 1 < n && is_cont(s[i + 1]) {
            2
        } else {
            0
        }
    } else if 0xE0 <= b0 <= 0xEF {
        if i + 2 < n && is_cont(s[i + 1]) && is_cont(s[i + 2]) && (b0 != 0xE0 || s[i + 1] >= 0xA0)
            && (b0 != 0xED || s[i + 1] <= 0x9F) {
            3
        } else {
            0
        }
    } else if 0xF0 <= b0 <= 0xF4 {
        if i + 3 < n && is_cont(s[i + 1]) && is_cont(s[i + 2]) && is_cont(s[i + 3]) && (b0 != 0xF0
            || s[i + 1] >= 0x90) && (b0 != 0xF4 || s[i + 1] <= 0x8F) {
            4
        } else {
            0
        }
    } else {
        0
    }
}

/// The bytes from `i` on are a sequence of well-formed UTF-8 characters.
pub open spec fn utf8_valid_from(s: Seq<u8>, i: nat) -> bool
    decreases s.len() - i,
{
    if i >= s.len() {
        true
    } else {
        let l = utf8_char_len(s, i as int);
        l > 0 && utf8_valid_from(s, (i + l) as nat)
    }
}

pub open spec fn utf8_valid(s: Seq<u8>) -> bool {
    utf8_valid_from(s, 0)
}

fn char_len_at(s: &[u8], i: usize) -> (l: usize)
    requires
        i < s@.len(),
    ensures
        l == utf8_char_len(s@, i as int),
{
    let n = s.len();
    let b0 = s[i];
    if b0 < 0x80 {
        1
    } else if 0xC2 <= b0 && b0 <= 0xDF {
        if n - i > 1 && 0x80 <= s[i + 1] && s[i + 1] <= 0xBF {
            2
        } else {
            0
        }
    } else if 0xE0 <= b0 && b0 <= 0xEF {
        if n - i > 2 && 0x80 <= s[i + 1] && s[i + 1] <= 0xBF && 0x80 <= s[i + 2] && s[i + 2]
            <= 0xBF && (b0 != 0xE0 || s[i + 1] >= 0xA0) && (b0 != 0xED || s[i + 1] <= 0x9F) {
            3
        } else {
            0
        }
    } else if 0xF0 <= b0 && b0 <= 0xF4 {
        if n - i > 3 && 0x80 <= s[i + 1] && s[i + 1] <= 0xBF && 0x80 <= s[i + 2] && s[i + 2]
            <= 0xBF && 0x80 <= s[i + 3] && s[i + 3] <= 0xBF && (b0 != 0xF0 || s[i + 1] >= 0x90)
            && (b0 != 0xF4 || s[i + 1] <= 0x8F) {
            4
        } else {
            0
        }
    } else {
        0
    }
}

/// Whether the bytes are well-formed UTF-8.
pub fn is_utf8(s: &[u8]) -> (b: bool)
    ensures
        b == utf8_valid(s@),
{
    let mut i: usize = 0;
    while i < s.len()
        invariant
            i <= s@.len(),
            utf8_valid(s@) == utf8_valid_from(s@, i as nat),
        decreases s@.len() - i,
    {
        let l = char_len_at(s, i);
        if l == 0 {
            return false;
        }
        i = i + l;
    }
    true
}

// ---------------------------------------------------------------------------
// White space
// ---------------------------------------------------------------------------

/// A one-byte white-space character (tab, line feed, vertical tab, form
/// feed, carriage return, space).
pub open spec fn is_ws1(b: u8) -> bool {
    (0x09 <= b <= 0x0D) || b == 0x20
}

/// The UTF-8 encodings of U+0085 and U+00A0.
pub open spec fn is_ws2(a: u8, b: u8) -> bool {
    a == 0xC2 && (b == 0x85 || b == 0xA0)
}

/// The UTF-8 encodings of U+1680, U+2000 to U+200A, U+2028, U+2029,
/// U+202F, U+205F and U+3000.
pub open spec fn is_ws3(a: u8, b: u8, c: u8) -> bool {
    ||| (a == 0xE1 && b == 0x9A && c == 0x80)
    ||| (a == 0xE2 && b == 0x80 && ((0x80 <= c <= 0x8A) || c == 0xA8 || c == 0xA9 || c == 0xAF))
    ||| (a == 0xE2 && b == 0x81 && c == 0x9F)
    ||| (a == 0xE3 && b == 0x80 && c == 0x80)
}

/// The length of the white-space character starting at `i` and ending
/// before `hi`, or 0.
pub open spec fn ws_len_at(s: Seq<u8>, i: int, hi: int) -> int {
    if 0 <= i < hi && is_ws1(s[i]) {
        1
    } else if 0 <= i && i + 1 < hi && is_ws2(s[i], s[i + 1]) {
        2
    } else if 0 <= i && i + 2 < hi && is_ws3(s[i], s[i + 1], s[i + 2]) {
        3
    } else {
        0
    }
}

/// The length of the white-space character ending at `j` and starting at
/// or after `lo`, or 0.
pub open spec fn ws_len_before(s: Seq<u8>, lo: int, j: int) -> int {
    if lo <= j - 1 && is_ws1(s[j - 1]) {
        1
    } else if lo <= j - 2 && is_ws2(s[j - 2], s[j - 1]) {
        2
    } else if lo <= j - 3 && is_ws3(s[j - 3], s[j - 2], s[j - 1]) {
        3
    } else {
        0
    }
}

/// Where the text of `s[i..hi]` starts once leading white space is skipped.
pub open spec fn trim_start_idx(s: Seq<u8>, i: int, hi: int) -> int
    decreases hi - i,
{
    if ws_len_at(s, i, hi) > 0 {
        trim_start_idx(s, i + ws_len_at(s, i, hi), hi)
    } else {
        i
    }
}

/// Where the text of `s[lo..j]` ends once trailing white space is dropped.
pub open spec fn trim_end_idx(s: Seq<u8>, lo: int, j: int) -> int
    decreases j - lo,
{
    if ws_len_before(s, lo, j) > 0 {
        trim_end_idx(s, lo, j - ws_len_before(s, lo, j))
    } else {
        j
    }
}

/// The text without its leading and trailing white space.
pub open spec fn spec_trim(s: Seq<u8>) -> Seq<u8> {
    let a = trim_start_idx(s, 0, s.len() as int);
    s.subrange(a, trim_end_idx(s, a, s.len() as int))
}

proof fn lemma_trim_start_bounds(s: Seq<u8>, i: int, hi: int)
    requires
        0 <= i <= hi,
    ensures
        i <= trim_start_idx(s, i, hi) <= hi,
    decreases hi - i,
{
    if ws_len_at(s, i, hi) > 0 {
        lemma_trim_start_bounds(s, i + ws_len_at(s, i, hi), hi);
    }
}

proof fn lemma_trim_end_bounds(s: Seq<u8>, lo: int, j: int)
    requires
        lo <= j,
    ensures
        lo <= trim_end_idx(s, lo, j) <= j,
    decreases j - lo,
{
    if ws_len_before(s, lo, j) > 0 {
        lemma_trim_end_bounds(s, lo, j - ws_len_before(s, lo, j));
    }
}

fn ws_len_at_exec(s: &[u8], i: usize) -> (l: usize)
    requires
        i <= s@.len(),
    ensures
        l == ws_len_at(s@, i as int, s@.len() as int),
{
    let n = s.len();
    if i < n && ((0x09 <= s[i] && s[i] <= 0x0D) || s[i] == 0x20) {
        1
    } else if i < n && n - i > 1 && s[i] == 0xC2 && (s[i + 1] == 0x85 || s[i + 1] == 0xA0) {
        2
    } else if i < n && n - i > 2 && is_ws3_exec(s[i], s[i + 1], s[i + 2]) {
        3
    } else {
        0
    }
}

fn is_ws3_exec(a: u8, b: u8, c: u8) -> (r: bool)
    ensures
        r == is_ws3(a, b, c),
{
    (a == 0xE1 && b == 0x9A && c == 0x80) || (a == 0xE2 && b == 0x80 && ((0x80 <= c && c <= 0x8A)
        || c == 0xA8 || c == 0xA9 || c == 0xAF)) || (a == 0xE2 && b == 0x81 && c == 0x9F) || (a
        == 0xE3 && b == 0x80 && c == 0x80)
}

fn ws_len_before_exec(s: &[u8], lo: usize, j: usize) -> (l: usize)
    requires
        lo <= j <= s@.len(),
    ensures
        l == ws_len_before(s@, lo as int, j as int),
{
    if j - lo >= 1 && ((0x09 <= s[j - 1] && s[j - 1] <= 0x0D) || s[j - 1] == 0x20) {
        1
    } else if j - lo >= 2 && s[j - 2] == 0xC2 && (s[j - 1] == 0x85 || s[j - 1] == 0xA0) {
        2
    } else if j - lo >= 3 && is_ws3_exec(s[j - 3], s[j - 2], s[j - 1]) {
        3
    } else {
        0
    }
}

/// The text without its leading and trailing white space (as `str::trim`
/// does on UTF-8 text).
pub fn trim(s: &[u8]) -> (t: &[u8])
    ensures
        t@ == spec_trim(s@),
{
    let n = s.len();
    let mut a: usize = 0;
    while ws_len_at_exec(s, a) > 0
        invariant
            a <= n,
            n == s@.len(),
            trim_start_idx(s@, a as int, n as int) == trim_start_idx(s@, 0, n as int),
        decreases n - a,
    {
        let l = ws_len_at_exec(s, a);
        a = a + l;
    }
    let mut b: usize = n;
    while ws_len_before_exec(s, a, b) > 0
        invariant
            a <= b <= n,
            n == s@.len(),
            trim_start_idx(s@, 0, n as int) == a,
            trim_end_idx(s@, a as int, b as int) == trim_end_idx(s@, a as int, n as int),
        decreases b - a,
    {
        let l = ws_len_before_exec(s, a, b);
        b = b - l;
    }
    vstd::slice::slice_subrange(s, a, b)
}

// ---------------------------------------------------------------------------
// Separators and numbers
// ---------------------------------------------------------------------------

/// `s` holds `c` exactly once.
pub open spec fn single_byte(s: Seq<u8>, c: u8) -> bool {
    contains_byte(s, c) && !contains_byte(s.subrange(first_index(s, c) + 1, s.len() as int), c)
}

/// The parts of `s` before and after its one `c`, when it has exactly one.
pub fn split_once_exact<'a>(s: &'a [u8], c: u8) -> (r: Option<(&'a [u8], &'a [u8])>)
    ensures
        single_byte(s@, c) <==> r is Some,
        r matches Some((x, y)) ==> x@ == s@.subrange(0, first_index(s@, c)) && y@ == s@.subrange(
            first_index(s@, c) + 1,
            s@.len() as int,
        ),
{
    match find_byte(s, c) {
        None => None,
        Some(k) => {
            proof {
                lemma_first_index_unique(s@, c, k as int);
            }
            let n = s.len();
            let rest = vstd::slice::slice_subrange(s, k + 1, n);
            match find_byte(rest, c) {
                Some(_) => None,
                None => Some((vstd::slice::slice_subrange(s, 0, k), rest)),
            }
        },
    }
}

pub open spec fn is_digit(b: u8) -> bool {
    0x30 <= b <= 0x39
}

/// The value of a string of decimal digits.
pub open spec fn digits_value(d: Seq<u8>) -> nat
    decreases d.len(),
{
    if d.len() == 0 {
        0
    } else {
        digits_value(d.drop_last()) * 10 + (d.last() - 0x30) as nat
    }
}

/// The text after an optional leading `+`.
pub open spec fn unsigned_digits(s: Seq<u8>) -> Seq<u8> {
    if s.len() > 0 && s[0] == 0x2B {
        s.subrange(1, s.len() as int)
    } else {
        s
    }
}

pub open spec fn all_digits(d: Seq<u8>) -> bool {
    forall|i: int| 0 <= i < d.len() ==> is_digit(#[trigger] d[i])
}

/// What `u8::from_str` gives: an optional `+`, then one or more decimal
/// digits whose value fits in a byte.
pub open spec fn spec_parse_u8(s: Seq<u8>) -> Option<u8> {
    let d = unsigned_digits(s);
    if d.len() > 0 && all_digits(d) && digits_value(d) <= 255 {
        Some(digits_value(d) as u8)
    } else {
        None
    }
}

/// Parses a decimal byte as `u8::from_str` does.
pub fn parse_u8(s: &[u8]) -> (r: Option<u8>)
    ensures
        r == spec_parse_u8(s@),
{
    let n = s.len();
    let start: usize = if n > 0 && s[0] == 0x2B {
        1
    } else {
        0
    };
    let ghost d = unsigned_digits(s@);
    assert(d =~= s@.subrange(start as int, n as int));
    if start == n {
        assert(d.len() == 0);
        return None;
    }
    let mut val: u32 = 0;
    let mut i: usize = start;
    while i < n
        invariant
            start <= i <= n,
            n == s@.len(),
            d == s@.subrange(start as int, n as int),
            d == unsigned_digits(s@),
            val <= 256,
            val == vstd::math::min(digits_value(s@.subrange(start as int, i as int)) as int, 256),
            forall|k: int| start <= k < i ==> is_digit(#[trigger] s@[k]),
        decreases n - i,
    {
        let b = s[i];
        if !(0x30 <= b && b <= 0x39) {
            assert(!is_digit(d[i - start]));
            assert(!all_digits(d));
            return None;
        }
        proof {
            let p = s@.subrange(start as int, i + 1);
            assert(p.drop_last() =~= s@.subrange(start as int, i as int));
            assert(p.last() == b);
        }
        let nv: u32 = val * 10 + (b - 0x30) as u32;
        val = if nv > 256 {
            256
        } else {
            nv
        };
        i = i + 1;
    }
    assert(all_digits(d)) by {
        assert forall|k: int| 0 <= k < d.len() implies is_digit(#[trigger] d[k]) by {
            assert(d[k] == s@[start + k]);
        }
    }
    assert(s@.subrange(start as int, n as int) =~= d);
    if val > 255 {
        None
    } else {
        Some(val as u8)
    }
}

/// What `usize::from_str` gives: an optional `+`, then one or more decimal
/// digits whose value fits in a `usize`.
pub open spec fn spec_parse_usize(s: Seq<u8>) -> Option<usize> {
    let d = unsigned_digits(s);
    if d.len() > 0 && all_digits(d) && digits_value(d) <= usize::MAX {
        Some(digits_value(d) as usize)
    } else {
        None
    }
}

/// Parses a decimal `usize` as `usize::from_str` does.
pub fn parse_usize(s: &[u8]) -> (r: Option<usize>)
    ensures
        r == spec_parse_usize(s@),
{
    let n = s.len();
    let start: usize = if n > 0 && s[0] == 0x2B {
        1
    } else {
        0
    };
    let ghost d = unsigned_digits(s@);
    assert(d =~= s@.subrange(start as int, n as int));
    if start == n {
        assert(d.len() == 0);
        return None;
    }
    let mut val: u128 = 0;
    let mut i: usize = start;
    while i < n
        invariant
            start <= i <= n,
            n == s@.len(),
            d == s@.subrange(start as int, n as int),
            d == unsigned_digits(s@),
            val <= usize::MAX + 1,
            val == vstd::math::min(digits_value(s@.subrange(start as int, i as int)) as int, usize::MAX + 1),
            forall|k: int| start <= k < i ==> is_digit(#[trigger] s@[k]),
        decreases n - i,
    {
        let b = s[i];
        if !(0x30 <= b && b <= 0x39) {
            assert(!is_digit(d[i - start]));
            assert(!all_digits(d));
            return None;
        }
        proof {
            let p = s@.subrange(start as int, i + 1);
            assert(p.drop_last() =~= s@.subrange(start as int, i as int));
            assert(p.last() == b);
        }
        let nv: u128 = val * 10 + (b - 0x30) as u128;
        val = if nv > usize::MAX as u128 + 1 {
            usize::MAX as u128 + 1
        } else {
            nv
        };
        i = i + 1;
    }
    assert(all_digits(d)) by {
        assert forall|k: int| 0 <= k < d.len() implies is_digit(#[trigger] d[k]) by {
            assert(d[k] == s@[start + k]);
        }
    }
    assert(s@.subrange(start as int, n as int) =~= d);
    if val > usize::MAX as u128 {
        None
    } else {
        Some(val as usize)
    }
}

// ---------------------------------------------------------------------------
// Reading a text file
// ---------------------------------------------------------------------------

/// Copies the text from offset `off` into `buff`, as much as fits, and
/// returns how many bytes it copied.
pub fn read_text(text: &[u8], off: usize, buff: &mut [u8]) -> (n: usize)
    requires
        off <= text@.len(),
    ensures
        n == vstd::math::min(text@.len() - off, old(buff)@.len() as int),
        final(buff)@ == text@.subrange(off as int, off + n) + old(buff)@.subrange(
            n as int,
            old(buff)@.len() as int,
        ),
{
    let tl = text.len();
    let avail = tl - off;
    let n: usize = if avail < buff.len() {
        avail
    } else {
        buff.len()
    };
    let mut i: usize = 0;
    while i < n
        invariant
            i <= n,
            n <= buff@.len(),
            off + n <= tl,
            tl == text@.len(),
            buff@.len() == old(buff)@.len(),
            forall|k: int| 0 <= k < i ==> buff@[k] == text@[off + k],
            forall|k: int| n <= k < buff@.len() ==> buff@[k] == old(buff)@[k],
        decreases n - i,
    {
        buff[i] = text[off + i];
        i = i + 1;
    }
    assert(buff@ =~= text@.subrange(off as int, off + n) + old(buff)@.subrange(
        n as int,
        old(buff)@.len() as int,
    ));
    n
}

// ---------------------------------------------------------------------------
// Facts about plain ASCII text
// ---------------------------------------------------------------------------

/// Text of ASCII bytes only is well-formed UTF-8.
pub proof fn lemma_ascii_is_utf8(s: Seq<u8>, i: nat)
    requires
        forall|k: int| 0 <= k < s.len() ==> s[k] < 0x80,
    ensures
        utf8_valid_from(s, i),
    decreases s.len() - i,
{
    if i < s.len() {
        lemma_ascii_is_utf8(s, i + 1);
    }
}

/// Text that starts and ends with an ASCII character other than white
/// space has nothing to trim.
pub proof fn lemma_trim_nothing(s: Seq<u8>)
    requires
        s.len() > 0,
        s[0] < 0x80 && !is_ws1(s[0]),
        s.last() < 0x80 && !is_ws1(s.last()),
    ensures
        spec_trim(s) == s,
{
    let n = s.len() as int;
    assert(ws_len_at(s, 0, n) == 0);
    assert(trim_start_idx(s, 0, n) == 0);
    assert(ws_len_before(s, 0, n) == 0);
    assert(trim_end_idx(s, 0, n) == n);
    assert(s.subrange(0, n) =~= s);
}

/// `n` in decimal is one or more digits whose value is `n`.
pub proof fn lemma_dec_text_digits(n: nat)
    ensures
        crate::util::dec_text(n).len() >= 1,
        all_digits(crate::util::dec_text(n)),
        digits_value(crate::util::dec_text(n)) == n,
    decreases n,
{
    let d = crate::util::dec_text(n);
    if n < 10 {
        assert(d.drop_last() =~= Seq::<u8>::empty());
        assert(d.last() == 48 + n);
        assert(digits_value(d) == digits_value(d.drop_last()) * 10 + (d.last() - 0x30) as nat);
    } else {
        lemma_dec_text_digits(n / 10);
        let p = crate::util::dec_text(n / 10);
        assert(d.drop_last() =~= p);
        assert(forall|k: int| 0 <= k < p.len() ==> is_digit(#[trigger] p[k]));
        assert forall|k: int| 0 <= k < d.len() implies is_digit(#[trigger] d[k]) by {
            if k < p.len() {
                assert(d[k] == p[k]);
            }
        }
        vstd::arithmetic::div_mod::lemma_fundamental_div_mod(n as int, 10);
        assert(d.last() == 48 + n % 10);
        assert(digits_value(d) == digits_value(p) * 10 + (d.last() - 0x30) as nat);
        assert((n / 10) * 10 == 10 * (n / 10)) by (nonlinear_arith);
    }
}

/// The decimal text of a byte value reads back as that value.
pub proof fn lemma_parse_dec(n: nat)
    requires
        n <= 255,
    ensures
        spec_parse_u8(crate::util::dec_text(n)) == Some(n as u8),
        spec_trim(crate::util::dec_text(n)) == crate::util::dec_text(n),
{
    lemma_dec_text_digits(n);
    let d = crate::util::dec_text(n);
    assert(is_digit(d[0]));
    assert(is_digit(d.last()));
    assert(unsigned_digits(d) == d);
    lemma_trim_nothing(d);
}

} // verus!
