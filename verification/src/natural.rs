//! Natural ("human") ordering of names and paths: runs of digits compare by
//! numeric value, other bytes compare case-insensitively (ASCII).
use vstd::prelude::*;
use vstd::utf8::encode_utf8;
use core::cmp::Ordering;

verus! {

pub open spec fn is_digit_byte(b: u8) -> bool {
    48 <= b <= 57
}

/// `u8::to_ascii_lowercase`.
pub open spec fn lower_byte(b: u8) -> u8 {
    if 65 <= b <= 90 {
        (b + 32) as u8
    } else {
        b
    }
}

/// End of the run of digits that starts at `i`.
pub open spec fn digit_run_end(s: Seq<u8>, i: int) -> int
    decreases s.len() - i,
{
    if 0 <= i < s.len() && is_digit_byte(s[i]) {
        digit_run_end(s, i + 1)
    } else {
        i
    }
}

/// Start of the significant digits in `s[start..end]`: leading zeros are
/// skipped, but at least one digit is kept.
pub open spec fn skip_zeros(s: Seq<u8>, start: int, end: int) -> int
    decreases end - start,
{
    if end - start > 1 && s[start] == 48u8 {
        skip_zeros(s, start + 1, end)
    } else {
        start
    }
}

/// Three-way comparison of integers: -1, 0 or 1.
pub open spec fn sign(x: int, y: int) -> int {
    if x < y {
        -1
    } else if x > y {
        1
    } else {
        0
    }
}

/// Lexicographic comparison of `x[i..]` and `y[j..]`, for runs of equal length `n`.
pub open spec fn lex_order(x: Seq<u8>, i: int, y: Seq<u8>, j: int, n: int) -> int
    decreases n,
{
    if n <= 0 {
        0
    } else if x[i] != y[j] {
        sign(x[i] as int, y[j] as int)
    } else {
        lex_order(x, i + 1, y, j + 1, n - 1)
    }
}

/// The comparison of two digit runs `a[sa..ea]` and `b[sb..eb]`: by numeric
/// value first, then by the length of the run (fewer leading zeros first).
pub open spec fn run_order(a: Seq<u8>, sa: int, ea: int, b: Seq<u8>, sb: int, eb: int) -> int {
    let za = skip_zeros(a, sa, ea);
    let zb = skip_zeros(b, sb, eb);
    let by_len = sign(ea - za, eb - zb);
    if by_len != 0 {
        by_len
    } else {
        let by_digits = lex_order(a, za, b, zb, ea - za);
        if by_digits != 0 {
            by_digits
        } else {
            sign(ea - sa, eb - sb)
        }
    }
}

/// Natural order of `a[ia..]` against `b[ib..]`.
pub open spec fn natural_order_from(a: Seq<u8>, b: Seq<u8>, ia: int, ib: int) -> int
    decreases a.len() - ia, b.len() - ib,
{
    if 0 <= ia < a.len() && 0 <= ib < b.len() {
        if is_digit_byte(a[ia]) && is_digit_byte(b[ib]) {
            let ea = digit_run_end(a, ia);
            let eb = digit_run_end(b, ib);
            let r = run_order(a, ia, ea, b, ib, eb);
            if r != 0 {
                r
            } else if ia < ea <= a.len() && ib < eb <= b.len() {
                natural_order_from(a, b, ea, eb)
            } else {
                0
            }
        } else {
            let la = lower_byte(a[ia]);
            let lb = lower_byte(b[ib]);
            if la != lb {
                sign(la as int, lb as int)
            } else {
                natural_order_from(a, b, ia + 1, ib + 1)
            }
        }
    } else {
        sign(a.len() as int, b.len() as int)
    }
}

/// Natural order of two byte strings: -1, 0 or 1.
pub open spec fn natural_order(a: Seq<u8>, b: Seq<u8>) -> int {
    natural_order_from(a, b, 0, 0)
}

/// Natural order of two strings, by their UTF-8 bytes.
pub open spec fn natural_order_str(a: Seq<char>, b: Seq<char>) -> int {
    natural_order(encode_utf8(a), encode_utf8(b))
}

// ---------------------------------------------------------------------------
// Lemmas
// ---------------------------------------------------------------------------

pub proof fn lemma_digit_run_end(s: Seq<u8>, i: int)
    requires
        0 <= i <= s.len(),
    ensures
        i <= digit_run_end(s, i) <= s.len(),
        forall|k: int| i <= k < digit_run_end(s, i) ==> is_digit_byte(#[trigger] s[k]),
        digit_run_end(s, i) < s.len() ==> !is_digit_byte(s[digit_run_end(s, i)]),
    decreases s.len() - i,
{
    if i < s.len() && is_digit_byte(s[i]) {
        lemma_digit_run_end(s, i + 1);
    }
}

pub proof fn lemma_skip_zeros(s: Seq<u8>, start: int, end: int)
    requires
        0 <= start < end <= s.len(),
    ensures
        start <= skip_zeros(s, start, end) < end,
        forall|k: int| start <= k < skip_zeros(s, start, end) ==> #[trigger] s[k] == 48u8,
        skip_zeros(s, start, end) < end - 1 ==> s[skip_zeros(s, start, end)] != 48u8,
    decreases end - start,
{
    if end - start > 1 && s[start] == 48u8 {
        lemma_skip_zeros(s, start + 1, end);
    }
}

proof fn lemma_lex_antisym(x: Seq<u8>, i: int, y: Seq<u8>, j: int, n: int)
    ensures
        lex_order(x, i, y, j, n) == -lex_order(y, j, x, i, n),
    decreases n,
{
    if n > 0 && x[i] == y[j] {
        lemma_lex_antisym(x, i + 1, y, j + 1, n - 1);
    }
}

proof fn lemma_lex_refl(x: Seq<u8>, i: int, n: int)
    ensures
        lex_order(x, i, x, i, n) == 0,
    decreases n,
{
    if n > 0 {
        lemma_lex_refl(x, i + 1, n - 1);
    }
}

proof fn lemma_natural_from_antisym(a: Seq<u8>, b: Seq<u8>, ia: int, ib: int)
    ensures
        natural_order_from(a, b, ia, ib) == -natural_order_from(b, a, ib, ia),
    decreases a.len() - ia, b.len() - ib,
{
    if 0 <= ia < a.len() && 0 <= ib < b.len() {
        if is_digit_byte(a[ia]) && is_digit_byte(b[ib]) {
            let ea = digit_run_end(a, ia);
            let eb = digit_run_end(b, ib);
            lemma_lex_antisym(a, skip_zeros(a, ia, ea), b, skip_zeros(b, ib, eb), ea - skip_zeros(a, ia, ea));
            if ia < ea <= a.len() && ib < eb <= b.len() {
                lemma_natural_from_antisym(a, b, ea, eb);
            }
        } else if lower_byte(a[ia]) == lower_byte(b[ib]) {
            lemma_natural_from_antisym(a, b, ia + 1, ib + 1);
        }
    }
}

proof fn lemma_natural_from_refl(a: Seq<u8>, ia: int)
    ensures
        natural_order_from(a, a, ia, ia) == 0,
    decreases a.len() - ia,
{
    if 0 <= ia < a.len() {
        if is_digit_byte(a[ia]) {
            let ea = digit_run_end(a, ia);
            lemma_lex_refl(a, skip_zeros(a, ia, ea), ea - skip_zeros(a, ia, ea));
            lemma_digit_run_end(a, ia);
            lemma_natural_from_refl(a, ea);
        } else {
            lemma_natural_from_refl(a, ia + 1);
        }
    }
}

/// The natural order is antisymmetric: swapping the arguments flips the result.
pub proof fn lemma_natural_order_antisymmetric(a: Seq<u8>, b: Seq<u8>)
    ensures
        natural_order(a, b) == -natural_order(b, a),
        -1 <= natural_order(a, b) <= 1,
{
    lemma_natural_from_antisym(a, b, 0, 0);
    lemma_natural_order_range(a, b, 0, 0);
}

/// Every string is equal to itself in the natural order.
pub proof fn law_natural_order_reflexive(a: Seq<u8>)
    ensures
        natural_order(a, a) == 0,
{
    lemma_natural_from_refl(a, 0);
}

proof fn lemma_lex_range(x: Seq<u8>, i: int, y: Seq<u8>, j: int, n: int)
    ensures
        -1 <= lex_order(x, i, y, j, n) <= 1,
    decreases n,
{
    if n > 0 && x[i] == y[j] {
        lemma_lex_range(x, i + 1, y, j + 1, n - 1);
    }
}

proof fn lemma_natural_order_range(a: Seq<u8>, b: Seq<u8>, ia: int, ib: int)
    ensures
        -1 <= natural_order_from(a, b, ia, ib) <= 1,
    decreases a.len() - ia, b.len() - ib,
{
    if 0 <= ia < a.len() && 0 <= ib < b.len() {
        if is_digit_byte(a[ia]) && is_digit_byte(b[ib]) {
            let ea = digit_run_end(a, ia);
            let eb = digit_run_end(b, ib);
            lemma_lex_range(a, skip_zeros(a, ia, ea), b, skip_zeros(b, ib, eb), ea - skip_zeros(a, ia, ea));
            if ia < ea <= a.len() && ib < eb <= b.len() {
                lemma_natural_order_range(a, b, ea, eb);
            }
        } else if lower_byte(a[ia]) == lower_byte(b[ib]) {
            lemma_natural_order_range(a, b, ia + 1, ib + 1);
        }
    }
}

// ---------------------------------------------------------------------------
// Case does not matter
// ---------------------------------------------------------------------------

/// `s` with every ASCII capital letter (`A`..=`Z`) made small.
pub open spec fn ascii_case_folded(s: Seq<u8>) -> Seq<u8> {
    s.map_values(|b: u8| if 65 <= b <= 90 { (b + 32) as u8 } else { b })
}

proof fn lemma_fold_run_end(s: Seq<u8>, i: int)
    ensures
        digit_run_end(ascii_case_folded(s), i) == digit_run_end(s, i),
    decreases s.len() - i,
{
    if 0 <= i < s.len() && is_digit_byte(s[i]) {
        lemma_fold_run_end(s, i + 1);
    }
}

proof fn lemma_fold_skip_zeros(s: Seq<u8>, start: int, end: int)
    requires
        0 <= start,
        end <= s.len(),
    ensures
        skip_zeros(ascii_case_folded(s), start, end) == skip_zeros(s, start, end),
    decreases end - start,
{
    if end - start > 1 && s[start] == 48u8 {
        lemma_fold_skip_zeros(s, start + 1, end);
    }
}

proof fn lemma_fold_lex(x: Seq<u8>, i: int, y: Seq<u8>, j: int, n: int)
    requires
        0 <= i,
        0 <= j,
        i + n <= x.len(),
        j + n <= y.len(),
        forall|k: int| i <= k < i + n ==> is_digit_byte(#[trigger] x[k]),
        forall|k: int| j <= k < j + n ==> is_digit_byte(#[trigger] y[k]),
    ensures
        lex_order(ascii_case_folded(x), i, ascii_case_folded(y), j, n) == lex_order(x, i, y, j, n),
    decreases n,
{
    if n > 0 {
        assert(is_digit_byte(x[i]) && is_digit_byte(y[j]));
        lemma_fold_lex(x, i + 1, y, j + 1, n - 1);
    }
}

proof fn lemma_fold_from(a: Seq<u8>, b: Seq<u8>, ia: int, ib: int)
    requires
        0 <= ia,
        0 <= ib,
    ensures
        natural_order_from(ascii_case_folded(a), ascii_case_folded(b), ia, ib) == natural_order_from(a, b, ia, ib),
    decreases a.len() - ia, b.len() - ib,
{
    let fa = ascii_case_folded(a);
    let fb = ascii_case_folded(b);
    if ia < a.len() && ib < b.len() {
        if is_digit_byte(a[ia]) && is_digit_byte(b[ib]) {
            let ea = digit_run_end(a, ia);
            let eb = digit_run_end(b, ib);
            lemma_fold_run_end(a, ia);
            lemma_fold_run_end(b, ib);
            lemma_digit_run_end(a, ia);
            lemma_digit_run_end(b, ib);
            lemma_skip_zeros(a, ia, ea);
            lemma_skip_zeros(b, ib, eb);
            lemma_fold_skip_zeros(a, ia, ea);
            lemma_fold_skip_zeros(b, ib, eb);
            let za = skip_zeros(a, ia, ea);
            let zb = skip_zeros(b, ib, eb);
            if ea - za == eb - zb {
                lemma_fold_lex(a, za, b, zb, ea - za);
            }
            assert(run_order(fa, ia, ea, fb, ib, eb) == run_order(a, ia, ea, b, ib, eb));
            if ia < ea <= a.len() && ib < eb <= b.len() {
                lemma_fold_from(a, b, ea, eb);
            }
        } else {
            lemma_fold_from(a, b, ia + 1, ib + 1);
        }
    }
}

/// Natural order is ASCII case-insensitive: two strings that differ only in
/// the case of ASCII letters compare alike against any string, on either
/// side. So "apple" comes before "Banana", as it comes before "banana".
pub proof fn law_natural_order_ignores_ascii_case(a: Seq<u8>, c: Seq<u8>, b: Seq<u8>)
    requires
        ascii_case_folded(a) == ascii_case_folded(c),
    ensures
        natural_order(a, b) == natural_order(c, b),
        natural_order(b, a) == natural_order(b, c),
{
    lemma_fold_from(a, b, 0, 0);
    lemma_fold_from(c, b, 0, 0);
    lemma_fold_from(b, a, 0, 0);
    lemma_fold_from(b, c, 0, 0);
}

/// Two single characters other than digits compare as their ASCII-small
/// forms do: "a" before "B" before "c".
pub proof fn law_letters_compare_alphabetically_ignoring_case(x: u8, y: u8)
    requires
        !is_digit_byte(x) || !is_digit_byte(y),
    ensures
        natural_order(seq![x], seq![y]) == sign(
            ascii_case_folded(seq![x])[0] as int,
            ascii_case_folded(seq![y])[0] as int,
        ),
{
    let a = seq![x];
    let b = seq![y];
    assert(natural_order_from(a, b, 1, 1) == 0);
}

// ---------------------------------------------------------------------------
// Executable comparison
// ---------------------------------------------------------------------------

fn lower(b: u8) -> (r: u8)
    ensures
        r == lower_byte(b),
{
    if 65 <= b && b <= 90 {
        b + 32
    } else {
        b
    }
}

fn run_end(s: &[u8], i: usize) -> (e: usize)
    requires
        i <= s@.len(),
    ensures
        e == digit_run_end(s@, i as int),
{
    let mut e = i;
    proof {
        lemma_digit_run_end(s@, i as int);
    }
    while e < s.len() && 48 <= s[e] && s[e] <= 57
        invariant
            i <= e <= s@.len(),
            digit_run_end(s@, e as int) == digit_run_end(s@, i as int),
        decreases s@.len() - e,
    {
        e += 1;
    }
    e
}

fn zeros_end(s: &[u8], start: usize, end: usize) -> (z: usize)
    requires
        start < end <= s@.len(),
    ensures
        z == skip_zeros(s@, start as int, end as int),
{
    let mut z = start;
    while end - z > 1 && s[z] == 48
        invariant
            start <= z < end <= s@.len(),
            skip_zeros(s@, z as int, end as int) == skip_zeros(s@, start as int, end as int),
        decreases end - z,
    {
        z += 1;
    }
    z
}

fn lex(x: &[u8], i: usize, y: &[u8], j: usize, n: usize) -> (r: i8)
    requires
        i + n <= x.len(),
        j + n <= y.len(),
    ensures
        r as int == lex_order(x@, i as int, y@, j as int, n as int),
{
    let mut k: usize = 0;
    while k < n
        invariant
            i + n <= x.len(),
            j + n <= y.len(),
            k <= n,
            lex_order(x@, i + k, y@, j + k, n - k) == lex_order(x@, i as int, y@, j as int, n as int),
        decreases n - k,
    {
        if x[i + k] != y[j + k] {
            return if x[i + k] < y[j + k] { -1 } else { 1 };
        }
        k += 1;
    }
    0
}

fn sign_usize(x: usize, y: usize) -> (r: i8)
    ensures
        r as int == sign(x as int, y as int),
{
    if x < y {
        -1
    } else if x > y {
        1
    } else {
        0
    }
}

/// Natural order of two byte strings as -1, 0 or 1.
pub fn natural_order_bytes(a: &[u8], b: &[u8]) -> (r: i8)
    ensures
        r as int == natural_order(a@, b@),
{
    let mut ia: usize = 0;
    let mut ib: usize = 0;
    while ia < a.len() && ib < b.len()
        invariant
            ia <= a@.len(),
            ib <= b@.len(),
            natural_order_from(a@, b@, ia as int, ib as int) == natural_order(a@, b@),
        decreases a@.len() - ia, b@.len() - ib,
    {
        let ca = a[ia];
        let cb = b[ib];
        if 48 <= ca && ca <= 57 && 48 <= cb && cb <= 57 {
            let start_a = ia;
            let start_b = ib;
            let ea = run_end(a, ia);
            let eb = run_end(b, ib);
            proof {
                lemma_digit_run_end(a@, ia as int);
                lemma_digit_run_end(b@, ib as int);
            }
            let za = zeros_end(a, start_a, ea);
            let zb = zeros_end(b, start_b, eb);
            proof {
                lemma_skip_zeros(a@, start_a as int, ea as int);
                lemma_skip_zeros(b@, start_b as int, eb as int);
            }
            let by_len = sign_usize(ea - za, eb - zb);
            if by_len != 0 {
                return by_len;
            }
            let by_digits = lex(a, za, b, zb, ea - za);
            if by_digits != 0 {
                return by_digits;
            }
            let by_run = sign_usize(ea - start_a, eb - start_b);
            if by_run != 0 {
                return by_run;
            }
            ia = ea;
            ib = eb;
            continue;
        }
        let la = lower(ca);
        let lb = lower(cb);
        if la != lb {
            return if la < lb { -1 } else { 1 };
        }
        ia += 1;
        ib += 1;
    }
    sign_usize(a.len(), b.len())
}

/// Natural comparison of two strings (`std::cmp::Ordering`).
pub fn natural_cmp(a: &str, b: &str) -> (r: Ordering)
    ensures
        (r == Ordering::Less) == (natural_order_str(a@, b@) == -1),
        (r == Ordering::Equal) == (natural_order_str(a@, b@) == 0),
        (r == Ordering::Greater) == (natural_order_str(a@, b@) == 1),
{
    let x = natural_order_bytes(a.as_bytes(), b.as_bytes());
    proof {
        lemma_natural_order_antisymmetric(encode_utf8(a@), encode_utf8(b@));
    }
    if x < 0 {
        Ordering::Less
    } else if x > 0 {
        Ordering::Greater
    } else {
        Ordering::Equal
    }
}

/// Whether `a` comes no later than `b` in the natural order.
pub fn natural_le(a: &str, b: &str) -> (r: bool)
    ensures
        r == (natural_order_str(a@, b@) <= 0),
{
    natural_order_bytes(a.as_bytes(), b.as_bytes()) <= 0
}

// ---------------------------------------------------------------------------
// Leading track numbers
// ---------------------------------------------------------------------------

/// `acc * 10 + d`, saturating at `u32::MAX` (`saturating_mul`, then `saturating_add`).
pub open spec fn sat_digit_step(acc: int, d: int) -> int {
    if acc * 10 + d > u32::MAX {
        u32::MAX as int
    } else {
        acc * 10 + d
    }
}

/// The value of the leading ASCII digits of `s`, folded into `acc`.
pub open spec fn leading_value(s: Seq<char>, acc: int) -> int
    decreases s.len(),
{
    if s.len() > 0 && crate::text::is_digit_char(s[0]) {
        leading_value(s.drop_first(), sat_digit_step(acc, crate::text::digit_value(s[0]) as int))
    } else {
        acc
    }
}

/// The number that a name starts with, if it starts with a digit.
pub open spec fn leading_number(s: Seq<char>) -> Option<u32> {
    if s.len() > 0 && crate::text::is_digit_char(s[0]) {
        Some(leading_value(s, 0) as u32)
    } else {
        None
    }
}

proof fn lemma_leading_value_range(s: Seq<char>, acc: int)
    requires
        0 <= acc <= u32::MAX,
    ensures
        0 <= leading_value(s, acc) <= u32::MAX,
    decreases s.len(),
{
    if s.len() > 0 && crate::text::is_digit_char(s[0]) {
        lemma_leading_value_range(s.drop_first(), sat_digit_step(acc, crate::text::digit_value(s[0]) as int));
    }
}

/// The number formed by the leading decimal digits of a name (saturating).
pub fn leading_track_number(input: &str) -> (r: Option<u32>)
    ensures
        r == leading_number(input@),
{
    let chars = crate::text::chars_of(input);
    let mut n: u32 = 0;
    let mut saw_digit = false;
    let mut i: usize = 0;
    assert(chars@.skip(0) =~= chars@);
    while i < chars.len() && '0' <= chars[i] && chars[i] <= '9'
        invariant
            i <= chars@.len(),
            chars@ == input@,
            saw_digit == (i > 0),
            forall|k: int| 0 <= k < i ==> crate::text::is_digit_char(#[trigger] chars@[k]),
            leading_value(chars@.skip(i as int), n as int) == leading_value(chars@, 0),
        decreases chars@.len() - i,
    {
        let c = chars[i];
        let d = (c as u32) - 48;
        assert(chars@.skip(i as int).drop_first() =~= chars@.skip(i + 1));
        n = if (n as u64) * 10 + (d as u64) > 4294967295u64 {
            4294967295u32
        } else {
            n * 10 + d
        };
        saw_digit = true;
        i += 1;
    }
    proof {
        lemma_leading_value_range(chars@, 0);
        if i < chars@.len() {
            assert(chars@.skip(i as int)[0] == chars@[i as int]);
        }
        assert(leading_value(chars@.skip(i as int), n as int) == n as int);
        if i > 0 {
            assert(crate::text::is_digit_char(chars@[0]));
        }
    }
    if saw_digit {
        Some(n)
    } else {
        None
    }
}

} // verus!
