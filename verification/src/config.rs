use vstd::prelude::*;

verus! {

// ---------------------------------------------------------------------------
// Bytes and decimal digits
// ---------------------------------------------------------------------------

pub open spec fn is_digit(b: u8) -> bool {
    48 <= b <= 57
}

pub open spec fn all_digits(s: Seq<u8>) -> bool {
    forall|i: int| 0 <= i < s.len() ==> is_digit(#[trigger] s[i])
}

/// The number a sequence of decimal digit bytes denotes.
pub open spec fn digits_val(s: Seq<u8>) -> int
    decreases s.len(),
{
    if s.len() == 0 {
        0
    } else {
        digits_val(s.drop_last()) * 10 + (s.last() - 48)
    }
}

/// The canonical decimal digits of a nonnegative number, most significant
/// first, without leading zeros (a single zero for 0).
pub open spec fn spec_decimal(v: nat) -> Seq<u8>
    decreases v,
{
    if v < 10 {
        seq![(48 + v) as u8]
    } else {
        spec_decimal(v / 10).push((48 + v % 10) as u8)
    }
}

pub proof fn lemma_digits_val_nonneg(s: Seq<u8>)
    requires
        all_digits(s),
    ensures
        0 <= digits_val(s),
    decreases s.len(),
{
    if s.len() > 0 {
        lemma_digits_val_nonneg(s.drop_last());
    }
}

/// The canonical digits of v denote v, are digits, and are nonempty.
pub proof fn lemma_decimal_val(v: nat)
    ensures
        digits_val(spec_decimal(v)) == v,
        all_digits(spec_decimal(v)),
        spec_decimal(v).len() >= 1,
    decreases v,
{
    if v < 10 {
        let s = spec_decimal(v);
        assert(s =~= seq![(48 + v) as u8]);
        assert(s.drop_last() =~= Seq::<u8>::empty());
        assert(digits_val(Seq::<u8>::empty()) == 0);
        assert(digits_val(s) == (48 + v) - 48);
        assert(forall|j: int| 0 <= j < s.len() ==> is_digit(#[trigger] s[j]));
    } else {
        lemma_decimal_val(v / 10);
        let s = spec_decimal(v);
        let p = spec_decimal(v / 10);
        vstd::arithmetic::div_mod::lemma_fundamental_div_mod(v as int, 10);
        vstd::arithmetic::div_mod::lemma_mod_pos_bound(v as int, 10);
        assert(s == p.push((48 + v % 10) as u8));
        assert(s.drop_last() =~= p);
        assert(s.last() == (48 + v % 10) as u8);
        assert(48 + v % 10 < 256);
        assert(digits_val(s) == digits_val(p) * 10 + (48 + v % 10 - 48));
        assert(digits_val(s) == (v / 10) * 10 + v % 10);
        assert(forall|j: int| 0 <= j < s.len() - 1 ==> #[trigger] s[j] == p[j]);
        assert(forall|j: int| 0 <= j < s.len() ==> is_digit(#[trigger] s[j]));
    }
}

/// A digit sequence with a leading zero denotes the same number without it.
pub proof fn lemma_digits_val_leading_zero(s: Seq<u8>)
    requires
        s.len() >= 1,
        s[0] == 48,
    ensures
        digits_val(s) == digits_val(s.skip(1)),
    decreases s.len(),
{
    if s.len() == 1 {
        assert(s.drop_last() =~= Seq::<u8>::empty());
        assert(s.skip(1) =~= Seq::<u8>::empty());
    } else {
        lemma_digits_val_leading_zero(s.drop_last());
        assert(s.drop_last()[0] == 48);
        assert(s.skip(1).drop_last() =~= s.drop_last().skip(1));
        assert(s.skip(1).last() == s.last());
    }
}

/// Powers of ten.
pub open spec fn pow10(n: nat) -> int
    decreases n,
{
    if n == 0 {
        1
    } else {
        10 * pow10((n - 1) as nat)
    }
}

pub proof fn lemma_pow10_pos(n: nat)
    ensures
        pow10(n) >= 1,
    decreases n,
{
    if n > 0 {
        lemma_pow10_pos((n - 1) as nat);
    }
}

/// A digit sequence that does not start with zero denotes at least
/// 10^(len-1).
pub proof fn lemma_digits_val_lower_bound(s: Seq<u8>)
    requires
        all_digits(s),
        s.len() >= 1,
        s[0] != 48,
    ensures
        digits_val(s) >= pow10((s.len() - 1) as nat),
    decreases s.len(),
{
    if s.len() == 1 {
        assert(s.drop_last() =~= Seq::<u8>::empty());
        assert(digits_val(Seq::<u8>::empty()) == 0);
        assert(pow10(0nat) == 1);
        assert(is_digit(s[0]));
        assert(s.last() == s[0]);
    } else {
        let dl = s.drop_last();
        assert(all_digits(dl)) by {
            assert(forall|j: int| 0 <= j < s.len() - 1 ==> #[trigger] dl[j] == s[j]);
        };
        lemma_digits_val_lower_bound(dl);
        let p = pow10((s.len() - 2) as nat);
        assert(digits_val(dl) >= p);
        assert(is_digit(s[s.len() - 1]));
        assert(s.last() == s[s.len() - 1]);
        assert(digits_val(s) == digits_val(dl) * 10 + (s.last() - 48));
        assert(digits_val(dl) * 10 >= p * 10);
        assert(pow10((s.len() - 1) as nat) == 10 * p);
    }
}

// ---------------------------------------------------------------------------
// Parsing an i32 the way str::parse::<i32> does
// ---------------------------------------------------------------------------

/// The digit part of an integer literal: everything after an optional
/// sign byte.
pub open spec fn int_body(s: Seq<u8>) -> Seq<u8> {
    if s.len() > 0 && (s[0] == 43 || s[0] == 45) {
        s.skip(1)
    } else {
        s
    }
}

pub open spec fn int_negative(s: Seq<u8>) -> bool {
    s.len() > 0 && s[0] == 45
}

/// What str::parse::<i32> accepts: an optional sign, then one or more
/// decimal digits, denoting a value that fits in i32.
pub open spec fn valid_i32_literal(s: Seq<u8>) -> bool {
    &&& int_body(s).len() > 0
    &&& all_digits(int_body(s))
    &&& if int_negative(s) {
        digits_val(int_body(s)) <= 0x8000_0000
    } else {
        digits_val(int_body(s)) <= 0x7fff_ffff
    }
}

/// The number a byte sequence parses to, with 0 for anything
/// str::parse::<i32> would reject, matching `parse().unwrap_or(0)`.
pub open spec fn spec_parse_i32(s: Seq<u8>) -> int {
    if valid_i32_literal(s) {
        if int_negative(s) {
            -digits_val(int_body(s))
        } else {
            digits_val(int_body(s))
        }
    } else {
        0
    }
}

/// Parses a decimal integer, yielding 0 when the bytes are not a valid
/// i32 literal: the `str::parse::<i32>().unwrap_or(0)` reading.
#[verifier::loop_isolation(false)]
pub fn parse_i32_or_zero(s: &[u8]) -> (r: i32)
    ensures
        r as int == spec_parse_i32(s@),
{
    let n: usize = s.len();
    if n == 0 {
        return 0;
    }
    let negative: bool = s[0] == 45;
    let body_start: usize = if s[0] == 43 || s[0] == 45 {
        1
    } else {
        0
    };
    proof {
        assert(int_body(s@) =~= s@.skip(body_start as int));
        assert(int_negative(s@) == negative);
    }
    if body_start == n {
        return 0;
    }

    // Every byte of the body must be a digit.
    let mut i: usize = body_start;
    while i < n
        invariant
            body_start <= i <= n,
            n == s@.len(),
            forall|j: int| body_start <= j < i ==> is_digit(#[trigger] s@[j]),
        decreases n - i,
    {
        if s[i] < 48 || s[i] > 57 {
            proof {
                assert(int_body(s@)[i - body_start] == s@[i as int]);
                assert(!valid_i32_literal(s@));
            }
            return 0;
        }
        i = i + 1;
    }
    proof {
        assert(all_digits(s@.skip(body_start as int)));
    }

    // Skip leading zeros; they do not change the value.
    let mut z: usize = body_start;
    while z < n && s[z] == 48
        invariant
            body_start <= z <= n,
            n == s@.len(),
            forall|j: int| body_start <= j < z ==> s@[j] == 48,
            digits_val(s@.skip(body_start as int)) == digits_val(s@.skip(z as int)),
        decreases n - z,
    {
        proof {
            lemma_digits_val_leading_zero(s@.skip(z as int));
            assert(s@.skip(z as int).skip(1) =~= s@.skip(z as int + 1));
        }
        z = z + 1;
    }

    let m: usize = n - z;
    if m > 10 {
        // At least 11 significant digits: the value exceeds any i32.
        proof {
            let stripped = s@.skip(z as int);
            assert(all_digits(stripped));
            lemma_digits_val_lower_bound(stripped);
            lemma_pow10_pos((stripped.len() - 11) as nat);
            assert(pow10((stripped.len() - 1) as nat) >= pow10(10nat) * pow10(
                (stripped.len() - 11) as nat,
            )) by {
                lemma_pow10_split((stripped.len() - 1) as nat, 10nat);
            };
            assert(pow10(10nat) == 10_000_000_000) by {
                reveal_with_fuel(pow10, 11);
            };
        }
        return 0;
    }

    // At most 10 digits: the value fits comfortably in u64.
    let mut acc: u64 = 0;
    let mut k: usize = z;
    while k < n
        invariant
            z <= k <= n,
            n == s@.len(),
            n - z <= 10,
            all_digits(s@.skip(z as int)),
            acc == digits_val(s@.subrange(z as int, k as int)),
            acc < 10_000_000_000,
        decreases n - k,
    {
        proof {
            let sub = s@.subrange(z as int, k as int + 1);
            assert(sub.drop_last() =~= s@.subrange(z as int, k as int));
            assert(sub.last() == s@[k as int]);
            assert(s@[k as int] == s@.skip(z as int)[k - z]);
            lemma_digits_val_nonneg(s@.subrange(z as int, k as int));
            lemma_digits_val_bounded(s@.subrange(z as int, k as int + 1));
        }
        acc = acc * 10 + ((s[k] - 48) as u64);
        k = k + 1;
    }
    proof {
        assert(s@.subrange(z as int, n as int) =~= s@.skip(z as int));
    }

    if negative {
        if acc <= 0x8000_0000 {
            proof {
                lemma_digits_val_nonneg(s@.skip(body_start as int));
            }
            (-(acc as i64)) as i32
        } else {
            0
        }
    } else {
        if acc <= 0x7fff_ffff {
            acc as i32
        } else {
            0
        }
    }
}

/// Splitting an exponent: 10^(a) == 10^(b) * 10^(a-b) for b <= a.
pub proof fn lemma_pow10_split(a: nat, b: nat)
    requires
        b <= a,
    ensures
        pow10(a) == pow10(b) * pow10((a - b) as nat),
    decreases b,
{
    if b == 0 {
    } else {
        lemma_pow10_split((a - 1) as nat, (b - 1) as nat);
        assert(pow10(b) == 10 * pow10((b - 1) as nat));
        assert(10 * (pow10((b - 1) as nat) * pow10((a - b) as nat)) == (10 * pow10(
            (b - 1) as nat,
        )) * pow10((a - b) as nat)) by (nonlinear_arith);
    }
}

/// A digit sequence of at most 10 digits denotes less than 10^10.
pub proof fn lemma_digits_val_bounded(s: Seq<u8>)
    requires
        all_digits(s),
        s.len() <= 10,
    ensures
        digits_val(s) < 10_000_000_000,
    decreases s.len(),
{
    lemma_digits_val_bounded_general(s);
    lemma_pow10_mono(s.len(), 10nat);
    assert(pow10(10nat) == 10_000_000_000) by {
        reveal_with_fuel(pow10, 11);
    };
}

/// A digit sequence of n digits denotes less than 10^n.
pub proof fn lemma_digits_val_bounded_general(s: Seq<u8>)
    requires
        all_digits(s),
    ensures
        digits_val(s) < pow10(s.len()),
    decreases s.len(),
{
    if s.len() == 0 {
    } else {
        lemma_digits_val_bounded_general(s.drop_last());
    }
}

pub proof fn lemma_pow10_mono(a: nat, b: nat)
    requires
        a <= b,
    ensures
        pow10(a) <= pow10(b),
    decreases b,
{
    if a < b {
        lemma_pow10_mono(a, (b - 1) as nat);
        lemma_pow10_pos((b - 1) as nat);
    }
}


// ---------------------------------------------------------------------------
// Lines, trimming, and the key = value format
// ---------------------------------------------------------------------------

/// The bytes str::trim treats as whitespace within ASCII.
pub open spec fn is_space(b: u8) -> bool {
    b == 32 || 9 <= b <= 13
}

pub open spec fn trim_start(s: Seq<u8>) -> Seq<u8>
    decreases s.len(),
{
    if s.len() > 0 && is_space(s[0]) {
        trim_start(s.skip(1))
    } else {
        s
    }
}

pub open spec fn trim_end(s: Seq<u8>) -> Seq<u8>
    decreases s.len(),
{
    if s.len() > 0 && is_space(s.last()) {
        trim_end(s.drop_last())
    } else {
        s
    }
}

/// What str::trim leaves of an ASCII line.
pub open spec fn spec_trim(s: Seq<u8>) -> Seq<u8> {
    trim_end(trim_start(s))
}

/// The index of the first occurrence of b, or the length when absent.
pub open spec fn find_byte(s: Seq<u8>, b: u8) -> int
    decreases s.len(),
{
    if s.len() == 0 {
        0
    } else if s[0] == b {
        0
    } else {
        1 + find_byte(s.skip(1), b)
    }
}

pub proof fn lemma_find_byte(s: Seq<u8>, b: u8)
    ensures
        0 <= find_byte(s, b) <= s.len(),
        forall|j: int| 0 <= j < find_byte(s, b) ==> s[j] != b,
        find_byte(s, b) < s.len() ==> s[find_byte(s, b)] == b,
    decreases s.len(),
{
    if s.len() == 0 || s[0] == b {
    } else {
        lemma_find_byte(s.skip(1), b);
        assert forall|j: int| 0 <= j < find_byte(s, b) implies s[j] != b by {
            if j > 0 {
                assert(s.skip(1)[j - 1] == s[j]);
                assert(s.skip(1)[j - 1] != b);
            }
        }
        if find_byte(s, b) < s.len() {
            assert(s.skip(1)[find_byte(s, b) - 1] == s[find_byte(s, b)]);
        }
    }
}

/// The characterization in lemma_find_byte determines find_byte.
pub proof fn lemma_find_byte_unique(s: Seq<u8>, b: u8, k: int)
    requires
        0 <= k <= s.len(),
        forall|j: int| 0 <= j < k ==> s[j] != b,
        k < s.len() ==> s[k] == b,
    ensures
        find_byte(s, b) == k,
    decreases s.len(),
{
    if s.len() == 0 {
    } else if s[0] == b {
        assert(k == 0);
    } else {
        assert(k >= 1);
        assert(forall|j: int| 0 <= j < s.len() - 1 ==> #[trigger] s.skip(1)[j] == s[j + 1]);
        lemma_find_byte_unique(s.skip(1), b, k - 1);
    }
}

/// A line read by str::lines: the text before a newline, with one
/// trailing carriage return removed.
pub open spec fn strip_cr(s: Seq<u8>) -> Seq<u8> {
    if s.len() > 0 && s.last() == 13 {
        s.drop_last()
    } else {
        s
    }
}

/// "locale" as bytes.
pub open spec fn key_locale() -> Seq<u8> {
    seq![108u8, 111u8, 99u8, 97u8, 108u8, 101u8]
}

/// "difficulty" as bytes.
pub open spec fn key_difficulty() -> Seq<u8> {
    seq![100u8, 105u8, 102u8, 102u8, 105u8, 99u8, 117u8, 108u8, 116u8, 121u8]
}

pub open spec fn starts_with(s: Seq<u8>, p: Seq<u8>) -> bool {
    s.len() >= p.len() && s.take(p.len() as int) == p
}

/// What one config line does to the two stored numbers: a line without
/// '=' changes nothing; otherwise the text before the first '=' selects
/// the field by its leading word and the text after it, trimmed, is
/// parsed as the new value.
pub open spec fn spec_line_update(loc: int, dif: int, line: Seq<u8>) -> (int, int) {
    let e = find_byte(line, 61);
    if e == line.len() {
        (loc, dif)
    } else {
        let param = line.take(e);
        let value = line.skip(e + 1);
        if starts_with(param, key_locale()) {
            (spec_parse_i32(spec_trim(value)), dif)
        } else if starts_with(param, key_difficulty()) {
            (loc, spec_parse_i32(spec_trim(value)))
        } else {
            (loc, dif)
        }
    }
}

/// Folds the config lines over the accumulated (locale, difficulty)
/// numbers, line by line, later lines overwriting earlier ones.
pub open spec fn spec_parse_config_from(loc: int, dif: int, s: Seq<u8>) -> (int, int)
    decreases s.len(),
    via spec_parse_config_from_decreases
{
    if s.len() == 0 {
        (loc, dif)
    } else {
        let e = find_byte(s, 10);
        let u = spec_line_update(loc, dif, strip_cr(s.take(e)));
        if e == s.len() {
            u
        } else {
            spec_parse_config_from(u.0, u.1, s.skip(e + 1))
        }
    }
}

#[via_fn]
proof fn spec_parse_config_from_decreases(loc: int, dif: int, s: Seq<u8>) {
    lemma_find_byte(s, 10);
}

/// The numbers a whole config file yields, starting from 0 and 0: the
/// defaults that stand when a key never appears.
pub open spec fn spec_parse_config(s: Seq<u8>) -> (int, int) {
    spec_parse_config_from(0, 0, s)
}

/// trim_start drops exactly the leading run of whitespace.
pub proof fn lemma_trim_start_skip(s: Seq<u8>, a: int)
    requires
        0 <= a <= s.len(),
        forall|j: int| 0 <= j < a ==> is_space(#[trigger] s[j]),
        a < s.len() ==> !is_space(s[a]),
    ensures
        trim_start(s) == s.skip(a),
    decreases s.len(),
{
    if a == 0 {
        assert(s.skip(0) =~= s);
    } else {
        assert(is_space(s[0]));
        assert(forall|j: int| 0 <= j < s.len() - 1 ==> #[trigger] s.skip(1)[j] == s[j + 1]);
        lemma_trim_start_skip(s.skip(1), a - 1);
        assert(s.skip(1).skip(a - 1) =~= s.skip(a));
    }
}

/// trim_end drops exactly the trailing run of whitespace.
pub proof fn lemma_trim_end_take(s: Seq<u8>, k: int)
    requires
        0 <= k <= s.len(),
        forall|j: int| k <= j < s.len() ==> is_space(#[trigger] s[j]),
        k > 0 ==> !is_space(s[k - 1]),
    ensures
        trim_end(s) == s.take(k),
    decreases s.len(),
{
    if k == s.len() {
        if s.len() > 0 {
            assert(!is_space(s.last()));
        }
        assert(s.take(k) =~= s);
    } else {
        assert(is_space(s.last()));
        assert(forall|j: int| 0 <= j < s.len() - 1 ==> #[trigger] s.drop_last()[j] == s[j]);
        lemma_trim_end_take(s.drop_last(), k);
        assert(s.drop_last().take(k) =~= s.take(k));
    }
}

/// The byte vector "locale".
pub fn key_locale_vec() -> (r: Vec<u8>)
    ensures
        r@ == key_locale(),
{
    let mut v: Vec<u8> = Vec::new();
    v.push(108);
    v.push(111);
    v.push(99);
    v.push(97);
    v.push(108);
    v.push(101);
    proof {
        assert(v@ =~= key_locale());
    }
    v
}

/// The byte vector "difficulty".
pub fn key_difficulty_vec() -> (r: Vec<u8>)
    ensures
        r@ == key_difficulty(),
{
    let mut v: Vec<u8> = Vec::new();
    v.push(100);
    v.push(105);
    v.push(102);
    v.push(102);
    v.push(105);
    v.push(99);
    v.push(117);
    v.push(108);
    v.push(116);
    v.push(121);
    proof {
        assert(v@ =~= key_difficulty());
    }
    v
}

/// Whether s begins with the given prefix.
#[verifier::loop_isolation(false)]
pub fn slice_starts_with(s: &[u8], p: &Vec<u8>) -> (r: bool)
    ensures
        r == starts_with(s@, p@),
{
    if s.len() < p.len() {
        return false;
    }
    let mut i: usize = 0;
    while i < p.len()
        invariant
            0 <= i <= p@.len(),
            forall|j: int| 0 <= j < i ==> s@[j] == p@[j],
        decreases p@.len() - i,
    {
        if s[i] != p[i] {
            proof {
                assert(s@.take(p@.len() as int)[i as int] == s@[i as int]);
            }
            return false;
        }
        i = i + 1;
    }
    proof {
        assert(s@.take(p@.len() as int) =~= p@);
    }
    true
}

/// One line of the config file applied to the two stored numbers,
/// exactly as spec_line_update says.
#[verifier::loop_isolation(false)]
pub fn apply_config_line(line: &[u8], loc: &mut i32, dif: &mut i32)
    ensures
        (*final(loc) as int, *final(dif) as int) == spec_line_update(
            *old(loc) as int,
            *old(dif) as int,
            line@,
        ),
{
    let n: usize = line.len();

    // Find the first '=' byte.
    let mut e: usize = 0;
    while e < n && line[e] != 61
        invariant
            0 <= e <= n,
            n == line@.len(),
            forall|j: int| 0 <= j < e ==> line@[j] != 61,
        decreases n - e,
    {
        e = e + 1;
    }
    proof {
        lemma_find_byte_unique(line@, 61, e as int);
    }
    if e == n {
        return ;
    }

    // The parameter name is everything before '='.
    let param: &[u8] = slice_take(line, e);

    // The value is everything after '=', trimmed of whitespace.
    let mut a: usize = e + 1;
    while a < n && is_space_byte(line[a])
        invariant
            e + 1 <= a <= n,
            n == line@.len(),
            forall|j: int| e + 1 <= j < a ==> is_space(#[trigger] line@[j]),
        decreases n - a,
    {
        a = a + 1;
    }
    let mut b: usize = n;
    while b > a && is_space_byte(line[b - 1])
        invariant
            a <= b <= n,
            n == line@.len(),
            forall|j: int| b <= j < n ==> is_space(#[trigger] line@[j]),
        decreases b,
    {
        b = b - 1;
    }
    let trimmed: &[u8] = slice_window(line, a, b);
    proof {
        let value = line@.skip(e + 1);
        assert(forall|j: int|
            0 <= j < value.len() ==> #[trigger] value[j] == line@[j + e + 1]);
        lemma_trim_start_skip(value, a - (e + 1));
        assert(value.skip(a - (e + 1)) =~= line@.subrange(a as int, n as int));
        let t = line@.subrange(a as int, n as int);
        assert(forall|j: int| 0 <= j < t.len() ==> #[trigger] t[j] == line@[j + a]);
        lemma_trim_end_take(t, b - a);
        assert(t.take(b - a) =~= line@.subrange(a as int, b as int));
        assert(spec_trim(value) == line@.subrange(a as int, b as int));
    }

    let locale_key = key_locale_vec();
    let difficulty_key = key_difficulty_vec();
    if slice_starts_with(param, &locale_key) {
        *loc = parse_i32_or_zero(trimmed);
    } else if slice_starts_with(param, &difficulty_key) {
        *dif = parse_i32_or_zero(trimmed);
    }
}

/// The first `end` bytes of a slice.
pub fn slice_take(s: &[u8], end: usize) -> (r: &[u8])
    requires
        0 <= end <= s@.len(),
    ensures
        r@ == s@.take(end as int),
{
    let r = &s[0..end];
    proof {
        assert(r@ =~= s@.take(end as int));
    }
    r
}

/// The bytes of a slice between two positions.
pub fn slice_window(s: &[u8], from: usize, until: usize) -> (r: &[u8])
    requires
        0 <= from <= until <= s@.len(),
    ensures
        r@ == s@.subrange(from as int, until as int),
{
    let r = &s[from..until];
    proof {
        assert(r@ =~= s@.subrange(from as int, until as int));
    }
    r
}

pub fn is_space_byte(b: u8) -> (r: bool)
    ensures
        r == is_space(b),
{
    b == 32 || (9 <= b && b <= 13)
}

/// Reads the locale and difficulty numbers out of the bytes of a config
/// file: one "key = value" pair per line, unknown or malformed lines
/// ignored, later lines overwriting earlier ones, missing keys left at 0.
#[verifier::loop_isolation(false)]
pub fn parse_config(data: &[u8]) -> (r: (i32, i32))
    ensures
        (r.0 as int, r.1 as int) == spec_parse_config(data@),
{
    let n: usize = data.len();
    let mut loc: i32 = 0;
    let mut dif: i32 = 0;
    let mut pos: usize = 0;
    proof {
        assert(data@.skip(0) =~= data@);
    }
    while pos < n
        invariant
            0 <= pos <= n,
            n == data@.len(),
            spec_parse_config(data@) == spec_parse_config_from(
                loc as int,
                dif as int,
                data@.skip(pos as int),
            ),
        decreases n - pos,
    {
        let ghost rem = data@.skip(pos as int);
        let ghost loc0 = loc as int;
        let ghost dif0 = dif as int;

        // Find the end of the current line.
        let mut end: usize = pos;
        while end < n && data[end] != 10
            invariant
                pos <= end <= n,
                n == data@.len(),
                forall|j: int| pos <= j < end ==> data@[j] != 10,
            decreases n - end,
        {
            end = end + 1;
        }
        proof {
            assert(forall|j: int|
                0 <= j < rem.len() ==> #[trigger] rem[j] == data@[j + pos]);
            lemma_find_byte_unique(rem, 10, end - pos);
        }

        // The line itself, with a trailing carriage return removed.
        let mut line_end: usize = end;
        if line_end > pos && data[line_end - 1] == 13 {
            line_end = line_end - 1;
        }
        let line: &[u8] = slice_window(data, pos, line_end);
        proof {
            assert(rem.take(end - pos) =~= data@.subrange(pos as int, end as int));
            assert(line@ =~= strip_cr(rem.take(end - pos)));
        }

        apply_config_line(line, &mut loc, &mut dif);

        proof {
            let u = spec_line_update(loc0, dif0, strip_cr(rem.take(end - pos)));
            assert(u == (loc as int, dif as int));
            if end < n {
                assert(rem.skip(end - pos + 1) =~= data@.skip(end + 1));
            } else {
                assert(data@.skip(n as int) =~= Seq::<u8>::empty());
            }
        }
        if end == n {
            pos = n;
        } else {
            pos = end + 1;
        }
    }
    proof {
        assert(data@.skip(n as int) =~= Seq::<u8>::empty());
    }
    (loc, dif)
}

// ---------------------------------------------------------------------------
// Rendering the config file
// ---------------------------------------------------------------------------

/// " = " as bytes.
pub open spec fn key_value_sep() -> Seq<u8> {
    seq![32u8, 61u8, 32u8]
}

/// The whole config file for the given locale index and difficulty
/// ordinal: "locale = L\ndifficulty = D".
pub open spec fn spec_render_config(li: nat, d: nat) -> Seq<u8> {
    key_locale() + key_value_sep() + spec_decimal(li) + seq![10u8] + key_difficulty()
        + key_value_sep() + spec_decimal(d)
}

/// Appends the decimal digits of v.
pub fn push_decimal(v: u64, out: &mut Vec<u8>)
    ensures
        final(out)@ == old(out)@ + spec_decimal(v as nat),
    decreases v,
{
    if v < 10 {
        out.push(48 + v as u8);
        proof {
            assert(final(out)@ =~= old(out)@ + spec_decimal(v as nat));
        }
    } else {
        push_decimal(v / 10, out);
        out.push(48 + (v % 10) as u8);
        proof {
            assert(final(out)@ =~= old(out)@ + spec_decimal(v as nat));
        }
    }
}

/// The bytes to write back to the config file for the given locale index
/// and difficulty ordinal.
pub fn render_config(locale_index: u64, difficulty_ordinal: u64) -> (r: Vec<u8>)
    ensures
        r@ == spec_render_config(locale_index as nat, difficulty_ordinal as nat),
{
    let mut out: Vec<u8> = Vec::new();
    let mut locale_key = key_locale_vec();
    out.append(&mut locale_key);
    out.push(32);
    out.push(61);
    out.push(32);
    push_decimal(locale_index, &mut out);
    out.push(10);
    let mut difficulty_key = key_difficulty_vec();
    out.append(&mut difficulty_key);
    out.push(32);
    out.push(61);
    out.push(32);
    push_decimal(difficulty_ordinal, &mut out);
    proof {
        assert(out@ =~= spec_render_config(locale_index as nat, difficulty_ordinal as nat));
    }
    out
}


// ---------------------------------------------------------------------------
// The persistence round trip
// ---------------------------------------------------------------------------

/// A value rendered as " N" trims back to the digits of N, and those
/// digits parse back to N.
proof fn lemma_value_round_trip(v: nat)
    requires
        v <= 0x7fff_ffff,
    ensures
        spec_trim(seq![32u8] + spec_decimal(v)) == spec_decimal(v),
        spec_parse_i32(spec_decimal(v)) == v,
{
    lemma_decimal_val(v);
    let dv = spec_decimal(v);
    let value = seq![32u8] + dv;
    assert(value[0] == 32);
    assert(value[1] == dv[0]);
    assert(is_digit(dv[0]));
    lemma_trim_start_skip(value, 1);
    assert(value.skip(1) =~= dv);
    assert(is_digit(dv[dv.len() - 1]));
    lemma_trim_end_take(dv, dv.len() as int);
    assert(dv.take(dv.len() as int) =~= dv);
    assert(int_body(dv) == dv);
    assert(!int_negative(dv));
}

/// Writing a locale index and a difficulty ordinal to the config format
/// and reading the same bytes back yields the numbers that were written.
pub proof fn lemma_config_round_trip(li: nat, d: nat)
    requires
        li <= 0x7fff_ffff,
        d <= 0x7fff_ffff,
    ensures
        spec_parse_config(spec_render_config(li, d)) == (li as int, d as int),
{
    lemma_decimal_val(li);
    lemma_decimal_val(d);
    let dl = spec_decimal(li);
    let dd = spec_decimal(d);
    let sep = key_value_sep();
    let line1 = key_locale() + sep + dl;
    let line2 = key_difficulty() + sep + dd;
    let s = spec_render_config(li, d);
    assert(s =~= line1 + seq![10u8] + line2);
    let e1 = line1.len() as int;

    // The first newline sits right after the first line.
    assert forall|j: int| 0 <= j < e1 implies s[j] != 10 by {
        assert(s[j] == line1[j]);
        if j < 6 {
            assert(line1[j] == key_locale()[j]);
            if j == 0 {
                assert(key_locale()[0] == 108);
            } else if j == 1 {
                assert(key_locale()[1] == 111);
            } else if j == 2 {
                assert(key_locale()[2] == 99);
            } else if j == 3 {
                assert(key_locale()[3] == 97);
            } else if j == 4 {
                assert(key_locale()[4] == 108);
            } else {
                assert(key_locale()[5] == 101);
            }
        } else if j < 9 {
            assert(line1[j] == sep[j - 6]);
            if j == 6 {
                assert(sep[0] == 32);
            } else if j == 7 {
                assert(sep[1] == 61);
            } else {
                assert(sep[2] == 32);
            }
        } else {
            assert(line1[j] == dl[j - 9]);
            assert(is_digit(dl[j - 9]));
        }
    }
    assert(s[e1] == 10);
    lemma_find_byte_unique(s, 10, e1);

    // The first line carries no carriage return and updates the locale.
    assert(s.take(e1) =~= line1);
    assert(line1.last() == dl[dl.len() - 1]);
    assert(is_digit(dl[dl.len() - 1]));
    assert(strip_cr(line1) == line1);
    lemma_line1_update(li);

    // The rest of the file is exactly the second line.
    assert(s.skip(e1 + 1) =~= line2);

    // The second line holds no newline at all.
    assert forall|j: int| 0 <= j < line2.len() implies line2[j] != 10 by {
        lemma_line2_byte_facts(d, j);
    }
    lemma_find_byte_unique(line2, 10, line2.len() as int);
    assert(line2.take(line2.len() as int) =~= line2);
    assert(line2.last() == dd[dd.len() - 1]);
    assert(is_digit(dd[dd.len() - 1]));
    assert(strip_cr(line2) == line2);
    lemma_line2_update(li as int, d);

    assert(spec_parse_config_from(0, 0, s) == spec_parse_config_from(li as int, 0, line2));
}

/// Every byte of the second rendered line, by position: fixed text
/// first, then digits; none of them is a newline.
proof fn lemma_line2_byte_facts(d: nat, j: int)
    requires
        0 <= j < (key_difficulty() + key_value_sep() + spec_decimal(d)).len(),
    ensures
        (key_difficulty() + key_value_sep() + spec_decimal(d))[j] != 10,
{
    lemma_decimal_val(d);
    let dd = spec_decimal(d);
    let sep = key_value_sep();
    let line2 = key_difficulty() + sep + dd;
    if j < 10 {
        assert(line2[j] == key_difficulty()[j]);
        if j == 0 {
            assert(key_difficulty()[0] == 100);
        } else if j == 1 {
            assert(key_difficulty()[1] == 105);
        } else if j == 2 {
            assert(key_difficulty()[2] == 102);
        } else if j == 3 {
            assert(key_difficulty()[3] == 102);
        } else if j == 4 {
            assert(key_difficulty()[4] == 105);
        } else if j == 5 {
            assert(key_difficulty()[5] == 99);
        } else if j == 6 {
            assert(key_difficulty()[6] == 117);
        } else if j == 7 {
            assert(key_difficulty()[7] == 108);
        } else if j == 8 {
            assert(key_difficulty()[8] == 116);
        } else {
            assert(key_difficulty()[9] == 121);
        }
    } else if j < 13 {
        assert(line2[j] == sep[j - 10]);
        if j == 10 {
            assert(sep[0] == 32);
        } else if j == 11 {
            assert(sep[1] == 61);
        } else {
            assert(sep[2] == 32);
        }
    } else {
        assert(line2[j] == dd[j - 13]);
        assert(is_digit(dd[j - 13]));
    }
}

/// Applying the first rendered line to the defaults stores the locale.
proof fn lemma_line1_update(li: nat)
    requires
        li <= 0x7fff_ffff,
    ensures
        spec_line_update(0, 0, key_locale() + key_value_sep() + spec_decimal(li)) == (
            li as int,
            0int,
        ),
{
    lemma_decimal_val(li);
    let dl = spec_decimal(li);
    let sep = key_value_sep();
    let line1 = key_locale() + sep + dl;

    // The first '=' sits at index 7.
    assert forall|j: int| 0 <= j < 7 implies line1[j] != 61 by {
        if j < 6 {
            assert(line1[j] == key_locale()[j]);
            if j == 0 {
                assert(key_locale()[0] == 108);
            } else if j == 1 {
                assert(key_locale()[1] == 111);
            } else if j == 2 {
                assert(key_locale()[2] == 99);
            } else if j == 3 {
                assert(key_locale()[3] == 97);
            } else if j == 4 {
                assert(key_locale()[4] == 108);
            } else {
                assert(key_locale()[5] == 101);
            }
        } else {
            assert(line1[6] == sep[0]);
            assert(sep[0] == 32);
        }
    }
    assert(line1[7] == sep[1]);
    assert(sep[1] == 61);
    lemma_find_byte_unique(line1, 61, 7);

    // The parameter name begins with "locale".
    let param = line1.take(7);
    assert(param.take(6) =~= key_locale());
    assert(starts_with(param, key_locale()));

    // The value " N" parses back to N.
    let value = line1.skip(8);
    assert(value =~= seq![32u8] + dl);
    lemma_value_round_trip(li);
}

/// Applying the second rendered line keeps the locale and stores the
/// difficulty.
proof fn lemma_line2_update(loc: int, d: nat)
    requires
        d <= 0x7fff_ffff,
    ensures
        spec_line_update(loc, 0, key_difficulty() + key_value_sep() + spec_decimal(d)) == (
            loc,
            d as int,
        ),
{
    lemma_decimal_val(d);
    let dd = spec_decimal(d);
    let sep = key_value_sep();
    let line2 = key_difficulty() + sep + dd;

    // The first '=' sits at index 11.
    assert forall|j: int| 0 <= j < 11 implies line2[j] != 61 by {
        lemma_line2_byte_facts(d, j);
        if j < 10 {
            assert(line2[j] == key_difficulty()[j]);
            if j == 0 {
                assert(key_difficulty()[0] == 100);
            } else if j == 1 {
                assert(key_difficulty()[1] == 105);
            } else if j == 2 {
                assert(key_difficulty()[2] == 102);
            } else if j == 3 {
                assert(key_difficulty()[3] == 102);
            } else if j == 4 {
                assert(key_difficulty()[4] == 105);
            } else if j == 5 {
                assert(key_difficulty()[5] == 99);
            } else if j == 6 {
                assert(key_difficulty()[6] == 117);
            } else if j == 7 {
                assert(key_difficulty()[7] == 108);
            } else if j == 8 {
                assert(key_difficulty()[8] == 116);
            } else {
                assert(key_difficulty()[9] == 121);
            }
        } else {
            assert(line2[10] == sep[0]);
            assert(sep[0] == 32);
        }
    }
    assert(line2[11] == sep[1]);
    assert(sep[1] == 61);
    lemma_find_byte_unique(line2, 61, 11);

    // The parameter name "difficulty " does not begin with "locale" but
    // does begin with "difficulty".
    let param = line2.take(11);
    assert(param[0] == key_difficulty()[0]);
    assert(key_difficulty()[0] == 100);
    assert(key_locale()[0] == 108);
    assert(!starts_with(param, key_locale())) by {
        if starts_with(param, key_locale()) {
            assert(param.take(6)[0] == param[0]);
            assert(param.take(6)[0] == key_locale()[0]);
        }
    }
    assert(param.take(10) =~= key_difficulty());
    assert(starts_with(param, key_difficulty()));

    // The value " N" parses back to N.
    let value = line2.skip(12);
    assert(value =~= seq![32u8] + dd);
    lemma_value_round_trip(d);
}

} // verus!
