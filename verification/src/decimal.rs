use vstd::prelude::*;

verus! {

// ---------------------------------------------------------------------------
// Decimal digit strings
// ---------------------------------------------------------------------------

pub open spec fn is_digit(c: char) -> bool {
    '0' <= c && c <= '9'
}

pub open spec fn digit_val(c: char) -> int {
    c as int - 48
}

pub open spec fn all_digits(s: Seq<char>) -> bool {
    forall|i: int| 0 <= i < s.len() ==> is_digit(#[trigger] s[i])
}

/// The number denoted by a string of decimal digits, most significant first.
pub open spec fn digits_val(s: Seq<char>) -> int
    decreases s.len(),
{
    if s.len() == 0 {
        0
    } else {
        digits_val(s.drop_last()) * 10 + digit_val(s.last())
    }
}

pub open spec fn pow10(n: nat) -> int
    decreases n,
{
    if n == 0 {
        1
    } else {
        10 * pow10((n - 1) as nat)
    }
}

/// The character for a single decimal digit.
pub open spec fn digit_char(d: int) -> char {
    if d == 0 { '0' }
    else if d == 1 { '1' }
    else if d == 2 { '2' }
    else if d == 3 { '3' }
    else if d == 4 { '4' }
    else if d == 5 { '5' }
    else if d == 6 { '6' }
    else if d == 7 { '7' }
    else if d == 8 { '8' }
    else { '9' }
}

/// The shortest decimal digit string for a non-negative number.
pub open spec fn dec_digits(n: nat) -> Seq<char>
    decreases n,
{
    if n < 10 {
        seq![digit_char(n as int)]
    } else {
        dec_digits(n / 10) + seq![digit_char(n as int % 10)]
    }
}

pub open spec fn zeros(n: nat) -> Seq<char>
    decreases n,
{
    if n == 0 {
        Seq::empty()
    } else {
        zeros((n - 1) as nat) + seq!['0']
    }
}

/// The least index of `c` in `s`, or `s.len()` when `c` does not occur.
pub open spec fn first_idx_of(s: Seq<char>, c: char) -> int
    decreases s.len(),
{
    if s.len() == 0 {
        0
    } else if s[0] == c {
        0
    } else {
        1 + first_idx_of(s.skip(1), c)
    }
}

pub proof fn lemma_pow10_pos(n: nat)
    ensures
        pow10(n) >= 1,
    decreases n,
{
    if n > 0 {
        lemma_pow10_pos((n - 1) as nat);
    }
}

pub proof fn lemma_pow10_mono(m: nat, n: nat)
    requires
        m <= n,
    ensures
        pow10(m) <= pow10(n),
    decreases n,
{
    if m < n {
        lemma_pow10_mono(m, (n - 1) as nat);
        lemma_pow10_pos((n - 1) as nat);
    }
}

pub proof fn lemma_digits_val_bounds(s: Seq<char>)
    requires
        all_digits(s),
    ensures
        0 <= digits_val(s) < pow10(s.len()),
    decreases s.len(),
{
    if s.len() > 0 {
        assert(all_digits(s.drop_last()));
        lemma_digits_val_bounds(s.drop_last());
        assert(is_digit(s.last()));
        assert(0 <= digit_val(s.last()) < 10);
    }
}

pub proof fn lemma_dec_digits(n: nat)
    ensures
        all_digits(dec_digits(n)),
        digits_val(dec_digits(n)) == n,
        dec_digits(n).len() >= 1,
        forall|k: nat| n < pow10(k) && k >= 1 ==> dec_digits(n).len() <= k,
    decreases n,
{
    if n < 10 {
        let s = dec_digits(n);
        assert(s.len() == 1);
        assert(s.drop_last() =~= Seq::<char>::empty());
        assert(digits_val(Seq::<char>::empty()) == 0);
        assert(digits_val(s) == digit_val(s.last()));
        assert(forall|k: nat| k >= 1 ==> #[trigger] pow10(k) >= 10) by {
            assert forall|k: nat| k >= 1 implies #[trigger] pow10(k) >= 10 by {
                lemma_pow10_pos((k - 1) as nat);
            }
        }
    } else {
        lemma_dec_digits(n / 10);
        let hi = dec_digits(n / 10);
        let s = dec_digits(n);
        assert(s == hi + seq![digit_char(n as int % 10)]);
        assert(s.drop_last() =~= hi);
        assert(s.last() == digit_char(n as int % 10));
        assert(digit_val(digit_char(n as int % 10)) == n as int % 10);
        assert(digits_val(s) == digits_val(hi) * 10 + n as int % 10);
        assert(digits_val(s) == n);
        assert forall|k: nat| n < pow10(k) && k >= 1 implies s.len() <= k by {
            if k == 1 {
                assert(pow10(0) == 1);
                assert(pow10(1) == 10);
                assert(false);
            } else {
                assert(pow10(k) == 10 * pow10((k - 1) as nat));
                assert(n / 10 < pow10((k - 1) as nat));
                assert(hi.len() <= (k - 1) as nat);
            }
        }
    }
}

pub proof fn lemma_digits_val_zeros_prefix(m: nat, s: Seq<char>)
    ensures
        digits_val(zeros(m) + s) == digits_val(s),
        zeros(m).len() == m,
        all_digits(zeros(m)),
    decreases s.len(),
{
    lemma_zeros(m);
    if s.len() == 0 {
        assert(zeros(m) + s =~= zeros(m));
        lemma_zeros_val(m);
    } else {
        lemma_digits_val_zeros_prefix(m, s.drop_last());
        assert((zeros(m) + s).drop_last() =~= zeros(m) + s.drop_last());
        assert((zeros(m) + s).last() == s.last());
    }
}

proof fn lemma_zeros(m: nat)
    ensures
        zeros(m).len() == m,
        all_digits(zeros(m)),
    decreases m,
{
    if m > 0 {
        lemma_zeros((m - 1) as nat);
        assert(forall|i: int| 0 <= i < m ==> is_digit(#[trigger] zeros(m)[i])) by {
            assert forall|i: int| 0 <= i < m implies is_digit(#[trigger] zeros(m)[i]) by {
                if i < m - 1 {
                    assert(zeros(m)[i] == zeros((m - 1) as nat)[i]);
                } else {
                    assert(zeros(m)[i] == '0');
                }
            }
        }
    }
}

proof fn lemma_zeros_val(m: nat)
    ensures
        digits_val(zeros(m)) == 0,
    decreases m,
{
    if m > 0 {
        lemma_zeros_val((m - 1) as nat);
        assert(zeros(m).drop_last() =~= zeros((m - 1) as nat));
        assert(zeros(m).last() == '0');
    }
}

/// Characterize `first_idx_of` by what stands before and at the index.
pub proof fn lemma_first_idx_of(s: Seq<char>, c: char, k: int)
    requires
        0 <= k <= s.len(),
        forall|j: int| 0 <= j < k ==> s[j] != c,
        k == s.len() || s[k] == c,
    ensures
        first_idx_of(s, c) == k,
    decreases s.len(),
{
    if s.len() > 0 {
        if k == 0 {
        } else {
            assert(s[0] != c);
            lemma_first_idx_of(s.skip(1), c, k - 1);
        }
    }
}

// ---------------------------------------------------------------------------
// Fixed-point decimal numbers
// ---------------------------------------------------------------------------

/// A fixed-point decimal number with nine fractional digits: the denoted
/// value is `units / 10^9`. Prices, sizes and strikes are held in this form
/// so that comparison and equality are exact integer operations.
#[derive(Clone, Copy, PartialEq, Eq, Structural, Debug, Hash)]
pub struct Decimal {
    pub units: i128,
}

/// Decimals whose magnitude stays below 10^27 whole units; every parsed
/// decimal lies in this range, and only these format-and-reparse exactly.
pub open spec fn dec_bounded(d: Decimal) -> bool {
    -pow10(36) < d.units < pow10(36)
}

/// The parse of a decimal token: an optional minus sign, one or more integer
/// digits (at most 27), and optionally a dot followed by one to nine
/// fractional digits.
pub open spec fn spec_parse_decimal(s: Seq<char>) -> Option<Decimal> {
    let neg = s.len() > 0 && s[0] == '-';
    let body = if neg { s.skip(1) } else { s };
    let dot = first_idx_of(body, '.');
    let ip = body.take(dot);
    let has_dot = dot < body.len();
    let fp = if has_dot { body.skip(dot + 1) } else { Seq::<char>::empty() };
    if ip.len() < 1 || ip.len() > 27 || !all_digits(ip) {
        None
    } else if has_dot && (fp.len() < 1 || fp.len() > 9 || !all_digits(fp)) {
        None
    } else {
        let mag = digits_val(ip) * pow10(9) + digits_val(fp) * pow10((9 - fp.len()) as nat);
        Some(Decimal { units: (if neg { -mag } else { mag }) as i128 })
    }
}

/// Remove factors of ten: `(m, k)` becomes `(m', k')` with
/// `m' * 10^(k-k') == m` and `m'` not divisible by ten (unless `k'` hits 0).
pub open spec fn strip10(m: nat, k: nat) -> (nat, nat)
    decreases k,
{
    if k > 0 && m % 10 == 0 {
        strip10(m / 10, (k - 1) as nat)
    } else {
        (m, k)
    }
}

/// The canonical text of a decimal: sign, integer digits, and the fractional
/// digits with trailing zeros removed (nothing after the integer part when
/// the fraction is zero).
pub open spec fn spec_format_decimal(d: Decimal) -> Seq<char> {
    let a = (if d.units < 0 { -(d.units as int) } else { d.units as int }) as nat;
    let ip = a / 1000000000;
    let fp = a % 1000000000;
    let sign: Seq<char> = if d.units < 0 { seq!['-'] } else { Seq::empty() };
    if fp == 0 {
        sign + dec_digits(ip)
    } else {
        let (m, k) = strip10(fp, 9);
        sign + dec_digits(ip) + seq!['.'] + zeros((k - dec_digits(m).len()) as nat)
            + dec_digits(m)
    }
}

impl Decimal {
    pub open spec fn spec_is_zero(&self) -> bool {
        self.units == 0
    }

    pub open spec fn spec_lt(&self, other: &Decimal) -> bool {
        self.units < other.units
    }

    pub fn zero() -> (r: Decimal)
        ensures
            r.units == 0,
    {
        Decimal { units: 0 }
    }

    pub fn from_units(units: i128) -> (r: Decimal)
        ensures
            r.units == units,
    {
        Decimal { units }
    }

    pub fn is_zero(&self) -> (r: bool)
        ensures
            r == self.spec_is_zero(),
    {
        self.units == 0
    }

    pub fn lt(&self, other: &Decimal) -> (r: bool)
        ensures
            r == self.spec_lt(other),
    {
        self.units < other.units
    }

    /// The smaller of the two values.
    pub fn min(&self, other: &Decimal) -> (r: Decimal)
        ensures
            r.units == if self.units <= other.units {
                self.units
            } else {
                other.units
            },
    {
        if self.units <= other.units {
            Decimal { units: self.units }
        } else {
            Decimal { units: other.units }
        }
    }
}

// ---------------------------------------------------------------------------
// Numeric facts about powers of ten
// ---------------------------------------------------------------------------

pub proof fn lemma_pow10_add(a: nat, b: nat)
    ensures
        pow10(a + b) == pow10(a) * pow10(b),
    decreases b,
{
    if b == 0 {
        assert(pow10(a + 0) == pow10(a) * 1);
    } else {
        lemma_pow10_add(a, (b - 1) as nat);
        assert(pow10(a + b) == 10 * pow10((a + b - 1) as nat));
        assert(pow10(b) == 10 * pow10((b - 1) as nat));
        assert(10 * (pow10(a) * pow10((b - 1) as nat)) == pow10(a) * (10 * pow10(
            (b - 1) as nat,
        ))) by (nonlinear_arith);
    }
}

pub proof fn lemma_pow10_vals()
    ensures
        pow10(9) == 1000000000,
        pow10(27) == 1000000000000000000000000000,
        pow10(36) == 1000000000000000000000000000000000000,
        pow10(28) == 10000000000000000000000000000,
{
    reveal_with_fuel(pow10, 40);
}

// ---------------------------------------------------------------------------
// Parsing
// ---------------------------------------------------------------------------

/// `first_idx_of` stays within the string.
pub proof fn lemma_first_idx_ub(s: Seq<char>, c: char)
    ensures
        0 <= first_idx_of(s, c) <= s.len(),
    decreases s.len(),
{
    if s.len() > 0 && s[0] != c {
        lemma_first_idx_ub(s.skip(1), c);
    }
}

/// `first_idx_of` cannot fall below a prefix known to be free of `c`.
pub proof fn lemma_first_idx_lb(s: Seq<char>, c: char, m: int)
    requires
        0 <= m <= s.len(),
        forall|j: int| 0 <= j < m ==> s[j] != c,
    ensures
        first_idx_of(s, c) >= m,
    decreases m,
{
    lemma_first_idx_ub(s, c);
    if m > 0 {
        assert(s[0] != c);
        assert forall|j: int| 0 <= j < m - 1 implies s.skip(1)[j] != c by {
            assert(s.skip(1)[j] == s[j + 1]);
        }
        lemma_first_idx_lb(s.skip(1), c, m - 1);
    }
}

/// Ten to a small power, as a machine integer.
fn pow10_i128(k: usize) -> (r: i128)
    requires
        k <= 9,
    ensures
        r == pow10(k as nat),
{
    proof {
        reveal_with_fuel(pow10, 11);
    }
    if k == 0 { 1 }
    else if k == 1 { 10 }
    else if k == 2 { 100 }
    else if k == 3 { 1000 }
    else if k == 4 { 10000 }
    else if k == 5 { 100000 }
    else if k == 6 { 1000000 }
    else if k == 7 { 10000000 }
    else if k == 8 { 100000000 }
    else { 1000000000 }
}

impl Decimal {
    /// Parse a decimal token, accepting exactly what
    /// [`spec_parse_decimal`] describes.
    pub fn parse(s: &str) -> (r: Option<Decimal>)
        ensures
            r == spec_parse_decimal(s@),
            r matches Some(d) ==> dec_bounded(d),
    {
        proof {
            lemma_pow10_vals();
        }
        let n = s.unicode_len();
        let mut i: usize = 0;
        let mut neg = false;
        if n > 0 && s.get_char(0) == '-' {
            neg = true;
            i = 1;
        }
        let ghost view = s@;
        let ghost body = if neg { view.skip(1) } else { view };
        let start = i;
        proof {
            assert(body =~= view.subrange(start as int, n as int));
        }
        let mut v: i128 = 0;
        let mut cnt: usize = 0;
        loop
            invariant
                view == s@,
                n == view.len(),
                start <= i <= n,
                start == if neg { 1int } else { 0int },
                neg == (view.len() > 0 && view[0] == '-'),
                body == (if neg { view.skip(1) } else { view }),
                body == view.subrange(start as int, n as int),
                cnt == i - start,
                cnt <= 27,
                forall|j: int|
                    start <= j < i ==> is_digit(#[trigger] view[j]) && view[j] != '.',
                v == digits_val(view.subrange(start as int, i as int)),
                0 <= v < pow10(cnt as nat),
            ensures
                i == n || (i < n && view[i as int] == '.'),
            decreases n - i,
        {
            proof {
                lemma_pow10_vals();
            }
            if i >= n {
                break;
            }
            let c = s.get_char(i);
            if c == '.' {
                break;
            }
            let ghost ipre = view.subrange(start as int, i as int);
            if !('0' <= c && c <= '9') {
                proof {
                    let dot = first_idx_of(body, '.');
                    lemma_first_idx_ub(body, '.');
                    lemma_first_idx_lb(body, '.', i - start + 1);
                    assert(body[i - start] == view[i as int]);
                    assert(!is_digit(body[i - start]));
                    assert(body.take(dot)[i - start] == body[i - start]);
                    assert(!all_digits(body.take(dot)));
                }
                return None;
            }
            if cnt == 27 {
                proof {
                    let dot = first_idx_of(body, '.');
                    lemma_first_idx_ub(body, '.');
                    lemma_first_idx_lb(body, '.', i - start + 1);
                    assert(body.take(dot).len() > 27);
                }
                return None;
            }
            let d = (c as u32) - 48;
            proof {
                assert(pow10((cnt + 1) as nat) == 10 * pow10(cnt as nat));
                lemma_pow10_mono((cnt + 1) as nat, 28);
                assert(view.subrange(start as int, i as int + 1).drop_last() =~= ipre);
                assert(view.subrange(start as int, i as int + 1).last() == view[i as int]);
            }
            v = v * 10 + (d as i128);
            cnt = cnt + 1;
            i = i + 1;
        }
        let ghost dot = first_idx_of(body, '.');
        if i == n {
            proof {
                lemma_first_idx_of(body, '.', body.len() as int);
                assert(body.take(dot) =~= body);
            }
            if cnt == 0 {
                return None;
            }
            proof {
                lemma_pow10_vals();
                lemma_pow10_add(27, 9);
                lemma_pow10_mono(cnt as nat, 27);
                assert(v * 1000000000 < pow10(27) * pow10(9)) by (nonlinear_arith)
                    requires
                        0 <= v < pow10(27) && pow10(9) == 1000000000 && pow10(27) > 0,
                ;
                assert(v * 1000000000 >= 0) by (nonlinear_arith)
                    requires
                        v >= 0,
                ;
                assert(digits_val(Seq::<char>::empty()) == 0);
            }
            let mag = v * 1000000000;
            let units = if neg { -mag } else { mag };
            return Some(Decimal { units });
        }
        // A dot stands at `i`: the integer part is the `cnt` digits before it.
        proof {
            lemma_first_idx_of(body, '.', i - start);
        }
        if cnt == 0 {
            return None;
        }
        let fstart = i + 1;
        i = i + 1;
        let mut fv: i128 = 0;
        let mut fcnt: usize = 0;
        loop
            invariant
                view == s@,
                n == view.len(),
                start == if neg { 1int } else { 0int },
                neg == (view.len() > 0 && view[0] == '-'),
                body == (if neg { view.skip(1) } else { view }),
                body == view.subrange(start as int, n as int),
                1 <= cnt <= 27,
                start + cnt < n,
                first_idx_of(body, '.') == cnt,
                view[(start + cnt) as int] == '.',
                forall|j: int| start <= j < start + cnt ==> is_digit(#[trigger] view[j]),
                v == digits_val(view.subrange(start as int, (start + cnt) as int)),
                0 <= v < pow10(cnt as nat),
                fstart == start + cnt + 1,
                fstart <= i <= n,
                fcnt == i - fstart,
                fcnt <= 9,
                forall|j: int| fstart <= j < i ==> is_digit(#[trigger] view[j]),
                fv == digits_val(view.subrange(fstart as int, i as int)),
                0 <= fv < pow10(fcnt as nat),
            ensures
                i == n,
            decreases n - i,
        {
            proof {
                lemma_pow10_vals();
            }
            if i >= n {
                break;
            }
            let c = s.get_char(i);
            let ghost fpre = view.subrange(fstart as int, i as int);
            if !('0' <= c && c <= '9') {
                proof {
                    assert(body.take(cnt as int) =~= view.subrange(
                        start as int,
                        (start + cnt) as int,
                    ));
                    assert(body.skip(cnt as int + 1)[i - fstart] == view[i as int]);
                    assert(!all_digits(body.skip(cnt as int + 1)));
                }
                return None;
            }
            if fcnt == 9 {
                proof {
                    assert(body.take(cnt as int) =~= view.subrange(
                        start as int,
                        (start + cnt) as int,
                    ));
                    assert(body.skip(cnt as int + 1).len() >= i - fstart + 1);
                }
                return None;
            }
            let d = (c as u32) - 48;
            proof {
                assert(pow10((fcnt + 1) as nat) == 10 * pow10(fcnt as nat));
                lemma_pow10_mono((fcnt + 1) as nat, 9);
                assert(view.subrange(fstart as int, i as int + 1).drop_last() =~= fpre);
                assert(view.subrange(fstart as int, i as int + 1).last() == view[i as int]);
            }
            fv = fv * 10 + (d as i128);
            fcnt = fcnt + 1;
            i = i + 1;
        }
        if fcnt == 0 {
            proof {
                assert(body.take(cnt as int) =~= view.subrange(
                    start as int,
                    (start + cnt) as int,
                ));
                assert(body.skip(cnt as int + 1).len() == 0);
            }
            return None;
        }
        proof {
            assert(body.take(cnt as int) =~= view.subrange(start as int, (start + cnt) as int));
            assert(body.skip(cnt as int + 1) =~= view.subrange(fstart as int, n as int));
        }
        let scale = pow10_i128(9 - fcnt);
        proof {
            lemma_pow10_vals();
            lemma_pow10_add(27, 9);
            lemma_pow10_add(fcnt as nat, (9 - fcnt) as nat);
            lemma_pow10_pos((9 - fcnt) as nat);
            lemma_pow10_mono(cnt as nat, 27);
            assert(v * 1000000000 < pow10(27) * pow10(9)) by (nonlinear_arith)
                requires
                    0 <= v < pow10(27) && pow10(9) == 1000000000 && pow10(27) > 0,
            ;
            assert(v * 1000000000 >= 0) by (nonlinear_arith)
                requires
                    v >= 0,
            ;
            assert(fv * scale < pow10(9) && fv * scale >= 0) by (nonlinear_arith)
                requires
                    0 <= fv < pow10(fcnt as nat) && scale == pow10((9 - fcnt) as nat) && scale
                        >= 1 && pow10(fcnt as nat) * pow10((9 - fcnt) as nat) == pow10(9),
            ;
        }
        let mag = v * 1000000000 + fv * scale;
        let units = if neg { -mag } else { mag };
        Some(Decimal { units })
    }
}

// ---------------------------------------------------------------------------
// Formatting
// ---------------------------------------------------------------------------

/// Append the character of one decimal digit.
pub(crate) fn append_digit(out: &mut String, d: u128)
    requires
        d < 10,
    ensures
        final(out)@ == old(out)@ + seq![digit_char(d as int)],
{
    proof {
        reveal_strlit("0");
        reveal_strlit("1");
        reveal_strlit("2");
        reveal_strlit("3");
        reveal_strlit("4");
        reveal_strlit("5");
        reveal_strlit("6");
        reveal_strlit("7");
        reveal_strlit("8");
        reveal_strlit("9");
    }
    let t: &str = if d == 0 { "0" }
    else if d == 1 { "1" }
    else if d == 2 { "2" }
    else if d == 3 { "3" }
    else if d == 4 { "4" }
    else if d == 5 { "5" }
    else if d == 6 { "6" }
    else if d == 7 { "7" }
    else if d == 8 { "8" }
    else { "9" };
    proof {
        assert(t@ =~= seq![digit_char(d as int)]);
    }
    out.append(t);
}

/// Append the shortest decimal digit string of `n`.
pub fn append_dec_digits(out: &mut String, n: u128)
    ensures
        final(out)@ == old(out)@ + dec_digits(n as nat),
    decreases n,
{
    if n >= 10 {
        append_dec_digits(out, n / 10);
        append_digit(out, n % 10);
        proof {
            assert(final(out)@ =~= old(out)@ + dec_digits(n as nat));
        }
    } else {
        append_digit(out, n);
    }
}

/// The number of digits in the shortest decimal form of `n`.
fn count_digits(n: u128) -> (r: usize)
    ensures
        r == dec_digits(n as nat).len(),
        1 <= r <= 39,
    decreases n,
{
    proof {
        reveal_with_fuel(pow10, 41);
        lemma_dec_digits(n as nat);
        assert(u128::MAX < pow10(39));
    }
    if n < 10 {
        1
    } else {
        let sub = count_digits(n / 10);
        sub + 1
    }
}

impl Decimal {
    /// The canonical text of this value, as [`spec_format_decimal`]
    /// describes. (`i128::MIN` alone has no negation and is excluded.)
    pub fn to_string(&self) -> (r: String)
        requires
            self.units != i128::MIN,
        ensures
            r@ == spec_format_decimal(*self),
    {
        proof {
            reveal_strlit("-");
            reveal_strlit(".");
            reveal_strlit("0");
            lemma_pow10_vals();
        }
        let mut out = String::new();
        if self.units < 0 {
            out.append("-");
        }
        let ghost sign: Seq<char> = if self.units < 0 { seq!['-'] } else { Seq::empty() };
        proof {
            assert(out@ =~= sign);
        }
        let a: u128 = if self.units < 0 {
            (-self.units) as u128
        } else {
            self.units as u128
        };
        let ip = a / 1000000000;
        let fp = a % 1000000000;
        append_dec_digits(&mut out, ip);
        if fp == 0 {
            proof {
                assert(out@ =~= spec_format_decimal(*self));
            }
            return out;
        }
        out.append(".");
        let ghost base = sign + dec_digits(ip as nat) + seq!['.'];
        proof {
            assert(out@ =~= base);
        }
        let mut m = fp;
        let mut k: usize = 9;
        while m % 10 == 0
            invariant
                0 < m,
                m < pow10(k as nat),
                1 <= k <= 9,
                strip10(fp as nat, 9) == strip10(m as nat, k as nat),
            decreases m,
        {
            proof {
                if k == 1 {
                    reveal_with_fuel(pow10, 2);
                    assert(false);
                }
                assert(pow10(k as nat) == 10 * pow10((k - 1) as nat));
                assert(m / 10 < pow10((k - 1) as nat)) by (nonlinear_arith)
                    requires
                        m % 10 == 0 && 0 < m && m < pow10(k as nat) && pow10(k as nat) == 10
                            * pow10((k - 1) as nat),
                ;
            }
            m = m / 10;
            k = k - 1;
        }
        let dl = count_digits(m);
        proof {
            lemma_dec_digits(m as nat);
            assert(dec_digits(m as nat).len() <= k);
        }
        let mut z = dl;
        while z < k
            invariant
                dl <= z <= k,
                out@ == base + zeros((z - dl) as nat),
            decreases k - z,
        {
            proof {
                reveal_strlit("0");
                assert(zeros((z - dl + 1) as nat) == zeros((z - dl) as nat) + seq!['0']);
            }
            out.append("0");
            proof {
                assert(out@ =~= base + zeros((z - dl + 1) as nat));
            }
            z = z + 1;
        }
        append_dec_digits(&mut out, m);
        proof {
            assert(out@ =~= spec_format_decimal(*self));
        }
        out
    }
}

// ---------------------------------------------------------------------------
// Format / parse round trip
// ---------------------------------------------------------------------------

/// What `strip10` leaves behind: a positive number carrying the same value
/// once the removed factors of ten are restored.
pub proof fn lemma_strip10(m: nat, k: nat)
    requires
        0 < m,
        m < pow10(k),
    ensures
        ({
            let (m2, k2) = strip10(m, k);
            &&& 0 < m2 < pow10(k2)
            &&& 1 <= k2 <= k
            &&& m2 * pow10((k - k2) as nat) == m
        }),
    decreases k,
{
    if k == 0 {
        assert(pow10(0) == 1);
        assert(false);
    }
    if m % 10 == 0 {
        assert(pow10(k) == 10 * pow10((k - 1) as nat));
        assert(m / 10 < pow10((k - 1) as nat) && 0 < m / 10) by (nonlinear_arith)
            requires
                m % 10 == 0 && 0 < m && m < pow10(k) && pow10(k) == 10 * pow10((k - 1) as nat),
        ;
        lemma_strip10(m / 10, (k - 1) as nat);
        let (m2, k2) = strip10(m / 10, (k - 1) as nat);
        assert(strip10(m, k) == strip10(m / 10, (k - 1) as nat));
        assert(pow10((k - k2) as nat) == 10 * pow10((k - 1 - k2) as nat));
        assert(m2 * pow10((k - k2) as nat) == m) by (nonlinear_arith)
            requires
                m2 * pow10((k - 1 - k2) as nat) == m / 10 && pow10((k - k2) as nat) == 10
                    * pow10((k - 1 - k2) as nat) && m % 10 == 0 && m == 10 * (m / 10),
        ;
    } else {
        assert(strip10(m, k) == (m, k));
        assert(pow10(0) == 1);
    }
}

/// Reparsing a formatted decimal restores the value exactly.
pub proof fn lemma_decimal_format_parse(d: Decimal)
    requires
        dec_bounded(d),
    ensures
        spec_parse_decimal(spec_format_decimal(d)) == Some(d),
{
    lemma_pow10_vals();
    let a = (if d.units < 0 { -(d.units as int) } else { d.units as int }) as nat;
    let ip = a / 1000000000;
    let fp = a % 1000000000;
    vstd::arithmetic::div_mod::lemma_fundamental_div_mod(a as int, 1000000000);
    lemma_pow10_add(27, 9);
    assert(ip < pow10(27)) by (nonlinear_arith)
        requires
            a < pow10(36) && pow10(36) == pow10(27) * 1000000000 && a == 1000000000 * (a as int
                / 1000000000) + a as int % 1000000000 && ip == a as int / 1000000000 && fp == a
                as int % 1000000000 && 0 <= fp < 1000000000 && pow10(27) > 0,
    ;
    lemma_dec_digits(ip);
    let dd = dec_digits(ip);
    assert(dd.len() <= 27);
    let sign: Seq<char> = if d.units < 0 { seq!['-'] } else { Seq::empty() };
    let f = spec_format_decimal(d);
    if fp == 0 {
        assert(f == sign + dd);
        let neg = f.len() > 0 && f[0] == '-';
        if d.units < 0 {
            assert(f[0] == '-');
            assert(neg);
            assert(f.skip(1) =~= dd);
        } else {
            assert(f[0] == dd[0]);
            assert(is_digit(dd[0]));
            assert(!neg);
            assert(f =~= dd);
        }
        let body = if neg { f.skip(1) } else { f };
        assert(body == dd);
        assert forall|j: int| 0 <= j < dd.len() implies dd[j] != '.' by {
            assert(is_digit(dd[j]));
        }
        lemma_first_idx_of(body, '.', body.len() as int);
        assert(body.take(body.len() as int) =~= body);
        assert(digits_val(Seq::<char>::empty()) == 0);
        assert(digits_val(body) * pow10(9) == a) by (nonlinear_arith)
            requires
                digits_val(body) == ip && pow10(9) == 1000000000 && a == 1000000000 * ip + fp
                    && fp == 0,
        ;
        if d.units < 0 {
            assert(a == -(d.units as int));
        }
    } else {
        lemma_strip10(fp, 9);
        let (m, k) = strip10(fp, 9);
        lemma_dec_digits(m);
        let md = dec_digits(m);
        let dl = md.len();
        assert(dl <= k);
        let zs = zeros((k - dl) as nat);
        lemma_digits_val_zeros_prefix((k - dl) as nat, md);
        assert(f == sign + dd + seq!['.'] + zs + md);
        let body0 = dd + seq!['.'] + zs + md;
        let neg = f.len() > 0 && f[0] == '-';
        if d.units < 0 {
            assert(f[0] == '-');
            assert(neg);
            assert(f.skip(1) =~= body0);
        } else {
            assert(f[0] == dd[0]);
            assert(is_digit(dd[0]));
            assert(!neg);
            assert(f =~= body0);
        }
        let body = if neg { f.skip(1) } else { f };
        assert(body == body0);
        assert forall|j: int| 0 <= j < dd.len() implies body0[j] != '.' by {
            assert(body0[j] == dd[j]);
            assert(is_digit(dd[j]));
        }
        assert(body0[dd.len() as int] == '.');
        lemma_first_idx_of(body, '.', dd.len() as int);
        let dot = dd.len() as int;
        assert(body.take(dot) =~= dd);
        let fpart = body.skip(dot + 1);
        assert(fpart =~= zs + md);
        assert(fpart.len() == k);
        assert(all_digits(fpart)) by {
            assert forall|j: int| 0 <= j < fpart.len() implies is_digit(#[trigger] fpart[j]) by {
                if j < k - dl {
                    assert(fpart[j] == zs[j]);
                } else {
                    assert(fpart[j] == md[j - (k - dl)]);
                }
            }
        }
        assert(digits_val(fpart) == m);
        assert(digits_val(body.take(dot)) == ip);
        assert(digits_val(body.take(dot)) * pow10(9) + digits_val(fpart) * pow10(
            (9 - fpart.len()) as nat,
        ) == a) by (nonlinear_arith)
            requires
                digits_val(body.take(dot)) == ip && digits_val(fpart) == m && pow10(9)
                    == 1000000000 && a == 1000000000 * ip + fp && m * pow10((9 - k) as nat) == fp
                    && fpart.len() == k,
        ;
        if d.units < 0 {
            assert(a == -(d.units as int));
        }
    }
}

/// What a successful parse yields: a bounded value, non-negative unless the
/// token began with a minus sign.
pub proof fn lemma_spec_parse_props(t: Seq<char>)
    ensures
        spec_parse_decimal(t) matches Some(d) ==> dec_bounded(d),
        (spec_parse_decimal(t) matches Some(d) ==> ((t.len() == 0 || t[0] != '-') ==> d.units
            >= 0)),
{
    lemma_pow10_vals();
    if spec_parse_decimal(t) is Some {
        let neg = t.len() > 0 && t[0] == '-';
        let body = if neg { t.skip(1) } else { t };
        let dot = first_idx_of(body, '.');
        let ip = body.take(dot);
        let has_dot = dot < body.len();
        let fp = if has_dot { body.skip(dot + 1) } else { Seq::<char>::empty() };
        lemma_digits_val_bounds(ip);
        lemma_digits_val_bounds(fp);
        lemma_pow10_mono(ip.len(), 27);
        lemma_pow10_mono(fp.len(), 9);
        lemma_pow10_add(27, 9);
        lemma_pow10_add(fp.len(), (9 - fp.len()) as nat);
        lemma_pow10_pos((9 - fp.len()) as nat);
        lemma_pow10_pos(fp.len());
        let mag = digits_val(ip) * pow10(9) + digits_val(fp) * pow10((9 - fp.len()) as nat);
        assert(digits_val(ip) * pow10(9) < pow10(27) * pow10(9)) by (nonlinear_arith)
            requires
                0 <= digits_val(ip) < pow10(27) && pow10(9) > 0,
        ;
        assert(digits_val(ip) * pow10(9) >= 0) by (nonlinear_arith)
            requires
                digits_val(ip) >= 0 && pow10(9) > 0,
        ;
        assert(digits_val(fp) * pow10((9 - fp.len()) as nat) < pow10(9) && digits_val(fp) * pow10(
            (9 - fp.len()) as nat,
        ) >= 0) by (nonlinear_arith)
            requires
                0 <= digits_val(fp) < pow10(fp.len()) && pow10((9 - fp.len()) as nat) > 0 && pow10(
                    fp.len(),
                ) * pow10((9 - fp.len()) as nat) == pow10(9),
        ;
        assert(0 <= mag < pow10(36));
    }
}

/// A formatted non-negative decimal holds only digits and at most one dot.
pub proof fn lemma_format_decimal_chars(d: Decimal)
    requires
        d.units >= 0,
    ensures
        spec_format_decimal(d).len() >= 1,
        forall|i: int|
            0 <= i < spec_format_decimal(d).len() ==> is_digit(#[trigger] spec_format_decimal(d)[i])
                || spec_format_decimal(d)[i] == '.',
{
    lemma_pow10_vals();
    let a = d.units as nat;
    let ip = a / 1000000000;
    let fp = a % 1000000000;
    lemma_dec_digits(ip);
    let f = spec_format_decimal(d);
    if fp == 0 {
        assert(f == dec_digits(ip));
        assert forall|i: int| 0 <= i < f.len() implies is_digit(#[trigger] f[i]) || f[i]
            == '.' by {
            assert(is_digit(dec_digits(ip)[i]));
        }
    } else {
        lemma_strip10(fp, 9);
        let (m, k) = strip10(fp, 9);
        lemma_dec_digits(m);
        let md = dec_digits(m);
        let dl = md.len();
        lemma_digits_val_zeros_prefix((k - dl) as nat, md);
        let zs = zeros((k - dl) as nat);
        assert(f == dec_digits(ip) + seq!['.'] + zs + md);
        assert forall|i: int| 0 <= i < f.len() implies is_digit(#[trigger] f[i]) || f[i]
            == '.' by {
            let n0 = dec_digits(ip).len();
            if i < n0 {
                assert(f[i] == dec_digits(ip)[i]);
                assert(is_digit(dec_digits(ip)[i]));
            } else if i == n0 {
                assert(f[i] == '.');
            } else if i < n0 + 1 + zs.len() {
                assert(f[i] == zs[i - n0 - 1]);
                assert(is_digit(zs[i - n0 - 1]));
            } else {
                assert(f[i] == md[i - n0 - 1 - zs.len()]);
                assert(is_digit(md[i - n0 - 1 - zs.len()]));
            }
        }
    }
}

} // verus!
