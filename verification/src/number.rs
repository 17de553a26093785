//! Decimal numbers in recognised text, and the greatest of them.
//!
//! The OCR engine reads the temperature scale of a thermal image as text.
//! Every run of digits and points in that text is a candidate; a candidate
//! that reads as a number (digits with at most one decimal point, and at
//! least one digit) has the value `numerator / 10^scale`, where the
//! numerator is its digits read as one integer and the scale is the number
//! of digits after the point.
use vstd::prelude::*;

verus! {

pub open spec fn is_digit(c: char) -> bool {
    '0' <= c && c <= '9'
}

pub open spec fn digit_value(c: char) -> nat {
    (c as int - '0' as int) as nat
}

pub open spec fn pow10(n: nat) -> nat
    decreases n,
{
    if n == 0 {
        1
    } else {
        10 * pow10((n - 1) as nat)
    }
}

/// The integer that a string of digits writes.
pub open spec fn digits_value(s: Seq<char>) -> nat
    decreases s.len(),
{
    if s.len() == 0 {
        0
    } else {
        digits_value(s.drop_last()) * 10 + digit_value(s.last())
    }
}

pub open spec fn all_digits(s: Seq<char>) -> bool {
    forall|i: int| 0 <= i < s.len() ==> is_digit(#[trigger] s[i])
}

/// How many decimal points a text holds.
pub open spec fn point_count(s: Seq<char>) -> nat
    decreases s.len(),
{
    if s.len() == 0 {
        0
    } else {
        point_count(s.drop_last()) + if s.last() == '.' {
            1nat
        } else {
            0nat
        }
    }
}

/// The digits of a text, in order.
pub open spec fn digits_only(s: Seq<char>) -> Seq<char>
    decreases s.len(),
{
    if s.len() == 0 {
        Seq::empty()
    } else if is_digit(s.last()) {
        digits_only(s.drop_last()).push(s.last())
    } else {
        digits_only(s.drop_last())
    }
}

/// How many characters follow the decimal point (0 without one).
pub open spec fn scale(s: Seq<char>) -> nat
    decreases s.len(),
{
    if s.len() == 0 {
        0
    } else if s.last() == '.' {
        0
    } else if point_count(s.drop_last()) > 0 {
        scale(s.drop_last()) + 1
    } else {
        0
    }
}

/// A text reads as a number: only digits and points, at most one point,
/// and at least one digit.
pub open spec fn is_decimal(s: Seq<char>) -> bool {
    &&& forall|i: int| 0 <= i < s.len() ==> is_digit(#[trigger] s[i]) || s[i] == '.'
    &&& point_count(s) <= 1
    &&& digits_only(s).len() > 0
}

/// The integer that the digits of a decimal write together.
pub open spec fn numerator(s: Seq<char>) -> nat {
    digits_value(digits_only(s))
}

/// The value of decimal `a` is below that of decimal `b`:
/// `numerator(a) / 10^scale(a) < numerator(b) / 10^scale(b)`.
pub open spec fn decimal_less(a: Seq<char>, b: Seq<char>) -> bool {
    numerator(a) * pow10(scale(b)) < numerator(b) * pow10(scale(a))
}

pub proof fn lemma_pow10_positive(n: nat)
    ensures
        pow10(n) > 0,
    decreases n,
{
    if n > 0 {
        lemma_pow10_positive((n - 1) as nat);
    }
}

pub proof fn lemma_pow10_add(a: nat, b: nat)
    ensures
        pow10(a + b) == pow10(a) * pow10(b),
    decreases b,
{
    if b > 0 {
        lemma_pow10_add(a, (b - 1) as nat);
        assert((a + b - 1) as nat == a + (b - 1) as nat);
        assert(pow10(a + b) == 10 * pow10((a + b - 1) as nat));
        assert(pow10(a) * pow10(b) == pow10(a) * (10 * pow10((b - 1) as nat)));
        assert(pow10(a) * (10 * pow10((b - 1) as nat)) == 10 * (pow10(a) * pow10((b - 1) as nat)))
            by (nonlinear_arith);
        assert(pow10(a + b) == pow10(a) * pow10(b));
    } else {
        assert(pow10(0) == 1);
        assert(a + b == a);
    }
}

/// Reading `x` followed by `y` gives `x` shifted by the length of `y`, plus `y`.
pub proof fn lemma_digits_value_concat(x: Seq<char>, y: Seq<char>)
    ensures
        digits_value(x + y) == digits_value(x) * pow10(y.len()) + digits_value(y),
    decreases y.len(),
{
    if y.len() == 0 {
        assert(x + y =~= x);
        assert(pow10(0) == 1);
        assert(digits_value(y) == 0);
    } else {
        let y0 = y.drop_last();
        assert((x + y).drop_last() =~= x + y0);
        assert((x + y).last() == y.last());
        lemma_digits_value_concat(x, y0);
        let a = digits_value(x);
        let p = pow10(y0.len());
        let b = digits_value(y0);
        assert(pow10(y.len()) == 10 * p);
        assert(digits_value(x + y) == digits_value(x + y0) * 10 + digit_value(y.last()));
        assert(digits_value(y) == b * 10 + digit_value(y.last()));
        assert((a * p + b) * 10 == a * (10 * p) + b * 10) by (nonlinear_arith);
        assert(digits_value(x + y) == digits_value(x) * pow10(y.len()) + digits_value(y));
    }
}

/// A string of digits writes an integer below ten to its length.
pub proof fn lemma_digits_value_bound(s: Seq<char>)
    requires
        all_digits(s),
    ensures
        digits_value(s) < pow10(s.len()),
    decreases s.len(),
{
    if s.len() > 0 {
        let s0 = s.drop_last();
        assert(all_digits(s0)) by {
            assert forall|i: int| 0 <= i < s0.len() implies is_digit(#[trigger] s0[i]) by {
                assert(s0[i] == s[i]);
            }
        }
        lemma_digits_value_bound(s0);
        assert(is_digit(s[s.len() - 1]));
        let a = digits_value(s0);
        let p = pow10(s0.len());
        assert(a + 1 <= p);
        assert(a * 10 + 9 < p * 10) by (nonlinear_arith)
            requires
                a + 1 <= p,
        ;
    }
}

/// `n` zero digits.
pub open spec fn zeros(n: nat) -> Seq<char> {
    Seq::new(n, |i: int| '0')
}

pub proof fn lemma_zeros_value(n: nat)
    ensures
        digits_value(zeros(n)) == 0,
    decreases n,
{
    if n > 0 {
        assert(zeros(n).drop_last() =~= zeros((n - 1) as nat));
        lemma_zeros_value((n - 1) as nat);
    }
}

/// Of two digit strings of one length, the one that is smaller at the first
/// place where they differ writes the smaller integer.
pub proof fn lemma_first_difference_decides(a: Seq<char>, b: Seq<char>, j: int)
    requires
        a.len() == b.len(),
        all_digits(a),
        all_digits(b),
        0 <= j < a.len(),
        a.take(j) == b.take(j),
        digit_value(a[j]) < digit_value(b[j]),
    ensures
        digits_value(a) < digits_value(b),
{
    let n = a.len();
    let rest_len = (n - j - 1) as nat;
    let p = pow10(rest_len);
    assert(a =~= a.take(j + 1) + a.skip(j + 1));
    assert(b =~= b.take(j + 1) + b.skip(j + 1));
    lemma_digits_value_concat(a.take(j + 1), a.skip(j + 1));
    lemma_digits_value_concat(b.take(j + 1), b.skip(j + 1));
    assert(all_digits(a.skip(j + 1))) by {
        assert forall|i: int| 0 <= i < a.skip(j + 1).len() implies is_digit(
            #[trigger] a.skip(j + 1)[i],
        ) by {
            assert(a.skip(j + 1)[i] == a[j + 1 + i]);
        }
    }
    lemma_digits_value_bound(a.skip(j + 1));
    assert(a.take(j + 1).drop_last() =~= a.take(j));
    assert(b.take(j + 1).drop_last() =~= b.take(j));
    let c = digits_value(a.take(j));
    assert(digits_value(b.take(j)) == c);
    let da = digit_value(a[j]);
    let db = digit_value(b[j]);
    let ra = digits_value(a.skip(j + 1));
    let rb = digits_value(b.skip(j + 1));
    assert(digits_value(a) == (c * 10 + da) * p + ra);
    assert(digits_value(b) == (c * 10 + db) * p + rb);
    assert((c * 10 + da) * p + ra < (c * 10 + db) * p + rb) by (nonlinear_arith)
        requires
            da < db,
            ra < p,
            rb >= 0,
    ;
}

/// Comparing values scaled to a common number of decimals is comparing the
/// values themselves.
pub proof fn lemma_common_scale(na: nat, nb: nat, ka: nat, kb: nat, l: nat)
    requires
        ka <= l,
        kb <= l,
    ensures
        (na * pow10((l - ka) as nat) < nb * pow10((l - kb) as nat)) == (na * pow10(kb) < nb * pow10(
            ka,
        )),
{
    lemma_pow10_add((l - ka) as nat, ka);
    lemma_pow10_add((l - kb) as nat, kb);
    lemma_pow10_positive(ka);
    lemma_pow10_positive(kb);
    lemma_pow10_positive(l);
    let pa = pow10((l - ka) as nat);
    let pb = pow10((l - kb) as nat);
    let qa = pow10(ka);
    let qb = pow10(kb);
    let pl = pow10(l);
    assert(pa * qa == pl);
    assert(pb * qb == pl);
    assert((na * pa < nb * pb) == (na * qb < nb * qa)) by (nonlinear_arith)
        requires
            pa * qa == pl,
            pb * qb == pl,
            qa > 0,
            qb > 0,
            pl > 0,
    {
        assert(na * pa * (qa * qb) == (na * qb) * pl);
        assert(nb * pb * (qa * qb) == (nb * qa) * pl);
    }
}

/// Ordering by value is a strict weak order: if `x` is not above `b` and
/// `b` is below `c`, then `c` is above `x`.
pub proof fn lemma_less_order(x: Seq<char>, b: Seq<char>, c: Seq<char>)
    requires
        !decimal_less(b, x),
        decimal_less(b, c),
    ensures
        decimal_less(x, c),
        !decimal_less(c, x),
{
    lemma_pow10_positive(scale(x));
    lemma_pow10_positive(scale(b));
    lemma_pow10_positive(scale(c));
    let nx = numerator(x);
    let nb = numerator(b);
    let nc = numerator(c);
    let px = pow10(scale(x));
    let pb = pow10(scale(b));
    let pc = pow10(scale(c));
    assert(nx * pc < nc * px) by (nonlinear_arith)
        requires
            nx * pb <= nb * px,
            nb * pc < nc * pb,
            px > 0,
            pb > 0,
            pc > 0,
    {
        assert(nx * pb * pc <= nb * px * pc);
        assert(nb * pc * px < nc * pb * px);
    }
}

/// A prefix holds no more decimal points than the whole text.
pub proof fn lemma_point_count_prefix(s: Seq<char>, k: int)
    requires
        0 <= k <= s.len(),
    ensures
        point_count(s.take(k)) <= point_count(s),
    decreases s.len(),
{
    if k < s.len() {
        assert(s.drop_last().take(k) =~= s.take(k));
        lemma_point_count_prefix(s.drop_last(), k);
    } else {
        assert(s.take(k) =~= s);
    }
}

/// Splits a text that reads as a number into the digits before and after
/// its decimal point; `None` when it does not read as a number.
pub fn split_decimal(s: &str) -> (r: Option<(Vec<char>, Vec<char>)>)
    ensures
        r is Some <==> is_decimal(s@),
        r matches Some((i, f)) ==> {
            &&& i@ + f@ == digits_only(s@)
            &&& f@.len() == scale(s@)
            &&& all_digits(i@)
            &&& all_digits(f@)
        },
{
    let n = s.unicode_len();
    let mut int_digits: Vec<char> = Vec::new();
    let mut frac_digits: Vec<char> = Vec::new();
    let mut seen_point = false;
    let mut k: usize = 0;
    while k < n
        invariant
            k <= n,
            n == s@.len(),
            forall|i: int| 0 <= i < k ==> is_digit(#[trigger] s@[i]) || s@[i] == '.',
            point_count(s@.take(k as int)) <= 1,
            seen_point == (point_count(s@.take(k as int)) == 1),
            int_digits@ + frac_digits@ == digits_only(s@.take(k as int)),
            frac_digits@.len() == scale(s@.take(k as int)),
            !seen_point ==> frac_digits@.len() == 0,
            all_digits(int_digits@),
            all_digits(frac_digits@),
        decreases n - k,
    {
        let c = s.get_char(k);
        let ghost p = s@.take(k as int);
        let ghost q = s@.take(k + 1);
        assert(q.drop_last() =~= p);
        assert(q.last() == c);
        if c == '.' {
            if seen_point {
                proof {
                    lemma_point_count_prefix(s@, k + 1);
                }
                return None;
            }
            seen_point = true;
            assert(digits_only(q) == digits_only(p));
        } else if '0' <= c && c <= '9' {
            let ghost before_i = int_digits@;
            let ghost before_f = frac_digits@;
            if seen_point {
                frac_digits.push(c);
                assert(int_digits@ + frac_digits@ =~= (before_i + before_f).push(c));
            } else {
                int_digits.push(c);
                assert(int_digits@ + frac_digits@ =~= (before_i + before_f).push(c));
            }
        } else {
            assert(!(is_digit(s@[k as int]) || s@[k as int] == '.'));
            return None;
        }
        k += 1;
    }
    assert(s@.take(n as int) =~= s@);
    if int_digits.len() == 0 && frac_digits.len() == 0 {
        assert(digits_only(s@) =~= int_digits@ + frac_digits@);
        return None;
    }
    Some((int_digits, frac_digits))
}

/// Whether the digit string `a` writes a smaller integer than `b`, of the same length.
fn digits_less(a: &Vec<char>, b: &Vec<char>) -> (r: bool)
    requires
        a.len() == b.len(),
        all_digits(a@),
        all_digits(b@),
    ensures
        r == (digits_value(a@) < digits_value(b@)),
{
    let mut i: usize = 0;
    while i < a.len()
        invariant
            i <= a.len(),
            a.len() == b.len(),
            all_digits(a@),
            all_digits(b@),
            a@.take(i as int) == b@.take(i as int),
        decreases a.len() - i,
    {
        if a[i] != b[i] {
            proof {
                assert(is_digit(a@[i as int]) && is_digit(b@[i as int]));
                if a[i as int] < b[i as int] {
                    lemma_first_difference_decides(a@, b@, i as int);
                } else {
                    lemma_first_difference_decides(b@, a@, i as int);
                }
            }
            return a[i] < b[i];
        }
        assert(a@.take(i + 1) =~= a@.take(i as int).push(a@[i as int]));
        assert(b@.take(i + 1) =~= b@.take(i as int).push(b@[i as int]));
        i += 1;
    }
    assert(a@ =~= a@.take(a.len() as int));
    assert(b@ =~= b@.take(b.len() as int));
    false
}

fn push_zeros(v: &mut Vec<char>, count: usize)
    ensures
        final(v)@ == old(v)@ + zeros(count as nat),
{
    let ghost start = v@;
    let mut i: usize = 0;
    while i < count
        invariant
            i <= count,
            v@ == start + zeros(i as nat),
        decreases count - i,
    {
        v.push('0');
        assert(start + zeros((i + 1) as nat) =~= (start + zeros(i as nat)).push('0'));
        i += 1;
    }
}

fn push_all(v: &mut Vec<char>, digits: &Vec<char>)
    ensures
        final(v)@ == old(v)@ + digits@,
{
    let ghost start = v@;
    let mut i: usize = 0;
    while i < digits.len()
        invariant
            i <= digits.len(),
            v@ == start + digits@.take(i as int),
        decreases digits.len() - i,
    {
        v.push(digits[i]);
        assert(start + digits@.take(i + 1) =~= (start + digits@.take(i as int)).push(digits@[i as int]));
        i += 1;
    }
    assert(digits@.take(digits.len() as int) =~= digits@);
}

/// The digits of a decimal widened to `int_width` places before the point
/// and `frac_width` after it.
fn widened(int_digits: &Vec<char>, frac_digits: &Vec<char>, int_width: usize, frac_width: usize) -> (r:
    Vec<char>)
    requires
        int_digits.len() <= int_width,
        frac_digits.len() <= frac_width,
    ensures
        r@ == zeros((int_width - int_digits.len()) as nat) + (int_digits@ + frac_digits@) + zeros(
            (frac_width - frac_digits.len()) as nat,
        ),
{
    let mut r: Vec<char> = Vec::new();
    push_zeros(&mut r, int_width - int_digits.len());
    push_all(&mut r, int_digits);
    push_all(&mut r, frac_digits);
    push_zeros(&mut r, frac_width - frac_digits.len());
    assert(r@ =~= zeros((int_width - int_digits.len()) as nat) + (int_digits@ + frac_digits@)
        + zeros((frac_width - frac_digits.len()) as nat));
    r
}

proof fn lemma_zeros_are_digits(n: nat)
    ensures
        all_digits(zeros(n)),
{
}

proof fn lemma_concat_digits(x: Seq<char>, y: Seq<char>)
    requires
        all_digits(x),
        all_digits(y),
    ensures
        all_digits(x + y),
{
    assert forall|i: int| 0 <= i < (x + y).len() implies is_digit(#[trigger] (x + y)[i]) by {
        if i < x.len() {
            assert((x + y)[i] == x[i]);
        } else {
            assert((x + y)[i] == y[i - x.len()]);
        }
    }
}

proof fn lemma_widened_value(z1: nat, x: Seq<char>, z2: nat)
    ensures
        digits_value(zeros(z1) + x + zeros(z2)) == digits_value(x) * pow10(z2),
{
    lemma_digits_value_concat(zeros(z1) + x, zeros(z2));
    lemma_digits_value_concat(zeros(z1), x);
    lemma_zeros_value(z1);
    lemma_zeros_value(z2);
}

/// Whether decimal `a` (digits before and after its point) is below decimal `b`.
fn decimal_value_less(
    a_int: &Vec<char>,
    a_frac: &Vec<char>,
    b_int: &Vec<char>,
    b_frac: &Vec<char>,
) -> (r: bool)
    requires
        all_digits(a_int@),
        all_digits(a_frac@),
        all_digits(b_int@),
        all_digits(b_frac@),
    ensures
        r == (digits_value(a_int@ + a_frac@) * pow10(b_frac@.len()) < digits_value(
            b_int@ + b_frac@,
        ) * pow10(a_frac@.len())),
{
    let int_width = if a_int.len() < b_int.len() {
        b_int.len()
    } else {
        a_int.len()
    };
    let frac_width = if a_frac.len() < b_frac.len() {
        b_frac.len()
    } else {
        a_frac.len()
    };
    let a = widened(a_int, a_frac, int_width, frac_width);
    let b = widened(b_int, b_frac, int_width, frac_width);
    proof {
        let za = (int_width - a_int.len()) as nat;
        let zb = (int_width - b_int.len()) as nat;
        let wa = (frac_width - a_frac.len()) as nat;
        let wb = (frac_width - b_frac.len()) as nat;
        lemma_zeros_are_digits(za);
        lemma_zeros_are_digits(zb);
        lemma_zeros_are_digits(wa);
        lemma_zeros_are_digits(wb);
        lemma_concat_digits(a_int@, a_frac@);
        lemma_concat_digits(b_int@, b_frac@);
        lemma_concat_digits(zeros(za), a_int@ + a_frac@);
        lemma_concat_digits(zeros(za) + (a_int@ + a_frac@), zeros(wa));
        lemma_concat_digits(zeros(zb), b_int@ + b_frac@);
        lemma_concat_digits(zeros(zb) + (b_int@ + b_frac@), zeros(wb));
        lemma_widened_value(za, a_int@ + a_frac@, wa);
        lemma_widened_value(zb, b_int@ + b_frac@, wb);
        lemma_common_scale(
            digits_value(a_int@ + a_frac@),
            digits_value(b_int@ + b_frac@),
            a_frac@.len(),
            b_frac@.len(),
            frac_width as nat,
        );
    }
    digits_less(&a, &b)
}

/// The greatest decimal among the candidates: the first of those that read
/// as a number whose value no later one exceeds; `None` when none reads as a
/// number.
pub open spec fn greatest_decimal(candidates: Seq<Seq<char>>) -> Option<Seq<char>>
    decreases candidates.len(),
{
    if candidates.len() == 0 {
        None
    } else {
        let best = greatest_decimal(candidates.drop_last());
        let c = candidates.last();
        if !is_decimal(c) {
            best
        } else {
            match best {
                None => Some(c),
                Some(b) => if decimal_less(b, c) {
                    Some(c)
                } else {
                    Some(b)
                },
            }
        }
    }
}

/// Digits and decimal points: the characters a number is written with.
pub open spec fn is_number_char(c: char) -> bool {
    is_digit(c) || c == '.'
}

/// The maximal runs of digits and points in a text, in order.
pub open spec fn number_runs(s: Seq<char>) -> Seq<Seq<char>>
    decreases s.len(),
{
    if s.len() == 0 {
        Seq::empty()
    } else {
        let rest = number_runs(s.drop_last());
        let c = s.last();
        if !is_number_char(c) {
            rest
        } else if s.len() > 1 && is_number_char(s[s.len() - 2]) && rest.len() > 0 {
            rest.drop_last().push(rest.last().push(c))
        } else {
            rest.push(seq![c])
        }
    }
}

/// The non-empty texts of a list, in order.
pub open spec fn nonempty_parts(v: Seq<Seq<char>>) -> Seq<Seq<char>>
    decreases v.len(),
{
    if v.len() == 0 {
        Seq::empty()
    } else if v.last().len() == 0 {
        nonempty_parts(v.drop_last())
    } else {
        nonempty_parts(v.drop_last()).push(v.last())
    }
}

pub proof fn lemma_nonempty_parts_concat(a: Seq<Seq<char>>, b: Seq<Seq<char>>)
    ensures
        nonempty_parts(a + b) == nonempty_parts(a) + nonempty_parts(b),
    decreases b.len(),
{
    if b.len() == 0 {
        assert(a + b =~= a);
        assert(nonempty_parts(a) + nonempty_parts(b) =~= nonempty_parts(a));
    } else {
        assert((a + b).drop_last() =~= a + b.drop_last());
        assert((a + b).last() == b.last());
        lemma_nonempty_parts_concat(a, b.drop_last());
        if b.last().len() != 0 {
            assert(nonempty_parts(a) + nonempty_parts(b.drop_last()).push(b.last()) =~= (
            nonempty_parts(a) + nonempty_parts(b.drop_last())).push(b.last()));
        }
    }
}

/// Empty texts never read as numbers, so leaving them out does not change
/// the greatest decimal.
pub proof fn lemma_greatest_ignores_empty(v: Seq<Seq<char>>)
    ensures
        greatest_decimal(nonempty_parts(v)) == greatest_decimal(v),
    decreases v.len(),
{
    if v.len() > 0 {
        lemma_greatest_ignores_empty(v.drop_last());
        if v.last().len() == 0 {
            assert(digits_only(v.last()) =~= Seq::<char>::empty());
        } else {
            let n = nonempty_parts(v.drop_last()).push(v.last());
            assert(n.drop_last() =~= nonempty_parts(v.drop_last()));
        }
    }
}

/// The texts of a list of strings.
pub open spec fn texts(v: Seq<String>) -> Seq<Seq<char>> {
    v.map_values(|s: String| s@)
}

/// Picks the greatest decimal among the candidates (see [`greatest_decimal`]).
pub fn greatest_candidate(candidates: &Vec<String>) -> (r: Option<String>)
    ensures
        r is None <==> greatest_decimal(texts(candidates@)) is None,
        r matches Some(s) ==> greatest_decimal(texts(candidates@)) == Some(s@),
{
    let mut best: Option<(String, Vec<char>, Vec<char>)> = None;
    let mut j: usize = 0;
    while j < candidates.len()
        invariant
            j <= candidates.len(),
            best is None <==> greatest_decimal(texts(candidates@.take(j as int))) is None,
            best matches Some((s, i, f)) ==> {
                &&& greatest_decimal(texts(candidates@.take(j as int))) == Some(s@)
                &&& i@ + f@ == digits_only(s@)
                &&& f@.len() == scale(s@)
                &&& all_digits(i@)
                &&& all_digits(f@)
            },
        decreases candidates.len() - j,
    {
        let ghost prev = texts(candidates@.take(j as int));
        let ghost next = texts(candidates@.take(j + 1));
        assert(next.drop_last() =~= prev);
        assert(next.last() == candidates@[j as int]@);
        let c = &candidates[j];
        match split_decimal(c.as_str()) {
            None => {},
            Some((ci, cf)) => {
                let replace = match &best {
                    None => true,
                    Some((_, bi, bf)) => decimal_value_less(bi, bf, &ci, &cf),
                };
                if replace {
                    best = Some((c.clone(), ci, cf));
                }
            },
        }
        j += 1;
    }
    assert(candidates@.take(candidates.len() as int) =~= candidates@);
    match best {
        Some((s, _, _)) => Some(s),
        None => None,
    }
}

/// The greatest decimal is one of the candidates, reads as a number, and no
/// candidate that reads as a number has a greater value; there is none only
/// when no candidate reads as a number.
pub proof fn greatest_decimal_is_greatest(candidates: Seq<Seq<char>>)
    ensures
        greatest_decimal(candidates) is None <==> forall|i: int|
            0 <= i < candidates.len() ==> !is_decimal(#[trigger] candidates[i]),
        greatest_decimal(candidates) matches Some(b) ==> {
            &&& is_decimal(b)
            &&& candidates.contains(b)
            &&& forall|i: int|
                0 <= i < candidates.len() && is_decimal(#[trigger] candidates[i]) ==> !decimal_less(
                    b,
                    candidates[i],
                )
        },
    decreases candidates.len(),
{
    if candidates.len() > 0 {
        let init = candidates.drop_last();
        let c = candidates.last();
        greatest_decimal_is_greatest(init);
        assert forall|i: int| 0 <= i < init.len() implies init[i] == candidates[i] by {}
        match greatest_decimal(init) {
            None => {
                if is_decimal(c) {
                    assert(candidates[candidates.len() - 1] == c);
                    assert forall|i: int|
                        0 <= i < candidates.len() && is_decimal(
                            #[trigger] candidates[i],
                        ) implies !decimal_less(c, candidates[i]) by {
                        if i < init.len() {
                            assert(init[i] == candidates[i]);
                        }
                    }
                }
            },
            Some(b) => {
                let k = choose|k: int| 0 <= k < init.len() && init[k] == b;
                assert(candidates[k] == b);
                if is_decimal(c) && decimal_less(b, c) {
                    assert(candidates[candidates.len() - 1] == c);
                    assert forall|i: int|
                        0 <= i < candidates.len() && is_decimal(
                            #[trigger] candidates[i],
                        ) implies !decimal_less(c, candidates[i]) by {
                        if i < init.len() {
                            assert(init[i] == candidates[i]);
                            lemma_less_order(candidates[i], b, c);
                        } else {
                            assert(candidates[i] == c);
                        }
                    }
                } else {
                    assert forall|i: int|
                        0 <= i < candidates.len() && is_decimal(
                            #[trigger] candidates[i],
                        ) implies !decimal_less(b, candidates[i]) by {
                        if i < init.len() {
                            assert(init[i] == candidates[i]);
                        } else {
                            assert(candidates[i] == c);
                        }
                    }
                }
            },
        }
    }
}

} // verus!
