//! The calculator's arithmetic: one binary operation on two decimal numbers,
//! worked out exactly and rounded to hundredths, or a lone number.
use crate::field::{split_char, split_from};
use crate::text::{decimal, digit_char, is_ascii_digit, trim, trimmed};
use crate::tools::digits_value;
use vstd::prelude::*;

verus! {

/// Most digits an operand may have.
pub const MAX_DIGITS: usize = 15;

pub open spec fn pow10(n: nat) -> int
    decreases n,
{
    if n == 0 {
        1
    } else {
        10 * pow10((n - 1) as nat)
    }
}

proof fn lemma_pow10_pos(n: nat)
    ensures
        1 <= pow10(n),
    decreases n,
{
    if n > 0 {
        lemma_pow10_pos((n - 1) as nat);
    }
}

proof fn lemma_pow10_mono(a: nat, b: nat)
    requires
        a <= b,
    ensures
        1 <= pow10(a) <= pow10(b),
    decreases b,
{
    lemma_pow10_pos(a);
    if b > a {
        lemma_pow10_mono(a, (b - 1) as nat);
    }
}

proof fn lemma_pow10_add(a: nat, b: nat)
    ensures
        pow10(a + b) == pow10(a) * pow10(b),
    decreases b,
{
    if b > 0 {
        lemma_pow10_add(a, (b - 1) as nat);
        assert(pow10(a + b) == 10 * pow10((a + b - 1) as nat));
        assert(pow10(b) == 10 * pow10((b - 1) as nat));
        assert(pow10(a) * (10 * pow10((b - 1) as nat)) == 10 * (pow10(a) * pow10((b - 1) as nat)))
            by (nonlinear_arith);
    }
}

pub open spec fn all_digits(t: Seq<char>) -> bool {
    forall|i: int| 0 <= i < t.len() ==> is_ascii_digit(#[trigger] t[i])
}

pub open spec fn sign_len(s: Seq<char>) -> int {
    if s.len() > 0 && (s[0] == '-' || s[0] == '+') {
        1
    } else {
        0
    }
}

pub open spec fn body(s: Seq<char>) -> Seq<char> {
    s.subrange(sign_len(s), s.len() as int)
}

pub open spec fn point(s: Seq<char>) -> int {
    crate::field::index_of_from(body(s), '.', 0)
}

pub open spec fn int_part(s: Seq<char>) -> Seq<char> {
    body(s).subrange(0, point(s))
}

pub open spec fn frac_part(s: Seq<char>) -> Seq<char> {
    if point(s) < body(s).len() {
        body(s).subrange(point(s) + 1, body(s).len() as int)
    } else {
        Seq::empty()
    }
}

/// An operand: an optional sign, then digits with at most one decimal point,
/// between one and fifteen digits in all.
pub open spec fn operand_ok(s: Seq<char>) -> bool {
    &&& all_digits(int_part(s))
    &&& all_digits(frac_part(s))
    &&& 1 <= int_part(s).len() + frac_part(s).len() <= MAX_DIGITS
}

/// The operand's digits as an integer, with its sign: the value times
/// ten to the power of `scale`.
pub open spec fn mantissa(s: Seq<char>) -> int {
    let v = digits_value(int_part(s) + frac_part(s)) as int;
    if sign_len(s) == 1 && s[0] == '-' {
        -v
    } else {
        v
    }
}

pub open spec fn scale(s: Seq<char>) -> nat {
    frac_part(s).len()
}

/// `p / q` rounded to the nearest integer, halves away from zero (`q > 0`).
pub open spec fn round_div(p: int, q: int) -> int {
    if p >= 0 {
        (2 * p + q) / (2 * q)
    } else {
        -((-2 * p + q) / (2 * q))
    }
}

/// `a op b` as a fraction with a positive denominator, for `a = ma / 10^sa`
/// and `b = mb / 10^sb`.
pub open spec fn fraction(op: char, ma: int, sa: nat, mb: int, sb: nat) -> (int, int) {
    if op == '+' {
        (ma * pow10(sb) + mb * pow10(sa), pow10(sa + sb))
    } else if op == '-' {
        (ma * pow10(sb) - mb * pow10(sa), pow10(sa + sb))
    } else if op == '*' {
        (ma * mb, pow10(sa + sb))
    } else if mb > 0 {
        (ma * pow10(sb), mb * pow10(sa))
    } else {
        (-ma * pow10(sb), -mb * pow10(sa))
    }
}

/// `a op b` in hundredths, rounded half away from zero.
pub open spec fn hundredths(op: char, ma: int, sa: nat, mb: int, sb: nat) -> int {
    round_div(100 * fraction(op, ma, sa, mb, sb).0, fraction(op, ma, sa, mb, sb).1)
}

/// `f` written with exactly `s` digits, zero-padded on the left.
pub open spec fn padded(f: nat, s: nat) -> Seq<char>
    decreases s,
{
    if s == 0 {
        Seq::empty()
    } else {
        padded(f / 10, (s - 1) as nat) + seq![digit_char((f % 10) as int)]
    }
}

/// A text without its trailing zeros.
pub open spec fn strip_zeros(t: Seq<char>) -> Seq<char>
    decreases t.len(),
{
    if t.len() > 0 && t.last() == '0' {
        strip_zeros(t.drop_last())
    } else {
        t
    }
}

pub open spec fn abs(m: int) -> nat {
    if m < 0 {
        (-m) as nat
    } else {
        m as nat
    }
}

/// The shortest text of the number `m / 10^s`: a minus sign when negative,
/// the integer part, and the fraction without trailing zeros, if any.
pub open spec fn number_text(m: int, s: nat) -> Seq<char> {
    let a = abs(m);
    let frac = strip_zeros(padded(((a as int) % pow10(s)) as nat, s));
    (if m < 0 {
        "-"@
    } else {
        Seq::empty()
    }) + decimal(((a as int) / pow10(s)) as nat) + if frac.len() > 0 {
        "."@ + frac
    } else {
        Seq::empty()
    }
}

/// The outcome of the text at the two sides of an operator.
pub open spec fn binary_outcome(t: Seq<char>, op: char) -> Result<Seq<char>, Seq<char>> {
    operate(split_from(t, op, 0)[0], split_from(t, op, 0)[1], op)
}

/// The outcome of `left op right`, both trimmed.
pub open spec fn operate(left: Seq<char>, right: Seq<char>, op: char) -> Result<Seq<char>, Seq<char>> {
    let l = trimmed(left);
    let r = trimmed(right);
    if !operand_ok(l) {
        Err("Invalid left operand"@)
    } else if !operand_ok(r) {
        Err("Invalid right operand"@)
    } else if op == '/' && mantissa(r) == 0 {
        Err("Division by zero"@)
    } else {
        Ok(number_text(hundredths(op, mantissa(l), scale(l), mantissa(r), scale(r)), 2))
    }
}

/// The calculator's answer for an expression: the first of `+ - * /` that
/// splits the trimmed text into exactly two parts is applied; with none, the
/// text must be a lone number, given back as written in shortest form.
pub open spec fn calculation(e: Seq<char>) -> Result<Seq<char>, Seq<char>> {
    let t = trimmed(e);
    if split_from(t, '+', 0).len() == 2 {
        binary_outcome(t, '+')
    } else if split_from(t, '-', 0).len() == 2 {
        binary_outcome(t, '-')
    } else if split_from(t, '*', 0).len() == 2 {
        binary_outcome(t, '*')
    } else if split_from(t, '/', 0).len() == 2 {
        binary_outcome(t, '/')
    } else if operand_ok(t) {
        Ok(number_text(mantissa(t), scale(t)))
    } else {
        Err("Invalid expression format"@)
    }
}

fn digit_str(d: u128) -> (r: &'static str)
    requires
        d < 10,
    ensures
        r@ == seq![digit_char(d as int)],
{
    proof {
        reveal_strlit("0");
        reveal_strlit("1");
        reveal_strlit("2");
        reveal_strlit("3");
        reveal_strlit("4");
        reveal_strlit("5");
        reveal_strlit("6");
        reveal_strlit("7");
        reveal_strlit("8");
        reveal_strlit("9");
    }
    if d == 0 {
        assert("0"@ =~= seq!['0']);
        "0"
    } else if d == 1 {
        assert("1"@ =~= seq!['1']);
        "1"
    } else if d == 2 {
        assert("2"@ =~= seq!['2']);
        "2"
    } else if d == 3 {
        assert("3"@ =~= seq!['3']);
        "3"
    } else if d == 4 {
        assert("4"@ =~= seq!['4']);
        "4"
    } else if d == 5 {
        assert("5"@ =~= seq!['5']);
        "5"
    } else if d == 6 {
        assert("6"@ =~= seq!['6']);
        "6"
    } else if d == 7 {
        assert("7"@ =~= seq!['7']);
        "7"
    } else if d == 8 {
        assert("8"@ =~= seq!['8']);
        "8"
    } else {
        assert("9"@ =~= seq!['9']);
        "9"
    }
}

/// Appends the decimal text of `n`.
pub fn write_decimal(n: u128, out: &mut String)
    ensures
        final(out)@ == old(out)@ + decimal(n as nat),
    decreases n,
{
    if n >= 10 {
        write_decimal(n / 10, out);
    }
    out.append(digit_str(n % 10));
    proof {
        if n >= 10 {
            assert(final(out)@ =~= old(out)@ + decimal(n as nat));
        } else {
            assert(final(out)@ =~= old(out)@ + decimal(n as nat));
        }
    }
}

fn write_padded(f: u128, s: u32, out: &mut String)
    ensures
        final(out)@ == old(out)@ + padded(f as nat, s as nat),
    decreases s,
{
    if s > 0 {
        write_padded(f / 10, s - 1, out);
        out.append(digit_str(f % 10));
        proof {
            assert(final(out)@ =~= old(out)@ + padded(f as nat, s as nat));
        }
    } else {
        proof {
            assert(final(out)@ =~= old(out)@ + padded(f as nat, s as nat));
        }
    }
}

fn pow10_exec(n: u32) -> (r: u128)
    requires
        n <= 32,
    ensures
        r == pow10(n as nat),
{
    let mut r: u128 = 1;
    let mut i: u32 = 0;
    while i < n
        invariant
            i <= n <= 32,
            r == pow10(i as nat),
        decreases n - i,
    {
        proof {
            lemma_pow10_mono(i as nat, 32);
            assert(pow10(32) == 100000000000000000000000000000000) by {
                reveal_with_fuel(pow10, 33);
            }
        }
        r = r * 10;
        i = i + 1;
    }
    r
}

/// The shortest text of `m / 10^s`.
pub fn format_number(m: i128, s: u32) -> (r: String)
    requires
        s <= 32,
        m > i128::MIN,
    ensures
        r@ == number_text(m as int, s as nat),
{
    let a: u128 = if m < 0 {
        (-m) as u128
    } else {
        m as u128
    };
    let p = pow10_exec(s);
    proof {
        lemma_pow10_mono(0, s as nat);
    }
    let mut frac = String::new();
    write_padded(a % p, s, &mut frac);
    let n = frac.unicode_len();
    let mut k: usize = n;
    proof {
        assert(frac@.subrange(0, n as int) =~= frac@);
    }
    while k > 0 && frac.get_char(k - 1) == '0'
        invariant
            k <= n,
            n == frac@.len(),
            strip_zeros(frac@) == strip_zeros(frac@.subrange(0, k as int)),
        decreases k,
    {
        proof {
            assert(frac@.subrange(0, k as int).drop_last() =~= frac@.subrange(0, k - 1));
        }
        k = k - 1;
    }
    let stripped = frac.substring_char(0, k);
    proof {
        let t = frac@.subrange(0, k as int);
        assert(!(t.len() > 0 && t.last() == '0'));
        assert(strip_zeros(t) == t);
        assert(stripped@ == t);
    }
    let mut out = String::new();
    if m < 0 {
        out.append("-");
    }
    write_decimal(a / p, &mut out);
    if k > 0 {
        out.append(".");
        out.append(stripped);
    }
    proof {
        reveal_strlit("-");
        reveal_strlit(".");
        assert(out@ =~= number_text(m as int, s as nat));
    }
    out
}

/// Reads an operand, giving its mantissa and scale.
pub fn parse_operand(s: &str) -> (r: Option<(i128, u32)>)
    ensures
        r is Some <==> operand_ok(s@),
        r is Some ==> r->Some_0.0 == mantissa(s@) && r->Some_0.1 == scale(s@),
        r is Some ==> -pow10(15) < r->Some_0.0 < pow10(15) && r->Some_0.1 <= 15,
{
    let n = s.unicode_len();
    let sl: usize = if n > 0 && (s.get_char(0) == '-' || s.get_char(0) == '+') {
        1
    } else {
        0
    };
    let b = s.substring_char(sl, n);
    let bn = b.unicode_len();
    let mut pt: usize = 0;
    while pt < bn && b.get_char(pt) != '.'
        invariant
            pt <= bn,
            bn == b@.len(),
            crate::field::index_of_from(b@, '.', 0) == crate::field::index_of_from(b@, '.', pt as int),
        decreases bn - pt,
    {
        pt = pt + 1;
    }
    let ip = b.substring_char(0, pt);
    let fp = if pt < bn {
        b.substring_char(pt + 1, bn)
    } else {
        ""
    };
    proof {
        reveal_strlit("");
        assert(b@ == body(s@));
        assert(pt == point(s@));
        assert(ip@ == int_part(s@));
        assert(fp@ == frac_part(s@));
    }
    let mut digits = ip.to_string();
    digits.append(fp);
    let dn = digits.unicode_len();
    if dn < 1 || dn > MAX_DIGITS {
        return None;
    }
    let mut acc: i128 = 0;
    let mut i: usize = 0;
    while i < dn
        invariant
            i <= dn <= 15,
            dn == digits@.len(),
            digits@ == int_part(s@) + frac_part(s@),
            all_digits(digits@.subrange(0, i as int)),
            acc == digits_value(digits@.subrange(0, i as int)),
            0 <= acc < pow10(i as nat),
        decreases dn - i,
    {
        let c = digits.get_char(i);
        let u = c as u32;
        if !('0' as u32 <= u && u <= '9' as u32) {
            proof {
                assert(!is_ascii_digit(digits@[i as int]));
                if i < int_part(s@).len() {
                    assert(digits@[i as int] == int_part(s@)[i as int]);
                } else {
                    assert(digits@[i as int] == frac_part(s@)[i - int_part(s@).len()]);
                }
            }
            return None;
        }
        proof {
            lemma_pow10_mono(i as nat, 14);
            assert(pow10(14) == 100000000000000) by {
                reveal_with_fuel(pow10, 15);
            }
            assert(digits@.subrange(0, i + 1).drop_last() =~= digits@.subrange(0, i as int));
            assert(all_digits(digits@.subrange(0, i + 1))) by {
                assert forall|j: int| 0 <= j < i + 1 implies is_ascii_digit(
                    #[trigger] digits@.subrange(0, i + 1)[j],
                ) by {
                    if j < i {
                        assert(digits@.subrange(0, i + 1)[j] == digits@.subrange(0, i as int)[j]);
                    }
                }
            }
        }
        acc = acc * 10 + (u - '0' as u32) as i128;
        i = i + 1;
    }
    proof {
        assert(digits@.subrange(0, dn as int) =~= digits@);
        assert(all_digits(int_part(s@))) by {
            assert forall|j: int| 0 <= j < int_part(s@).len() implies is_ascii_digit(
                #[trigger] int_part(s@)[j],
            ) by {
                assert(int_part(s@)[j] == digits@[j]);
            }
        }
        assert(all_digits(frac_part(s@))) by {
            assert forall|j: int| 0 <= j < frac_part(s@).len() implies is_ascii_digit(
                #[trigger] frac_part(s@)[j],
            ) by {
                assert(frac_part(s@)[j] == digits@[int_part(s@).len() + j]);
            }
        }
        lemma_pow10_mono(dn as nat, 15);
    }
    let negative = sl == 1 && s.get_char(0) == '-';
    let m: i128 = if negative {
        -acc
    } else {
        acc
    };
    Some((m, fp.unicode_len() as u32))
}

fn hundredths_exec(op: char, ma: i128, sa: u32, mb: i128, sb: u32) -> (r: i128)
    requires
        op == '+' || op == '-' || op == '*' || op == '/',
        -pow10(15) < ma < pow10(15),
        -pow10(15) < mb < pow10(15),
        sa <= 15,
        sb <= 15,
        op == '/' ==> mb != 0,
    ensures
        r == hundredths(op, ma as int, sa as nat, mb as int, sb as nat),
        -pow10(33) < r < pow10(33),
{
    proof {
        lemma_pow10_mono(sa as nat, 15);
        lemma_pow10_mono(sb as nat, 15);
        lemma_pow10_mono((sa + sb) as nat, 30);
        assert(pow10(15) == 1000000000000000) by {
            reveal_with_fuel(pow10, 16);
        }
        assert(pow10(30) == 1000000000000000000000000000000) by {
            reveal_with_fuel(pow10, 31);
        }
        assert(pow10(33) == 1000000000000000000000000000000000) by {
            reveal_with_fuel(pow10, 34);
        }
    }
    let pa = pow10_exec(sa) as i128;
    let pb = pow10_exec(sb) as i128;
    let pab = pow10_exec(sa + sb) as i128;
    let big: i128 = 1000000000000000;
    proof {
        assert(-big < ma < big && -big < mb < big);
        assert(1 <= pa <= big && 1 <= pb <= big);
        assert(-big * big < ma * pb < big * big) by (nonlinear_arith)
            requires
                -big < ma < big,
                1 <= pb <= big,
        ;
        assert(-big * big < mb * pa < big * big) by (nonlinear_arith)
            requires
                -big < mb < big,
                1 <= pa <= big,
        ;
        assert(-big * big < (-ma) * pb < big * big) by (nonlinear_arith)
            requires
                -big < ma < big,
                1 <= pb <= big,
        ;
        assert(-big * big < ma * mb < big * big) by (nonlinear_arith)
            requires
                -big < ma < big,
                -big < mb < big,
        ;
        assert(0 < mb ==> 1 <= mb * pa <= big * big) by (nonlinear_arith)
            requires
                -big < mb < big,
                1 <= pa <= big,
        ;
        assert(mb < 0 ==> 1 <= (-mb) * pa <= big * big) by (nonlinear_arith)
            requires
                -big < mb < big,
                1 <= pa <= big,
        ;
    }
    let (num, den): (i128, i128) = if op == '+' {
        (ma * pb + mb * pa, pab)
    } else if op == '-' {
        (ma * pb - mb * pa, pab)
    } else if op == '*' {
        (ma * mb, pab)
    } else if mb > 0 {
        (ma * pb, mb * pa)
    } else {
        ((-ma) * pb, (-mb) * pa)
    };
    proof {
        assert(-(ma * pb) == (-ma) * pb) by (nonlinear_arith);
        assert(-(mb * pa) == (-mb) * pa) by (nonlinear_arith);
        assert((num as int, den as int) == fraction(op, ma as int, sa as nat, mb as int, sb as nat));
        assert(1 <= den);
    }
    let p = 100 * num;
    let c = if p >= 0 {
        (2 * p + den) / (2 * den)
    } else {
        -((-2 * p + den) / (2 * den))
    };
    proof {
        let q = den as int;
        let pp = p as int;
        if pp >= 0 {
            assert((2 * pp + q) / (2 * q) <= 2 * pp + q) by (nonlinear_arith)
                requires
                    pp >= 0,
                    q >= 1,
            ;
        } else {
            assert((-2 * pp + q) / (2 * q) <= -2 * pp + q) by (nonlinear_arith)
                requires
                    pp < 0,
                    q >= 1,
            ;
        }
    }
    c
}

/// The outcome of `left op right`.
fn operate_exec(left: &str, right: &str, op: char) -> (r: Result<String, String>)
    requires
        op == '+' || op == '-' || op == '*' || op == '/',
    ensures
        match operate(left@, right@, op) {
            Ok(t) => r is Ok && r->Ok_0@ == t,
            Err(m) => r is Err && r->Err_0@ == m,
        },
{
    let (ma, sa) = match parse_operand(trim(left)) {
        None => return Err("Invalid left operand".to_string()),
        Some(x) => x,
    };
    let (mb, sb) = match parse_operand(trim(right)) {
        None => return Err("Invalid right operand".to_string()),
        Some(x) => x,
    };
    if op == '/' && mb == 0 {
        return Err("Division by zero".to_string());
    }
    let c = hundredths_exec(op, ma, sa, mb, sb);
    proof {
        assert(pow10(33) == 1000000000000000000000000000000000) by {
            reveal_with_fuel(pow10, 34);
        }
    }
    Ok(format_number(c, 2))
}

/// Works out an expression: `a + b`, `a - b`, `a * b` or `a / b` rounded to
/// hundredths, or a lone number; with the error for each malformed form.
pub fn evaluate(expression: &str) -> (r: Result<String, String>)
    ensures
        match calculation(expression@) {
            Ok(t) => r is Ok && r->Ok_0@ == t,
            Err(m) => r is Err && r->Err_0@ == m,
        },
{
    let t = trim(expression);
    let plus = split_char(t, '+');
    if plus.len() == 2 {
        return operate_exec(plus[0].as_str(), plus[1].as_str(), '+');
    }
    let minus = split_char(t, '-');
    if minus.len() == 2 {
        return operate_exec(minus[0].as_str(), minus[1].as_str(), '-');
    }
    let times = split_char(t, '*');
    if times.len() == 2 {
        return operate_exec(times[0].as_str(), times[1].as_str(), '*');
    }
    let over = split_char(t, '/');
    if over.len() == 2 {
        return operate_exec(over[0].as_str(), over[1].as_str(), '/');
    }
    match parse_operand(t) {
        Some((m, s)) => {
            proof {
                assert(pow10(15) == 1000000000000000) by {
                    reveal_with_fuel(pow10, 16);
                }
            }
            Ok(format_number(m, s))
        },
        None => Err("Invalid expression format".to_string()),
    }
}

/// The decimal text of `n`.
pub fn decimal_string(n: u128) -> (r: String)
    ensures
        r@ == decimal(n as nat),
{
    let mut s = String::new();
    write_decimal(n, &mut s);
    s
}

/// The decimal text of `n`, with a minus sign when negative.
pub fn signed_decimal_string(n: i64) -> (r: String)
    ensures
        r@ == crate::text::signed_decimal(n as int),
{
    let mut s = String::new();
    if n < 0 {
        s.append("-");
        write_decimal((-(n as i128)) as u128, &mut s);
        proof {
            reveal_strlit("-");
            assert(s@ =~= crate::text::signed_decimal(n as int));
        }
    } else {
        write_decimal(n as u128, &mut s);
    }
    s
}

} // verus!
