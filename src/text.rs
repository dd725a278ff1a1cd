//! Numbers and durations as text.
use vstd::prelude::*;

verus! {

/// The decimal digit of `d`, for `0 <= d < 10`.
pub open spec fn digit_char(d: int) -> char {
    if d == 0 { '0' }
    else if d == 1 { '1' }
    else if d == 2 { '2' }
    else if d == 3 { '3' }
    else if d == 4 { '4' }
    else if d == 5 { '5' }
    else if d == 6 { '6' }
    else if d == 7 { '7' }
    else if d == 8 { '8' }
    else { '9' }
}

/// The decimal digits of a natural number, without leading zeros.
pub open spec fn nat_text(n: nat) -> Seq<char>
    decreases n,
{
    if n < 10 {
        seq![digit_char(n as int)]
    } else {
        nat_text(n / 10) + seq![digit_char((n % 10) as int)]
    }
}

/// An integer in decimal, with a minus sign when negative.
pub open spec fn int_text(n: int) -> Seq<char> {
    if n < 0 {
        seq!['-'] + nat_text((-n) as nat)
    } else {
        nat_text(n as nat)
    }
}

/// A duration in minutes as text.
pub open spec fn duration_text(minutes: int) -> Seq<char> {
    if minutes < 60 {
        int_text(minutes) + "分钟"@
    } else if minutes < 1440 {
        int_text(minutes / 60) + "小时"@ + if minutes % 60 == 0 {
            Seq::<char>::empty()
        } else {
            int_text(minutes % 60) + "分钟"@
        }
    } else {
        int_text(minutes / 1440) + "天"@ + (if (minutes % 1440) / 60 > 0 {
            int_text((minutes % 1440) / 60) + "小时"@
        } else {
            Seq::<char>::empty()
        }) + if minutes % 60 > 0 {
            int_text(minutes % 60) + "分钟"@
        } else {
            Seq::<char>::empty()
        }
    }
}

/// The digit of `d` as a one-character string.
fn digit_str(d: u128) -> (r: &'static str)
    requires
        d < 10,
    ensures
        r@ == seq![digit_char(d as int)],
{
    proof {
        reveal_strlit("0");
        reveal_strlit("1");
        reveal_strlit("2");
        reveal_strlit("3");
        reveal_strlit("4");
        reveal_strlit("5");
        reveal_strlit("6");
        reveal_strlit("7");
        reveal_strlit("8");
        reveal_strlit("9");
    }
    if d == 0 { "0" }
    else if d == 1 { "1" }
    else if d == 2 { "2" }
    else if d == 3 { "3" }
    else if d == 4 { "4" }
    else if d == 5 { "5" }
    else if d == 6 { "6" }
    else if d == 7 { "7" }
    else if d == 8 { "8" }
    else { "9" }
}

/// Appends the decimal digits of `n`.
pub fn push_nat(s: &mut String, n: u128)
    ensures
        final(s)@ == old(s)@ + nat_text(n as nat),
    decreases n,
{
    if n < 10 {
        s.append(digit_str(n));
    } else {
        push_nat(s, n / 10);
        s.append(digit_str(n % 10));
        assert(final(s)@ =~= old(s)@ + nat_text(n as nat));
    }
}

/// Appends `n` in decimal.
pub fn push_int(s: &mut String, n: i128)
    ensures
        final(s)@ == old(s)@ + int_text(n as int),
{
    if n < 0 {
        proof {
            reveal_strlit("-");
        }
        s.append("-");
        let m: u128 = if n == i128::MIN { (i128::MAX as u128) + 1 } else { (-n) as u128 };
        push_nat(s, m);
        assert(final(s)@ =~= old(s)@ + int_text(n as int));
    } else {
        push_nat(s, n as u128);
    }
}

/// `n / d` rounded to the nearest integer, ties to the even one, for `d > 0`.
pub open spec fn rounded_div(n: int, d: int) -> int {
    let q = n / d;
    let rem = n % d;
    if 2 * rem > d || (2 * rem == d && q % 2 == 1) {
        q + 1
    } else {
        q
    }
}

/// The fractional digits of a fixed-point number: two digits for
/// hundredths, one for tenths.
pub open spec fn fraction_text(r: nat, places: nat) -> Seq<char> {
    if places == 2 && r < 10 {
        seq!['0'] + nat_text(r)
    } else {
        nat_text(r)
    }
}

/// `v` units of `10^-places` as a decimal with `places` fractional digits.
pub open spec fn fixed_text(v: int, places: nat) -> Seq<char> {
    let unit: int = if places == 2 { 100 } else { 10 };
    let a: nat = if v < 0 { (-v) as nat } else { v as nat };
    (if v < 0 { seq!['-'] } else { Seq::<char>::empty() }) + nat_text(a / (unit as nat)) + seq!['.']
        + fraction_text(a % (unit as nat), places)
}

/// `part` as a percentage of `total` with `places` fractional digits, zero
/// where the total is not positive.
pub open spec fn percent_text(part: int, total: int, places: nat) -> Seq<char> {
    let unit: int = if places == 2 { 10000 } else { 1000 };
    if total > 0 {
        fixed_text(rounded_div(part * unit, total), places)
    } else {
        fixed_text(0, places)
    }
}

/// Appends `part` as a percentage of `total`, with one or two fractional
/// digits.
pub fn push_percent(s: &mut String, part: i64, total: i128, places: u32)
    requires
        places == 1 || places == 2,
        -0x1_0000_0000_0000_0000 <= total <= 0x1_0000_0000_0000_0000,
    ensures
        final(s)@ == old(s)@ + percent_text(part as int, total as int, places as nat),
{
    let unit: i128 = if places == 2 { 100 } else { 10 };
    let scale: i128 = if places == 2 { 10000 } else { 1000 };
    let v: i128 = if total > 0 {
        let n: i128 = (part as i128) * scale;
        proof {
            let qq = n as int / total as int;
            let rr = n as int % total as int;
            vstd::arithmetic::div_mod::lemma_fundamental_div_mod(n as int, total as int);
            assert(n == total * qq + rr);
            assert(0 <= rr < total);
            assert(qq >= 0 ==> qq <= n) by (nonlinear_arith)
                requires
                    n == total * qq + rr,
                    rr >= 0,
                    total >= 1,
            ;
            assert(qq < 0 ==> qq >= n - total) by (nonlinear_arith)
                requires
                    n == total * qq + rr,
                    rr < total,
                    total >= 1,
            ;
        }
        let q = match n.checked_div_euclid(total) {
            Some(q) => q,
            None => 0,
        };
        let rem = match n.checked_rem_euclid(total) {
            Some(r) => r,
            None => 0,
        };
        let odd = q.checked_rem_euclid(2) == Some(1i128);
        if 2 * rem > total || (2 * rem == total && odd) {
            q + 1
        } else {
            q
        }
    } else {
        0
    };
    assert(v == if total > 0 {
        rounded_div(part * (if places == 2 { 10000int } else { 1000int }), total as int)
    } else {
        0
    });
    let ghost start = s@;
    let a: u128 = if v < 0 { (-v) as u128 } else { v as u128 };
    let r = a % (unit as u128);
    let ghost sign = if v < 0 { seq!['-'] } else { Seq::<char>::empty() };
    if v < 0 {
        proof {
            reveal_strlit("-");
        }
        s.append("-");
    }
    assert(s@ == start + sign);
    push_nat(s, a / (unit as u128));
    proof {
        reveal_strlit(".");
        reveal_strlit("0");
    }
    s.append(".");
    let ghost mid = s@;
    if places == 2 && r < 10 {
        s.append("0");
    }
    push_nat(s, r);
    assert(s@ =~= mid + fraction_text(r as nat, places as nat));
    assert(mid =~= start + sign + nat_text((a / (unit as u128)) as nat) + seq!['.']);
    assert(fixed_text(v as int, places as nat) =~= sign + nat_text((a / (unit as u128)) as nat) + seq!['.'] + fraction_text(r as nat, places as nat));
    assert(final(s)@ =~= old(s)@ + percent_text(part as int, total as int, places as nat));
}

} // verus!
