use vstd::prelude::*;
use crate::path::{decimal, digit_char};
use crate::text::{concat_text, push_char};

verus! {

broadcast use vstd::string::group_string_axioms;

/// `1024` to the power `k`.
pub open spec fn pow1024(k: nat) -> nat
    decreases k,
{
    if k == 0 { 1 } else { 1024 * pow1024((k - 1) as nat) }
}

/// The unit a size is shown in: bytes, KB, MB or GB (0 to 3), the largest not above it.
pub open spec fn size_unit(b: nat) -> nat {
    if b >= pow1024(3) { 3 } else if b >= pow1024(2) { 2 } else if b >= pow1024(1) { 1 } else { 0 }
}

/// `b / 1024^k` in hundredths, rounded to nearest, ties to even.
pub open spec fn hundredths(b: nat, k: nat) -> nat {
    let d = pow1024(k);
    let q = (b * 100) / d;
    let r = (b * 100) % d;
    if 2 * r > d || (2 * r == d && q % 2 == 1) { q + 1 } else { q }
}

/// The name of unit `k`.
pub open spec fn unit_name(k: nat) -> Seq<char> {
    if k == 0 { seq!['B'] } else if k == 1 { seq!['K', 'B'] } else if k == 2 { seq!['M', 'B'] } else { seq!['G', 'B'] }
}

/// A size written with two decimals in its unit, as in `1.50 KB`.
pub open spec fn size_text(b: nat) -> Seq<char> {
    let k = size_unit(b);
    let h = hundredths(b, k);
    decimal(h / 100) + seq!['.', digit_char((h / 10) % 10), digit_char(h % 10), ' '] + unit_name(k)
}

fn push_decimal_u64(s: &mut String, n: u64)
    ensures
        final(s)@ == old(s)@ + decimal(n as nat),
    decreases n,
{
    if n >= 10 {
        push_decimal_u64(s, n / 10);
    }
    let d = (n % 10) as usize;
    let c = match d {
        0 => '0',
        1 => '1',
        2 => '2',
        3 => '3',
        4 => '4',
        5 => '5',
        6 => '6',
        7 => '7',
        8 => '8',
        _ => '9',
    };
    push_char(s, c);
    proof {
        if n < 10 {
            assert(n % 10 == n);
        }
        assert(c == digit_char((n % 10) as nat));
        assert(final(s)@ =~= old(s)@ + decimal(n as nat));
    }
}

fn digit_of(d: u128) -> (c: char)
    requires
        d < 10,
    ensures
        c == digit_char(d as nat),
{
    match d {
        0 => '0',
        1 => '1',
        2 => '2',
        3 => '3',
        4 => '4',
        5 => '5',
        6 => '6',
        7 => '7',
        8 => '8',
        _ => '9',
    }
}

/// A byte count in B, KB, MB or GB with two decimals (`1536` gives `1.50 KB`).
pub fn format_size(bytes: u64) -> (r: String)
    ensures
        r@ == size_text(bytes as nat),
{
    proof {
        reveal_with_fuel(pow1024, 4);
    }
    let k: u128 = if bytes >= 1073741824 { 3 } else if bytes >= 1048576 { 2 } else if bytes >= 1024 { 1 } else { 0 };
    let d: u128 = if k == 3 { 1073741824 } else if k == 2 { 1048576 } else if k == 1 { 1024 } else { 1 };
    assert(d == pow1024(k as nat));
    assert(k == size_unit(bytes as nat));
    let n: u128 = bytes as u128 * 100;
    let q = n / d;
    let rem = n % d;
    let h: u128 = if 2 * rem > d || (2 * rem == d && q % 2 == 1) { q + 1 } else { q };
    assert(h == hundredths(bytes as nat, k as nat));
    assert(h / 100 <= u64::MAX) by (nonlinear_arith)
        requires h <= q + 1, q == n / d, d >= 1, n == bytes * 100, bytes <= u64::MAX;
    let mut r = String::new();
    push_decimal_u64(&mut r, (h / 100) as u64);
    push_char(&mut r, '.');
    push_char(&mut r, digit_of((h / 10) % 10));
    push_char(&mut r, digit_of(h % 10));
    push_char(&mut r, ' ');
    let unit = if k == 0 { "B" } else if k == 1 { "KB" } else if k == 2 { "MB" } else { "GB" };
    proof {
        reveal_strlit("B");
        reveal_strlit("KB");
        reveal_strlit("MB");
        reveal_strlit("GB");
        assert(unit@ =~= unit_name(k as nat));
    }
    let out = concat_text(r.as_str(), unit);
    assert(out@ =~= size_text(bytes as nat));
    out
}

} // verus!
