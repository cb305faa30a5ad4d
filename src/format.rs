//! Numbers and durations as text.

use vstd::prelude::*;

verus! {

/// The character of the decimal digit `d` (`d < 10`).
pub open spec fn digit_char(d: nat) -> char {
    (d + 48) as char
}

/// The decimal rendering of `n`, without leading zeros (`0` is `"0"`).
pub open spec fn dec(n: nat) -> Seq<char>
    decreases n,
{
    if n < 10 {
        seq![digit_char(n)]
    } else {
        dec(n / 10).push(digit_char(n % 10))
    }
}

/// `n` rendered with at least two digits, as `{:02}` does.
pub open spec fn pad2(n: nat) -> Seq<char> {
    if n < 10 {
        seq!['0'] + dec(n)
    } else {
        dec(n)
    }
}

/// `MM:SS` below one hour, `HH:MM:SS` from one hour on.
pub open spec fn time_str(seconds: nat) -> Seq<char> {
    let m = seconds / 60 % 60;
    let s = seconds % 60;
    let h = seconds / 3600;
    if h == 0 {
        pad2(m) + seq![':'] + pad2(s)
    } else {
        pad2(h) + seq![':'] + pad2(m) + seq![':'] + pad2(s)
    }
}

fn digit(d: u128) -> (c: char)
    requires
        d < 10,
    ensures
        c == digit_char(d as nat),
{
    if d == 0 {
        '0'
    } else if d == 1 {
        '1'
    } else if d == 2 {
        '2'
    } else if d == 3 {
        '3'
    } else if d == 4 {
        '4'
    } else if d == 5 {
        '5'
    } else if d == 6 {
        '6'
    } else if d == 7 {
        '7'
    } else if d == 8 {
        '8'
    } else {
        '9'
    }
}

/// Appends the decimal digits of `n`.
pub fn push_dec(out: &mut Vec<char>, n: u128)
    ensures
        final(out)@ == old(out)@ + dec(n as nat),
    decreases n,
{
    if n >= 10 {
        push_dec(out, n / 10);
    }
    out.push(digit(n % 10));
    proof {
        if n >= 10 {
            assert(old(out)@ + dec(n as nat) =~= old(out)@ + dec((n / 10) as nat) + seq![
                digit_char((n % 10) as nat),
            ]);
        }
    }
}

/// Appends `n` with at least two digits.
pub fn push_pad2(out: &mut Vec<char>, n: u128)
    ensures
        final(out)@ == old(out)@ + pad2(n as nat),
{
    if n < 10 {
        out.push('0');
    }
    push_dec(out, n);
    proof {
        if n < 10 {
            assert(old(out)@ + pad2(n as nat) =~= old(out)@.push('0') + dec(n as nat));
        }
    }
}

/// Appends `time_str(seconds)`.
pub fn push_time(out: &mut Vec<char>, seconds: u64)
    ensures
        final(out)@ == old(out)@ + time_str(seconds as nat),
{
    let m = seconds / 60 % 60;
    let s = seconds % 60;
    let h = seconds / 3600;
    let ghost start = out@;
    if h != 0 {
        push_pad2(out, h as u128);
        out.push(':');
    }
    push_pad2(out, m as u128);
    out.push(':');
    push_pad2(out, s as u128);
    proof {
        let sn = seconds as nat;
        if h == 0 {
            assert(out@ =~= start + (pad2(sn / 60 % 60) + seq![':'] + pad2(sn % 60)));
        } else {
            assert(out@ =~= start + (pad2(sn / 3600) + seq![':'] + pad2(sn / 60 % 60) + seq![':']
                + pad2(sn % 60)));
        }
    }
}

/// Relies on `String`'s `FromIterator<char>`: the characters, in order.
#[verifier::external_body]
pub(crate) fn string_of(chars: Vec<char>) -> (r: String)
    ensures
        r@ == chars@,
{
    chars.into_iter().collect()
}

/// Elapsed or remaining time as `MM:SS`, or `HH:MM:SS` from one hour on.
pub fn format_time(seconds: u64) -> (r: String)
    ensures
        r@ == time_str(seconds as nat),
{
    let mut out: Vec<char> = Vec::new();
    push_time(&mut out, seconds);
    proof {
        assert(out@ =~= time_str(seconds as nat));
    }
    string_of(out)
}

/// `1000` to the power `u`.
pub open spec fn pow1000(u: nat) -> nat
    decreases u,
{
    if u == 0 {
        1
    } else {
        1000 * pow1000((u - 1) as nat)
    }
}

/// The first scale from `u` on (up to exa, `6`) at which `x` reads below `999.5`.
pub open spec fn scale_from(x: nat, u: nat) -> nat
    decreases 6 - u,
{
    if u >= 6 || 2 * x < 1999 * pow1000(u) {
        u
    } else {
        scale_from(x, u + 1)
    }
}

/// The SI prefix of scale `u`.
pub open spec fn si_prefix(u: nat) -> Seq<char> {
    if u == 0 {
        seq![]
    } else if u == 1 {
        seq!['k']
    } else if u == 2 {
        seq!['M']
    } else if u == 3 {
        seq!['G']
    } else if u == 4 {
        seq!['T']
    } else if u == 5 {
        seq!['P']
    } else {
        seq!['E']
    }
}

/// `x` with three significant digits and an SI prefix: `x / 1000^u` is shown
/// with two decimals below `9.995`, one below `99.95`, none below `999.5`,
/// rounded half up.
pub open spec fn sizeof_str(x: nat) -> Seq<char> {
    let u = scale_from(x, 0);
    let p = pow1000(u);
    if 1000 * x < 9995 * p {
        let q = (200 * x + p) / (2 * p);
        dec(q / 100) + seq!['.'] + pad2(q % 100) + si_prefix(u)
    } else if 100 * x < 9995 * p {
        let q = (20 * x + p) / (2 * p);
        dec(q / 10) + seq!['.'] + dec(q % 10) + si_prefix(u)
    } else {
        let q = (2 * x + p) / (2 * p);
        dec(q) + si_prefix(u)
    }
}

proof fn lemma_pow1000_values()
    ensures
        pow1000(0) == 1,
        pow1000(1) == 1000,
        pow1000(2) == 1_000_000,
        pow1000(3) == 1_000_000_000,
        pow1000(4) == 1_000_000_000_000,
        pow1000(5) == 1_000_000_000_000_000,
        pow1000(6) == 1_000_000_000_000_000_000,
{
    reveal_with_fuel(pow1000, 7);
}

fn push_si_prefix(out: &mut Vec<char>, u: u64)
    ensures
        final(out)@ == old(out)@ + si_prefix(u as nat),
{
    if u == 1 {
        out.push('k');
    } else if u == 2 {
        out.push('M');
    } else if u == 3 {
        out.push('G');
    } else if u == 4 {
        out.push('T');
    } else if u == 5 {
        out.push('P');
    } else if u >= 6 {
        out.push('E');
    }
    assert(out@ =~= old(out)@ + si_prefix(u as nat));
}

/// Appends `sizeof_str(x)`.
pub fn push_sizeof(out: &mut Vec<char>, x: u64)
    ensures
        final(out)@ == old(out)@ + sizeof_str(x as nat),
{
    proof {
        lemma_pow1000_values();
    }
    let xx = x as u128;
    let mut u: u64 = 0;
    let mut p: u128 = 1;
    while u < 6 && 2 * xx >= 1999 * p
        invariant
            u <= 6,
            p == pow1000(u as nat),
            xx == x,
            scale_from(x as nat, 0) == scale_from(x as nat, u as nat),
            pow1000(0) == 1,
            pow1000(1) == 1000,
            pow1000(2) == 1_000_000,
            pow1000(3) == 1_000_000_000,
            pow1000(4) == 1_000_000_000_000,
            pow1000(5) == 1_000_000_000_000_000,
            pow1000(6) == 1_000_000_000_000_000_000,
        decreases 6 - u,
    {
        assert(u == 0 || u == 1 || u == 2 || u == 3 || u == 4 || u == 5);
        p = p * 1000;
        u = u + 1;
    }
    assert(u == 0 || u == 1 || u == 2 || u == 3 || u == 4 || u == 5 || u == 6);
    assert(scale_from(x as nat, u as nat) == u);
    let ghost start = out@;
    if 1000 * xx < 9995 * p {
        let q = (200 * xx + p) / (2 * p);
        push_dec(out, q / 100);
        out.push('.');
        push_pad2(out, q % 100);
        push_si_prefix(out, u);
        assert(out@ =~= start + (dec((q / 100) as nat) + seq!['.'] + pad2((q % 100) as nat)
            + si_prefix(u as nat)));
    } else if 100 * xx < 9995 * p {
        let q = (20 * xx + p) / (2 * p);
        push_dec(out, q / 10);
        out.push('.');
        push_dec(out, q % 10);
        push_si_prefix(out, u);
        assert(out@ =~= start + (dec((q / 10) as nat) + seq!['.'] + dec((q % 10) as nat)
            + si_prefix(u as nat)));
    } else {
        let q = (2 * xx + p) / (2 * p);
        push_dec(out, q);
        push_si_prefix(out, u);
    }
}

/// `x` in three or four significant digits with an SI prefix
/// (`1234` is `"1.23k"`, `999_000_000` is `"999M"`).
pub fn format_sizeof(x: u64) -> (r: String)
    ensures
        r@ == sizeof_str(x as nat),
{
    let mut out: Vec<char> = Vec::new();
    push_sizeof(&mut out, x);
    proof {
        assert(out@ =~= sizeof_str(x as nat));
    }
    string_of(out)
}

} // verus!
