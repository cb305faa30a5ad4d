//! The text of one bar: `[desc: ]pct%|glyphs| n/total [time<eta, rate it/s[, postfix]]`
//! for a bar with a total, `[desc: ]n it [time, rate it/s[, postfix]]` without one.

use vstd::prelude::*;
use vstd::arithmetic::div_mod::{
    lemma_div_by_multiple, lemma_div_is_ordered, lemma_div_is_ordered_by_denominator, lemma_fundamental_div_mod,
    lemma_fundamental_div_mod_converse,
};
use crate::format::{dec, pad2, push_dec, push_pad2, push_sizeof, push_time, sizeof_str, time_str};
use crate::progress::{since, Progress};
use crate::style::{push_str_chars, Style};

verus! {

/// Nanoseconds in one second.
pub const NANOS_PER_SEC: u64 = 1_000_000_000;

/// How a bar looks.
#[derive(Debug, Clone)]
pub struct Config {
    /// The glyph alphabet of the bar region.
    pub style: Style,
    /// Columns the line may take, at most the terminal's width.
    pub width: Option<u16>,
    /// Shown before the line as `desc: `.
    pub desc: Option<String>,
    /// Shown inside the right block as `, postfix`.
    pub postfix: Option<String>,
    /// Counts are shown with SI prefixes (`1.23k`).
    pub unit_scale: bool,
}

impl Config {
    /// The ASCII style, the terminal's width, no text around, plain counts.
    pub fn new() -> (r: Config)
        ensures
            r.style == Style::ASCII,
            r.width == None::<u16>,
            r.desc == None::<String>,
            r.postfix == None::<String>,
            !r.unit_scale,
    {
        Config { style: Style::ASCII, width: None, desc: None, postfix: None, unit_scale: false }
    }

    /// A copy of this configuration, equal to it.
    pub fn duplicate(&self) -> (r: Config)
        ensures
            r == *self,
    {
        let desc = match &self.desc {
            Some(d) => Some(d.clone()),
            None => None,
        };
        let postfix = match &self.postfix {
            Some(p) => Some(p.clone()),
            None => None,
        };
        Config {
            style: self.style.duplicate(),
            width: self.width,
            desc,
            postfix,
            unit_scale: self.unit_scale,
        }
    }
}

/// `desc: `, or nothing.
pub open spec fn desc_part(desc: Option<String>) -> Seq<char> {
    match desc {
        Some(d) => d@ + seq![':', ' '],
        None => Seq::empty(),
    }
}

/// `, postfix`, or nothing.
pub open spec fn postfix_part(postfix: Option<String>) -> Seq<char> {
    match postfix {
        Some(p) => seq![',', ' '] + p@,
        None => Seq::empty(),
    }
}

/// A count, plain or with an SI prefix.
pub open spec fn count_str(x: nat, unit_scale: bool) -> Seq<char> {
    if unit_scale {
        sizeof_str(x)
    } else {
        dec(x)
    }
}

/// `count` steps in `ns` nanoseconds, in hundredths of a step per second
/// (an empty span counts as one nanosecond).
pub open spec fn per_sec_centi(count: nat, ns: nat) -> nat {
    count * 100_000_000_000 / if ns == 0 {
        1
    } else {
        ns
    }
}

/// The shown rate, in hundredths of a step per second: seven tenths of the
/// average since the start plus three tenths of the rate since the last
/// draw; the average alone when nothing was done since that draw.
pub open spec fn rate_centi(n: nat, last: nat, elapsed: nat, since_last: nat) -> nat {
    let avg = per_sec_centi(n, elapsed);
    if n <= last {
        avg
    } else {
        (7 * avg + 3 * per_sec_centi((n - last) as nat, since_last)) / 10
    }
}

/// A rate with two decimals.
pub open spec fn rate_str(c: nat) -> Seq<char> {
    dec(c / 100) + seq!['.'] + pad2(c % 100)
}

/// `units` times the done fraction `n / total`, rounded down; the fraction
/// is at most one, and nothing done is zero.
pub open spec fn scaled(units: nat, n: nat, total: nat) -> nat {
    if n == 0 {
        0
    } else if n >= total {
        units
    } else {
        units * n / total
    }
}

/// The percentage shown.
pub open spec fn percent(n: nat, total: nat) -> nat {
    scaled(100, n, total)
}

/// `k` times the character `c`.
pub open spec fn repeat(c: char, k: nat) -> Seq<char> {
    Seq::new(k, |i: int| c)
}

/// `s` right-aligned in three columns.
pub open spec fn right3(s: Seq<char>) -> Seq<char> {
    if s.len() < 3 {
        repeat(' ', (3 - s.len()) as nat) + s
    } else {
        s
    }
}

/// Whole seconds still to go at the average pace so far (`n > 0`), at most
/// `u64::MAX`.
pub open spec fn eta_secs(n: nat, total: nat, elapsed: nat) -> nat {
    if n >= total {
        0
    } else {
        let secs = elapsed * (total - n) as nat / (n * 1_000_000_000);
        if secs > u64::MAX {
            u64::MAX as nat
        } else {
            secs
        }
    }
}

/// The time still to go, or `?` while nothing is done.
pub open spec fn eta_str(n: nat, total: nat, elapsed: nat) -> Seq<char> {
    if n == 0 {
        seq!['?']
    } else {
        time_str(eta_secs(n, total, elapsed))
    }
}

/// The block left of the glyphs: `desc: pct%|`.
pub open spec fn l_bar(c: Config, n: nat, total: nat) -> Seq<char> {
    desc_part(c.desc) + right3(dec(percent(n, total))) + seq!['%', '|']
}

/// The block right of the glyphs: `| n/total [time<eta, rate it/s, postfix]`.
pub open spec fn r_bar(c: Config, n: nat, total: nat, elapsed: nat, rate: nat) -> Seq<char> {
    seq!['|', ' '] + count_str(n, c.unit_scale) + seq!['/'] + count_str(total, c.unit_scale)
        + seq![' ', '['] + time_str(elapsed / 1_000_000_000) + seq!['<'] + eta_str(
        n,
        total,
        elapsed,
    ) + seq![',', ' '] + rate_str(rate) + seq!['i', 't', '/', 's'] + postfix_part(c.postfix)
        + seq![']']
}

proof fn lemma_mul_div_split(u: nat, n: nat, t: nat)
    requires
        t > 0,
    ensures
        u * n / t == (u / t) * n + (u % t) * n / t,
{
    let q = u / t;
    let r = u % t;
    lemma_fundamental_div_mod(u as int, t as int);
    let a = r * n / t;
    let b = r * n % t;
    lemma_fundamental_div_mod((r * n) as int, t as int);
    assert(u * n == (q * n + a) * t + b) by (nonlinear_arith)
        requires
            u == t * q + r,
            r * n == t * a + b,
    ;
    lemma_fundamental_div_mod_converse((u * n) as int, t as int, (q * n + a) as int, b as int);
}

/// `scaled(units, n, total)`, without overflow.
pub fn scaled_of(units: u128, n: u64, total: u64) -> (r: u128)
    requires
        units < 0x1_0000_0000_0000_0000_0000,
    ensures
        r == scaled(units as nat, n as nat, total as nat),
        r <= units,
{
    if n == 0 {
        0
    } else if n >= total {
        units
    } else {
        let t = total as u128;
        let nn = n as u128;
        let q = units / t;
        let r = units % t;
        proof {
            lemma_mul_div_split(units as nat, n as nat, total as nat);
            assert(q * nn <= units) by (nonlinear_arith)
                requires
                    q == units / t,
                    nn < t,
                    t > 0,
            {
                lemma_fundamental_div_mod(units as int, t as int);
            }
            assert(r * nn < t * t) by (nonlinear_arith)
                requires
                    r < t,
                    nn < t,
            ;
            assert(t * t <= 0xFFFF_FFFF_FFFF_FFFF * 0xFFFF_FFFF_FFFF_FFFF) by (nonlinear_arith)
                requires
                    t <= 0xFFFF_FFFF_FFFF_FFFF,
            ;
            let ui = units as int;
            let ni = nn as int;
            let ti = t as int;
            assert(ui * ni <= ui * ti) by (nonlinear_arith)
                requires
                    ni < ti,
                    ui >= 0,
            ;
            lemma_div_is_ordered(ui * ni, ui * ti, ti);
            lemma_div_by_multiple(ui, ti);
        }
        q * nn + r * nn / t
    }
}

/// `per_sec_centi(count, ns)`, without overflow.
fn per_sec_centi_of(count: u64, ns: u64) -> (r: u128)
    ensures
        r == per_sec_centi(count as nat, ns as nat),
        r <= count * 100_000_000_000,
{
    let d: u128 = if ns == 0 {
        1
    } else {
        ns as u128
    };
    let x = count as u128 * 100_000_000_000;
    proof {
        lemma_div_is_ordered_by_denominator(x as int, 1, d as int);
    }
    x / d
}

/// `rate_centi(n, last, elapsed, since_last)`.
pub fn rate_centi_of(n: u64, last: u64, elapsed: u64, since_last: u64) -> (r: u128)
    ensures
        r == rate_centi(n as nat, last as nat, elapsed as nat, since_last as nat),
{
    let avg = per_sec_centi_of(n, elapsed);
    if n <= last {
        avg
    } else {
        let recent = per_sec_centi_of(n - last, since_last);
        (7 * avg + 3 * recent) / 10
    }
}

/// Appends `rate_str(c)`.
fn push_rate(out: &mut Vec<char>, c: u128)
    ensures
        final(out)@ == old(out)@ + rate_str(c as nat),
{
    let ghost start = out@;
    push_dec(out, c / 100);
    out.push('.');
    push_pad2(out, c % 100);
    assert(out@ =~= start + rate_str(c as nat));
}

/// Appends `k` copies of `c`.
pub fn push_repeat(out: &mut Vec<char>, c: char, k: usize)
    ensures
        final(out)@ == old(out)@ + repeat(c, k as nat),
{
    let mut i: usize = 0;
    while i < k
        invariant
            i <= k,
            out@ == old(out)@ + repeat(c, i as nat),
        decreases k - i,
    {
        out.push(c);
        i = i + 1;
        assert(out@ =~= old(out)@ + repeat(c, i as nat));
    }
}

/// Appends `count_str(x, unit_scale)`.
fn push_count(out: &mut Vec<char>, x: u64, unit_scale: bool)
    ensures
        final(out)@ == old(out)@ + count_str(x as nat, unit_scale),
{
    if unit_scale {
        push_sizeof(out, x);
    } else {
        push_dec(out, x as u128);
    }
}

/// Appends `eta_str(n, total, elapsed)`.
fn push_eta(out: &mut Vec<char>, n: u64, total: u64, elapsed: u64)
    ensures
        final(out)@ == old(out)@ + eta_str(n as nat, total as nat, elapsed as nat),
{
    if n == 0 {
        out.push('?');
        assert(out@ =~= old(out)@ + seq!['?']);
    } else if n >= total {
        push_time(out, 0);
    } else {
        let e = elapsed as u128;
        let d = (total - n) as u128;
        assert(e * d <= 0xFFFF_FFFF_FFFF_FFFF * 0xFFFF_FFFF_FFFF_FFFF) by (nonlinear_arith)
            requires
                e <= 0xFFFF_FFFF_FFFF_FFFF,
                d <= 0xFFFF_FFFF_FFFF_FFFF,
        ;
        let num = e * d;
        let den = n as u128 * 1_000_000_000;
        let q = num / den;
        let secs: u64 = if q > u64::MAX as u128 {
            u64::MAX
        } else {
            q as u64
        };
        push_time(out, secs);
    }
}

/// Appends `desc_part(desc)`.
fn push_desc(out: &mut Vec<char>, desc: &Option<String>)
    ensures
        final(out)@ == old(out)@ + desc_part(*desc),
{
    match desc {
        Some(d) => {
            push_str_chars(out, d.as_str());
            out.push(':');
            out.push(' ');
            assert(out@ =~= old(out)@ + desc_part(*desc));
        },
        None => {
            assert(out@ =~= old(out)@ + desc_part(*desc));
        },
    }
}

/// Appends `postfix_part(postfix)`.
fn push_postfix(out: &mut Vec<char>, postfix: &Option<String>)
    ensures
        final(out)@ == old(out)@ + postfix_part(*postfix),
{
    match postfix {
        Some(p) => {
            out.push(',');
            out.push(' ');
            push_str_chars(out, p.as_str());
            assert(out@ =~= old(out)@ + postfix_part(*postfix));
        },
        None => {
            assert(out@ =~= old(out)@ + postfix_part(*postfix));
        },
    }
}

/// The block left of the glyphs.
pub fn l_bar_of(c: &Config, n: u64, total: u64) -> (r: Vec<char>)
    ensures
        r@ == l_bar(*c, n as nat, total as nat),
{
    let mut out: Vec<char> = Vec::new();
    push_desc(&mut out, &c.desc);
    let pct = scaled_of(100, n, total);
    let mut digits: Vec<char> = Vec::new();
    push_dec(&mut digits, pct);
    let ghost ds = digits@;
    if digits.len() < 3 {
        push_repeat(&mut out, ' ', 3 - digits.len());
    }
    out.append(&mut digits);
    out.push('%');
    out.push('|');
    assert(out@ =~= l_bar(*c, n as nat, total as nat));
    out
}

/// The block right of the glyphs; `rate` is in hundredths of a step per second.
pub fn r_bar_of(c: &Config, n: u64, total: u64, elapsed: u64, rate: u128) -> (r: Vec<char>)
    ensures
        r@ == r_bar(*c, n as nat, total as nat, elapsed as nat, rate as nat),
{
    let mut out: Vec<char> = Vec::new();
    out.push('|');
    out.push(' ');
    push_count(&mut out, n, c.unit_scale);
    out.push('/');
    push_count(&mut out, total, c.unit_scale);
    out.push(' ');
    out.push('[');
    push_time(&mut out, elapsed / NANOS_PER_SEC);
    out.push('<');
    push_eta(&mut out, n, total, elapsed);
    out.push(',');
    out.push(' ');
    push_rate(&mut out, rate);
    out.push('i');
    out.push('t');
    out.push('/');
    out.push('s');
    push_postfix(&mut out, &c.postfix);
    out.push(']');
    assert(out@ =~= r_bar(*c, n as nat, total as nat, elapsed as nat, rate as nat));
    out
}

/// The glyphs between the filled and the background glyph; the filled glyph
/// alone where the alphabet has nothing in between.
pub open spec fn partials(g: Seq<char>) -> Seq<char> {
    if g.len() >= 3 {
        g.subrange(1, g.len() - 1)
    } else {
        seq![g[0]]
    }
}

/// The glyph region of `limit` cells: with `m` partial glyphs, the done
/// fraction of `limit * m` gives `k`; `k / m` cells are filled, the next cell
/// shows partial glyph `k % m`, and background glyphs pad the rest.
pub open spec fn glyph_bar(g: Seq<char>, limit: nat, n: nat, total: nat) -> Seq<char> {
    let p = partials(g);
    let m = p.len();
    let k = scaled(limit * m, n, total);
    let full = k / m;
    repeat(g[0], full) + (if full < limit {
        seq![p[(k % m) as int]]
    } else {
        Seq::empty()
    }) + (if full + 1 < limit {
        repeat(g.last(), (limit - full - 1) as nat)
    } else {
        Seq::empty()
    })
}

/// Columns the line may take: the configured width, at most the terminal's.
pub open spec fn eff_width(width: Option<u16>, cols: nat) -> nat {
    match width {
        Some(w) => if (w as nat) < cols {
            w as nat
        } else {
            cols
        },
        None => cols,
    }
}

/// Cells left for the glyphs once both blocks are placed in `w` columns.
pub open spec fn frame_limit(w: nat, l: nat, r: nat) -> nat {
    if w >= l + r {
        (w - l - r) as nat
    } else {
        0
    }
}

/// The line of a bar with a total.
pub open spec fn bounded_line(
    c: Config,
    n: nat,
    total: nat,
    elapsed: nat,
    rate: nat,
    cols: nat,
) -> Seq<char> {
    let l = l_bar(c, n, total);
    let r = r_bar(c, n, total, elapsed, rate);
    let limit = frame_limit(eff_width(c.width, cols), l.len(), r.len());
    l + glyph_bar(c.style.glyphs_spec(), limit, n, total) + r
}

/// The line of a bar without a total: `desc: n it [time, rate it/s, postfix]`,
/// with the count SI-scaled when `unit_scale` is set.
pub open spec fn unbounded_line(c: Config, n: nat, elapsed: nat, rate: nat) -> Seq<char> {
    desc_part(c.desc) + count_str(n, c.unit_scale) + seq!['i', 't', ' ', '['] + time_str(
        elapsed / 1_000_000_000,
    )
        + seq![',', ' '] + rate_str(rate) + seq!['i', 't', '/', 's'] + postfix_part(c.postfix)
        + seq![']']
}

/// The line of a bar with counters `p`, `now` nanoseconds after its start, on
/// a terminal `cols` wide.
pub open spec fn line_spec(
    c: Config,
    total: Option<u64>,
    p: Progress,
    now: u64,
    cols: u16,
) -> Seq<char> {
    let rate = rate_centi(p.n as nat, p.last as nat, now as nat, since(p.prev, now) as nat);
    match total {
        Some(t) => bounded_line(c, p.n as nat, t as nat, now as nat, rate, cols as nat),
        None => unbounded_line(c, p.n as nat, now as nat, rate),
    }
}

/// The done fraction of `units` is at most `units`.
pub proof fn lemma_scaled_bounded(units: nat, n: nat, total: nat)
    ensures
        scaled(units, n, total) <= units,
{
    if n > 0 && n < total {
        assert(units * n <= units * total) by (nonlinear_arith)
            requires
                n < total,
        ;
        lemma_div_is_ordered((units * n) as int, (units * total) as int, total as int);
        lemma_div_by_multiple(units as int, total as int);
    }
}

/// The done fraction never shrinks as more steps are done.
pub proof fn lemma_scaled_monotone(units: nat, n1: nat, n2: nat, total: nat)
    requires
        n1 <= n2,
    ensures
        scaled(units, n1, total) <= scaled(units, n2, total),
{
    lemma_scaled_bounded(units, n1, total);
    if n1 > 0 && n2 < total {
        assert(units * n1 <= units * n2) by (nonlinear_arith)
            requires
                n1 <= n2,
        ;
        lemma_div_is_ordered((units * n1) as int, (units * n2) as int, total as int);
    }
}

/// The percentage shown never drops as the count grows.
pub proof fn lemma_percent_monotone(n1: nat, n2: nat, total: nat)
    requires
        n1 <= n2,
    ensures
        percent(n1, total) <= percent(n2, total),
        percent(n2, total) <= 100,
{
    lemma_scaled_monotone(100, n1, n2, total);
    lemma_scaled_bounded(100, n2, total);
}

/// The glyph region is exactly `limit` cells long.
pub proof fn lemma_glyph_bar_len(g: Seq<char>, limit: nat, n: nat, total: nat)
    requires
        g.len() >= 2,
    ensures
        glyph_bar(g, limit, n, total).len() == limit,
{
    let m = partials(g).len();
    let k = scaled(limit * m, n, total);
    lemma_scaled_bounded(limit * m, n, total);
    lemma_div_is_ordered(k as int, (limit * m) as int, m as int);
    lemma_div_by_multiple(limit as int, m as int);
}

/// Whenever both blocks fit, the line of a bar with a total is exactly as wide
/// as the columns it may take: blocks plus glyph region fill them.
pub proof fn lemma_line_fills_width(
    c: Config,
    n: nat,
    total: nat,
    elapsed: nat,
    rate: nat,
    cols: nat,
)
    requires
        c.style.wf(),
        l_bar(c, n, total).len() + r_bar(c, n, total, elapsed, rate).len() <= eff_width(
            c.width,
            cols,
        ),
    ensures
        bounded_line(c, n, total, elapsed, rate, cols).len() == eff_width(c.width, cols),
{
    let l = l_bar(c, n, total);
    let r = r_bar(c, n, total, elapsed, rate);
    let limit = frame_limit(eff_width(c.width, cols), l.len(), r.len());
    lemma_glyph_bar_len(c.style.glyphs_spec(), limit, n, total);
}

/// The glyph region of `limit` cells.
pub fn glyph_bar_of(g: &Vec<char>, limit: u16, n: u64, total: u64) -> (r: Vec<char>)
    requires
        g@.len() >= 2,
    ensures
        r@ == glyph_bar(g@, limit as nat, n as nat, total as nat),
        r@.len() == limit,
{
    let len = g.len();
    let m: usize = if len >= 3 {
        len - 2
    } else {
        1
    };
    assert(m == partials(g@).len());
    let mm = m as u128;
    let lim = limit as u128;
    assert(lim * mm < 0x1_0000_0000_0000_0000_0000) by (nonlinear_arith)
        requires
            lim <= 0xFFFF,
            mm <= 0xFFFF_FFFF_FFFF_FFFF,
    ;
    let units = lim * mm;
    let k = scaled_of(units, n, total);
    proof {
        lemma_div_is_ordered(k as int, units as int, mm as int);
        lemma_div_by_multiple(lim as int, mm as int);
        vstd::arithmetic::div_mod::lemma_mod_pos_bound(k as int, mm as int);
        lemma_glyph_bar_len(g@, limit as nat, n as nat, total as nat);
    }
    let full = k / mm;
    let idx = (k % mm) as usize;
    let mut out: Vec<char> = Vec::new();
    push_repeat(&mut out, g[0], full as usize);
    let ghost filled = out@;
    if full < lim {
        let c = if len >= 3 {
            g[1 + idx]
        } else {
            g[0]
        };
        assert(c == partials(g@)[idx as int]);
        out.push(c);
    }
    let ghost with_partial = out@;
    if full + 1 < lim {
        push_repeat(&mut out, g[len - 1], (lim - full - 1) as usize);
    }
    proof {
        let p = partials(g@);
        let mid: Seq<char> = if full < lim {
            seq![p[idx as int]]
        } else {
            Seq::empty()
        };
        let tail: Seq<char> = if full + 1 < lim {
            repeat(g@.last(), (lim - full - 1) as nat)
        } else {
            Seq::empty()
        };
        assert(with_partial =~= filled + mid);
        assert(out@ =~= with_partial + tail);
        assert(out@ =~= glyph_bar(g@, limit as nat, n as nat, total as nat));
    }
    out
}

/// The line of a bar (see `line_spec`).
pub fn line_of(c: &Config, total: Option<u64>, p: &Progress, now: u64, cols: u16) -> (r: Vec<
    char,
>)
    requires
        c.style.wf(),
    ensures
        r@ == line_spec(*c, total, *p, now, cols),
{
    let rate = rate_centi_of(p.n, p.last, now, p.since_last(now));
    match total {
        None => {
            let mut out: Vec<char> = Vec::new();
            push_desc(&mut out, &c.desc);
            push_count(&mut out, p.n, c.unit_scale);
            out.push('i');
            out.push('t');
            out.push(' ');
            out.push('[');
            push_time(&mut out, now / NANOS_PER_SEC);
            out.push(',');
            out.push(' ');
            push_rate(&mut out, rate);
            out.push('i');
            out.push('t');
            out.push('/');
            out.push('s');
            push_postfix(&mut out, &c.postfix);
            out.push(']');
            assert(out@ =~= line_spec(*c, total, *p, now, cols));
            out
        },
        Some(t) => {
            let mut l = l_bar_of(c, p.n, t);
            let mut r = r_bar_of(c, p.n, t, now, rate);
            let w: u16 = match c.width {
                Some(w) => if w < cols {
                    w
                } else {
                    cols
                },
                None => cols,
            };
            let limit: u16 = if l.len() <= w as usize && r.len() <= w as usize - l.len() {
                (w as usize - l.len() - r.len()) as u16
            } else {
                0
            };
            let ghost lv = l@;
            let ghost rv = r@;
            let mut bar = glyph_bar_of(&c.style.glyphs(), limit, p.n, t);
            l.append(&mut bar);
            l.append(&mut r);
            assert(l@ =~= lv + glyph_bar(c.style.glyphs_spec(), limit as nat, p.n as nat, t as nat)
                + rv);
            l
        },
    }
}

} // verus!
