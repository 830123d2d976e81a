//! Pieces of the status screen: battery levels, their percentage text, decimal
//! numbers and the battery gauge.
//!
//! Texts are ASCII bytes. The gauge is returned as a list of [`Shape`]s in drawing
//! order; the caller renders them (outlines and fills are 1-pixel-stroke and solid
//! rectangles in the "on" colour, texts use the small or the big monospace font with
//! their top-left corner at the given point).
use vstd::prelude::*;

verus! {

/// The battery state of one keyboard half, as far as the screen reads it.
#[derive(Clone, Copy, Debug, PartialEq, Eq, Structural)]
pub enum BatteryStatus {
    /// The battery is monitored; `level` is its charge in percent, when known.
    Available { level: Option<u8> },
    /// No battery information.
    Unavailable,
}

/// One drawing primitive of the status screen.
#[derive(Debug, PartialEq, Eq)]
pub enum Shape {
    /// A rectangle outline with its top-left corner at `(x, y)`.
    Outline { x: i32, y: i32, w: u32, h: u32 },
    /// A filled rectangle with its top-left corner at `(x, y)`.
    Fill { x: i32, y: i32, w: u32, h: u32 },
    /// ASCII text with its top-left corner at `(x, y)`, in the big font or the small one.
    Text { text: Vec<u8>, x: i32, y: i32, big: bool },
}

/// ASCII code of `'0'`.
pub const ASCII_ZERO: u8 = 0x30;

/// ASCII code of `'1'`.
pub const ASCII_ONE: u8 = 0x31;

/// ASCII code of `'-'`.
pub const ASCII_DASH: u8 = 0x2D;

/// ASCII code of `'%'`.
pub const ASCII_PERCENT: u8 = 0x25;

/// ASCII code of `'?'`.
pub const ASCII_QUESTION: u8 = 0x3F;

/// The decimal digits of `n`, most significant first, without leading zeros.
pub open spec fn decimal_digits(n: nat) -> Seq<u8>
    decreases n,
{
    if n < 10 {
        seq![(ASCII_ZERO + n) as u8]
    } else {
        decimal_digits(n / 10).push((ASCII_ZERO + n % 10) as u8)
    }
}

/// The number written by a sequence of ASCII decimal digits.
pub open spec fn decimal_value(s: Seq<u8>) -> nat
    decreases s.len(),
{
    if s.len() == 0 {
        0
    } else {
        decimal_value(s.drop_last()) * 10 + (s.last() - ASCII_ZERO) as nat
    }
}

/// Whether every byte of `s` is an ASCII decimal digit.
pub open spec fn all_digits(s: Seq<u8>) -> bool {
    forall|i: int| 0 <= i < s.len() ==> ASCII_ZERO <= #[trigger] s[i] <= ASCII_ZERO + 9
}

/// A charge level as shown: at most 100.
pub open spec fn shown_level(l: u8) -> nat {
    if l < 100 { l as nat } else { 100 }
}

/// The percentage text of a battery level: `--` when unknown, else the level (capped
/// at 100) and `%`.
pub open spec fn pct_text(level: Option<u8>) -> Seq<u8> {
    match level {
        None => seq![ASCII_DASH, ASCII_DASH],
        Some(l) => decimal_digits(shown_level(l)).push(ASCII_PERCENT),
    }
}

/// Width of the charge bar inside a gauge of width `w`, for charge `l`.
pub open spec fn bar_width(w: int, l: u8) -> int {
    (w - 4) * shown_level(l) / 100
}

/// `a / 2` as Rust computes it on `i32`: rounded toward zero.
pub open spec fn half_toward_zero(a: int) -> int {
    if a >= 0 { a / 2 } else { -((-a) / 2) }
}

/// Whether the gauge of [`battery_icon`] can be computed without overflow.
pub open spec fn icon_fits(x: i32, y: i32, w: u32, h: u32, level: Option<u8>) -> bool {
    &&& i32::MIN <= x + (w as i32) <= i32::MAX
    &&& y + h / 4 <= i32::MAX
    &&& match level {
        Some(l) => {
            &&& w >= 4
            &&& (w - 4) * shown_level(l) <= u32::MAX
            &&& bar_width(w as int, l) > 0 ==> h >= 4 && x + 2 <= i32::MAX && y + 2 <= i32::MAX
        },
        None => {
            &&& x + half_toward_zero((w as i32) as int) <= i32::MAX
            &&& i32::MIN <= x + half_toward_zero((w as i32) as int) - 3
            &&& y + half_toward_zero((h as i32) as int) <= i32::MAX
            &&& i32::MIN <= y + half_toward_zero((h as i32) as int) - 5
        },
    }
}

/// The charge level of a battery, when it is monitored and known.
pub fn battery_level(status: BatteryStatus) -> (level: Option<u8>)
    ensures
        level == match status {
            BatteryStatus::Available { level } => level,
            BatteryStatus::Unavailable => None,
        },
{
    match status {
        BatteryStatus::Available { level: Some(l) } => Some(l),
        _ => None,
    }
}

/// The percentage text of a battery level: `--` when unknown, else `0%` to `100%`
/// (levels above 100 show as `100%`).
pub fn pct_str(level: Option<u8>) -> (s: Vec<u8>)
    ensures
        s@ == pct_text(level),
{
    let mut buf: Vec<u8> = Vec::new();
    match level {
        None => {
            buf.push(ASCII_DASH);
            buf.push(ASCII_DASH);
            proof {
                assert(buf@ == seq![ASCII_DASH, ASCII_DASH]);
            }
        },
        Some(l) => {
            let l = l.min(100);
            assert(l == shown_level(level.unwrap()));
            if l >= 100 {
                buf.push(ASCII_ONE);
                buf.push(ASCII_ZERO);
                buf.push(ASCII_ZERO);
                proof {
                    assert(decimal_digits(1) == seq![ASCII_ONE]);
                    assert(decimal_digits(10) == seq![ASCII_ONE].push(ASCII_ZERO));
                    assert(decimal_digits(100) == decimal_digits(10).push(ASCII_ZERO));
                }
            } else if l >= 10 {
                buf.push(ASCII_ZERO + l / 10);
                buf.push(ASCII_ZERO + l % 10);
                proof {
                    assert(decimal_digits(l as nat) == decimal_digits((l / 10) as nat).push(
                        (ASCII_ZERO + l % 10) as u8,
                    ));
                }
            } else {
                buf.push(ASCII_ZERO + l);
            }
            buf.push(ASCII_PERCENT);
        },
    }
    buf
}

/// `n` in decimal, without leading zeros.
pub fn num_str(n: u16) -> (s: Vec<u8>)
    ensures
        s@ == decimal_digits(n as nat),
{
    let mut buf: Vec<u8> = vec![0u8; 5];
    let ghost whole = n as nat;
    proof {
        lemma_decimal_digits_props(whole);
    }
    let mut n = n;
    let mut i: usize = buf.len();
    loop
        invariant_except_break
            buf@.len() == 5,
            i <= 5,
            n > 0 || i == 5,
            n > 0 ==> decimal_digits(n as nat).len() <= i,
            decimal_digits(whole) == decimal_digits(n as nat) + buf@.subrange(i as int, 5),
        ensures
            buf@.len() == 5,
            i < 5,
            decimal_digits(whole) == buf@.subrange(i as int, 5),
        decreases i,
    {
        proof {
            if n > 0 {
                assert(decimal_digits(n as nat).len() >= 1);
            }
        }
        i -= 1;
        let ghost before = buf@;
        buf.set(i, ASCII_ZERO + (n % 10) as u8);
        proof {
            assert(buf@.subrange(i + 1, 5) == before.subrange(i + 1, 5));
            assert(buf@.subrange(i as int, 5) == seq![buf@[i as int]] + buf@.subrange(i + 1, 5));
        }
        let ghost old_n = n as nat;
        n /= 10;
        if n == 0 {
            proof {
                assert(decimal_digits(old_n) == seq![buf@[i as int]]);
            }
            break;
        }
        proof {
            assert(decimal_digits(old_n) == decimal_digits(n as nat).push(buf@[i as int]));
            assert(decimal_digits(n as nat).push(buf@[i as int]) + buf@.subrange(i + 1, 5)
                == decimal_digits(n as nat) + buf@.subrange(i as int, 5));
        }
    }
    let mut out: Vec<u8> = Vec::new();
    let mut j: usize = i;
    while j < buf.len()
        invariant
            buf@.len() == 5,
            i <= j <= 5,
            out@ == buf@.subrange(i as int, j as int),
        decreases 5 - j,
    {
        out.push(buf[j]);
        proof {
            assert(buf@.subrange(i as int, j + 1) == buf@.subrange(i as int, j as int).push(buf@[j as int]));
        }
        j += 1;
    }
    out
}

/// A battery gauge of size `w` x `h` at `(x, y)`: the outline, the terminal on its
/// right side, and either a charge bar proportional to the level or a `?` when the
/// level is unknown.
pub fn battery_icon(x: i32, y: i32, w: u32, h: u32, level: Option<u8>) -> (shapes: Vec<Shape>)
    requires
        icon_fits(x, y, w, h, level),
    ensures
        shapes@.len() >= 2,
        shapes@[0] matches Shape::Outline { x: ox, y: oy, w: ow, h: oh } && ox == x && oy == y && ow
            == w && oh == h,
        shapes@[1] matches Shape::Fill { x: tx, y: ty, w: tw, h: th } && tx == x + (w as i32) && ty
            == y + h / 4 && tw == 2 && th == h / 2,
        match level {
            Some(l) => if bar_width(w as int, l) > 0 {
                &&& shapes@.len() == 3
                &&& shapes@[2] matches Shape::Fill { x: bx, y: by, w: bw, h: bh } && bx == x + 2 && by
                    == y + 2 && bw == bar_width(w as int, l) && bh == h - 4
            } else {
                shapes@.len() == 2
            },
            None => {
                &&& shapes@.len() == 3
                &&& shapes@[2] matches Shape::Text { text, x: qx, y: qy, big } && text@ == seq![ASCII_QUESTION]
                    && qx == x + half_toward_zero((w as i32) as int) - 3 && qy == y + half_toward_zero(
                    (h as i32) as int) - 5 && !big
            },
        },
{
    let mut shapes: Vec<Shape> = Vec::new();
    shapes.push(Shape::Outline { x, y, w, h });
    shapes.push(Shape::Fill { x: x + w as i32, y: y + (h / 4) as i32, w: 2, h: h / 2 });
    match level {
        Some(l) => {
            let inner = (w - 4) * (l.min(100) as u32) / 100;
            if inner > 0 {
                shapes.push(Shape::Fill { x: x + 2, y: y + 2, w: inner, h: h - 4 });
            }
        },
        None => {
            let mut text: Vec<u8> = Vec::new();
            text.push(ASCII_QUESTION);
            let half_w = (w as i32) / 2;
            let half_h = (h as i32) / 2;
            assert(half_w == half_toward_zero((w as i32) as int));
            assert(half_h == half_toward_zero((h as i32) as int));
            shapes.push(Shape::Text { text, x: x + half_w - 3, y: y + half_h - 5, big: false });
        },
    }
    shapes
}

/// Decimal digits are ASCII digits, without a leading zero, and spell the number;
/// a `u16` takes at most five of them.
pub proof fn lemma_decimal_digits_props(n: nat)
    ensures
        decimal_digits(n).len() >= 1,
        all_digits(decimal_digits(n)),
        n > 0 ==> decimal_digits(n)[0] != ASCII_ZERO,
        decimal_value(decimal_digits(n)) == n,
        n <= u16::MAX ==> decimal_digits(n).len() <= 5,
    decreases n,
{
    let d = decimal_digits(n);
    if n < 10 {
        assert(d.drop_last().len() == 0);
        assert(decimal_value(d.drop_last()) == 0);
    } else {
        lemma_decimal_digits_props(n / 10);
        assert(d.drop_last() == decimal_digits(n / 10));
        assert(decimal_digits(n / 10)[0] == d[0]);
        assert(d.last() == (ASCII_ZERO + n % 10) as u8);
        assert(n == (n / 10) * 10 + n % 10);
        assert(forall|i: int| 0 <= i < d.len() - 1 ==> d[i] == #[trigger] decimal_digits(n / 10)[i]);
        if n <= u16::MAX {
            lemma_four_digits(n / 10);
        }
    }
}

/// Numbers below 100 have at most two decimal digits.
proof fn lemma_two_digits(n: nat)
    requires
        n < 100,
    ensures
        decimal_digits(n).len() <= 2,
{
    if n >= 10 {
        assert(n / 10 < 10);
        assert(decimal_digits(n / 10).len() == 1);
    }
}

/// Numbers below 1 000 have at most three decimal digits.
proof fn lemma_three_digits(n: nat)
    requires
        n < 1000,
    ensures
        decimal_digits(n).len() <= 3,
{
    if n >= 10 {
        lemma_two_digits(n / 10);
    }
}

/// Numbers below 10 000 have at most four decimal digits.
proof fn lemma_four_digits(n: nat)
    requires
        n < 10000,
    ensures
        decimal_digits(n).len() <= 4,
{
    if n >= 10 {
        lemma_three_digits(n / 10);
    }
}

/// The percentage text of a known level `l` is the level capped at 100, in ordinary
/// decimal digits (`0x30` to `0x39`, no leading zero), followed by `%`: one digit
/// below 10, two digits from 10 to 99, `100` from 100 up.
pub proof fn lemma_pct_text_spells_level(l: u8)
    ensures
        ({
            let t = pct_text(Some(l));
            let v: int = if l < 100 { l as int } else { 100 };
            &&& t.last() == 0x25u8
            &&& 2 <= t.len() <= 4
            &&& forall|i: int| 0 <= i < t.len() - 1 ==> 0x30u8 <= #[trigger] t[i] <= 0x39u8
            &&& (t[0] == 0x30u8 ==> v == 0)
            &&& decimal_value(t.drop_last()) == v
            &&& (l < 10 ==> t =~= seq![(0x30 + l) as u8, 0x25u8])
            &&& (10 <= l < 100 ==> t =~= seq![(0x30 + l / 10) as u8, (0x30 + l % 10) as u8, 0x25u8])
            &&& (l >= 100 ==> t =~= seq![0x31u8, 0x30u8, 0x30u8, 0x25u8])
        }),
{
    let v = shown_level(l);
    lemma_decimal_digits_props(v);
    assert(pct_text(Some(l)).drop_last() == decimal_digits(v));
    lemma_three_digits(v);
    let t = pct_text(Some(l));
    assert forall|i: int| 0 <= i < t.len() - 1 implies 0x30u8 <= #[trigger] t[i] <= 0x39u8 by {
        assert(t[i] == decimal_digits(v)[i]);
    }
    if l >= 100 {
        assert(decimal_digits(1) == seq![ASCII_ONE]);
        assert(decimal_digits(10) == seq![ASCII_ONE].push(ASCII_ZERO));
        assert(decimal_digits(100) == decimal_digits(10).push(ASCII_ZERO));
    } else if l >= 10 {
        assert(decimal_digits(v) == decimal_digits(v / 10).push((ASCII_ZERO + v % 10) as u8));
        assert(decimal_digits(v / 10) == seq![(ASCII_ZERO + v / 10) as u8]);
    }
}

/// The charge bar is the inside width `w - 4` scaled by the level (capped at 100) and
/// rounded down: `bar * 100 <= (w - 4) * level < (bar + 1) * 100`. So it stays inside
/// the gauge, is empty at 0 %, fills the whole inside at 100 % and above, and grows
/// with the level.
pub proof fn lemma_bar_width(w: u32, l: u8, m: u8)
    requires
        w >= 4,
    ensures
        ({
            let level: int = if l < 100 { l as int } else { 100 };
            let bar = bar_width(w as int, l);
            bar * 100 <= (w - 4) * level < (bar + 1) * 100
        }),
        0 <= bar_width(w as int, l) <= w - 4,
        l == 0 ==> bar_width(w as int, l) == 0,
        l >= 100 ==> bar_width(w as int, l) == w - 4,
        l <= m ==> bar_width(w as int, l) <= bar_width(w as int, m),
{
    let a = (w - 4) as int;
    let s = shown_level(l) as int;
    let t = shown_level(m) as int;
    assert(0 <= a * s / 100 <= a) by (nonlinear_arith)
        requires
            a >= 0,
            0 <= s <= 100,
    ;
    assert(s <= t ==> a * s / 100 <= a * t / 100) by (nonlinear_arith)
        requires
            a >= 0,
            0 <= s,
    ;
    assert(a * 100 / 100 == a) by (nonlinear_arith);
    assert(a * 0 / 100 == 0) by (nonlinear_arith);
    assert((a * s / 100) * 100 <= a * s < (a * s / 100 + 1) * 100) by (nonlinear_arith)
        requires
            a >= 0,
            s >= 0,
    ;
}

} // verus!
