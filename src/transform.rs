use vstd::prelude::*;

use crate::input::Input;

verus! {

/// The mapping from the logical canvas onto a screen, letterboxed: a uniform
/// scale `scale_num / scale_den` and margins `x_offset2 / (2 * scale_den)` and
/// `y_offset2 / (2 * scale_den)` that center the canvas on the screen.
/// A logical coordinate `x` lands on `x * scale + offset`.
#[derive(Clone, Copy, Debug, PartialEq, Eq, Structural)]
pub struct ScreenFit {
    pub scale_num: u64,
    pub scale_den: u64,
    pub x_offset2: u64,
    pub y_offset2: u64,
}

/// The fit of a `cw` by `ch` canvas on a `sw` by `sh` screen: the scale is the
/// smaller of `sw / cw` and `sh / ch`, and the unused margin is split evenly.
pub open spec fn screen_fit_spec(cw: int, ch: int, sw: int, sh: int) -> ScreenFit {
    if cw * sh > ch * sw {
        ScreenFit {
            scale_num: sw as u64,
            scale_den: cw as u64,
            x_offset2: 0,
            y_offset2: (sh * cw - ch * sw) as u64,
        }
    } else {
        ScreenFit {
            scale_num: sh as u64,
            scale_den: ch as u64,
            x_offset2: (sw * ch - cw * sh) as u64,
            y_offset2: 0,
        }
    }
}

pub fn screen_fit(canvas_width: u32, canvas_height: u32, screen_width: u32, screen_height: u32) -> (r:
    ScreenFit)
    requires
        canvas_width > 0,
        canvas_height > 0,
    ensures
        r == screen_fit_spec(
            canvas_width as int,
            canvas_height as int,
            screen_width as int,
            screen_height as int,
        ),
        r.scale_den > 0,
        screen_width > 0 && screen_height > 0 ==> r.scale_num > 0,
{
    let cw = canvas_width as u64;
    let ch = canvas_height as u64;
    let sw = screen_width as u64;
    let sh = screen_height as u64;
    proof {
        assert(cw * sh <= u32::MAX * u32::MAX) by (nonlinear_arith)
            requires
                cw <= u32::MAX,
                sh <= u32::MAX,
        ;
        assert(ch * sw <= u32::MAX * u32::MAX) by (nonlinear_arith)
            requires
                ch <= u32::MAX,
                sw <= u32::MAX,
        ;
    }
    if cw * sh > ch * sw {
        ScreenFit { scale_num: sw, scale_den: cw, x_offset2: 0, y_offset2: sh * cw - ch * sw }
    } else {
        ScreenFit { scale_num: sh, scale_den: ch, x_offset2: sw * ch - cw * sh, y_offset2: 0 }
    }
}

/// The screen coordinate of the logical coordinate `xn / xd`, as a fraction
/// (numerator, denominator), along an axis with margin `offset2 / (2 * den)`.
pub open spec fn to_screen(xn: int, xd: int, num: int, den: int, offset2: int) -> (int, int) {
    (2 * num * xn + offset2 * xd, 2 * den * xd)
}

/// The logical coordinate of the screen coordinate `dn / dd`: the inverse of `to_screen`.
pub open spec fn to_canvas(dn: int, dd: int, num: int, den: int, offset2: int) -> (int, int) {
    (2 * den * dn - offset2 * dd, 2 * num * dd)
}

/// The margin term of `fit` on the horizontal or the vertical axis.
pub open spec fn axis_offset(fit: ScreenFit, horizontal: bool) -> int {
    if horizontal {
        fit.x_offset2 as int
    } else {
        fit.y_offset2 as int
    }
}

/// Mapping a logical coordinate to the screen and back gives the same number:
/// the two fractions are equal, on either axis of any fit with a positive scale.
pub proof fn lemma_fit_round_trip(fit: ScreenFit, xn: int, xd: int, horizontal: bool)
    requires
        fit.scale_num > 0,
        fit.scale_den > 0,
        xd > 0,
    ensures
        ({
            let off = axis_offset(fit, horizontal);
            let d = to_screen(xn, xd, fit.scale_num as int, fit.scale_den as int, off);
            let l = to_canvas(d.0, d.1, fit.scale_num as int, fit.scale_den as int, off);
            l.1 > 0 && l.0 * xd == xn * l.1
        }),
{
    let num = fit.scale_num as int;
    let den = fit.scale_den as int;
    let off = if horizontal {
        fit.x_offset2 as int
    } else {
        fit.y_offset2 as int
    };
    let d = to_screen(xn, xd, num, den, off);
    let l = to_canvas(d.0, d.1, num, den, off);
    assert(l.0 == 4 * den * num * xn) by (nonlinear_arith)
        requires
            d.0 == 2 * num * xn + off * xd,
            d.1 == 2 * den * xd,
            l.0 == 2 * den * d.0 - off * d.1,
    ;
    assert(l.1 == 4 * num * den * xd) by (nonlinear_arith)
        requires
            d.1 == 2 * den * xd,
            l.1 == 2 * num * d.1,
    ;
    assert(l.1 > 0) by (nonlinear_arith)
        requires
            l.1 == 4 * num * den * xd,
            num > 0,
            den > 0,
            xd > 0,
    ;
    assert(l.0 * xd == xn * l.1) by (nonlinear_arith)
        requires
            l.0 == 4 * den * num * xn,
            l.1 == 4 * num * den * xd,
    ;
}

/// For any screen of positive size, mapping a logical coordinate onto the
/// screen with the fit that `screen_fit` computes, and back with the inverse
/// mapping, gives the coordinate again, exactly.
pub proof fn lemma_screen_fit_round_trip(
    cw: u32,
    ch: u32,
    sw: u32,
    sh: u32,
    xn: int,
    xd: int,
    horizontal: bool,
)
    requires
        cw > 0,
        ch > 0,
        sw > 0,
        sh > 0,
        xd > 0,
    ensures
        ({
            let fit = screen_fit_spec(cw as int, ch as int, sw as int, sh as int);
            let off = axis_offset(fit, horizontal);
            let d = to_screen(xn, xd, fit.scale_num as int, fit.scale_den as int, off);
            let l = to_canvas(d.0, d.1, fit.scale_num as int, fit.scale_den as int, off);
            l.1 > 0 && l.0 * xd == xn * l.1
        }),
{
    let fit = screen_fit_spec(cw as int, ch as int, sw as int, sh as int);
    assert(fit.scale_num > 0 && fit.scale_den > 0);
    lemma_fit_round_trip(fit, xn, xd, horizontal);
}

/// The screen coordinate, in tenths of a pixel and rounded down, of the logical
/// coordinate `l` (in tenths) along an axis with margin `offset2 / (2 * den)`.
pub open spec fn screen_tenths(l: int, num: int, den: int, offset2: int) -> int {
    (2 * num * l + 10 * offset2) / (2 * den)
}

/// Mapping a logical coordinate (in tenths) onto the screen, rounding down to
/// a tenth of a pixel, and back as `fit_input_to_screen` does comes back to
/// the coordinate when the screen position is a whole tenth, and otherwise
/// short of it by less than `den / num + 1` tenths: one tenth of a pixel
/// spans `den / num` tenths of a logical unit.
pub proof fn lemma_input_round_trip(fit: ScreenFit, l: int, horizontal: bool)
    requires
        fit.scale_num > 0,
        fit.scale_den > 0,
    ensures
        ({
            let num = fit.scale_num as int;
            let den = fit.scale_den as int;
            let off = axis_offset(fit, horizontal);
            let d = screen_tenths(l, num, den, off);
            let r = canvas_tenths(d, num, den, off);
            &&& r <= l
            &&& num * (l - r) < den + num
            &&& (2 * num * l + 10 * off) % (2 * den) == 0 ==> r == l
        }),
{
    let num = fit.scale_num as int;
    let den = fit.scale_den as int;
    let off = axis_offset(fit, horizontal);
    let n = 2 * num * l + 10 * off;
    let d = screen_tenths(l, num, den, off);
    let m = (2 * den) * d - 10 * off;
    let r = canvas_tenths(d, num, den, off);
    vstd::arithmetic::div_mod::lemma_fundamental_div_mod(n, 2 * den);
    assert(d == n / (2 * den));
    let q = n % (2 * den);
    assert(0 <= q < 2 * den);
    assert(n == (2 * den) * d + q);
    assert(m == 2 * num * l - q);
    assert(r == m / (2 * num));
    vstd::arithmetic::div_mod::lemma_fundamental_div_mod(m, 2 * num);
    let t = m % (2 * num);
    assert(0 <= t < 2 * num);
    assert(m == (2 * num) * r + t);
    assert(r <= l) by (nonlinear_arith)
        requires
            m == (2 * num) * r + t,
            m == 2 * num * l - q,
            0 <= t,
            0 <= q,
            num > 0,
    ;
    assert(num * (l - r) < den + num) by (nonlinear_arith)
        requires
            m == (2 * num) * r + t,
            m == 2 * num * l - q,
            t < 2 * num,
            q < 2 * den,
    ;
    if q == 0 {
        assert(m == l * (2 * num) + 0) by (nonlinear_arith)
            requires
                m == 2 * num * l - q,
                q == 0,
        ;
        vstd::arithmetic::div_mod::lemma_fundamental_div_mod_converse(m, 2 * num, l, 0);
    }
}

/// `x` limited to the range of `i64`.
pub open spec fn clamp_i64(x: int) -> i64 {
    if x < i64::MIN {
        i64::MIN
    } else if x > i64::MAX {
        i64::MAX
    } else {
        x as i64
    }
}

/// The logical coordinate, in tenths and rounded down, of the screen coordinate
/// `d10` (in tenths of a pixel) along an axis with margin `offset2 / (2 * den)`.
pub open spec fn canvas_tenths(d10: int, num: int, den: int, offset2: int) -> int {
    ((2 * den) * d10 - 10 * offset2) / (2 * num)
}

/// `n / d` rounded down.
pub(crate) fn floor_div(n: i128, d: i128) -> (r: i128)
    requires
        0 < d <= 0x10_0000_0000_0000_0000_0000_0000,
        -0x10_0000_0000_0000_0000_0000_0000 <= n <= 0x10_0000_0000_0000_0000_0000_0000,
    ensures
        r == n / d,
{
    if n >= 0 {
        n / d
    } else {
        let m: i128 = (-n + d - 1) / d;
        proof {
            let nn = n as int;
            let dd = d as int;
            let mm = m as int;
            let k = (-nn + dd - 1) % dd;
            vstd::arithmetic::div_mod::lemma_fundamental_div_mod(-nn + dd - 1, dd);
            assert(nn == (-mm) * dd + (dd - 1 - k)) by (nonlinear_arith)
                requires
                    -nn + dd - 1 == dd * mm + k,
            ;
            vstd::arithmetic::div_mod::lemma_fundamental_div_mod_converse(nn, dd, -mm, dd - 1 - k);
        }
        -m
    }
}

fn unfit_coordinate(d10: i64, num: u64, den: u64, offset2: u64) -> (r: i64)
    requires
        num > 0,
        den <= u32::MAX,
        offset2 <= u64::MAX,
    ensures
        r == clamp_i64(canvas_tenths(d10 as int, num as int, den as int, offset2 as int)),
{
    proof {
        let b: int = 0x1_0000_0000_0000_0000_0000_0000;
        assert(-b <= (2 * den as int) * (d10 as int) <= b) by (nonlinear_arith)
            requires
                0 <= 2 * den <= 0x2_0000_0000int,
                -0x8000_0000_0000_0000int <= d10 <= 0x8000_0000_0000_0000int,
                b == 0x2_0000_0000int * 0x8000_0000_0000_0000int,
        ;
    }
    let n: i128 = (2 * den as i128) * (d10 as i128) - 10 * (offset2 as i128);
    let q = floor_div(n, 2 * (num as i128));
    if q < i64::MIN as i128 {
        i64::MIN
    } else if q > i64::MAX as i128 {
        i64::MAX
    } else {
        q as i64
    }
}

/// Maps the pointer position of `input` from the screen onto the logical
/// canvas: on entry it is in tenths of a screen pixel, on exit in tenths of a
/// logical unit (rounded down). The rest of the input is left as it is.
pub fn fit_input_to_screen(
    input: &mut Input,
    canvas_width: u32,
    canvas_height: u32,
    screen_width: u32,
    screen_height: u32,
)
    requires
        canvas_width > 0,
        canvas_height > 0,
        screen_width > 0,
        screen_height > 0,
    ensures
        ({
            let fit = screen_fit_spec(
                canvas_width as int,
                canvas_height as int,
                screen_width as int,
                screen_height as int,
            );
            *final(input) == Input {
                mouse_pos: (
                    clamp_i64(
                        canvas_tenths(
                            old(input).mouse_pos.0 as int,
                            fit.scale_num as int,
                            fit.scale_den as int,
                            fit.x_offset2 as int,
                        ),
                    ),
                    clamp_i64(
                        canvas_tenths(
                            old(input).mouse_pos.1 as int,
                            fit.scale_num as int,
                            fit.scale_den as int,
                            fit.y_offset2 as int,
                        ),
                    ),
                ),
                ..*old(input)
            }
        }),
{
    let fit = screen_fit(canvas_width, canvas_height, screen_width, screen_height);
    let x = unfit_coordinate(input.mouse_pos.0, fit.scale_num, fit.scale_den, fit.x_offset2);
    let y = unfit_coordinate(input.mouse_pos.1, fit.scale_num, fit.scale_den, fit.y_offset2);
    input.mouse_pos = (x, y);
}

/// Whether `point` lies in the rectangle `[x, y, w, h]` (left and top edges included).
pub open spec fn contains_point(rect: [i64; 4], point: (i64, i64)) -> bool {
    &&& rect[0] <= point.0 < rect[0] + rect[2]
    &&& rect[1] <= point.1 < rect[1] + rect[3]
}

pub fn check_contain(rect: [i64; 4], point: (i64, i64)) -> (r: bool)
    ensures
        r == contains_point(rect, point),
{
    let (p_x, p_y) = point;
    let r_x = rect[0] as i128;
    let r_y = rect[1] as i128;
    let r_w = rect[2] as i128;
    let r_h = rect[3] as i128;
    r_x <= p_x as i128 && (p_x as i128) < r_x + r_w && r_y <= p_y as i128 && (p_y as i128) < r_y
        + r_h
}

} // verus!
