//! Packed 32-bit colors with 8-bit channels: red in bits 0-7, green in 8-15,
//! blue in 16-23, alpha in 24-31. Alpha 0 is the canonical "no data" value.

use vstd::prelude::*;

verus! {

/// The canonical fully transparent "no data" color.
pub const TRANSPARENT: u32 = 0;

/// Opaque black, the low reference color of the elevation gradients.
pub const BLACK: u32 = 0xff00_0000;

/// Opaque white, the high reference color of the elevation gradients.
pub const WHITE: u32 = 0xffff_ffff;

pub open spec fn chan_r(c: u32) -> u32 {
    c & 0xff
}

pub open spec fn chan_g(c: u32) -> u32 {
    (c >> 8) & 0xff
}

pub open spec fn chan_b(c: u32) -> u32 {
    (c >> 16) & 0xff
}

pub open spec fn chan_a(c: u32) -> u32 {
    (c >> 24) & 0xff
}

pub open spec fn spec_rgba(r: u8, g: u8, b: u8, a: u8) -> u32 {
    ((a as u32) << 24) | ((b as u32) << 16) | ((g as u32) << 8) | (r as u32)
}

pub open spec fn spec_rgb(r: u8, g: u8, b: u8) -> u32 {
    spec_rgba(r, g, b, 0xff)
}

/// Every channel of a packed color fits in 8 bits.
pub proof fn lemma_chan_bounds(c: u32)
    ensures
        chan_r(c) <= 255,
        chan_g(c) <= 255,
        chan_b(c) <= 255,
        chan_a(c) <= 255,
{
    assert(c & 0xff <= 255 && (c >> 8) & 0xff <= 255 && (c >> 16) & 0xff <= 255 && (c >> 24)
        & 0xff <= 255) by (bit_vector);
}

/// Packing then extracting returns each channel unchanged.
pub proof fn lemma_rgba_channels(r: u8, g: u8, b: u8, a: u8)
    ensures
        chan_r(spec_rgba(r, g, b, a)) == r,
        chan_g(spec_rgba(r, g, b, a)) == g,
        chan_b(spec_rgba(r, g, b, a)) == b,
        chan_a(spec_rgba(r, g, b, a)) == a,
{
    let c = spec_rgba(r, g, b, a);
    assert(c == ((a as u32) << 24) | ((b as u32) << 16) | ((g as u32) << 8) | (r as u32));
    assert((((a as u32) << 24) | ((b as u32) << 16) | ((g as u32) << 8) | (r as u32)) & 0xff == r
        && ((((a as u32) << 24) | ((b as u32) << 16) | ((g as u32) << 8) | (r as u32)) >> 8) & 0xff
        == g && ((((a as u32) << 24) | ((b as u32) << 16) | ((g as u32) << 8) | (r as u32)) >> 16)
        & 0xff == b && ((((a as u32) << 24) | ((b as u32) << 16) | ((g as u32) << 8) | (r as u32))
        >> 24) & 0xff == a) by (bit_vector);
}

/// Extracting the four channels and re-packing them reproduces the color.
pub proof fn lemma_repack(c: u32)
    ensures
        spec_rgba(chan_r(c) as u8, chan_g(c) as u8, chan_b(c) as u8, chan_a(c) as u8) == c,
{
    assert(((((c >> 24) & 0xff) as u8 as u32) << 24) | ((((c >> 16) & 0xff) as u8 as u32) << 16) | (
    (((c >> 8) & 0xff) as u8 as u32) << 8) | ((c & 0xff) as u8 as u32) == c) by (bit_vector);
}

/// Packs three channels into an opaque color.
pub fn rgb(r: u8, g: u8, b: u8) -> (c: u32)
    ensures
        c == spec_rgb(r, g, b),
{
    rgba(r, g, b, 0xff)
}

/// Packs four channels into a color.
pub fn rgba(r: u8, g: u8, b: u8, a: u8) -> (c: u32)
    ensures
        c == spec_rgba(r, g, b, a),
        chan_r(c) == r,
        chan_g(c) == g,
        chan_b(c) == b,
        chan_a(c) == a,
{
    proof {
        lemma_rgba_channels(r, g, b, a);
    }
    ((a as u32) << 24) | ((b as u32) << 16) | ((g as u32) << 8) | (r as u32)
}

/// One channel of "over" compositing: the bottom channel weighted by what the
/// top's alpha leaves over, plus the top channel weighted by the top's alpha,
/// both products formed before the single division.
pub open spec fn spec_blend_component(cb: u32, ct: u32, ratio_top: u32) -> int {
    (cb * (255 - ratio_top) + ct * ratio_top) / 255
}

/// The blended alpha: the bottom alpha weighted by what the top's alpha leaves
/// over, plus the top's alpha itself.
pub open spec fn spec_blend_alpha(ab: u32, ratio_top: u32) -> int {
    ab * (255 - ratio_top) / 255 + ratio_top
}

/// Alpha-blends `top` over `bottom`, channel by channel.
pub open spec fn spec_blend(bottom: u32, top: u32) -> u32 {
    let at = chan_a(top);
    spec_rgba(
        spec_blend_component(chan_r(bottom), chan_r(top), at) as u8,
        spec_blend_component(chan_g(bottom), chan_g(top), at) as u8,
        spec_blend_component(chan_b(bottom), chan_b(top), at) as u8,
        spec_blend_alpha(chan_a(bottom), at) as u8,
    )
}

proof fn lemma_blend_component_bound(cb: u32, ct: u32, ratio_top: u32)
    requires
        cb <= 255,
        ct <= 255,
        ratio_top <= 255,
    ensures
        0 <= spec_blend_component(cb, ct, ratio_top) <= 255,
        0 <= spec_blend_alpha(cb, ratio_top) <= 255,
{
    let rb = 255 - ratio_top;
    let num = cb * rb + ct * ratio_top;
    vstd::arithmetic::mul::lemma_mul_inequality(cb as int, 255, rb as int);
    vstd::arithmetic::mul::lemma_mul_inequality(ct as int, 255, ratio_top as int);
    assert(255 * rb + 255 * ratio_top == 65025) by (nonlinear_arith)
        requires
            rb == 255 - ratio_top,
    ;
    vstd::arithmetic::div_mod::lemma_div_is_ordered(num, 65025, 255);
    vstd::arithmetic::mul::lemma_mul_nonnegative(cb as int, rb as int);
    vstd::arithmetic::mul::lemma_mul_nonnegative(ct as int, ratio_top as int);
    vstd::arithmetic::div_mod::lemma_div_pos_is_pos(num, 255);
    vstd::arithmetic::div_mod::lemma_div_is_ordered(cb * rb, 255 * rb, 255);
    vstd::arithmetic::div_mod::lemma_div_multiples_vanish(rb as int, 255);
    assert(255 * rb == rb * 255) by (nonlinear_arith);
    assert(cb * rb / 255 <= rb);
    vstd::arithmetic::div_mod::lemma_div_pos_is_pos(cb * rb, 255);
}

/// Alpha-blends `top` over `bottom` with standard "over" compositing.
pub fn blend(col_bottom: u32, col_top: u32) -> (c: u32)
    ensures
        c == spec_blend(col_bottom, col_top),
{
    let r_bot = col_bottom & 0xff;
    let g_bot = (col_bottom >> 8) & 0xff;
    let b_bot = (col_bottom >> 16) & 0xff;
    let a_bot = (col_bottom >> 24) & 0xff;
    let r_top = col_top & 0xff;
    let g_top = (col_top >> 8) & 0xff;
    let b_top = (col_top >> 16) & 0xff;
    let ratio_top = (col_top >> 24) & 0xff;
    proof {
        lemma_chan_bounds(col_bottom);
        lemma_chan_bounds(col_top);
        lemma_blend_component_bound(r_bot, r_top, ratio_top);
        lemma_blend_component_bound(g_bot, g_top, ratio_top);
        lemma_blend_component_bound(b_bot, b_top, ratio_top);
        lemma_blend_component_bound(a_bot, 0, ratio_top);
    }
    let ratio_bot = 255 - ratio_top;
    rgba(
        blend_color_component(r_bot, r_top, ratio_top, ratio_bot),
        blend_color_component(g_bot, g_top, ratio_top, ratio_bot),
        blend_color_component(b_bot, b_top, ratio_top, ratio_bot),
        ((a_bot * ratio_bot / 255) + ratio_top) as u8,
    )
}

/// One blended channel, with the two weights already split out.
pub fn blend_color_component(col_bot: u32, col_top: u32, ratio_top: u32, ratio_bot: u32) -> (c: u8)
    requires
        col_bot <= 255,
        col_top <= 255,
        ratio_top <= 255,
        ratio_bot == 255 - ratio_top,
    ensures
        c == spec_blend_component(col_bot, col_top, ratio_top),
{
    proof {
        lemma_blend_component_bound(col_bot, col_top, ratio_top);
    }
    ((col_bot * ratio_bot + col_top * ratio_top) / 255) as u8
}

/// Clamps `v` into the inclusive range `[lo, hi]`.
pub open spec fn spec_clamp(v: int, lo: int, hi: int) -> int
    recommends
        lo <= hi,
{
    if v < lo {
        lo
    } else if v > hi {
        hi
    } else {
        v
    }
}

/// One linearly interpolated channel: the exact weighted average of the two
/// band endpoint channels, products formed before the single division.
pub open spec fn spec_interp_component(cs: u32, cp: u32, val_start: int, val_stop: int, v: int) -> int
    recommends
        val_start <= v <= val_stop,
        val_start < val_stop,
{
    (cs * (val_stop - v) + cp * (v - val_start)) / (val_stop - val_start)
}

/// Piecewise-linear color interpolation over the band `[val_start, val_stop]`,
/// per RGB channel, always opaque. Values outside the band take the nearest
/// endpoint's color.
pub open spec fn spec_interpolate(
    col_start: u32,
    col_stop: u32,
    val_start: i16,
    val_stop: i16,
    val: i16,
) -> u32
    recommends
        val_start < val_stop,
{
    let v = spec_clamp(val as int, val_start as int, val_stop as int);
    spec_rgb(
        spec_interp_component(chan_r(col_start), chan_r(col_stop), val_start as int, val_stop as int, v) as u8,
        spec_interp_component(chan_g(col_start), chan_g(col_stop), val_start as int, val_stop as int, v) as u8,
        spec_interp_component(chan_b(col_start), chan_b(col_stop), val_start as int, val_stop as int, v) as u8,
    )
}

/// The weighted average of two channels stays within the channel range.
proof fn lemma_interp_component_bound(cs: u32, cp: u32, val_start: int, val_stop: int, v: int)
    requires
        cs <= 255,
        cp <= 255,
        val_start <= v <= val_stop,
        val_start < val_stop,
    ensures
        0 <= spec_interp_component(cs, cp, val_start, val_stop, v) <= 255,
{
    let wa = val_stop - v;
    let wb = v - val_start;
    let num = cs * wa + cp * wb;
    vstd::arithmetic::mul::lemma_mul_nonnegative(cs as int, wa);
    vstd::arithmetic::mul::lemma_mul_nonnegative(cp as int, wb);
    vstd::arithmetic::div_mod::lemma_div_pos_is_pos(num, wa + wb);
    vstd::arithmetic::mul::lemma_mul_inequality(cs as int, 255, wa);
    vstd::arithmetic::mul::lemma_mul_inequality(cp as int, 255, wb);
    assert(255 * wa + 255 * wb == 255 * (wa + wb)) by (nonlinear_arith);
    vstd::arithmetic::div_mod::lemma_div_is_ordered(num, 255 * (wa + wb), wa + wb);
    vstd::arithmetic::div_mod::lemma_div_multiples_vanish(255, wa + wb);
    assert((wa + wb) * 255 == 255 * (wa + wb)) by (nonlinear_arith);
}

/// Interpolates between `col_start` at `val_start` and `col_stop` at
/// `val_stop`, clamping `val` into the band first.
pub fn interpolate(col_start: u32, col_stop: u32, val_start: i16, val_stop: i16, val: i16) -> (c:
    u32)
    requires
        val_start < val_stop,
    ensures
        c == spec_interpolate(col_start, col_stop, val_start, val_stop, val),
{
    let r_st = col_start & 0xff;
    let g_st = (col_start >> 8) & 0xff;
    let b_st = (col_start >> 16) & 0xff;
    let r_sp = col_stop & 0xff;
    let g_sp = (col_stop >> 8) & 0xff;
    let b_sp = (col_stop >> 16) & 0xff;
    let v: i16 = if val < val_start {
        val_start
    } else if val > val_stop {
        val_stop
    } else {
        val
    };
    proof {
        lemma_chan_bounds(col_start);
        lemma_chan_bounds(col_stop);
        lemma_interp_component_bound(r_st, r_sp, val_start as int, val_stop as int, v as int);
        lemma_interp_component_bound(g_st, g_sp, val_start as int, val_stop as int, v as int);
        lemma_interp_component_bound(b_st, b_sp, val_start as int, val_stop as int, v as int);
    }
    rgb(
        interpolate_color_component(r_st, r_sp, val_start, val_stop, v),
        interpolate_color_component(g_st, g_sp, val_start, val_stop, v),
        interpolate_color_component(b_st, b_sp, val_start, val_stop, v),
    )
}

/// One interpolated channel; the value must already lie within the band.
fn interpolate_color_component(col_start: u32, col_stop: u32, val_start: i16, val_stop: i16, val: i16) -> (c: u8)
    requires
        col_start <= 255,
        col_stop <= 255,
        val_start <= val <= val_stop,
        val_start < val_stop,
    ensures
        c == spec_interp_component(col_start, col_stop, val_start as int, val_stop as int, val as int),
{
    proof {
        lemma_interp_component_bound(
            col_start,
            col_stop,
            val_start as int,
            val_stop as int,
            val as int,
        );
    }
    let diff_stop: u32 = (val_stop as i32 - val as i32) as u32;
    let diff_start: u32 = (val as i32 - val_start as i32) as u32;
    let val_diff: u32 = (val_stop as i32 - val_start as i32) as u32;
    proof {
        vstd::arithmetic::mul::lemma_mul_upper_bound(col_start as int, 255, diff_stop as int, 65535);
        vstd::arithmetic::mul::lemma_mul_upper_bound(col_stop as int, 255, diff_start as int, 65535);
    }
    ((col_start * diff_stop + col_stop * diff_start) / val_diff) as u8
}

/// Blending a fully transparent top color over any bottom color returns the
/// bottom color exactly.
pub proof fn lemma_blend_transparent_top(bottom: u32, top: u32)
    requires
        chan_a(top) == 0,
    ensures
        spec_blend(bottom, top) == bottom,
{
    lemma_chan_bounds(bottom);
    lemma_chan_bounds(top);
    assert forall|cb: u32, ct: u32|
        cb <= 255 && ct <= 255 implies #[trigger] spec_blend_component(cb, ct, 0) == cb by {
        vstd::arithmetic::div_mod::lemma_div_multiples_vanish(cb as int, 255);
        assert(cb * 255 == 255 * cb) by (nonlinear_arith);
        assert(ct * 0 == 0) by (nonlinear_arith);
        assert(spec_blend_component(cb, ct, 0) == (cb * 255 + 0) / 255);
    }
    assert(spec_blend_component(chan_r(bottom), chan_r(top), 0) == chan_r(bottom));
    assert(spec_blend_component(chan_g(bottom), chan_g(top), 0) == chan_g(bottom));
    assert(spec_blend_component(chan_b(bottom), chan_b(top), 0) == chan_b(bottom));
    assert(spec_blend_alpha(chan_a(bottom), 0) == chan_a(bottom)) by {
        vstd::arithmetic::div_mod::lemma_div_multiples_vanish(chan_a(bottom) as int, 255);
        assert(chan_a(bottom) * 255 == 255 * chan_a(bottom)) by (nonlinear_arith);
    }
    lemma_repack(bottom);
}

/// Blending a fully opaque top color over any bottom color returns the top
/// color exactly.
pub proof fn lemma_blend_opaque_top(bottom: u32, top: u32)
    requires
        chan_a(top) == 255,
    ensures
        spec_blend(bottom, top) == top,
{
    lemma_chan_bounds(bottom);
    lemma_chan_bounds(top);
    assert forall|cb: u32, ct: u32|
        cb <= 255 && ct <= 255 implies #[trigger] spec_blend_component(cb, ct, 255) == ct by {
        vstd::arithmetic::div_mod::lemma_div_multiples_vanish(ct as int, 255);
        assert(ct * 255 == 255 * ct) by (nonlinear_arith);
        assert(cb * 0 == 0) by (nonlinear_arith);
        assert(spec_blend_component(cb, ct, 255) == (0 + ct * 255) / 255);
    }
    assert(spec_blend_alpha(chan_a(bottom), 255) == 255) by {
        assert(chan_a(bottom) * 0 == 0) by (nonlinear_arith);
    }
    lemma_repack(top);
}

} // verus!
