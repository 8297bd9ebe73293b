use vstd::prelude::*;
use vstd::arithmetic::div_mod::{lemma_div_multiples_vanish, lemma_multiply_divide_lt};
use crate::energy::{
    channel_energy_of, combined_energy_of, is_combined_output, is_component_output, lemma_energy_bounds,
    lemma_seq_max_is_maximum, linear_byte, linear_byte_of, mapped, raw_channel, raw_combined, seq_max,
    squared_difference, MAX_CHANNEL_ENERGY, MAX_COMBINED_ENERGY,
};
use crate::field::{axis_next, axis_prev, index_of, lemma_index_in_bounds, PixelField};

verus! {

/// Wherever the largest energy is not 0, `curve` shows an energy equal to
/// the largest as 255.
pub open spec fn curve_saturates<F: Fn(u32, u32) -> u8>(curve: F) -> bool {
    forall|m: u32, byte: u8| m > 0 && call_ensures(curve, (m, m), byte) ==> byte == 255
}

/// `curve` applies no curvature: it can only give the byte that is in
/// proportion to the energy.
pub open spec fn curve_is_linear<F: Fn(u32, u32) -> u8>(curve: F) -> bool {
    forall|v: u32, m: u32, byte: u8|
        m > 0 && call_ensures(curve, (v, m), byte) ==> byte == linear_byte_of(v as int, m as int)
}

/// `curve` can give only one byte for an energy and a largest energy.
pub open spec fn curve_is_function<F: Fn(u32, u32) -> u8>(curve: F) -> bool {
    forall|v: u32, m: u32, first: u8, second: u8|
        m > 0 && call_ensures(curve, (v, m), first) && call_ensures(curve, (v, m), second) ==> first
            == second
}

/// The two samples agree in all three colour channels.
pub open spec fn same_colour(a: [u8; 4], b: [u8; 4]) -> bool {
    a[0] == b[0] && a[1] == b[1] && a[2] == b[2]
}

/// Every pixel of `field` has the colour of every other pixel.
pub open spec fn is_uniform(field: &PixelField<[u8; 4]>) -> bool {
    forall|i: int, j: int|
        0 <= i < field@.len() && 0 <= j < field@.len() ==> same_colour(
            #[trigger] field@[i],
            #[trigger] field@[j],
        )
}

/// The four positions that the gradient at the pixel of index `i` is
/// taken between lie inside the buffer.
pub proof fn lemma_stencil_in_bounds(field: &PixelField<[u8; 4]>, i: int)
    requires
        field.wf(),
        0 <= i < field@.len(),
    ensures
        ({
            let w = field.width as int;
            let h = field.height as int;
            &&& 0 < w
            &&& 0 <= i % w < w
            &&& 0 <= i / w < h
            &&& 0 <= index_of(axis_next(i % w, w), i / w, w) < field@.len()
            &&& 0 <= index_of(axis_prev(i % w, w), i / w, w) < field@.len()
            &&& 0 <= index_of(i % w, axis_next(i / w, h), w) < field@.len()
            &&& 0 <= index_of(i % w, axis_prev(i / w, h), w) < field@.len()
        }),
{
    let w = field.width as int;
    let h = field.height as int;
    assert(w > 0) by (nonlinear_arith)
        requires
            0 <= w,
            0 <= i < w * h,
    ;
    lemma_multiply_divide_lt(i, w, h);
    let x = i % w;
    let y = i / w;
    lemma_index_in_bounds(axis_next(x, w), y, w, h);
    lemma_index_in_bounds(axis_prev(x, w), y, w, h);
    lemma_index_in_bounds(x, axis_next(y, h), w, h);
    lemma_index_in_bounds(x, axis_prev(y, h), w, h);
}

/// Where every value of `s` lies between 0 and `bound`, so does its
/// largest.
pub proof fn lemma_seq_max_bounded(s: Seq<int>, bound: int)
    requires
        0 <= bound,
        forall|i: int| 0 <= i < s.len() ==> #[trigger] s[i] <= bound,
    ensures
        0 <= seq_max(s) <= bound,
{
    lemma_seq_max_is_maximum(s);
}

/// No raw energy is negative: in combined mode every raw energy and the
/// largest of them lie between 0 and `MAX_COMBINED_ENERGY`, and in
/// component mode every raw energy of a channel and the largest of the
/// channel lie between 0 and `MAX_CHANNEL_ENERGY`.
pub proof fn lemma_raw_energies_in_range(field: &PixelField<[u8; 4]>)
    ensures
        forall|i: int|
            0 <= i < field@.len() ==> 0 <= #[trigger] raw_combined(field)[i] <= MAX_COMBINED_ENERGY,
        0 <= seq_max(raw_combined(field)) <= MAX_COMBINED_ENERGY,
        forall|i: int, c: int|
            0 <= i < field@.len() && 0 <= c < 3 ==> 0 <= #[trigger] raw_channel(field, c)[i]
                <= MAX_CHANNEL_ENERGY,
        forall|c: int|
            0 <= c < 3 ==> 0 <= #[trigger] seq_max(raw_channel(field, c)) <= MAX_CHANNEL_ENERGY,
{
    assert forall|i: int| 0 <= i < field@.len() implies 0 <= #[trigger] raw_combined(field)[i]
        <= MAX_COMBINED_ENERGY by {
        let s = field.stencil(i);
        lemma_energy_bounds(s.0, s.1, s.2, s.3);
    }
    lemma_seq_max_bounded(raw_combined(field), MAX_COMBINED_ENERGY as int);
    assert forall|i: int, c: int| 0 <= i < field@.len() && 0 <= c < 3 implies 0
        <= #[trigger] raw_channel(field, c)[i] <= MAX_CHANNEL_ENERGY by {
        let s = field.stencil(i);
        lemma_energy_bounds(s.0, s.1, s.2, s.3);
    }
    assert forall|c: int| 0 <= c < 3 implies 0 <= #[trigger] seq_max(raw_channel(field, c))
        <= MAX_CHANNEL_ENERGY by {
        lemma_seq_max_bounded(raw_channel(field, c), MAX_CHANNEL_ENERGY as int);
    }
}

/// Without a curve, an energy that does not exceed the largest is shown
/// as exactly `v * 255 / m` rounded down, which lies between 0 and 255.
pub proof fn lemma_linear_byte_exact(v: int, m: int)
    requires
        0 <= v <= m,
        0 < m,
    ensures
        linear_byte_of(v, m) == v * 255 / m,
        0 <= linear_byte_of(v, m) <= 255,
{
    assert(0 <= v * 255 <= 255 * m) by (nonlinear_arith)
        requires
            0 <= v <= m,
    ;
    lemma_div_multiples_vanish(255, m);
    vstd::arithmetic::div_mod::lemma_div_is_ordered(v * 255, 255 * m, m);
    vstd::arithmetic::div_mod::lemma_div_is_ordered(0, v * 255, m);
    assert(m * 255 == 255 * m) by (nonlinear_arith);
}

/// Without a curve, the largest energy is shown as 255 unless it is 0.
pub proof fn lemma_linear_byte_of_maximum(m: int)
    requires
        0 < m,
    ensures
        linear_byte_of(m, m) == 255,
{
    lemma_div_multiples_vanish(255, m);
    assert(m * 255 == 255 * m) by (nonlinear_arith);
}

/// `linear_byte` shows the largest energy as 255, applies no curvature,
/// and gives one byte only for each pair of arguments.
pub proof fn lemma_linear_byte_is_a_curve()
    ensures
        curve_saturates(linear_byte),
        curve_is_linear(linear_byte),
        curve_is_function(linear_byte),
{
    assert forall|m: u32, byte: u8| m > 0 && call_ensures(linear_byte, (m, m), byte) implies byte
        == 255 by {
        lemma_linear_byte_of_maximum(m as int);
    }
}

/// In combined mode, a pixel whose raw energy is the largest of the image
/// is written as 255, unless that largest energy is 0.
pub proof fn lemma_brightest_pixel_combined<F: Fn(u32, u32) -> u8>(
    field: &PixelField<[u8; 4]>,
    curve: F,
    out: Seq<u8>,
    i: int,
)
    requires
        is_combined_output(field, curve, out),
        curve_saturates(curve),
        0 <= i < out.len(),
        raw_combined(field)[i] == seq_max(raw_combined(field)),
        seq_max(raw_combined(field)) > 0,
    ensures
        out[i] == 255,
{
    lemma_raw_energies_in_range(field);
    assert(mapped(curve, raw_combined(field)[i], seq_max(raw_combined(field)), out[i]));
}

/// In component mode, a byte whose raw energy is the largest of its
/// channel is written as 255, unless that largest energy is 0.
pub proof fn lemma_brightest_pixel_component<F: Fn(u32, u32) -> u8>(
    field: &PixelField<[u8; 4]>,
    curve: F,
    out: Seq<u8>,
    k: int,
)
    requires
        is_component_output(field, curve, out),
        curve_saturates(curve),
        0 <= k < out.len(),
        raw_channel(field, k % 3)[k / 3] == seq_max(raw_channel(field, k % 3)),
        seq_max(raw_channel(field, k % 3)) > 0,
    ensures
        out[k] == 255,
{
    lemma_raw_energies_in_range(field);
    let c = k % 3;
    assert(0 <= seq_max(raw_channel(field, c)) <= MAX_CHANNEL_ENERGY);
    assert(mapped(curve, raw_channel(field, c)[k / 3], seq_max(raw_channel(field, c)), out[k]));
}

/// Where all pixels have the same colour, every raw energy is 0 in both
/// modes, and so is the largest.
pub proof fn lemma_uniform_field_has_no_energy(field: &PixelField<[u8; 4]>)
    requires
        field.wf(),
        is_uniform(field),
    ensures
        forall|i: int| 0 <= i < field@.len() ==> #[trigger] raw_combined(field)[i] == 0,
        seq_max(raw_combined(field)) == 0,
        forall|i: int, c: int|
            0 <= i < field@.len() && 0 <= c < 3 ==> #[trigger] raw_channel(field, c)[i] == 0,
        forall|c: int| 0 <= c < 3 ==> #[trigger] seq_max(raw_channel(field, c)) == 0,
{
    assert forall|i: int| 0 <= i < field@.len() implies #[trigger] raw_combined(field)[i] == 0 by {
        lemma_stencil_in_bounds(field, i);
        let s = field.stencil(i);
        assert(same_colour(s.0, s.1) && same_colour(s.2, s.3));
        assert(squared_difference(s.0, s.1) == 0);
        assert(squared_difference(s.2, s.3) == 0);
        assert(combined_energy_of(s.0, s.1, s.2, s.3) == 0);
    }
    lemma_seq_max_bounded(raw_combined(field), 0);
    assert forall|i: int, c: int| 0 <= i < field@.len() && 0 <= c < 3 implies #[trigger] raw_channel(
        field,
        c,
    )[i] == 0 by {
        lemma_stencil_in_bounds(field, i);
        let s = field.stencil(i);
        assert(same_colour(s.0, s.1) && same_colour(s.2, s.3));
        assert(channel_energy_of(s.0, s.1, s.2, s.3, c) == 0);
    }
    assert forall|c: int| 0 <= c < 3 implies #[trigger] seq_max(raw_channel(field, c)) == 0 by {
        lemma_seq_max_bounded(raw_channel(field, c), 0);
    }
}

/// Where all pixels have the same colour, every byte of the picture is 0,
/// in both modes and under every curve.
pub proof fn lemma_uniform_field_is_black<F: Fn(u32, u32) -> u8>(
    field: &PixelField<[u8; 4]>,
    curve: F,
    out: Seq<u8>,
)
    requires
        field.wf(),
        is_uniform(field),
        is_combined_output(field, curve, out) || is_component_output(field, curve, out),
    ensures
        forall|k: int| 0 <= k < out.len() ==> #[trigger] out[k] == 0,
{
    lemma_uniform_field_has_no_energy(field);
    assert forall|k: int| 0 <= k < out.len() implies #[trigger] out[k] == 0 by {
        if is_combined_output(field, curve, out) {
            assert(mapped(curve, raw_combined(field)[k], seq_max(raw_combined(field)), out[k]));
        } else {
            let c = k % 3;
            assert(seq_max(raw_channel(field, c)) == 0);
            assert(mapped(curve, raw_channel(field, c)[k / 3], seq_max(raw_channel(field, c)), out[k]));
        }
    }
}

/// Without a curve, every byte of the combined-mode picture is exactly
/// the raw energy of its pixel times 255, divided by the largest raw
/// energy and rounded down, and 0 where that largest energy is 0.
pub proof fn lemma_linear_combined_output<F: Fn(u32, u32) -> u8>(
    field: &PixelField<[u8; 4]>,
    curve: F,
    out: Seq<u8>,
)
    requires
        is_combined_output(field, curve, out),
        curve_is_linear(curve),
    ensures
        forall|i: int|
            0 <= i < out.len() ==> #[trigger] out[i] == (if seq_max(raw_combined(field)) == 0 {
                0
            } else {
                raw_combined(field)[i] * 255 / seq_max(raw_combined(field))
            }),
{
    lemma_raw_energies_in_range(field);
    lemma_seq_max_is_maximum(raw_combined(field));
    let m = seq_max(raw_combined(field));
    assert forall|i: int| 0 <= i < out.len() implies #[trigger] out[i] == (if m == 0 {
        0
    } else {
        raw_combined(field)[i] * 255 / m
    }) by {
        assert(mapped(curve, raw_combined(field)[i], m, out[i]));
        if m != 0 {
            lemma_linear_byte_exact(raw_combined(field)[i], m);
        }
    }
}

/// Without a curve, every byte of the component-mode picture is exactly
/// the raw energy of its pixel in its channel times 255, divided by the
/// largest raw energy of that channel and rounded down, and 0 where that
/// largest energy is 0.
pub proof fn lemma_linear_component_output<F: Fn(u32, u32) -> u8>(
    field: &PixelField<[u8; 4]>,
    curve: F,
    out: Seq<u8>,
)
    requires
        is_component_output(field, curve, out),
        curve_is_linear(curve),
    ensures
        forall|k: int|
            0 <= k < out.len() ==> #[trigger] out[k] == (if seq_max(raw_channel(field, k % 3)) == 0 {
                0
            } else {
                raw_channel(field, k % 3)[k / 3] * 255 / seq_max(raw_channel(field, k % 3))
            }),
{
    lemma_raw_energies_in_range(field);
    assert forall|k: int| 0 <= k < out.len() implies #[trigger] out[k] == (if seq_max(
        raw_channel(field, k % 3),
    ) == 0 {
        0
    } else {
        raw_channel(field, k % 3)[k / 3] * 255 / seq_max(raw_channel(field, k % 3))
    }) by {
        let c = k % 3;
        let m = seq_max(raw_channel(field, c));
        lemma_seq_max_is_maximum(raw_channel(field, c));
        assert(0 <= m <= MAX_CHANNEL_ENERGY);
        assert(mapped(curve, raw_channel(field, c)[k / 3], m, out[k]));
        if m != 0 {
            lemma_linear_byte_exact(raw_channel(field, c)[k / 3], m);
        }
    }
}

/// Two pictures of the same image in the same mode under the same curve
/// are the same, byte for byte, provided the curve gives one byte only for
/// each pair of arguments.
pub proof fn lemma_output_is_determined<F: Fn(u32, u32) -> u8>(
    field: &PixelField<[u8; 4]>,
    curve: F,
    first: Seq<u8>,
    second: Seq<u8>,
)
    requires
        curve_is_function(curve),
        (is_combined_output(field, curve, first) && is_combined_output(field, curve, second)) || (
        is_component_output(field, curve, first) && is_component_output(field, curve, second)),
    ensures
        first == second,
{
    lemma_raw_energies_in_range(field);
    assert forall|k: int| 0 <= k < first.len() implies first[k] == second[k] by {
        if is_combined_output(field, curve, first) && is_combined_output(field, curve, second) {
            let m = seq_max(raw_combined(field));
            assert(mapped(curve, raw_combined(field)[k], m, first[k]));
            assert(mapped(curve, raw_combined(field)[k], m, second[k]));
        } else {
            let c = k % 3;
            let m = seq_max(raw_channel(field, c));
            assert(0 <= m <= MAX_CHANNEL_ENERGY);
            assert(mapped(curve, raw_channel(field, c)[k / 3], m, first[k]));
            assert(mapped(curve, raw_channel(field, c)[k / 3], m, second[k]));
        }
    }
    assert(first =~= second);
}

} // verus!
