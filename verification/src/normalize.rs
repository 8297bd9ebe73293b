use vstd::prelude::*;

verus! {

/// `max` is what is kept when `values` are gone through from the front,
/// starting with `lowest` and taking every value of which `exceeds` says
/// that it exceeds what was kept until then.
pub open spec fn is_running_max<S, G: Fn(S, S) -> bool>(
    exceeds: G,
    values: Seq<S>,
    lowest: S,
    max: S,
) -> bool
    decreases values.len(),
{
    if values.len() == 0 {
        max == lowest
    } else {
        exists|kept: S|
            #![trigger is_next_max(exceeds, values.last(), kept, max)]
            is_running_max(exceeds, values.drop_last(), lowest, kept) && is_next_max(
                exceeds,
                values.last(),
                kept,
                max,
            )
    }
}

/// `max` is what is kept after `value` has been held against `kept`.
pub open spec fn is_next_max<S, G: Fn(S, S) -> bool>(exceeds: G, value: S, kept: S, max: S) -> bool {
    ||| call_ensures(exceeds, (value, kept), true) && max == value
    ||| call_ensures(exceeds, (value, kept), false) && max == kept
}

/// Where there are no values, what is kept is `lowest`.
pub proof fn lemma_running_max_of_none<S, G: Fn(S, S) -> bool>(
    exceeds: G,
    values: Seq<S>,
    lowest: S,
    max: S,
)
    requires
        is_running_max(exceeds, values, lowest, max),
        values.len() == 0,
    ensures
        max == lowest,
{
}

/// What was kept before the last of `values` was held against it.
pub proof fn lemma_running_max_step<S, G: Fn(S, S) -> bool>(
    exceeds: G,
    values: Seq<S>,
    lowest: S,
    max: S,
) -> (kept: S)
    requires
        is_running_max(exceeds, values, lowest, max),
        values.len() > 0,
    ensures
        is_running_max(exceeds, values.drop_last(), lowest, kept),
        is_next_max(exceeds, values.last(), kept, max),
{
    choose|kept: S|
        #![trigger is_next_max(exceeds, values.last(), kept, max)]
        is_running_max(exceeds, values.drop_last(), lowest, kept) && is_next_max(
            exceeds,
            values.last(),
            kept,
            max,
        )
}

/// Channel `c` of every value of `values`.
pub open spec fn channel<S>(values: Seq<[S; 3]>, c: int) -> Seq<S> {
    Seq::new(values.len(), |i: int| values[i][c])
}

/// `byte` is what the energy `v` is written as when the largest energy is
/// `m`: 0 where `is_zero` says that `m` is zero, and else a result of
/// `curve`.
pub open spec fn shown<S, Z: Fn(S) -> bool, C: Fn(S, S) -> u8>(
    is_zero: Z,
    curve: C,
    v: S,
    m: S,
    byte: u8,
) -> bool {
    ||| call_ensures(is_zero, (m,), true) && byte == 0
    ||| call_ensures(is_zero, (m,), false) && call_ensures(curve, (v, m), byte)
}

/// `curve` can be called on every energy and on every largest energy of
/// which `is_zero` does not say that it is zero.
pub open spec fn curve_fits<S, Z: Fn(S) -> bool, C: Fn(S, S) -> u8>(is_zero: Z, curve: C) -> bool {
    forall|v: S, m: S| call_ensures(is_zero, (m,), false) ==> call_requires(curve, (v, m))
}

/// Finds the running maximum of `values`: the one pass that has to be
/// over before any energy is written.
pub fn running_max<S: Copy, G: Fn(S, S) -> bool>(values: &Vec<S>, lowest: S, exceeds: G) -> (max: S)
    requires
        forall|a: S, b: S| call_requires(exceeds, (a, b)),
    ensures
        is_running_max(exceeds, values@, lowest, max),
{
    let mut max: S = lowest;
    let mut i: usize = 0;
    assert(values@.take(0).len() == 0);
    while i < values.len()
        invariant
            i <= values@.len(),
            forall|a: S, b: S| call_requires(exceeds, (a, b)),
            is_running_max(exceeds, values@.take(i as int), lowest, max),
        decreases values@.len() - i,
    {
        let ghost kept = max;
        let value: S = values[i];
        if exceeds(value, max) {
            max = value;
        }
        proof {
            let next = values@.take(i + 1);
            assert(next.drop_last() =~= values@.take(i as int));
            assert(next.last() == value);
            assert(is_next_max(exceeds, next.last(), kept, max));
            assert(is_running_max(exceeds, next.drop_last(), lowest, kept));
            assert(is_running_max(exceeds, next, lowest, max));
        }
        i += 1;
    }
    proof {
        assert(values@.take(i as int) =~= values@);
    }
    max
}

/// Finds the running maximum of each of the three channels of `values`.
pub fn running_max_each<S: Copy, G: Fn(S, S) -> bool>(values: &Vec<[S; 3]>, lowest: S, exceeds: G) -> (max:
    [S; 3])
    requires
        forall|a: S, b: S| call_requires(exceeds, (a, b)),
    ensures
        forall|c: int|
            0 <= c < 3 ==> is_running_max(exceeds, channel(values@, c), lowest, #[trigger] max[c]),
{
    let ghost first = channel(values@, 0);
    let ghost second = channel(values@, 1);
    let ghost third = channel(values@, 2);
    let mut m0: S = lowest;
    let mut m1: S = lowest;
    let mut m2: S = lowest;
    let mut i: usize = 0;
    assert(first.take(0).len() == 0 && second.take(0).len() == 0 && third.take(0).len() == 0);
    while i < values.len()
        invariant
            i <= values@.len(),
            first == channel(values@, 0),
            second == channel(values@, 1),
            third == channel(values@, 2),
            forall|a: S, b: S| call_requires(exceeds, (a, b)),
            is_running_max(exceeds, first.take(i as int), lowest, m0),
            is_running_max(exceeds, second.take(i as int), lowest, m1),
            is_running_max(exceeds, third.take(i as int), lowest, m2),
        decreases values@.len() - i,
    {
        let ghost k0 = m0;
        let ghost k1 = m1;
        let ghost k2 = m2;
        let value: [S; 3] = values[i];
        if exceeds(value[0], m0) {
            m0 = value[0];
        }
        if exceeds(value[1], m1) {
            m1 = value[1];
        }
        if exceeds(value[2], m2) {
            m2 = value[2];
        }
        proof {
            assert(first.take(i + 1).drop_last() =~= first.take(i as int));
            assert(second.take(i + 1).drop_last() =~= second.take(i as int));
            assert(third.take(i + 1).drop_last() =~= third.take(i as int));
            assert(is_next_max(exceeds, first.take(i + 1).last(), k0, m0));
            assert(is_next_max(exceeds, second.take(i + 1).last(), k1, m1));
            assert(is_next_max(exceeds, third.take(i + 1).last(), k2, m2));
            assert(is_running_max(exceeds, first.take(i + 1).drop_last(), lowest, k0));
            assert(is_running_max(exceeds, second.take(i + 1).drop_last(), lowest, k1));
            assert(is_running_max(exceeds, third.take(i + 1).drop_last(), lowest, k2));
            assert(is_running_max(exceeds, first.take(i + 1), lowest, m0));
            assert(is_running_max(exceeds, second.take(i + 1), lowest, m1));
            assert(is_running_max(exceeds, third.take(i + 1), lowest, m2));
        }
        i += 1;
    }
    proof {
        assert(first.take(i as int) =~= first);
        assert(second.take(i as int) =~= second);
        assert(third.take(i as int) =~= third);
    }
    [m0, m1, m2]
}

/// Writes one byte per energy, in the order of `values`: 0 for all of
/// them where the largest energy is zero, and else what `curve` gives for
/// the energy and the largest energy.
pub fn write_scalars<S: Copy, Z: Fn(S) -> bool, C: Fn(S, S) -> u8>(
    values: &Vec<S>,
    max: S,
    is_zero: Z,
    curve: C,
) -> (out: Vec<u8>)
    requires
        call_requires(is_zero, (max,)),
        curve_fits(is_zero, curve),
    ensures
        out@.len() == values@.len(),
        forall|i: int|
            0 <= i < out@.len() ==> shown(is_zero, curve, values@[i], max, #[trigger] out@[i]),
{
    let dark: bool = is_zero(max);
    let mut out: Vec<u8> = Vec::new();
    let mut i: usize = 0;
    while i < values.len()
        invariant
            i <= values@.len(),
            out@.len() == i,
            call_ensures(is_zero, (max,), dark),
            curve_fits(is_zero, curve),
            forall|j: int| 0 <= j < i ==> shown(is_zero, curve, values@[j], max, #[trigger] out@[j]),
        decreases values@.len() - i,
    {
        let byte: u8 = if dark {
            0
        } else {
            curve(values[i], max)
        };
        out.push(byte);
        i += 1;
    }
    out
}

/// Writes three bytes per pixel, one per channel in the order of the
/// channels: 0 in a channel whose largest energy is zero, and else what
/// `curve` gives for the energy and the largest energy of that channel.
pub fn write_triples<S: Copy, Z: Fn(S) -> bool, C: Fn(S, S) -> u8>(
    values: &Vec<[S; 3]>,
    max: [S; 3],
    is_zero: Z,
    curve: C,
) -> (out: Vec<u8>)
    requires
        forall|m: S| call_requires(is_zero, (m,)),
        curve_fits(is_zero, curve),
        3 * values@.len() <= usize::MAX,
    ensures
        out@.len() == 3 * values@.len(),
        forall|k: int|
            0 <= k < out@.len() ==> shown(
                is_zero,
                curve,
                values@[k / 3][k % 3],
                max[k % 3],
                #[trigger] out@[k],
            ),
{
    let dark: [bool; 3] = [is_zero(max[0]), is_zero(max[1]), is_zero(max[2])];
    let mut out: Vec<u8> = Vec::new();
    let mut i: usize = 0;
    while i < values.len()
        invariant
            i <= values@.len(),
            out@.len() == 3 * i,
            forall|c: int| 0 <= c < 3 ==> call_ensures(is_zero, (max[c],), #[trigger] dark[c]),
            curve_fits(is_zero, curve),
            forall|k: int|
                0 <= k < 3 * i ==> shown(
                    is_zero,
                    curve,
                    values@[k / 3][k % 3],
                    max[k % 3],
                    #[trigger] out@[k],
                ),
        decreases values@.len() - i,
    {
        let value: [S; 3] = values[i];
        let mut c: usize = 0;
        while c < 3
            invariant
                i < values@.len(),
                c <= 3,
                value == values@[i as int],
                out@.len() == 3 * i + c,
                forall|c: int| 0 <= c < 3 ==> call_ensures(is_zero, (max[c],), #[trigger] dark[c]),
                curve_fits(is_zero, curve),
                forall|k: int|
                    0 <= k < 3 * i + c ==> shown(
                        is_zero,
                        curve,
                        values@[k / 3][k % 3],
                        max[k % 3],
                        #[trigger] out@[k],
                    ),
            decreases 3 - c,
        {
            let byte: u8 = if dark[c] {
                0
            } else {
                curve(value[c], max[c])
            };
            out.push(byte);
            c += 1;
        }
        i += 1;
    }
    out
}

} // verus!
