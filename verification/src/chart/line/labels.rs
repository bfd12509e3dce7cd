//! Where the labels of an axis stand: at both ends, and evenly in between
//! as densely as the least distance in pixels allows.
use vstd::prelude::*;

use crate::chart::line::data::AxisValue;
use crate::math::interval_image;
use crate::math::map_inverval_value;
use crate::math::saturate_u128;

verus! {

/// A length on the axis of at least one unit.
pub open spec fn at_least_one(length: int) -> u128 {
    if length < 1 {
        1
    } else {
        saturate_u128(length)
    }
}

/// The least and the best distance between two labels, in units of an
/// axis `total` units long that is drawn along `extent` pixels, where
/// labels are to stand at least `min_pixels` apart. The least distance is
/// what `min_pixels` come to on the axis. The best distance divides the
/// axis into as many equal bands as fit along the extent. None where not
/// even one band fits.
pub open spec fn label_spacing(min_pixels: int, extent: int, total: int) -> Option<(u128, u128)> {
    if min_pixels <= 0 || extent < min_pixels {
        None
    } else {
        let bands = extent / min_pixels;
        Some(
            (
                at_least_one(interval_image(min_pixels, 0, extent, 0, total)),
                at_least_one(interval_image(1, 0, bands, 0, total)),
            ),
        )
    }
}

proof fn lemma_band_is_wide_enough(min_pixels: int, extent: int, total: int)
    requires
        0 < min_pixels <= extent,
        0 <= total,
    ensures
        extent / min_pixels >= 1,
        (min_pixels * total) / extent <= (1 * total) / (extent / min_pixels),
{
    let bands = extent / min_pixels;
    vstd::arithmetic::div_mod::lemma_fundamental_div_mod(extent, min_pixels);
    assert(bands >= 1 && min_pixels * bands <= extent) by (nonlinear_arith)
        requires
            extent == min_pixels * bands + extent % min_pixels,
            0 <= extent % min_pixels < min_pixels,
            min_pixels <= extent,
    ;
    let least = (min_pixels * total) / extent;
    vstd::arithmetic::div_mod::lemma_fundamental_div_mod(min_pixels * total, extent);
    assert(least * bands <= total) by (nonlinear_arith)
        requires
            min_pixels * total == extent * least + (min_pixels * total) % extent,
            0 <= (min_pixels * total) % extent,
            min_pixels * bands <= extent,
            0 < min_pixels,
            0 < bands,
            0 <= total,
            0 <= least,
    ;
    assert(0 <= least) by (nonlinear_arith)
        requires
            min_pixels * total == extent * least + (min_pixels * total) % extent,
            (min_pixels * total) % extent < extent,
            0 < extent,
            0 <= min_pixels * total,
    ;
    assert(1 * total == total) by (nonlinear_arith);
    vstd::arithmetic::div_mod::lemma_fundamental_div_mod(total, bands);
    assert(least <= total / bands) by (nonlinear_arith)
        requires
            total == bands * (total / bands) + total % bands,
            0 <= total % bands < bands,
            least * bands <= total,
    ;
}

pub fn spacing(min_pixels: u16, extent: u16, total: u128) -> (distances: Option<(u128, u128)>)
    ensures
        distances == label_spacing(min_pixels as int, extent as int, total as int),
        distances matches Some((least, best)) ==> 0 < least <= best,
{
    if min_pixels == 0 || extent < min_pixels {
        return None;
    }
    proof {
        lemma_band_is_wide_enough(min_pixels as int, extent as int, total as int);
        assert(min_pixels * total >= 0) by (nonlinear_arith)
            requires
                min_pixels >= 0,
                total >= 0,
        ;
    }
    let bands: u16 = extent / min_pixels;
    let least = map_inverval_value(min_pixels as u128, (0, extent as u128), (0, total));
    let best = map_inverval_value(1, (0, bands as u128), (0, total));
    Some((if least < 1 { 1 } else { least }, if best < 1 { 1 } else { best }))
}

/// The values that get a label: the least value, those in between, and the
/// greatest value.
pub open spec fn labels_of<V: AxisValue>(min: V, max: V, distances: Option<(u128, u128)>) -> Seq<V> {
    seq![min] + match distances {
        Some((least, best)) => min.between(&max, least, best),
        None => Seq::empty(),
    } + seq![max]
}

pub fn axis_labels<V: AxisValue>(min: &V, max: &V, distances: Option<(u128, u128)>) -> (labels: Vec<V>)
    requires
        min.position() <= max.position(),
        distances matches Some((least, best)) ==> 0 < least <= best,
    ensures
        labels@ == labels_of(*min, *max, distances),
        labels.len() >= 2,
        labels[0] == *min,
        labels[labels.len() - 1] == *max,
        forall|i: int|
            0 <= i < labels.len() ==> min.position() <= (#[trigger] labels[i]).position()
                <= max.position(),
        forall|i: int, j: int|
            0 < i < j < labels.len() - 1 ==> (#[trigger] labels[i]).position() < (
            #[trigger] labels[j]).position(),
{
    let mut labels: Vec<V> = Vec::new();
    labels.push(*min);
    let ghost inner: Seq<V> = Seq::empty();
    if let Some((least, best)) = distances {
        let mut between = min.get_values_in_between(max, least, best);
        proof {
            inner = between@;
        }
        labels.append(&mut between);
    }
    labels.push(*max);
    proof {
        assert(labels@ =~= seq![*min] + inner + seq![*max]);
        assert forall|i: int| 0 <= i < labels.len() implies min.position() <= (
        #[trigger] labels[i]).position() <= max.position() by {
            if 0 < i < labels.len() - 1 {
                assert(labels[i] == inner[i - 1]);
            }
        }
        assert forall|i: int, j: int| 0 < i < j < labels.len() - 1 implies (
        #[trigger] labels[i]).position() < (#[trigger] labels[j]).position() by {
            assert(labels[i] == inner[i - 1]);
            assert(labels[j] == inner[j - 1]);
        }
    }
    labels
}

} // verus!
