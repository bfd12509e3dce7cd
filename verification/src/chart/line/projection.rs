//! From places on an axis to pixels, and from pixels to lengths on an
//! axis.
use vstd::prelude::*;

use crate::geometry::saturate_i32;
use crate::geometry::to_coordinate;
use crate::math::interval_image;
use crate::math::lemma_interval_image_endpoints;
use crate::math::lemma_interval_image_monotone;
use crate::math::map_inverval_value;
use crate::math::saturate_u128;

verus! {

/// How many pixels along an extent a value lies that is `distance` units
/// beyond the least value of an axis `total` units long.
pub open spec fn pixel_offset(distance: int, total: int, extent: int) -> int {
    saturate_u128(interval_image(distance, 0, total, 0, extent)) as int
}

/// The pixel column of a value: its offset along the width.
pub open spec fn pixel_column(distance: int, total: int, width: int) -> i32 {
    saturate_i32(pixel_offset(distance, total, width))
}

/// The pixel row of a value: its offset along the height, counted from
/// the bottom, since rows grow downwards and values upwards.
pub open spec fn pixel_row(distance: int, total: int, height: int) -> i32 {
    saturate_i32(height - pixel_offset(distance, total, height))
}

pub fn project(distance: u128, total: u128, extent: u16) -> (offset: u128)
    ensures
        offset == pixel_offset(distance as int, total as int, extent as int),
        total > 0 && distance == 0 ==> offset == 0,
        total > 0 && distance == total ==> offset == extent,
        distance <= total ==> offset <= extent,
{
    proof {
        if total > 0 && distance <= total {
            lemma_interval_image_monotone(distance as int, total as int, 0, total as int, 0, extent as int);
            lemma_interval_image_endpoints(0, total as int, 0, extent as int);
        }
    }
    map_inverval_value(distance, (0, total), (0, extent as u128))
}

pub fn column_of(distance: u128, total: u128, width: u16) -> (x: i32)
    ensures
        x == pixel_column(distance as int, total as int, width as int),
{
    let offset = project(distance, total, width);
    if offset > 2147483647 {
        2147483647
    } else {
        offset as i32
    }
}

pub fn row_of(distance: u128, total: u128, height: u16) -> (y: i32)
    ensures
        y == pixel_row(distance as int, total as int, height as int),
{
    let offset = project(distance, total, height);
    if offset > 0xffff_ffff_ffff {
        -2147483648
    } else {
        to_coordinate(height as i64 - offset as i64)
    }
}

/// The ends of an axis of some length land exactly on the ends of the
/// extent: the least value at offset zero, the greatest at the full
/// extent.
pub proof fn lemma_bounds_land_on_ends(total: int, extent: int)
    requires
        0 < total,
        0 <= extent <= u128::MAX,
    ensures
        pixel_offset(0, total, extent) == 0,
        pixel_offset(total, total, extent) == extent,
{
    lemma_interval_image_endpoints(0, total, 0, extent);
}

/// In pixels: on an axis of some length the least value stands in column
/// zero and in the bottom row, the greatest in the last column and in row
/// zero, whatever the width and the height.
pub proof fn lemma_bounds_land_on_edges(total: int, width: u16, height: u16)
    requires
        0 < total,
    ensures
        pixel_column(0, total, width as int) == 0,
        pixel_column(total, total, width as int) == width,
        pixel_row(0, total, height as int) == height,
        pixel_row(total, total, height as int) == 0,
{
    lemma_bounds_land_on_ends(total, width as int);
    lemma_bounds_land_on_ends(total, height as int);
}

/// A value further along the axis never stands further back in pixels.
pub proof fn lemma_pixel_offset_monotone(nearer: int, further: int, total: int, extent: int)
    requires
        0 <= nearer <= further,
        0 < total,
        0 <= extent,
    ensures
        pixel_offset(nearer, total, extent) <= pixel_offset(further, total, extent),
{
    lemma_interval_image_monotone(nearer, further, 0, total, 0, extent);
}

} // verus!
