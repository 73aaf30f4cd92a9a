//! The rectangular grid on which the samples of a dataset lie, derived from
//! the coordinate axes and dimension sizes of a metadata document.

use vstd::prelude::*;
use crate::error::GatewayError;
use crate::json::{Json, Number};

verus! {

/// The spacing of the cells along one axis.
///
/// The library carries coordinates as they were read and divides nothing: a
/// spacing names the two ends of the axis and the number of intervals between
/// them, and stands for `(minuend - subtrahend) / intervals`.
#[derive(Clone, Copy, Debug, PartialEq, Eq, Structural)]
pub enum Spacing {
    /// The spacing 1, of an axis with a single sample.
    Unit,
    /// The spacing `(minuend - subtrahend) / intervals`.
    Span { minuend: Number, subtrahend: Number, intervals: u16 },
}

/// The grid of a dataset: cell counts, corner coordinates and spacing.
#[derive(Clone, Copy, Debug, PartialEq, Eq, Structural)]
pub struct GridParams {
    /// The number of cells from west to east.
    pub nx: u16,
    /// The number of cells from north to south.
    pub ny: u16,
    /// The first longitude.
    pub lo1: Number,
    /// The first latitude.
    pub la1: Number,
    /// The last longitude.
    pub lo2: Number,
    /// The last latitude.
    pub la2: Number,
    /// The spacing along the longitudes, from the first to the last.
    pub dx: Spacing,
    /// The spacing along the latitudes, from the last to the first.
    pub dy: Spacing,
}

/// The spacing of an axis of `count` cells: the span between its ends over
/// the `count - 1` intervals, or the unit spacing where there is one cell.
pub open spec fn spacing_of(minuend: Number, subtrahend: Number, count: u16) -> Spacing {
    if count > 1 {
        Spacing::Span { minuend, subtrahend, intervals: (count - 1) as u16 }
    } else {
        Spacing::Unit
    }
}

impl GridParams {
    /// Both counts are at least one, and each spacing is the one that its
    /// axis calls for.
    pub open spec fn well_formed(self) -> bool {
        &&& self.nx >= 1
        &&& self.ny >= 1
        &&& self.dx == spacing_of(self.lo2, self.lo1, self.nx)
        &&& self.dy == spacing_of(self.la1, self.la2, self.ny)
    }
}

/// The samples of the coordinate axis `axis`.
pub open spec fn axis_values(metadata: Json, axis: Seq<char>) -> Option<Seq<Json>> {
    match metadata.member2("coordinates"@, axis) {
        Some(values) => values.items(),
        None => None,
    }
}

/// Every one of `values` is a number.
pub open spec fn all_numbers(values: Seq<Json>) -> bool {
    forall|i: int| 0 <= i < values.len() ==> (#[trigger] values[i]).as_number_spec() is Some
}

/// The first and the last sample of the coordinate axis `axis`, where the
/// axis is a non-empty array of numbers.
pub open spec fn axis_ends(metadata: Json, axis: Seq<char>) -> Option<(Number, Number)> {
    match axis_values(metadata, axis) {
        Some(values) => if values.len() > 0 && all_numbers(values) {
            Some((values.first().as_number_spec()->0, values.last().as_number_spec()->0))
        } else {
            None
        },
        None => None,
    }
}

/// The size that the document declares for the dimension `axis`, where it is
/// a count that 16 bits hold and not zero.
pub open spec fn axis_count(metadata: Json, axis: Seq<char>) -> Option<u16> {
    match metadata.member2("dimensions"@, axis) {
        Some(dimension) => match dimension.member("size"@) {
            Some(size) => match size.as_count() {
                Some(n) => if 1 <= n <= 0xffff {
                    Some(n as u16)
                } else {
                    None
                },
                None => None,
            },
            None => None,
        },
        None => None,
    }
}

/// The grid that a metadata document describes, where it holds all that the
/// grid is derived from.
pub open spec fn grid_of(metadata: Json) -> Option<GridParams> {
    match (
        axis_ends(metadata, "latitude"@),
        axis_ends(metadata, "longitude"@),
        axis_count(metadata, "latitude"@),
        axis_count(metadata, "longitude"@),
    ) {
        (Some((la1, la2)), Some((lo1, lo2)), Some(ny), Some(nx)) => Some(
            GridParams {
                nx,
                ny,
                lo1,
                la1,
                lo2,
                la2,
                dx: spacing_of(lo2, lo1, nx),
                dy: spacing_of(la1, la2, ny),
            },
        ),
        _ => None,
    }
}

/// Whether every one of `values` is a number.
pub fn are_all_numbers(values: &Vec<Json>) -> (all: bool)
    ensures
        all == all_numbers(values@),
{
    let mut i: usize = 0;
    while i < values.len()
        invariant
            i <= values.len(),
            forall|k: int| 0 <= k < i ==> (#[trigger] values@[k]).as_number_spec() is Some,
        decreases values.len() - i,
    {
        if values[i].as_number().is_none() {
            return false;
        }
        i += 1;
    }
    true
}

fn axis_ends_of(metadata: &Json, axis: &str) -> (ends: Option<(Number, Number)>)
    ensures
        ends == axis_ends(*metadata, axis@),
{
    let coordinates = match metadata.get("coordinates") {
        Some(c) => c,
        None => {
            return None;
        },
    };
    let values = match coordinates.get(axis) {
        Some(v) => match v.as_array() {
            Some(items) => items,
            None => {
                return None;
            },
        },
        None => {
            return None;
        },
    };
    if values.len() == 0 || !are_all_numbers(values) {
        return None;
    }
    let first = values[0].as_number();
    let last = values[values.len() - 1].as_number();
    match (first, last) {
        (Some(a), Some(b)) => Some((a, b)),
        _ => None,
    }
}

fn axis_count_of(metadata: &Json, axis: &str) -> (count: Option<u16>)
    ensures
        count == axis_count(*metadata, axis@),
{
    let dimensions = match metadata.get("dimensions") {
        Some(d) => d,
        None => {
            return None;
        },
    };
    let size = match dimensions.get(axis) {
        Some(dimension) => match dimension.get("size") {
            Some(size) => size.as_u64(),
            None => None,
        },
        None => None,
    };
    match size {
        Some(n) => if 1 <= n && n <= 0xffff {
            Some(n as u16)
        } else {
            None
        },
        None => None,
    }
}

fn spacing(minuend: Number, subtrahend: Number, count: u16) -> (s: Spacing)
    ensures
        s == spacing_of(minuend, subtrahend, count),
{
    if count > 1 {
        Spacing::Span { minuend, subtrahend, intervals: count - 1 }
    } else {
        Spacing::Unit
    }
}

/// Derives the grid from a metadata document. The document must hold the
/// coordinate axes `latitude` and `longitude`, each a non-empty array of
/// numbers, and for both a dimension size from 1 to 65535; otherwise the grid
/// metadata are missing. The corners are the first
/// and last samples as the document gives them.
pub fn rossby_to_earth_grid(metadata: &Json) -> (grid: Result<GridParams, GatewayError>)
    ensures
        match grid_of(*metadata) {
            Some(g) => grid == Ok::<GridParams, GatewayError>(g) && g.well_formed(),
            None => grid == Err::<GridParams, GatewayError>(GatewayError::MissingGridMetadata),
        },
{
    let latitudes = axis_ends_of(metadata, "latitude");
    let longitudes = axis_ends_of(metadata, "longitude");
    let rows = axis_count_of(metadata, "latitude");
    let columns = axis_count_of(metadata, "longitude");
    match (latitudes, longitudes, rows, columns) {
        (Some((la1, la2)), Some((lo1, lo2)), Some(ny), Some(nx)) => Ok(
            GridParams {
                nx,
                ny,
                lo1,
                la1,
                lo2,
                la2,
                dx: spacing(lo2, lo1, nx),
                dy: spacing(la1, la2, ny),
            },
        ),
        _ => Err(GatewayError::MissingGridMetadata),
    }
}

/// Without either coordinate axis, or without either dimension size, there
/// is no grid.
pub proof fn lemma_grid_needs_axes(metadata: Json)
    ensures
        metadata.member2("coordinates"@, "latitude"@) is None ==> grid_of(metadata) is None,
        metadata.member2("coordinates"@, "longitude"@) is None ==> grid_of(metadata) is None,
        metadata.member2("dimensions"@, "latitude"@) is None ==> grid_of(metadata) is None,
        metadata.member2("dimensions"@, "longitude"@) is None ==> grid_of(metadata) is None,
{
}

/// A coordinate axis that holds anything but numbers gives no grid, wherever
/// on the axis it stands.
pub proof fn lemma_grid_needs_numbers(metadata: Json, axis: Seq<char>, at: int)
    requires
        axis == "latitude"@ || axis == "longitude"@,
        axis_values(metadata, axis) matches Some(values) && 0 <= at < values.len()
            && values[at].as_number_spec() is None,
    ensures
        grid_of(metadata) is None,
{
}

/// Every grid that is derived is well formed: no count is zero, and an axis
/// of one cell has the unit spacing.
pub proof fn lemma_grid_well_formed(metadata: Json)
    ensures
        grid_of(metadata) matches Some(g) ==> g.well_formed() && (g.nx == 1 ==> g.dx
            == Spacing::Unit) && (g.ny == 1 ==> g.dy == Spacing::Unit),
{
}

} // verus!
