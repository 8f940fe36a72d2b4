//! What the evaluation of a deformation network reads, and the lengths that it checks.

use crate::deformation::{GridPlane, MlpLayer};
use crate::deformation_errors::{DeformationError, ShapeFault};
use vstd::prelude::*;

verus! {

/// The coordinates that each plane of a level spans, out of three positions and time.
pub fn plane_dims(plane: usize) -> (r: (usize, usize))
    requires
        plane < crate::deformation::PLANE_COUNT,
    ensures
        r.0 < r.1 < 4,
        plane == pair_rank(r.0 as int, r.1 as int),
{
    match plane {
        0 => (0, 1),
        1 => (0, 2),
        2 => (0, 3),
        3 => (1, 2),
        4 => (1, 3),
        _ => (2, 3),
    }
}

/// The place of a pair among the ascending pairs of four coordinates, in lexicographic order.
pub open spec fn pair_rank(u: int, v: int) -> int {
    if u == 0 {
        v - 1
    } else if u == 1 {
        v + 1
    } else {
        5
    }
}

/// The neighbour of a cell along an axis, the border its own neighbour.
pub open spec fn next_cell(cell: int, size: int) -> int {
    if cell + 1 < size {
        cell + 1
    } else {
        size - 1
    }
}

pub open spec fn value_at(plane: GridPlane, channel: int, row: int, column: int) -> u32 {
    plane.data@[channel * (plane.height * plane.width) + row * plane.width + column]
}

impl GridPlane {
    /// The plane has as many values as its dimensions say.
    pub open spec fn shaped(self) -> bool {
        self.data@.len() == self.channels * (self.height * self.width)
    }

    /// The four values around a point of a channel: at the cell `(x, y)`, right of it, below it and
    /// across.
    pub fn corners(&self, channel: usize, x: usize, y: usize) -> (r: [u32; 4])
        requires
            self.shaped(),
            channel < self.channels,
            x < self.width,
            y < self.height,
        ensures
            ({
                let right = next_cell(x as int, self.width as int);
                let below = next_cell(y as int, self.height as int);
                &&& r@[0] == value_at(*self, channel as int, y as int, x as int)
                &&& r@[1] == value_at(*self, channel as int, y as int, right)
                &&& r@[2] == value_at(*self, channel as int, below, x as int)
                &&& r@[3] == value_at(*self, channel as int, below, right)
            }),
    {
        let total: usize = self.data.len();
        let right: usize = if x < self.width - 1 {
            x + 1
        } else {
            self.width - 1
        };
        let below: usize = if y < self.height - 1 {
            y + 1
        } else {
            self.height - 1
        };
        proof {
            let area = self.height * self.width;
            assert(channel * area + area <= self.channels * area) by (nonlinear_arith)
                requires
                    channel < self.channels,
                    area >= 0,
            ;
            assert(0 <= channel * area) by (nonlinear_arith)
                requires
                    area >= 0,
            ;
            assert(y * self.width + self.width <= area) by (nonlinear_arith)
                requires
                    y < self.height,
                    area == self.height * self.width,
            ;
            assert(below * self.width + self.width <= area) by (nonlinear_arith)
                requires
                    below < self.height,
                    area == self.height * self.width,
            ;
        }
        let base: usize = channel * (self.height * self.width);
        let here: usize = y * self.width;
        let under: usize = below * self.width;
        [
            self.data[base + here + x],
            self.data[base + here + right],
            self.data[base + under + x],
            self.data[base + under + right],
        ]
    }
}

impl MlpLayer {
    /// Checks that an input has as many features as the layer takes.
    pub fn check_input(&self, len: usize) -> (r: Result<(), DeformationError>)
        ensures
            r == if len == self.in_features {
                Ok(())
            } else {
                Err::<(), DeformationError>(
                    DeformationError::ShapeMismatch(
                        ShapeFault::LayerInput { found: len, expected: self.in_features },
                    ),
                )
            },
    {
        if len != self.in_features {
            return Err(
                DeformationError::ShapeMismatch(
                    ShapeFault::LayerInput { found: len, expected: self.in_features },
                ),
            );
        }
        Ok(())
    }

    /// The weights that make one output.
    pub fn row(&self, output: usize) -> (r: &[u32])
        requires
            self.weights@.len() == self.in_features * self.out_features,
            output < self.out_features,
        ensures
            r@ == self.weights@.subrange(
                output * self.in_features,
                output * self.in_features + self.in_features,
            ),
    {
        let total: usize = self.weights.len();
        proof {
            assert(output * self.in_features + self.in_features <= self.in_features
                * self.out_features) by (nonlinear_arith)
                requires
                    output < self.out_features,
            ;
        }
        let start: usize = output * self.in_features;
        vstd::slice::slice_subrange(self.weights.as_slice(), start, start + self.in_features)
    }
}

/// Checks that a batch has a tile position and a rotation for every position.
pub fn check_batch_lengths(orig_means: usize, tile_means: usize, orig_quats: usize) -> (r: Result<
    (),
    DeformationError,
>)
    ensures
        r == if orig_means == tile_means && orig_means == orig_quats {
            Ok(())
        } else {
            Err::<(), DeformationError>(
                DeformationError::ShapeMismatch(
                    ShapeFault::BatchLengths { orig_means, tile_means, orig_quats },
                ),
            )
        },
{
    if orig_means != tile_means || orig_means != orig_quats {
        return Err(
            DeformationError::ShapeMismatch(
                ShapeFault::BatchLengths { orig_means, tile_means, orig_quats },
            ),
        );
    }
    Ok(())
}

} // verus!
