use vstd::prelude::*;

verus! {

/// Which value a ray-distance computation returns once the quadratic
/// `quad = k^2 - a*c` of a sphere or cylinder intersection is in hand:
/// the infinite sentinel, the far root `(-k + sqrt(quad)) / a`, or the
/// near root `(-k - sqrt(quad)) / a`.
#[derive(Debug, Clone, Copy, PartialEq, Eq, Structural)]
pub enum QuadricDistance {
    Infinite,
    FarRoot,
    NearRoot,
}

/// The distance policy of a quadric ray intersection, decided from the
/// signs of the quadratic's ingredients.
///
/// Every case resolves to a defined choice, never an error: a negative
/// discriminant misses; a coincident point facing away meets the surface
/// again at infinity, facing inward at the far root; a point inside
/// always exits through the far root; a point outside takes the near
/// root unless that root lies behind the ray.
pub fn resolve_quadric_distance(
    quad_negative: bool,
    coincident: bool,
    k_nonnegative: bool,
    c_negative: bool,
    near_root_negative: bool,
) -> (choice: QuadricDistance)
    ensures
        quad_negative ==> choice == QuadricDistance::Infinite,
        !quad_negative && coincident && k_nonnegative ==> choice == QuadricDistance::Infinite,
        !quad_negative && coincident && !k_nonnegative ==> choice == QuadricDistance::FarRoot,
        !quad_negative && !coincident && c_negative ==> choice == QuadricDistance::FarRoot,
        !quad_negative && !coincident && !c_negative && near_root_negative ==> choice
            == QuadricDistance::Infinite,
        !quad_negative && !coincident && !c_negative && !near_root_negative ==> choice
            == QuadricDistance::NearRoot,
{
    if quad_negative {
        QuadricDistance::Infinite
    } else if coincident {
        if k_nonnegative {
            QuadricDistance::Infinite
        } else {
            QuadricDistance::FarRoot
        }
    } else if c_negative {
        QuadricDistance::FarRoot
    } else {
        if near_root_negative {
            QuadricDistance::Infinite
        } else {
            QuadricDistance::NearRoot
        }
    }
}

/// The positive-side rule shared by every surface's sense test.
///
/// Law: away from the surface (the implicit-equation value at least the
/// coincidence tolerance in magnitude) the sense is the sign of that
/// value alone; only a coincident point falls back to the direction
/// against the outward normal to break the tie.
pub fn resolve_sense(
    coincident: bool,
    evaluate_positive: bool,
    direction_outward: bool,
) -> (positive_side: bool)
    ensures
        coincident ==> positive_side == direction_outward,
        !coincident ==> positive_side == evaluate_positive,
{
    if coincident {
        direction_outward
    } else {
        evaluate_positive
    }
}

} // verus!
