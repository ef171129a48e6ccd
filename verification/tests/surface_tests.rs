//! Tests of the surface tie-break policies, and a sphere ray-distance
//! scenario driven through them.  The floating-point evaluation mirrors
//! the geometry shell: the signs are computed here and the library
//! decides the case.

use teh_o::surface::resolve_quadric_distance;
use teh_o::surface::resolve_sense;
use teh_o::surface::QuadricDistance;

const FP_COINCIDENT: f64 = 1e-12;

#[test]
fn sense_follows_the_sign_away_from_the_surface() {
    // Away from the surface the direction cannot influence the sense.
    assert!(resolve_sense(false, true, false));
    assert!(resolve_sense(false, true, true));
    assert!(!resolve_sense(false, false, false));
    assert!(!resolve_sense(false, false, true));
    // On the surface the outward direction breaks the tie.
    assert!(resolve_sense(true, false, true));
    assert!(!resolve_sense(true, true, false));
}

#[test]
fn quadric_distance_case_table() {
    let inf = QuadricDistance::Infinite;
    let far = QuadricDistance::FarRoot;
    let near = QuadricDistance::NearRoot;
    // A negative discriminant misses whatever else holds.
    assert_eq!(resolve_quadric_distance(true, true, true, true, true), inf);
    assert_eq!(resolve_quadric_distance(true, false, false, false, false), inf);
    // Coincident: the sign of k picks leaving or crossing.
    assert_eq!(resolve_quadric_distance(false, true, true, false, false), inf);
    assert_eq!(resolve_quadric_distance(false, true, false, false, false), far);
    // Inside: always the far root.
    assert_eq!(resolve_quadric_distance(false, false, false, true, false), far);
    // Outside: the near root, unless the surface is behind the ray.
    assert_eq!(resolve_quadric_distance(false, false, false, false, false), near);
    assert_eq!(resolve_quadric_distance(false, false, false, false, true), inf);
}

/// The sphere's ray distance, exactly as the geometry shell computes it:
/// the quadratic's signs go in, the verified policy picks the root.
fn sphere_distance(center: [f64; 3], radius: f64, r: [f64; 3], u: [f64; 3]) -> f64 {
    let norm = (u[0] * u[0] + u[1] * u[1] + u[2] * u[2]).sqrt();
    let u = [u[0] / norm, u[1] / norm, u[2] / norm];
    let x = r[0] - center[0];
    let y = r[1] - center[1];
    let z = r[2] - center[2];
    let k = x * u[0] + y * u[1] + z * u[2];
    let c = x * x + y * y + z * z - radius * radius;
    let quad = k * k - c;
    let far_root = -k + quad.sqrt();
    let near_root = -k - quad.sqrt();
    let choice = resolve_quadric_distance(
        quad < 0.0,
        c.abs() < FP_COINCIDENT,
        k >= 0.0,
        c < 0.0,
        near_root < 0.0,
    );
    match choice {
        QuadricDistance::Infinite => f64::INFINITY,
        QuadricDistance::FarRoot => far_root,
        QuadricDistance::NearRoot => near_root,
    }
}

#[test]
fn sphere_round_trip_along_the_inward_normal() {
    // A ray starting outside a sphere of radius 3 at the origin, aimed
    // along the inward normal, meets the surface at the known distance.
    let radius = 3.0;
    let start = [10.0, 0.0, 0.0];
    let inward = [-1.0, 0.0, 0.0];
    let d = sphere_distance([0.0; 3], radius, start, inward);
    assert_eq!(d, 7.0);

    // From a point inside, the ray exits through the far root: starting
    // at x = 2 and travelling toward -x, the surface at x = -3 lies 5
    // away.
    let d_exit = sphere_distance([0.0; 3], radius, [2.0, 0.0, 0.0], inward);
    assert_eq!(d_exit, 5.0);
}

#[test]
fn sphere_tangent_and_miss_are_infinite() {
    let radius = 3.0;
    // A ray passing beside the sphere misses it.
    let d_miss = sphere_distance([0.0; 3], radius, [10.0, 4.0, 0.0], [-1.0, 0.0, 0.0]);
    assert_eq!(d_miss, f64::INFINITY);
    // A ray moving away from the sphere never meets it.
    let d_behind = sphere_distance([0.0; 3], radius, [10.0, 0.0, 0.0], [1.0, 0.0, 0.0]);
    assert_eq!(d_behind, f64::INFINITY);
    // A tangent ray grazes: the discriminant is zero, the near root is
    // taken and equals the distance to the tangent point.
    let d_tangent = sphere_distance([0.0; 3], radius, [10.0, 3.0, 0.0], [-1.0, 0.0, 0.0]);
    assert_eq!(d_tangent, 10.0);
}
