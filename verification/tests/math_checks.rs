use debug_camera::math::{div_trunc, isqrt, reorthonormalize, signum, Vec3, SCALE};

#[test]
fn div_trunc_truncates_toward_zero() {
    assert_eq!(div_trunc(7, 2), 3);
    assert_eq!(div_trunc(-7, 2), -3);
    assert_eq!(div_trunc(999, 1000), 0);
    assert_eq!(div_trunc(-999, 1000), 0);
    assert_eq!(div_trunc(0, 1000), 0);
}

#[test]
fn signum_values() {
    assert_eq!(signum(42), 1);
    assert_eq!(signum(-42), -1);
    assert_eq!(signum(0), 0);
}

#[test]
fn isqrt_exact_and_floor() {
    assert_eq!(isqrt(0), 0);
    assert_eq!(isqrt(1), 1);
    assert_eq!(isqrt(999_999), 999);
    assert_eq!(isqrt(1_000_000), 1000);
    assert_eq!(isqrt(1_000_001), 1000);
    assert_eq!(isqrt(u64::MAX as u128), 4_294_967_295);
}

#[test]
fn reorthonormalize_axis_aligned_fixed_point() {
    // An exactly orthonormal axis-aligned pair is a fixed point of the
    // correction, including a second application.
    let fwd = Vec3 { x: 0, y: 0, z: -SCALE };
    let up = Vec3 { x: 0, y: SCALE, z: 0 };
    let (f1, u1, r1) = reorthonormalize(&fwd, &up);
    assert_eq!(f1, fwd);
    assert_eq!(u1, up);
    assert_eq!(r1, Vec3 { x: SCALE, y: 0, z: 0 });
    let (f2, u2, r2) = reorthonormalize(&f1, &u1);
    assert_eq!(f2, f1);
    assert_eq!(u2, u1);
    assert_eq!(r2, r1);
}

#[test]
fn reorthonormalize_corrects_drifted_pair() {
    // A slightly drifted pair comes back unit length and perpendicular.
    let fwd = Vec3 { x: 1007, y: 11, z: -3 };
    let up = Vec3 { x: -9, y: 995, z: 13 };
    let (f, u, _r) = reorthonormalize(&fwd, &up);
    let nf = f.x * f.x + f.y * f.y + f.z * f.z;
    let nu = u.x * u.x + u.y * u.y + u.z * u.z;
    let s2 = (SCALE * SCALE) as i64;
    assert!((nf - s2).abs() <= 5000, "forward norm^2 {nf}");
    assert!((nu - s2).abs() <= 5000, "up norm^2 {nu}");
    let d = f.x * u.x + f.y * u.y + f.z * u.z;
    assert!(d.abs() <= 5000, "dot {d}");
}
