use chroma::geometry::{classify_point, plane_distance, point_in_front, PlaneSide};
use chroma::wire::{fixed_from_float_bits, read_i16, read_i32, read_u16, read_u32, FIXED_ONE};
use chroma::{MPlaneT, PlaneType, Vec3T};

#[test]
fn little_endian_reads() {
    let b = vec![0x34u8, 0x12, 0xFF, 0xFF, 0x78, 0x56, 0x34, 0x12];
    assert_eq!(read_u16(&b, 0), 0x1234);
    assert_eq!(read_i16(&b, 2), -1);
    assert_eq!(read_u32(&b, 4), 0x1234_5678);
    assert_eq!(read_i32(&b, 0), -0xEDCC);
}

#[test]
fn floats_become_fixed_point() {
    assert_eq!(fixed_from_float_bits(1.0f32.to_bits()), Some(65536));
    assert_eq!(fixed_from_float_bits((-0.5f32).to_bits()), Some(-32768));
    assert_eq!(fixed_from_float_bits(0.0f32.to_bits()), Some(0));
    assert_eq!(fixed_from_float_bits(0.1f32.to_bits()), Some(6553));
    assert_eq!(fixed_from_float_bits((-0.1f32).to_bits()), Some(-6553));
    assert_eq!(fixed_from_float_bits(4096.25f32.to_bits()), Some(4096 * 65536 + 16384));
    assert_eq!(fixed_from_float_bits(1e-30f32.to_bits()), Some(0));
}

#[test]
fn floats_out_of_range_are_refused() {
    assert_eq!(fixed_from_float_bits(f32::INFINITY.to_bits()), None);
    assert_eq!(fixed_from_float_bits(f32::NAN.to_bits()), None);
    assert_eq!(fixed_from_float_bits(16777216.0f32.to_bits()), None);
    assert_eq!(fixed_from_float_bits(8388608.0f32.to_bits()), Some(8388608 * 65536));
}

fn unit(v: i64) -> i64 {
    v * FIXED_ONE
}

#[test]
fn axial_plane_distance_and_tie_break() {
    let pl = MPlaneT { normal: Vec3T::new(unit(1), 0, 0), dist: unit(2), kind: PlaneType::X };
    assert_eq!(plane_distance(&pl, &Vec3T::new(unit(3), unit(9), 0)), unit(1) * FIXED_ONE);
    assert!(point_in_front(&pl, &Vec3T::new(unit(2), 0, 0)));
    assert!(point_in_front(&pl, &Vec3T::new(unit(2), 0, 0)));
    assert!(!point_in_front(&pl, &Vec3T::new(unit(2) - 1, 0, 0)));
}

#[test]
fn general_plane_uses_the_dot_product() {
    let pl = MPlaneT { normal: Vec3T::new(0, unit(1) / 2, unit(1) / 2), dist: 0, kind: PlaneType::AnyZ };
    let p = Vec3T::new(unit(5), unit(2), -unit(4));
    assert_eq!(plane_distance(&pl, &p), (unit(1) / 2) * unit(2) - (unit(1) / 2) * unit(4));
    assert!(!point_in_front(&pl, &p));
}

#[test]
fn classification_with_tolerance() {
    let pl = MPlaneT { normal: Vec3T::new(0, 0, unit(1)), dist: 0, kind: PlaneType::Z };
    assert_eq!(classify_point(&pl, &Vec3T::new(0, 0, unit(1))), PlaneSide::Front);
    assert_eq!(classify_point(&pl, &Vec3T::new(0, 0, -unit(1))), PlaneSide::Back);
    assert_eq!(classify_point(&pl, &Vec3T::new(0, 0, unit(1) / 20)), PlaneSide::On);
    assert_eq!(classify_point(&pl, &Vec3T::new(0, 0, -unit(1) / 20)), PlaneSide::On);
}
