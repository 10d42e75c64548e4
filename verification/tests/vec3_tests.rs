use turtlers::vec3::Vec3;

#[test]
fn test_addassign() {
    let mut lhs: Vec3 = Vec3::from_array([1, 2, 3]);
    let rhs: Vec3 = Vec3::from_array([4, 5, 6]);
    lhs.add_assign(&rhs);
    assert_eq!(lhs.0, 5);
}

#[test]
fn test_subassign() {
    let mut lhs: Vec3 = Vec3::from_array([1, 2, 3]);
    let rhs: Vec3 = Vec3::from_array([4, 5, 6]);
    lhs.sub_assign(&rhs);
    assert_eq!(lhs, Vec3(-3, -3, -3));
}

#[test]
fn test_subref() {
    let lhs = Vec3(1, 2, 3);
    assert_eq!(Vec3::zero(), lhs.sub(&lhs));
    let rhs = Vec3(2, 4, 6);

    let result = lhs.sub(&rhs);
    assert_eq!(Vec3(-1, -2, -3), result);
}

#[test]
fn test_addref() {
    let lhs = Vec3(1, 2, 3);
    let rhs = Vec3(2, 3, 4);

    let result = lhs.add(&rhs);
    assert_eq!(Vec3(3, 5, 7), result);
}

#[test]
fn test_absum() {
    let vec = Vec3(-1, 3, -9);
    let sum = vec.abs_sum();
    assert_eq!(13, sum);
}

#[test]
fn dot_of_unit_vectors() {
    let x = Vec3(1, 0, 0);
    let d = Vec3(4, -7, 2);
    assert_eq!(4, d.dot(&x));
    assert_eq!(-7, d.dot(&Vec3(0, 1, 0)));
    assert_eq!(13, d.manhattan_u64());
}

#[test]
fn neg_flips_components() {
    assert_eq!(Vec3(-1, 2, -3), Vec3(1, -2, 3).neg());
}
