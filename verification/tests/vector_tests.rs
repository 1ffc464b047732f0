use lars::common::MathError;
use lars::vector;
use lars::vector::Vector;

#[test]
fn vector_new_fills_with_default() {
    let v = Vector::new(12, 6i64);
    assert_eq!(v.len(), 12);
    for i in 0..12 {
        assert_eq!(v.get(i).unwrap(), 6);
    }
    let empty = Vector::new(0, 1u8);
    assert_eq!(empty.len(), 0);
}

#[test]
fn from_copies_elements() {
    let v = vector::from(&[1i64, 3, 3, 7]);
    assert_eq!(v.len(), 4);
    assert_eq!(v.get(0).unwrap(), 1);
    assert_eq!(v.get(1).unwrap(), 3);
    assert_eq!(v.get(2).unwrap(), 3);
    assert_eq!(v.get(3).unwrap(), 7);
}

#[test]
fn get_out_of_range() {
    let v = vector::from(&[1u8, 2]);
    assert!(matches!(v.get(2), Err(MathError::IndexOutOfRange)));
    assert!(matches!(v.get(100), Err(MathError::IndexOutOfRange)));
}

#[test]
fn set_replaces_one_element() {
    let mut v = Vector::new(3, 0i32);
    v.set(1, 42).unwrap();
    assert_eq!(v.get(0).unwrap(), 0);
    assert_eq!(v.get(1).unwrap(), 42);
    assert_eq!(v.get(2).unwrap(), 0);
}

#[test]
fn set_out_of_range_leaves_vector_unchanged() {
    let mut v = vector::from(&[1i32, 2, 3]);
    assert!(matches!(v.set(3, 9), Err(MathError::IndexOutOfRange)));
    assert!(v.equals(&vector::from(&[1i32, 2, 3])));
}

#[test]
fn add_is_elementwise() {
    // Vector::from([1,2,3]) + Vector::from([10,20,30]) == Vector::from([11,22,33])
    let a = vector::from(&[1i64, 2, 3]);
    let b = vector::from(&[10i64, 20, 30]);
    let s = a.add(&b).unwrap();
    assert!(s.equals(&vector::from(&[11i64, 22, 33])));
    for i in 0..3 {
        assert_eq!(s.get(i).unwrap(), a.get(i).unwrap() + b.get(i).unwrap());
    }
}

#[test]
fn sub_is_elementwise() {
    let a = vector::from(&[10i64, 20, 30]);
    let b = vector::from(&[1i64, 2, 3]);
    let d = a.sub(&b).unwrap();
    assert!(d.equals(&vector::from(&[9i64, 18, 27])));
    for i in 0..3 {
        assert_eq!(d.get(i).unwrap(), a.get(i).unwrap() - b.get(i).unwrap());
    }
}

#[test]
fn mul_is_elementwise() {
    let a = vector::from(&[2i64, 3, 4]);
    let b = vector::from(&[5i64, 6, 7]);
    let p = a.mul(&b).unwrap();
    assert!(p.equals(&vector::from(&[10i64, 18, 28])));
    for i in 0..3 {
        assert_eq!(p.get(i).unwrap(), a.get(i).unwrap() * b.get(i).unwrap());
    }
}

#[test]
fn div_is_elementwise_and_truncates() {
    let a = vector::from(&[9i32, -7, 7, -7]);
    let b = vector::from(&[2i32, 2, -2, -2]);
    let q = a.div(&b).unwrap();
    // native signed division truncates toward zero
    assert!(q.equals(&vector::from(&[4i32, -3, -3, 3])));
    for i in 0..4 {
        assert_eq!(q.get(i).unwrap(), a.get(i).unwrap() / b.get(i).unwrap());
    }
}

#[test]
fn unequal_lengths_fail_with_dimension_mismatch() {
    let a = vector::from(&[1i64, 2]);
    let b = vector::from(&[1i64, 2, 3]);
    assert!(matches!(a.add(&b), Err(MathError::DimensionMismatch)));
    assert!(matches!(a.sub(&b), Err(MathError::DimensionMismatch)));
    assert!(matches!(a.mul(&b), Err(MathError::DimensionMismatch)));
    assert!(matches!(a.div(&b), Err(MathError::DimensionMismatch)));
}

#[test]
fn vector_scalar_broadcasts() {
    let v = vector::from(&[1i64, 2, 3]);
    assert!(v.add_scalar(42).equals(&vector::from(&[43i64, 44, 45])));
    assert!(v.sub_scalar(1).equals(&vector::from(&[0i64, 1, 2])));
    assert!(v.mul_scalar(2).equals(&vector::from(&[2i64, 4, 6])));
}

#[test]
fn scalar_division_divides_element_by_scalar() {
    // the held order is element over scalar: 10/2 and 9/2, not 2/10 and 2/9
    let v = vector::from(&[10i64, 9]);
    let q = v.div_scalar(2);
    assert!(q.equals(&vector::from(&[5i64, 4])));
}

#[test]
fn neg_negates_every_element() {
    let v = vector::from(&[1i64, -2, 0]);
    assert!(v.neg().equals(&vector::from(&[-1i64, 2, 0])));
}

#[test]
fn equality_is_structural() {
    let a = vector::from(&[1u8, 2, 3]);
    let b = vector::from(&[1u8, 2, 3]);
    let c = vector::from(&[1u8, 2, 4]);
    let d = vector::from(&[1u8, 2]);
    assert!(a.equals(&a));
    assert!(a.equals(&b));
    assert!(b.equals(&a));
    assert!(!a.equals(&c));
    assert!(!a.equals(&d));
}

#[test]
fn clone_copies_content() {
    let a = vector::from(&[1u16, 2, 3]);
    let b = a.clone();
    assert!(a.equals(&b));
}

#[test]
fn random_has_requested_length() {
    let v: Vector<u8> = vector::random(12);
    assert_eq!(v.len(), 12);
    let w: Vector<i64> = vector::random(0);
    assert_eq!(w.len(), 0);
    let x: Vector<usize> = vector::random(5);
    assert_eq!(x.len(), 5);
}

#[test]
fn works_for_every_scalar_width() {
    let a = vector::from(&[1u8, 2]).add(&vector::from(&[3u8, 4])).unwrap();
    assert!(a.equals(&vector::from(&[4u8, 6])));
    let b = vector::from(&[1u16, 2]).add(&vector::from(&[3u16, 4])).unwrap();
    assert!(b.equals(&vector::from(&[4u16, 6])));
    let c = vector::from(&[1u32, 2]).add(&vector::from(&[3u32, 4])).unwrap();
    assert!(c.equals(&vector::from(&[4u32, 6])));
    let d = vector::from(&[1u64, 2]).add(&vector::from(&[3u64, 4])).unwrap();
    assert!(d.equals(&vector::from(&[4u64, 6])));
    let e = vector::from(&[1usize, 2]).add(&vector::from(&[3usize, 4])).unwrap();
    assert!(e.equals(&vector::from(&[4usize, 6])));
    let f = vector::from(&[-1i8, 2]).add(&vector::from(&[3i8, -4])).unwrap();
    assert!(f.equals(&vector::from(&[2i8, -2])));
    let g = vector::from(&[-1i16, 2]).add(&vector::from(&[3i16, -4])).unwrap();
    assert!(g.equals(&vector::from(&[2i16, -2])));
    let h = vector::from(&[-1i32, 2]).add(&vector::from(&[3i32, -4])).unwrap();
    assert!(h.equals(&vector::from(&[2i32, -2])));
    let i = vector::from(&[-1i64, 2]).add(&vector::from(&[3i64, -4])).unwrap();
    assert!(i.equals(&vector::from(&[2i64, -2])));
}
