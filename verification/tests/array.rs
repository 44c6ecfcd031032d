use convoluted::array::{Array1D, Array2D};
use convoluted::fixed::{FX_MAX, FX_ONE};

#[test]
fn huge_array_test() {
    let array = Array1D::new(2000000);
    let mut i = 0;
    let mut all_zero = true;
    while i < array.len() {
        if array.get(i) != 0 {
            all_zero = false;
        }
        i += 1;
    }
    assert!(all_zero);
}

#[test]
fn array1d_set_get() {
    let mut a = Array1D::new(3);
    a.set(0, FX_ONE);
    a.set(2, -FX_ONE);
    assert_eq!(a.get(0), FX_ONE);
    assert_eq!(a.get(1), 0);
    assert_eq!(a.get(2), -FX_ONE);
    assert_eq!(a.len(), 3);
}

#[test]
fn array1d_elementwise_ops() {
    let mut a = Array1D::from_vec(vec![FX_ONE, 2 * FX_ONE, -FX_ONE]);
    let b = Array1D::from_vec(vec![FX_ONE / 2, FX_ONE, FX_ONE]);
    a.add_assign(&b);
    assert_eq!(a.get(0), 3 * FX_ONE / 2);
    assert_eq!(a.get(1), 3 * FX_ONE);
    assert_eq!(a.get(2), 0);
    a.mul_assign_scalar(2 * FX_ONE);
    assert_eq!(a.get(0), 3 * FX_ONE);
    assert_eq!(a.get(1), 6 * FX_ONE);
    assert_eq!(a.get(2), 0);
    let mut c = Array1D::from_vec(vec![3 * FX_ONE, FX_ONE]);
    let d = Array1D::from_vec(vec![FX_ONE / 2, -FX_ONE]);
    c.mul_assign(&d);
    assert_eq!(c.get(0), 3 * FX_ONE / 2);
    assert_eq!(c.get(1), -FX_ONE);
    let mut e = Array1D::from_vec(vec![FX_ONE]);
    e.add_assign_scalar(FX_ONE / 4);
    assert_eq!(e.get(0), 5 * FX_ONE / 4);
}

#[test]
fn array1d_saturates() {
    let mut a = Array1D::from_vec(vec![FX_MAX]);
    let b = Array1D::from_vec(vec![FX_ONE]);
    a.add_assign(&b);
    assert_eq!(a.get(0), FX_MAX);
    let mut c = Array1D::from_vec(vec![-FX_MAX]);
    let d = Array1D::from_vec(vec![FX_ONE]);
    c.mul_assign(&d);
    assert_eq!(c.get(0), -FX_MAX);
}

#[test]
fn array2d_shape_and_ops() {
    let mut m = Array2D::new(3, 2);
    assert_eq!(m.rows(), 2);
    assert_eq!(m.row_len(0), 3);
    m.set(2, 1, 7 * FX_ONE);
    assert_eq!(m.get(2, 1), 7 * FX_ONE);
    assert_eq!(m.get(0, 0), 0);

    let mut a = Array2D::from_rows(vec![vec![FX_ONE, 2 * FX_ONE], vec![0, -FX_ONE]]);
    let b = Array2D::from_rows(vec![vec![FX_ONE, FX_ONE], vec![FX_ONE, FX_ONE]]);
    a.add_assign(&b);
    assert_eq!(a.get(0, 0), 2 * FX_ONE);
    assert_eq!(a.get(1, 0), 3 * FX_ONE);
    assert_eq!(a.get(0, 1), FX_ONE);
    assert_eq!(a.get(1, 1), 0);
    a.mul_assign_scalar(FX_ONE / 2);
    assert_eq!(a.get(0, 0), FX_ONE);
    assert_eq!(a.get(1, 0), 3 * FX_ONE / 2);

    let copy = a.duplicate();
    assert_eq!(copy.get(1, 0), 3 * FX_ONE / 2);
}
