use autograph::error::Error;
use autograph::ops::{AddAssign, Im2ColConv2Options};
use autograph::tensor::Tensor;

#[test]
fn conv_output_shape() {
    let options = Im2ColConv2Options { filter: [5, 5], ..Im2ColConv2Options::default() };
    assert_eq!(options.output_shape([28, 28]), [24, 24]);
    let options = Im2ColConv2Options {
        filter: [3, 3],
        padding: [1, 1],
        stride: [2, 2],
        dilation: [1, 1],
    };
    assert_eq!(options.output_shape([7, 8]), [4, 4]);
    let options = Im2ColConv2Options {
        filter: [3, 2],
        padding: [0, 0],
        stride: [1, 1],
        dilation: [2, 3],
    };
    assert_eq!(options.output_shape([9, 9]), [5, 6]);
}

#[test]
fn conv_default_options() {
    let options = Im2ColConv2Options::default();
    assert_eq!(options.filter, [0, 0]);
    assert_eq!(options.padding, [0, 0]);
    assert_eq!(options.stride, [1, 1]);
    assert_eq!(options.dilation, [1, 1]);
}

#[test]
fn add_assign_adds_elementwise() {
    let mut a = Tensor::from_vec(vec![2, 2], vec![1, 2, 3, 4]).unwrap();
    let b = Tensor::from_vec(vec![2, 2], vec![10, 20, 30, 40]).unwrap();
    assert_eq!(a.add_assign(&b), Ok(()));
    assert_eq!(a.as_slice(), &[11, 22, 33, 44]);
}

#[test]
fn add_assign_rejects_other_shapes() {
    let mut a = Tensor::from_vec(vec![2, 2], vec![1, 2, 3, 4]).unwrap();
    let b = Tensor::from_vec(vec![4], vec![1, 1, 1, 1]).unwrap();
    assert_eq!(a.add_assign(&b), Err(Error::Shape));
    assert_eq!(a.as_slice(), &[1, 2, 3, 4]);
}

#[test]
fn tensor_from_vec_checks_length() {
    assert_eq!(Tensor::from_vec(vec![2, 3], vec![1, 2]).err(), Some(Error::Shape));
    let z = Tensor::zeros(vec![2, 0]).unwrap();
    assert!(z.is_empty());
}
