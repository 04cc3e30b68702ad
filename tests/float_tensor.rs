use autograph::error::{DeviceError, Error};
use autograph::float::{FloatBuffer, FloatCowBuffer, FloatElem, FloatType};
use autograph::float_tensor::{FloatArcTensor, FloatTensor};
use autograph::scalar::Device;

fn bytes(n: usize) -> Vec<u8> {
    (0..n).map(|i| i as u8).collect()
}

fn tensor_2x3() -> FloatTensor {
    let buffer = FloatBuffer::from_bytes(FloatType::F32, Device::Host, bytes(24)).unwrap();
    FloatTensor::from_buffer(buffer).into_shape(vec![2, 3]).unwrap()
}

#[test]
fn to_slice_borrows_standard_layout() {
    let t = tensor_2x3();
    assert_eq!(t.strides(), &[3, 1]);
    match t.to_slice().unwrap() {
        FloatCowBuffer::Borrowed(s) => assert_eq!(s.as_bytes(), bytes(24).as_slice()),
        FloatCowBuffer::Owned(_) => panic!("a standard-layout tensor is borrowed"),
    }
}

#[test]
fn to_slice_copies_other_layouts() {
    let t = tensor_2x3().reversed_axes();
    assert_eq!(t.shape(), &[3, 2]);
    assert_eq!(t.strides(), &[1, 3]);
    let expected: Vec<u8> = [0usize, 3, 1, 4, 2, 5]
        .iter()
        .flat_map(|e| (4 * e..4 * e + 4).map(|b| b as u8))
        .collect();
    match t.to_slice().unwrap() {
        FloatCowBuffer::Owned(b) => assert_eq!(b.into_bytes(), expected),
        FloatCowBuffer::Borrowed(_) => panic!("a transposed tensor is copied"),
    }
}

#[test]
fn into_shape_round_trip() {
    let t = tensor_2x3();
    let r = t.into_shape(vec![3, 2]).unwrap();
    assert_eq!(r.strides(), &[2, 1]);
    let back = r.into_shape(vec![2, 3]).unwrap();
    assert_eq!(back.shape(), &[2, 3]);
    assert_eq!(back.strides(), &[3, 1]);
    assert_eq!(back.as_raw_slice().as_bytes(), bytes(24).as_slice());
}

#[test]
fn into_shape_rejects_other_sizes_and_layouts() {
    assert_eq!(tensor_2x3().into_shape(vec![4, 2]).err(), Some(Error::Shape));
    let t = tensor_2x3().reversed_axes();
    assert_eq!(t.into_shape(vec![6]).err(), Some(Error::Shape));
}

#[test]
fn reversed_axes_twice_is_identity() {
    let t = tensor_2x3().reversed_axes().reversed_axes();
    assert_eq!(t.shape(), &[2, 3]);
    assert_eq!(t.strides(), &[3, 1]);
    assert_eq!(t.as_raw_slice().as_bytes(), bytes(24).as_slice());
}

#[test]
fn transpose_view_keeps_data() {
    let t = tensor_2x3();
    let v = t.t();
    assert_eq!(v.shape(), &[3, 2]);
    assert_eq!(v.strides(), &[1, 3]);
    assert_eq!(v.as_raw_slice().as_bytes(), bytes(24).as_slice());
}

#[test]
fn into_owned_twice_is_once() {
    let once = tensor_2x3().view().into_owned().unwrap();
    let twice = tensor_2x3().view().into_owned().unwrap().into_owned().unwrap();
    assert_eq!(once.shape(), twice.shape());
    assert_eq!(once.strides(), twice.strides());
    assert_eq!(once.as_raw_slice().as_bytes(), twice.as_raw_slice().as_bytes());
}

#[test]
fn shared_buffer_with_two_holders_stays_shared() {
    let shared: FloatArcTensor = tensor_2x3().into_shared().unwrap();
    let other = shared.clone();
    let back = match shared.try_into_buffer() {
        Ok(_) => panic!("a buffer with two holders cannot be taken"),
        Err(t) => t,
    };
    assert_eq!(back.shape(), &[2, 3]);
    assert_eq!(back.len(), 6);
    assert_eq!(back.as_raw_slice().as_bytes(), bytes(24).as_slice());
    drop(other);
    let buffer = back.try_into_buffer().ok().unwrap();
    assert_eq!(buffer.into_bytes(), bytes(24));
}

#[test]
fn owned_tensor_gives_up_its_buffer() {
    let buffer = tensor_2x3().try_into_buffer().ok().unwrap();
    assert_eq!(buffer.len(), 6);
    assert!(tensor_2x3().view().try_into_buffer().is_err());
}

#[test]
fn into_device_twice_is_once() {
    let d = Device::Accelerator(1);
    let once = tensor_2x3().into_device(d).unwrap();
    assert_eq!(once.device(), d);
    let twice = tensor_2x3().into_device(d).unwrap().into_device(d).unwrap();
    assert_eq!(twice.device(), d);
    assert_eq!(once.as_raw_slice().as_bytes(), twice.as_raw_slice().as_bytes());
    assert_eq!(twice.as_raw_slice().as_bytes(), bytes(24).as_slice());
    assert_eq!(tensor_2x3().device(), Device::Host);
}

#[test]
fn zeros_and_from_elem() {
    let z = FloatTensor::zeros(FloatType::BF16, Device::Host, vec![2, 2]).unwrap();
    assert_eq!(z.len(), 4);
    assert_eq!(z.as_raw_slice().as_bytes(), &[0u8; 8]);
    assert_eq!(z.strides(), &[2, 1]);
    let e = FloatTensor::from_elem(Device::Host, vec![3], FloatElem::F32(0x3f80_0000)).unwrap();
    assert_eq!(
        e.as_raw_slice().as_bytes(),
        &[0, 0, 0x80, 0x3f, 0, 0, 0x80, 0x3f, 0, 0, 0x80, 0x3f]
    );
    let empty = FloatTensor::zeros(FloatType::F64, Device::Host, vec![0, 5]).unwrap();
    assert!(empty.is_empty());
    assert_eq!(empty.strides(), &[0, 0]);
}

#[test]
fn too_large_tensor_is_a_device_error() {
    let r = FloatTensor::zeros(FloatType::F64, Device::Host, vec![usize::MAX / 2, 3]);
    assert_eq!(r.err(), Some(Error::Device(DeviceError::AllocationTooLarge)));
    let r = FloatTensor::alloc_uninit(FloatType::F16, Device::Host, vec![usize::MAX / 2]);
    assert_eq!(r.err(), Some(Error::Device(DeviceError::AllocationTooLarge)));
}

#[test]
fn typed_bytes_check_the_tag() {
    let t = tensor_2x3();
    assert_eq!(t.as_typed_bytes(FloatType::F32).unwrap(), bytes(24).as_slice());
    assert_eq!(t.as_typed_bytes(FloatType::F16).err(), Some(Error::TypeMismatch));
}

#[test]
fn into_dimensionality_checks_axes() {
    assert_eq!(tensor_2x3().into_dimensionality(2).unwrap().ndim(), 2);
    assert_eq!(tensor_2x3().into_dimensionality(3).err().is_some(), true);
}

#[test]
fn view_mut_writes_through() {
    let mut t = tensor_2x3();
    {
        let mut v = t.view_mut();
        let mut s = v.as_raw_slice_mut();
        s.write_byte(0, 200);
    }
    assert_eq!(t.as_raw_slice().as_bytes()[0], 200);
}

#[test]
fn buffer_rejects_partial_elements() {
    let r = FloatBuffer::from_bytes(FloatType::F32, Device::Host, bytes(6));
    assert_eq!(r.err(), Some(Error::Shape));
}

#[test]
fn exclusive_borrow_of_shared_tensor() {
    let mut shared: FloatArcTensor = tensor_2x3().into_shared().unwrap();
    {
        let borrowed = shared.as_arc_mut();
        assert_eq!(borrowed.shape(), &[2, 3]);
        assert_eq!(borrowed.as_raw_slice().as_bytes(), bytes(24).as_slice());
        assert!(borrowed.try_into_buffer().is_err());
    }
    assert_eq!(shared.len(), 6);
}

#[test]
fn into_dyn_keeps_everything() {
    let t = tensor_2x3().into_dyn();
    assert_eq!(t.shape(), &[2, 3]);
    assert_eq!(t.strides(), &[3, 1]);
}

#[test]
fn to_slice_of_transposed_square_is_row_major() {
    let buffer = FloatBuffer::from_bytes(FloatType::F16, Device::Host, bytes(8)).unwrap();
    let t = FloatTensor::from_buffer(buffer).into_shape(vec![2, 2]).unwrap().reversed_axes();
    match t.to_slice().unwrap() {
        FloatCowBuffer::Owned(b) => assert_eq!(b.into_bytes(), vec![0, 1, 4, 5, 2, 3, 6, 7]),
        FloatCowBuffer::Borrowed(_) => panic!("a transposed tensor is copied"),
    }
}

#[test]
fn exclusive_borrow_writes_to_shared_tensor() {
    let mut shared: FloatArcTensor = tensor_2x3().into_shared().unwrap();
    let other = shared.clone();
    {
        let mut borrowed = shared.as_arc_mut();
        let mut view = borrowed.view_mut();
        let mut s = view.as_raw_slice_mut();
        s.write_byte(1, 99);
    }
    assert_eq!(shared.as_raw_slice().as_bytes()[1], 99);
    assert_eq!(other.as_raw_slice().as_bytes()[1], 1);
}
