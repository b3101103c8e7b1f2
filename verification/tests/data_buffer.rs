//! Tests of the storage primitive: construction, metadata, sharing, and
//! host readback.

use shanan_cv::data::{DataBuffer, DataBufferError};

#[test]
fn test_from_slice_roundtrip() {
    let data: Vec<u32> = (0..24).collect();
    let buf = DataBuffer::<u32>::from_slice(&data, &[2, 3, 4]).unwrap();
    assert_eq!(buf.shape().to_vec(), vec![2, 3, 4]);
    assert_eq!(buf.strides().to_vec(), vec![12, 4, 1]);
    assert_eq!(buf.into_vec().unwrap(), data);
}

#[test]
fn test_from_slice_rejects_wrong_length() {
    let data: Vec<u32> = (0..23).collect();
    let r = DataBuffer::<u32>::from_slice(&data, &[2, 3, 4]);
    assert!(matches!(r, Err(DataBufferError::InvalidShape(_))));
}

#[test]
fn test_from_slice_rejects_overflowing_strides() {
    // The trailing partial product usize::MAX * usize::MAX does not fit a
    // machine word, even though the zero-sized lead dimension makes the
    // element count zero.
    let r = DataBuffer::<u32>::from_slice(&[], &[0, usize::MAX, usize::MAX]);
    assert!(matches!(r, Err(DataBufferError::InvalidShape(_))));
}

#[test]
fn test_compact_strides_of_rank_four() {
    let data: Vec<u32> = vec![0; 2 * 8 * 5 * 7];
    let buf = DataBuffer::<u32>::from_slice(&data, &[2, 8, 5, 7]).unwrap();
    assert_eq!(buf.strides().to_vec(), vec![8 * 5 * 7, 5 * 7, 7, 1]);
}

#[test]
fn test_empty_like_copies_extent() {
    let data: Vec<u32> = (0..12).collect();
    let buf = DataBuffer::<u32>::from_slice(&data, &[3, 4]).unwrap();
    let fresh = buf.empty_like();
    assert_eq!(fresh.shape().to_vec(), vec![3, 4]);
    assert_eq!(fresh.strides().to_vec(), vec![4, 1]);
    assert_eq!(fresh.into_vec().unwrap().len(), 12);
}

#[test]
fn test_with_shape_allocates_element_count() {
    let buf = DataBuffer::<u32>::with_shape(&[4, 5, 6]);
    assert_eq!(buf.shape().to_vec(), vec![4, 5, 6]);
    assert_eq!(buf.strides().to_vec(), vec![30, 6, 1]);
    assert_eq!(buf.into_vec().unwrap().len(), 120);
}

#[test]
fn test_clone_shares_contents() {
    let data: Vec<u32> = (0..6).collect();
    let buf = DataBuffer::<u32>::from_slice(&data, &[1, 6]).unwrap();
    let copy = buf.clone();
    assert_eq!(copy.shape().to_vec(), vec![1, 6]);
    assert_eq!(copy.into_vec().unwrap(), data);
    assert_eq!(buf.into_vec().unwrap(), data);
}

#[test]
fn test_tensor_arg_borrows_buffer() {
    let data: Vec<u32> = (0..6).collect();
    let buf = DataBuffer::<u32>::from_slice(&data, &[2, 3]).unwrap();
    let arg = buf.into_tensor_arg(1);
    assert_eq!(arg.data.to_vec(), data);
    assert_eq!(arg.shape.to_vec(), vec![2, 3]);
    assert_eq!(arg.strides.to_vec(), vec![3, 1]);
    assert_eq!(arg.line_size, 1);
}

#[test]
fn test_scalar_shape_buffer() {
    // A rank-0 shape holds exactly one element and has no strides.
    let buf = DataBuffer::<u32>::from_slice(&[77], &[]).unwrap();
    assert_eq!(buf.shape().len(), 0);
    assert_eq!(buf.strides().len(), 0);
    assert_eq!(buf.into_vec().unwrap(), vec![77]);
}
