use rust_raytracing::blobvec::BlobVec;
use std::alloc::Layout;

#[test]
fn blob_new() {
    let layout = Layout::new::<u32>();
    let blob = BlobVec::new(layout);
    assert_eq!(blob.layout, Layout::new::<u32>());
    assert_eq!(blob.len, 0);
    assert_eq!(blob.data, []);
}

#[test]
fn blob_add() {
    let layout = Layout::new::<u32>();
    let mut blob = BlobVec::new(layout);

    let val: u32 = 0;
    blob.add(&val.to_le_bytes());

    assert_eq!(blob.layout, Layout::new::<u32>());
    assert_eq!(blob.len, 1);
    assert_eq!(blob.data, [0, 0, 0, 0]);

    let val: u32 = 32;
    blob.add(&val.to_le_bytes());

    assert_eq!(blob.layout, Layout::new::<u32>());
    assert_eq!(blob.len, 2);
    assert_eq!(blob.data, [0, 0, 0, 0, 32, 0, 0, 0]);
}

#[test]
fn blob_get() {
    let layout = Layout::new::<u32>();
    let mut blob = BlobVec::new(layout);

    let val: u32 = 0;
    blob.add(&val.to_le_bytes());

    assert_eq!(blob.get(0), [0, 0, 0, 0]);

    let val: u32 = 32;
    blob.add(&val.to_le_bytes());

    assert_eq!(blob.get(0), [0, 0, 0, 0]);
    assert_eq!(blob.get(1), [32, 0, 0, 0]);
}

#[test]
fn blob_as_slice() {
    let layout = Layout::new::<u32>();
    let mut blob = BlobVec::new(layout);

    let val: u32 = 0;
    blob.add(&val.to_le_bytes());
    assert_eq!(blob.as_slice(), &[0, 0, 0, 0]);

    let val: u32 = 32;
    blob.add(&val.to_le_bytes());
    assert_eq!(blob.as_slice(), &[0, 0, 0, 0, 32, 0, 0, 0]);
}

#[test]
fn blob_len_tracks_records() {
    let layout = Layout::new::<u16>();
    let mut blob = BlobVec::new(layout);
    assert!(blob.is_empty());
    assert_eq!(blob.len(), 0);
    blob.add(&[7, 1]);
    assert!(!blob.is_empty());
    assert_eq!(blob.len(), 1);
    blob.add(&[9, 2]);
    assert_eq!(blob.len(), 2);
    assert_eq!(blob.get(0), [7, 1]);
    assert_eq!(blob.get(1), [9, 2]);
}

#[test]
fn blob_zero_sized_records() {
    let layout = Layout::new::<()>();
    let mut blob = BlobVec::new(layout);
    blob.add(&[]);
    blob.add(&[]);
    assert_eq!(blob.len(), 2);
    assert_eq!(blob.data, []);
    assert_eq!(blob.get(1), []);
}
