use ggl::mesh::{
    normal_attribs, position_attribs, texture_coordinate_attribs, to_bytes, AttribPointer, PNTVertex, PVertex,
};

#[test]
fn to_bytes_is_little_endian() {
    let mut v = vec![1u32, 0x0102_0304, u32::MAX];
    let b = to_bytes(&mut v);
    assert_eq!(b, vec![1, 0, 0, 0, 4, 3, 2, 1, 255, 255, 255, 255]);
    assert_eq!(v, vec![1u32, 0x0102_0304, u32::MAX]);
}

#[test]
fn to_bytes_round_trips() {
    let mut v = vec![0u32, 65536, 123_456_789, 42];
    let b = to_bytes(&mut v);
    assert_eq!(b.len(), 16);
    for (i, n) in v.iter().enumerate() {
        let back = u32::from_le_bytes([b[4 * i], b[4 * i + 1], b[4 * i + 2], b[4 * i + 3]]);
        assert_eq!(back, *n);
    }
    assert!(to_bytes(&mut vec![]).is_empty());
}

#[test]
fn separate_buffer_layouts() {
    assert_eq!(position_attribs(), AttribPointer { index: 0, size: 3, stride: 12, offset: 0 });
    assert_eq!(normal_attribs(), AttribPointer { index: 1, size: 3, stride: 12, offset: 0 });
    assert_eq!(texture_coordinate_attribs(), AttribPointer { index: 2, size: 2, stride: 8, offset: 0 });
}

#[test]
fn interleaved_layouts() {
    let pnt = PNTVertex::attribs();
    assert_eq!(pnt.len(), 3);
    assert_eq!(pnt[1], AttribPointer { index: 1, size: 3, stride: 32, offset: 12 });
    assert_eq!(pnt[2], AttribPointer { index: 2, size: 2, stride: 32, offset: 24 });
    assert_eq!(PVertex::attribs(), vec![AttribPointer { index: 0, size: 3, stride: 32, offset: 0 }]);
}
