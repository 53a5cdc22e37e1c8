use gl_command::slice::BufferSlice;

#[test]
fn new_slice_is_empty() {
    let s = BufferSlice::new();
    assert_eq!(s.offset, 0);
    assert_eq!(s.size, 0);
}

#[test]
fn append_to_empty_takes_other() {
    let mut s = BufferSlice::new();
    s.append(BufferSlice { offset: 7, size: 3 });
    assert_eq!(s.offset, 7);
    assert_eq!(s.size, 3);
}

#[test]
fn append_contiguous_grows() {
    let mut s = BufferSlice { offset: 4, size: 2 };
    s.append(BufferSlice { offset: 6, size: 5 });
    assert_eq!(s, BufferSlice { offset: 4, size: 7 });
}

#[test]
fn append_chain_is_associative() {
    let a = BufferSlice { offset: 0, size: 2 };
    let b = BufferSlice { offset: 2, size: 3 };
    let c = BufferSlice { offset: 5, size: 4 };

    let mut left = a;
    left.append(b);
    left.append(c);

    let mut bc = b;
    bc.append(c);
    let mut right = a;
    right.append(bc);

    assert_eq!(left, right);
    assert_eq!(left, BufferSlice { offset: 0, size: 9 });
}

#[test]
fn append_empty_is_neutral() {
    let mut s = BufferSlice { offset: 3, size: 5 };
    s.append(BufferSlice { offset: 8, size: 0 });
    assert_eq!(s, BufferSlice { offset: 3, size: 5 });
}
