use mem_layout::view::size_align_checks_at;
use mem_layout::element_span_mut;
use mem_layout::{alignment_of_address, ByteView, ByteViewError};

#[test]
fn zeros_fills_every_byte() {
    let view = ByteView::<5>::zeros();
    let bytes = view.as_bytes();
    assert_eq!(bytes.len(), 5);
    for b in bytes {
        assert_eq!(*b, 0);
    }
}

#[test]
fn new_fills_every_byte() {
    let view = ByteView::<5>::new(7);
    let bytes = view.as_bytes();
    assert_eq!(bytes.len(), 5);
    for b in bytes {
        assert_eq!(*b, 7);
    }
}

#[test]
fn alignment_derivation_concrete() {
    assert_eq!(alignment_of_address(1), 1);
    assert_eq!(alignment_of_address(2), 2);
    assert_eq!(alignment_of_address(12), 4);
    assert_eq!(alignment_of_address(40), 8);
    assert_eq!(alignment_of_address(1 << 20), 1 << 20);
    assert_eq!(alignment_of_address((1 << 20) + 6), 2);
}

#[test]
fn checks_concrete_outcomes() {
    assert_eq!(size_align_checks_at(8, 8, 8, 40), Ok(()));
    assert_eq!(
        size_align_checks_at(8, 12, 4, 40),
        Err(ByteViewError::ImproperSize {
            required: 12,
            found: 40
        })
    );
    assert_eq!(
        size_align_checks_at(2, 8, 8, 40),
        Err(ByteViewError::ImproperAlignment {
            required: 8,
            found: 2
        })
    );
    // A misaligned address is reported before an incompatible size.
    assert_eq!(
        size_align_checks_at(2, 12, 8, 40),
        Err(ByteViewError::ImproperAlignment {
            required: 8,
            found: 2
        })
    );
}

#[test]
fn forty_bytes_as_five_zero_elements() {
    let view = ByteView::<40>::zeros();
    let v = match view.view_as::<[u8; 8]>() {
        Ok(v) => v,
        Err(e) => panic!("{:?}", e),
    };
    assert_eq!(v.len(), 5);
    assert_eq!(v.element_size(), 8);
    for i in 0..5 {
        let elem = v.element(i);
        assert_eq!(elem.len(), 8);
        for b in elem {
            assert_eq!(*b, 0);
        }
    }
}

#[test]
fn forty_bytes_as_u64_when_aligned() {
    let view = ByteView::<40>::zeros();
    match view.view_as::<u64>() {
        Ok(v) => {
            assert_eq!(v.len(), 5);
            for i in 0..5 {
                for b in v.element(i) {
                    assert_eq!(*b, 0);
                }
            }
        }
        Err(ByteViewError::ImproperAlignment { required, found }) => {
            assert_eq!(required, std::mem::align_of::<u64>());
            assert!(found < required);
        }
        Err(e) => panic!("{:?}", e),
    }
}

#[test]
fn forty_bytes_as_twelve_byte_elements_fails() {
    let view = ByteView::<40>::zeros();
    match view.view_as::<[u8; 12]>() {
        Err(ByteViewError::ImproperSize { required, found }) => {
            assert_eq!(required, 12);
            assert_eq!(found, 40);
        }
        Err(e) => panic!("{:?}", e),
        Ok(_) => panic!("a 40-byte buffer must not split into 12-byte elements"),
    }
}

#[test]
fn repeated_views_agree() {
    let view = ByteView::<12>::new(3);
    let first = match view.view_as::<[u8; 4]>() {
        Ok(v) => v,
        Err(e) => panic!("{:?}", e),
    };
    let second = match view.view_as::<[u8; 4]>() {
        Ok(v) => v,
        Err(e) => panic!("{:?}", e),
    };
    assert_eq!(first.len(), second.len());
    assert_eq!(first.as_bytes(), second.as_bytes());
    for i in 0..first.len() {
        assert_eq!(first.element(i), second.element(i));
    }
}

#[test]
fn unchecked_view_excludes_tail() {
    let view = ByteView::<40>::new(1);
    let v = view.view_as_unchecked::<[u8; 12]>();
    assert_eq!(v.len(), 3);
    assert_eq!(v.as_bytes().len(), 36);
    for i in 0..3 {
        assert_eq!(v.element(i), &[1u8; 12][..]);
    }
}

#[test]
fn mutation_through_checked_view_is_visible() {
    let mut view = ByteView::<8>::zeros();
    match view.view_as_mut::<[u8; 4]>() {
        Ok(b) => {
            assert_eq!(b.len(), 8);
            b[0] = 0xAB;
            b[7] = 0xCD;
        }
        Err(e) => panic!("{:?}", e),
    }
    let bytes = view.as_bytes();
    assert_eq!(bytes[0], 0xAB);
    assert_eq!(bytes[7], 0xCD);
    assert_eq!(bytes[1], 0);
}

#[test]
fn mutation_through_unchecked_view_spares_the_tail() {
    let mut view = ByteView::<10>::new(9);
    let s = view.view_as_mut_unchecked::<[u8; 4]>();
    assert_eq!(s.len(), 8);
    s[7] = 0;
    let bytes = view.as_bytes();
    assert_eq!(bytes[7], 0);
    assert_eq!(bytes[8], 9);
    assert_eq!(bytes[9], 9);
}

#[test]
fn size_align_checks_for_bytes_always_pass() {
    let view = ByteView::<40>::zeros();
    assert_eq!(view.size_align_checks::<u8>(), Ok(()));
}

#[test]
fn error_messages_quote_both_values() {
    let e = ByteViewError::ImproperAlignment {
        required: 8,
        found: 1,
    };
    assert_eq!(
        e.message(),
        "type specified has alignment of 8, this field's location suggests an alignment of 1"
    );
    let e = ByteViewError::ImproperSize {
        required: 12,
        found: 40,
    };
    assert_eq!(
        e.message(),
        "type specified requires a size that is a multiple of 12, this field's size is 40"
    );
}

#[test]
fn zero_length_buffer_views_as_no_elements() {
    let view = ByteView::<0>::zeros();
    assert_eq!(view.as_bytes().len(), 0);
    match view.view_as::<[u8; 4]>() {
        Ok(v) => assert_eq!(v.len(), 0),
        Err(e) => panic!("{:?}", e),
    }
}

#[test]
fn mutation_through_one_element_only() {
    let mut view = ByteView::<12>::new(5);
    match view.view_as_mut::<[u8; 4]>() {
        Ok(b) => {
            let e = element_span_mut(b, 4, 1);
            assert_eq!(e.len(), 4);
            e[0] = 9;
            e[3] = 8;
        }
        Err(e) => panic!("{:?}", e),
    }
    let bytes = view.as_bytes();
    assert_eq!(bytes[..4], [5, 5, 5, 5]);
    assert_eq!(bytes[4..8], [9, 5, 5, 8]);
    assert_eq!(bytes[8..], [5, 5, 5, 5]);
}
