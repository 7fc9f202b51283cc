use mem_layout::{ByteView, ByteViewError};

#[derive(Debug)]
struct SomeStruct {
    x: f32,
    y: f32,
    z: f32,
    w: f32,
    a: f32,
}

#[test]
fn byte_view_test() {
    let view = ByteView::<40>::zeros();
    match view.view_as::<SomeStruct>() {
        Ok(v) => {
            assert_eq!(v.len(), 40 / std::mem::size_of::<SomeStruct>());
            for i in 0..v.len() {
                let elem = v.element(i);
                assert_eq!(elem.len(), std::mem::size_of::<SomeStruct>());
                for b in elem {
                    assert_eq!(*b, 0);
                }
            }
        }
        Err(ByteViewError::ImproperAlignment { required, found }) => {
            assert_eq!(required, std::mem::align_of::<SomeStruct>());
            assert!(found < required);
        }
        Err(e) => panic!("{:?}", e),
    }
    let _ = SomeStruct { x: 0.0, y: 0.0, z: 0.0, w: 0.0, a: 0.0 };
}
