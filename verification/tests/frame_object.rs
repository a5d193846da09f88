use wluma::frame::object::{FrameError, Object, Plane};

#[test]
fn a_new_frame_is_empty() {
    let frame = Object::new();
    assert_eq!(frame.width(), 0);
    assert_eq!(frame.height(), 0);
    assert_eq!(frame.num_objects(), 0);
    assert!(frame.planes().is_empty());
    assert!(!frame.is_complete());
    let frame = Object::default();
    assert_eq!(frame.num_objects(), 0);
    assert!(!frame.is_complete());
}

#[test]
fn metadata_is_recorded_once() {
    let mut frame = Object::new();
    assert_eq!(frame.set_metadata(1920, 1080, 1), Ok(()));
    assert_eq!(frame.width(), 1920);
    assert_eq!(frame.height(), 1080);
    assert_eq!(frame.num_objects(), 1);
    assert_eq!(frame.set_metadata(1280, 720, 2), Err(FrameError::MetadataAlreadySet));
    assert_eq!(frame.width(), 1920);
    assert_eq!(frame.height(), 1080);
    assert_eq!(frame.num_objects(), 1);
}

#[test]
fn a_frame_without_pixels_is_refused() {
    let mut frame = Object::new();
    assert_eq!(frame.set_metadata(0, 1080, 1), Err(FrameError::EmptyFrame));
    assert_eq!(frame.set_metadata(1920, 0, 1), Err(FrameError::EmptyFrame));
    assert_eq!(frame.num_objects(), 0);
    assert_eq!(frame.set_metadata(1920, 1080, 1), Ok(()));
}

#[test]
fn three_planes_complete_a_frame_in_any_order() {
    let mut frame = Object::new();
    assert_eq!(frame.set_metadata(640, 480, 3), Ok(()));
    assert!(!frame.is_complete());
    assert_eq!(frame.set_object(2, 12, 300), Ok(()));
    assert!(!frame.is_complete());
    assert_eq!(frame.set_object(0, 10, 100), Ok(()));
    assert!(!frame.is_complete());
    assert_eq!(frame.set_object(1, 11, 200), Ok(()));
    assert!(frame.is_complete());
    assert_eq!(
        frame.planes(),
        &vec![
            Plane { index: 2, fd: 12, size: 300 },
            Plane { index: 0, fd: 10, size: 100 },
            Plane { index: 1, fd: 11, size: 200 },
        ]
    );

    let mut frame = Object::new();
    assert_eq!(frame.set_metadata(640, 480, 3), Ok(()));
    assert_eq!(frame.set_object(0, 10, 100), Ok(()));
    assert_eq!(frame.set_object(2, 12, 300), Ok(()));
    assert!(!frame.is_complete());
    assert_eq!(frame.set_object(1, 11, 200), Ok(()));
    assert!(frame.is_complete());
}

#[test]
fn a_fourth_plane_is_refused() {
    let mut frame = Object::new();
    assert_eq!(frame.set_metadata(640, 480, 3), Ok(()));
    assert_eq!(frame.set_object(2, 12, 300), Ok(()));
    assert_eq!(frame.set_object(0, 10, 100), Ok(()));
    assert_eq!(frame.set_object(1, 11, 200), Ok(()));
    assert_eq!(frame.set_object(3, 13, 400), Err(FrameError::IndexOutOfRange));
    assert_eq!(frame.set_object(7, 13, 400), Err(FrameError::IndexOutOfRange));
    assert_eq!(frame.set_object(u32::MAX, 13, 400), Err(FrameError::IndexOutOfRange));
    assert_eq!(frame.set_object(0, 13, 400), Err(FrameError::DuplicatePlane));
    assert_eq!(frame.set_object(1, 13, 400), Err(FrameError::DuplicatePlane));
    assert_eq!(frame.set_object(2, 13, 400), Err(FrameError::DuplicatePlane));
    assert_eq!(frame.planes().len(), 3);
    assert!(frame.is_complete());
}

#[test]
fn planes_need_metadata() {
    let mut frame = Object::new();
    assert_eq!(frame.set_object(0, 10, 100), Err(FrameError::IndexOutOfRange));
    assert!(frame.planes().is_empty());
    assert!(!frame.is_complete());
}

#[test]
fn a_plane_recorded_twice_does_not_complete_a_frame() {
    let mut frame = Object::new();
    assert_eq!(frame.set_metadata(640, 480, 2), Ok(()));
    assert_eq!(frame.set_object(1, 11, 200), Ok(()));
    assert_eq!(frame.set_object(1, 11, 200), Err(FrameError::DuplicatePlane));
    assert!(!frame.is_complete());
    assert_eq!(frame.planes().len(), 1);
}

#[test]
fn a_frame_without_planes_is_complete_once_described() {
    let mut frame = Object::new();
    assert!(!frame.is_complete());
    assert_eq!(frame.set_metadata(640, 480, 0), Ok(()));
    assert!(frame.is_complete());
    assert_eq!(frame.set_object(0, 10, 100), Err(FrameError::IndexOutOfRange));
}
