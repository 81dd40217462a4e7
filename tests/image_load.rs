use ramon::codec::DecodeError;
use ramon::dispatch::{process_payload, DecodedEvent, DetectionError};
use ramon::event::get_event_type;
use ramon::event::image_load::{ImageLoadEvent, YamlImageLoadEvent};
use ramon::event::Pid;

const PID_DIGEST: [u8; 32] = [
    142, 11, 23, 148, 44, 198, 98, 98, 165, 160, 37, 127, 34, 31, 11, 228, 45, 50, 145, 182, 11,
    22, 39, 186, 41, 129, 230, 35, 15, 40, 64, 142,
];
const BASE_DIGEST: [u8; 32] = [
    12, 135, 42, 160, 163, 232, 177, 0, 212, 1, 67, 116, 106, 82, 80, 194, 221, 28, 172, 116, 167,
    158, 0, 100, 30, 34, 75, 166, 80, 10, 115, 212,
];
const SIZE_DIGEST: [u8; 32] = [
    133, 234, 219, 32, 65, 29, 94, 172, 12, 166, 177, 213, 137, 104, 245, 170, 118, 51, 101, 251,
    161, 103, 234, 78, 77, 163, 86, 2, 120, 124, 74, 222,
];
const PATH_DIGEST: [u8; 32] = [
    90, 88, 163, 160, 50, 177, 79, 11, 42, 221, 8, 128, 69, 30, 103, 183, 42, 116, 172, 138, 225,
    99, 28, 222, 116, 166, 226, 182, 230, 29, 145, 66,
];

fn sample(pid: u32) -> ImageLoadEvent {
    ImageLoadEvent::new(pid, 234, 345, "elo mordo".to_string())
}

#[test]
fn simple() {
    let e1 = ImageLoadEvent::new(123, 234, 345, "elo mordo".to_string());
    let event_buff = e1.serialize().unwrap();

    let event_type = get_event_type(event_buff.as_slice());
    assert_eq!(event_type, Ok(ImageLoadEvent::EVENT_CLASS));

    let e2 = ImageLoadEvent::deserialize(event_buff.as_slice()).unwrap();
    assert_eq!(e1.pid(), e2.pid());
    assert_eq!(e1.image_size(), e2.image_size());
    assert_eq!(e1.image_base(), e2.image_base());
    assert_eq!(e1.path(), e2.path());
}

#[test]
fn payload_layout_is_exact() {
    let e = sample(123);
    let b = e.serialize().unwrap();
    assert_eq!(b.len(), 37);
    assert_eq!(e.blob_size(), 33);
    let mut expected: Vec<u8> = vec![0x44, 0x4C, 0x4C, 0x20, 123, 0, 0, 0];
    expected.extend_from_slice(&[234, 0, 0, 0, 0, 0, 0, 0]);
    expected.extend_from_slice(&[0x59, 0x01, 0, 0, 0, 0, 0, 0]);
    expected.extend_from_slice(&[9, 0, 0, 0]);
    expected.extend_from_slice(b"elo mordo");
    assert_eq!(b, expected);
    assert_eq!(e.to_blob().unwrap(), expected[4..].to_vec());
    assert_eq!(ImageLoadEvent::EVENT_CLASS, 0x204C4C44);
}

#[test]
fn round_trip_large_values() {
    let e = ImageLoadEvent::new(u32::MAX, u64::MAX, 1 << 40, "C:\\Windows\\ż.dll".to_string());
    let b = e.serialize().unwrap();
    assert_eq!(b.len() as u32, 4 + e.blob_size());
    let d = ImageLoadEvent::deserialize(&b).unwrap();
    assert_eq!(d.pid(), u32::MAX);
    assert_eq!(d.image_base(), u64::MAX);
    assert_eq!(d.image_size(), 1 << 40);
    assert_eq!(d.path(), "C:\\Windows\\ż.dll");
    let f = ImageLoadEvent::from_blob(&e.to_blob().unwrap()).unwrap();
    assert_eq!(f.path(), d.path());
}

#[test]
fn round_trip_empty_path_and_trailing_bytes() {
    let e = ImageLoadEvent::new(0, 0, 0, String::new());
    let mut b = e.serialize().unwrap();
    assert_eq!(b.len(), 28);
    b.extend_from_slice(&[0u8; 16]);
    let d = ImageLoadEvent::deserialize(&b).unwrap();
    assert_eq!(d.pid(), 0);
    assert_eq!(d.path(), "");
}

#[test]
fn every_short_prefix_is_truncated() {
    let b = sample(123).serialize().unwrap();
    for k in 0..b.len() {
        assert!(matches!(
            ImageLoadEvent::deserialize(&b[..k]),
            Err(DecodeError::Truncated)
        ));
    }
    assert_eq!(get_event_type(&b[..3]), Err(DecodeError::Truncated));
}

#[test]
fn wrong_class_is_refused() {
    let mut b = sample(123).serialize().unwrap();
    b[0] = b'E';
    assert!(matches!(
        ImageLoadEvent::deserialize(&b),
        Err(DecodeError::WrongClass)
    ));
}

#[test]
fn invalid_utf8_path_is_refused() {
    let mut b = sample(123).serialize().unwrap();
    let last = b.len() - 1;
    b[last] = 0xFF;
    assert!(matches!(
        ImageLoadEvent::deserialize(&b),
        Err(DecodeError::InvalidUtf8)
    ));
}

#[test]
fn fingerprint_all_fields_significant() {
    let digests = sample(123).hash_members();
    assert_eq!(digests, vec![PID_DIGEST, BASE_DIGEST, SIZE_DIGEST, PATH_DIGEST]);
}

#[test]
fn fingerprint_zero_pid_omitted() {
    let digests = sample(0).hash_members();
    assert_eq!(digests, vec![BASE_DIGEST, SIZE_DIGEST, PATH_DIGEST]);
}

#[test]
fn fingerprint_all_zero_is_empty() {
    let e = ImageLoadEvent::new(0, 0, 0, String::new());
    assert!(e.hash_members().is_empty());
}

#[test]
fn fingerprint_is_deterministic_across_events() {
    let a = ImageLoadEvent::new(7, 234, 0, "x".to_string());
    let b = ImageLoadEvent::new(9, 234, 1, "y".to_string());
    assert_eq!(a.hash_members(), a.hash_members());
    assert_eq!(a.hash_members()[1], BASE_DIGEST);
    assert_eq!(b.hash_members()[1], BASE_DIGEST);
    assert_ne!(a.hash_members()[0], b.hash_members()[0]);
}

#[test]
fn fingerprint_significance_adds_one() {
    let base = ImageLoadEvent::new(5, 0, 6, String::new());
    let with_base = ImageLoadEvent::new(5, 234, 6, String::new());
    let with_path = ImageLoadEvent::new(5, 0, 6, "elo mordo".to_string());
    assert_eq!(base.hash_members().len(), 2);
    assert_eq!(with_base.hash_members().len(), 3);
    assert!(with_base.hash_members().contains(&BASE_DIGEST));
    assert_eq!(with_path.hash_members().len(), 3);
    assert!(with_path.hash_members().contains(&PATH_DIGEST));
}

#[test]
fn pid_projection() {
    assert_eq!(sample(123).get_pid(), Pid(123));
    assert!(Pid(1) < Pid(2));
}

#[test]
fn yaml_absent_fields_become_zero() {
    let y = YamlImageLoadEvent {
        pid: Some(4),
        image_base: None,
        image_size: Some(8),
        path: None,
    };
    let e = ImageLoadEvent::from_yaml(y);
    assert_eq!(e.pid(), 4);
    assert_eq!(e.image_base(), 0);
    assert_eq!(e.image_size(), 8);
    assert_eq!(e.path(), "");
}

#[test]
fn dispatch_decodes_image_load() {
    let b = sample(123).serialize().unwrap();
    match process_payload(&b) {
        Ok(DecodedEvent::ImageLoad(e)) => {
            assert_eq!(e.pid(), 123);
            assert_eq!(e.path(), "elo mordo");
        }
        other => panic!("unexpected {:?}", other),
    }
    let d = process_payload(&b).unwrap();
    assert_eq!(d.get_pid(), Pid(123));
    assert_eq!(d.hash_members().len(), 4);
}

#[test]
fn dispatch_unknown_tag() {
    for tag in [*b"FILE", *b"PROC", [0, 0, 0, 0], [0xFF, 0xFF, 0xFF, 0xFF]] {
        let mut b = tag.to_vec();
        b.extend_from_slice(&[1, 2, 3]);
        assert!(matches!(process_payload(&b), Err(DetectionError::UnknownEvent)));
        assert!(matches!(process_payload(&tag), Err(DetectionError::UnknownEvent)));
    }
}

#[test]
fn dispatch_malformed() {
    assert!(matches!(
        process_payload(&[0x44, 0x4C]),
        Err(DetectionError::Malformed(DecodeError::Truncated))
    ));
    assert!(matches!(
        process_payload(&[0x44, 0x4C, 0x4C, 0x20, 1]),
        Err(DetectionError::Malformed(DecodeError::Truncated))
    ));
}
