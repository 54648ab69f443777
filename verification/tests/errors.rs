use dscope::errors::DScopeError;

fn io_failure() -> std::io::Error {
    std::io::Error::new(std::io::ErrorKind::Other, "disk on fire")
}

#[test]
fn message_of_no_photos_found() {
    let e = DScopeError::no_photos_found(String::from("/visits/a"));
    assert!(matches!(e, DScopeError::NoPhotosFound { .. }));
    assert_eq!(e.message(), "no photos found: /visits/a");
}

#[test]
fn message_of_expected_directory() {
    let e = DScopeError::expected_directory(String::from("/visits/a.txt"));
    assert!(matches!(e, DScopeError::ExpectedDirectory { .. }));
    assert_eq!(e.message(), "Expected directory: /visits/a.txt");
}

#[test]
fn message_of_cannot_read_file() {
    let e = DScopeError::cannot_read_file(io_failure(), String::from("/visits/a/info.json"));
    assert!(matches!(e, DScopeError::CannotReadFile { .. }));
    assert_eq!(e.message(), "Cannot read file /visits/a/info.json: disk on fire");
}

#[test]
fn message_of_cannot_write_file() {
    let e = DScopeError::cannot_write_file(io_failure(), String::from("/visits/a/PICT0001.jpg"));
    assert!(matches!(e, DScopeError::CannotWriteFile { .. }));
    assert_eq!(e.message(), "Cannot write file /visits/a/PICT0001.jpg: disk on fire");
}

#[test]
fn message_of_cannot_decode_image() {
    let cause = image::load_from_memory(&[1u8, 2, 3]).unwrap_err();
    let text = cause.to_string();
    let e = DScopeError::cannot_decode_image(cause, String::from("PICT0003.jpg"));
    assert!(matches!(e, DScopeError::CannotDecodeImage { .. }));
    assert_eq!(e.message(), format!("Cannot decode image PICT0003.jpg: {}", text));
}

#[test]
fn message_of_cannot_create_image() {
    let e = DScopeError::cannot_create_image(String::from("no pixels"), String::from("PICT0004.jpg"));
    assert!(matches!(e, DScopeError::CannotCreateImage { .. }));
    assert_eq!(e.message(), "Cannot create image PICT0004.jpg: no pixels");
}

#[test]
fn message_of_cannot_decode_info() {
    let cause = serde_json::from_str::<serde_json::Value>("{").unwrap_err();
    let text = cause.to_string();
    let e = DScopeError::cannot_decode_info(cause, String::from("/visits/a/info.json"));
    assert!(matches!(e, DScopeError::CannotDecodeInfo { .. }));
    assert_eq!(e.message(), format!("Cannot decode info /visits/a/info.json: {}", text));
}

#[test]
fn describe_takes_the_cause_as_given() {
    let e = DScopeError::cannot_read_file(io_failure(), String::from("f"));
    assert_eq!(e.describe("why"), "Cannot read file f: why");
    let e = DScopeError::no_photos_found(String::from("p"));
    assert_eq!(e.describe("ignored"), "no photos found: p");
}
