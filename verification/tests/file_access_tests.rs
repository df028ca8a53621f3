use lucastra::file_access::{FileAccessError, FileAccessValidator, FileOperation};

#[test]
fn test_validator_rejects_write_when_disabled() {
    let validator = FileAccessValidator::new(vec![], false, false, false);

    let result = validator.validate_path("/tmp/test.txt", FileOperation::Write);
    assert!(matches!(result, Err(FileAccessError::PermissionDenied)));
}

#[test]
fn test_validator_rejects_unlisted_resolved_path() {
    let validator = FileAccessValidator::new(
        vec!["/nonexistent-allowed".to_string()],
        true,
        false,
        false,
    );
    let result = validator.validate_resolved("/somewhere/else.txt", FileOperation::Read);
    assert!(matches!(result, Err(FileAccessError::NotWhitelisted(_))));
}

#[test]
fn test_validator_rejects_removable_media() {
    let validator =
        FileAccessValidator::new(vec!["/media/usb".to_string()], true, false, false);
    let result = validator.validate_resolved("/media/usb/file.txt", FileOperation::Read);
    assert!(matches!(result, Err(FileAccessError::UsbNotAllowed)));
}

#[test]
fn test_validator_accepts_allowed_read() {
    let validator = FileAccessValidator::new(vec!["/home/me".to_string()], true, false, false);
    let result = validator.validate_resolved("/home/me/notes.txt", FileOperation::Read);
    assert!(result.is_ok());
}

#[test]
fn test_operation_names() {
    assert_eq!(FileOperation::Read.name(), "read");
    assert_eq!(FileOperation::Delete.name(), "delete");
}
