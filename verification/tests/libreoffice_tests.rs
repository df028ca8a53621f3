use lucastra::libreoffice::LibreOfficeConfig;

#[test]
fn test_libreoffice_config_creation() {
    let config = LibreOfficeConfig::new(
        "/app/soffice".to_string(),
        "/home/user/document.odt".to_string(),
    );

    assert_eq!(config.executable_path, "/app/soffice");
    assert_eq!(config.document_path, "/home/user/document.odt");
    assert!(config.sandbox_enabled);
}

#[test]
fn test_libreoffice_sandbox_toggle() {
    let config = LibreOfficeConfig::new(
        "/app/soffice".to_string(),
        "/home/user/document.odt".to_string(),
    )
    .with_sandbox(false);

    assert!(!config.sandbox_enabled);
}

#[test]
fn test_libreoffice_validate_missing_executable() {
    let config = LibreOfficeConfig::new(
        "/nonexistent/soffice".to_string(),
        "/home/user/document.odt".to_string(),
    );

    let result = config.validate();
    assert!(result.is_err());
    assert!(result.unwrap_err().message().contains("not found"));
}
