use lucastra::config::{default_llm_url, default_max_results, SecurityConfig};
use lucastra::tools::InstallTool;
use lucastra::devices::DeviceManager;
use lucastra::filemanager::{FileEntry, FileManager};
use lucastra::loader::ElfLoader;

fn entry(name: &str, is_dir: bool) -> FileEntry {
    FileEntry {
        path: format!("/root/{}", name),
        name: name.to_string(),
        is_dir,
        size: 0,
        modified: String::new(),
    }
}

#[test]
fn test_device_scan_and_mount() {
    let mut dm = DeviceManager::new();
    dm.scan().unwrap();
    let devices = dm.list_devices().unwrap();
    assert_eq!(devices.len(), 3);

    dm.mount_device("/dev/usb0", "/mnt/usb").unwrap();
    let d = dm.get_device("/dev/usb0").unwrap();
    assert!(d.mounted);
    assert_eq!(d.mount_point.as_deref(), Some("/mnt/usb"));

    dm.unmount_device("/dev/usb0").unwrap();
    assert!(!dm.get_device("/dev/usb0").unwrap().mounted);

    assert!(dm.get_device("/dev/none").is_err());
}

#[test]
fn test_file_manager_sorts_dirs_first() {
    let listing = vec![
        entry("zeta.txt", false),
        entry("alpha", true),
        entry("beta.txt", false),
        entry("gamma", true),
    ];
    let fm = FileManager::new("/root".to_string(), listing);
    let names: Vec<&str> = fm.list().iter().map(|e| e.name.as_str()).collect();
    assert_eq!(names, vec!["alpha", "gamma", "beta.txt", "zeta.txt"]);
}

#[test]
fn test_file_manager_navigation() {
    let mut fm = FileManager::new("/root".to_string(), vec![entry("sub", true)]);
    fm.navigate("/root/sub", vec![entry("file.txt", false)]).unwrap();
    assert_eq!(fm.current_dir(), "/root/sub");
    assert_eq!(fm.back_target().unwrap(), "/root");

    fm.back(vec![entry("sub", true)]).unwrap();
    assert_eq!(fm.current_dir(), "/root");
    assert!(fm.back(vec![]).is_err());
}

#[test]
fn test_elf_loader_parse_and_entry_point() {
    let mut image = vec![0u8; 64];
    image[0] = 0x7f;
    image[1] = b'E';
    image[2] = b'L';
    image[3] = b'F';
    image[4] = 2; // 64-bit
    image[32] = 0x34; // entry point, little endian
    image[33] = 0x12;

    let mut loader = ElfLoader::new();
    assert!(loader.parse_header(&image).is_ok());
    assert_eq!(loader.entry_point(), Some(0x1234));
    assert_eq!(loader.load(&image).unwrap(), 0x1000);

    let mut bad = ElfLoader::new();
    assert!(bad.parse_header(b"oops").is_err());
    assert_eq!(bad.entry_point(), None);
}

#[test]
fn test_config_defaults() {
    assert_eq!(default_llm_url(), "http://localhost:8000");
    assert_eq!(default_max_results(), 10);
    let sec = SecurityConfig::default();
    assert!(sec.allow_host_read);
    assert!(!sec.allow_host_write);
    assert_eq!(sec.allowed_host_dirs.len(), 3);
}

#[test]
fn test_resolved_allowed_dirs_expands_tilde() {
    let mut cfg = SecurityConfig::default();
    cfg.allowed_host_dirs = vec!["~/Documents".to_string()];
    let dirs = cfg.resolved_allowed_dirs();
    assert_eq!(dirs.len(), 1);
    if let Some(home) = dirs::home_dir() {
        let expected_prefix = home.to_str().unwrap().to_string();
        assert!(dirs[0].starts_with(&expected_prefix));
    }
}

#[test]
fn test_install_result_messages() {
    let ok = InstallTool::command_result("ripgrep", true, "exit status: 0", "done\n", "");
    assert!(ok.success);
    assert_eq!(ok.tool, "install");
    assert_eq!(ok.output, "Successfully installed 'ripgrep'\n\nOutput:\ndone\n");

    let bad = InstallTool::command_result("ripgrep", false, "exit status: 1", "", "boom");
    assert!(!bad.success);
    assert_eq!(
        bad.output,
        "Failed to install 'ripgrep': exit status: 1\n\nError output:\nboom"
    );

    assert_eq!(
        InstallTool::installer_path("ripgrep"),
        "C:\\Users\\Public\\Downloads\\ripgrep_installer.exe"
    );

    let dl = InstallTool::download_result("ripgrep", false, "no route", false, "");
    assert_eq!(dl.output, "Download failed: no route");
    let inst = InstallTool::download_result("ripgrep", true, "", false, "bad exe");
    assert_eq!(inst.output, "Installation failed: bad exe");
    let both = InstallTool::download_result("ripgrep", true, "", true, "");
    assert!(both.success);
    assert_eq!(both.output, "Successfully downloaded and installed 'ripgrep'");
}
