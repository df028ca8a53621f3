use lucastra::loader::{ElfLoader, FAT32Reader};
use lucastra::syscall::SyscallHandler;

#[test]
fn test_syscall_handler_open_close() {
    let mut handler = SyscallHandler::new();

    // Test open
    let fd = handler.handle_syscall(2, &[0x1000, 0, 0]).unwrap();
    assert!(fd > 0);

    // Test close
    let result = handler.handle_syscall(3, &[fd as u64]).unwrap();
    assert_eq!(result, 0);
}

#[test]
fn test_syscall_handler_dup() {
    let mut handler = SyscallHandler::new();

    // Open file
    let fd1 = handler.handle_syscall(2, &[0x1000, 0, 0]).unwrap();

    // Duplicate fd
    let fd2 = handler.handle_syscall(32, &[fd1 as u64]).unwrap();
    assert_ne!(fd2, fd1);

    // Close both
    handler.handle_syscall(3, &[fd1 as u64]).unwrap();
    handler.handle_syscall(3, &[fd2 as u64]).unwrap();
}

#[test]
fn test_elf_loader_validation() {
    // Valid ELF header
    let valid_elf = b"\x7fELF\x02\x01\x01\x00\x00\x00\x00\x00\x00\x00\x00\x00";
    assert!(ElfLoader::validate_elf(valid_elf));

    // Invalid header
    let invalid = b"INVALID";
    assert!(!ElfLoader::validate_elf(invalid));
}

#[test]
fn test_fat32_boot_sector_parsing() {
    // Create a minimal valid FAT32 boot sector (512 bytes)
    let mut boot_sector = vec![0u8; 512];
    boot_sector[0] = 0xEB; // jump_boot
    boot_sector[1] = 0x3C;
    boot_sector[2] = 0x90;
    boot_sector[11] = 0x00; // bytes_per_sector (little endian)
    boot_sector[12] = 0x04; // 1024 bytes
    boot_sector[510] = 0x55; // signature
    boot_sector[511] = 0xAA;

    let mut reader = FAT32Reader::new();
    let result = reader.parse_boot_sector(&boot_sector);
    assert!(result.is_ok());
    assert!(reader.boot_sector().is_some());
    assert_eq!(reader.boot_sector().unwrap().bytes_per_sector, 1024);
}

#[test]
fn test_syscall_read_from_store() {
    let mut handler = SyscallHandler::new();
    handler.write_file("data.bin", vec![1, 2, 3, 4, 5]);
    let fd = handler.open_file("data.bin", 0);
    let n = handler.handle_syscall(0, &[fd as u64, 0, 3]).unwrap();
    assert_eq!(n, 3);
    let n2 = handler.handle_syscall(0, &[fd as u64, 0, 10]).unwrap();
    assert_eq!(n2, 2);
}

#[test]
fn test_compat_init() {
    assert!(lucastra::compat::init().is_ok());
    assert!(!lucastra::compat::is_relibc_enabled());
}
