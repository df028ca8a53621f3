//! Minimal ELF validation and FAT32 boot-sector parsing for the
//! compatibility layer.

use vstd::prelude::*;
use crate::core_types::LuCastraError;

verus! {

/// The fields read from a FAT32 boot sector.
#[derive(Clone, Copy)]
pub struct FAT32BootSector {
    pub jump_boot: [u8; 3],
    pub oem_name: [u8; 8],
    pub bytes_per_sector: u16,
    pub sectors_per_cluster: u8,
    pub reserved_sectors: u16,
    pub num_fats: u8,
    pub root_entries: u16,
    pub total_sectors_16: u16,
    pub media: u8,
    pub sectors_per_fat_16: u16,
    pub sectors_per_track: u16,
    pub heads: u16,
    pub hidden_sectors: u32,
    pub total_sectors_32: u32,
    pub sectors_per_fat_32: u32,
    pub root_cluster: u32,
    pub fsinfo_sector: u16,
}

/// A little-endian `u16` at offset `o`.
pub open spec fn spec_le16_at(d: Seq<u8>, o: int) -> u16 {
    (d[o] as u16) | (d[o + 1] as u16) << 8
}

/// A little-endian `u32` at offset `o`.
pub open spec fn spec_le32_at(d: Seq<u8>, o: int) -> u32 {
    (d[o] as u32) | (d[o + 1] as u32) << 8 | (d[o + 2] as u32) << 16 | (d[o + 3] as u32) << 24
}

/// A little-endian `u64` at offset `o`.
pub open spec fn spec_le64_at(d: Seq<u8>, o: int) -> u64 {
    (d[o] as u64) | (d[o + 1] as u64) << 8 | (d[o + 2] as u64) << 16 | (d[o + 3] as u64) << 24 | (
    d[o + 4] as u64) << 32 | (d[o + 5] as u64) << 40 | (d[o + 6] as u64) << 48 | (d[o
        + 7] as u64) << 56
}

/// Whether a boot sector image carries the FAT32 signature rule: images of
/// at least 512 bytes must hold 0xAA55 at offset 510; shorter ones (of at
/// least 90 bytes) are accepted unchecked.
pub open spec fn spec_fat32_signature_ok(d: Seq<u8>) -> bool {
    d.len() < 512 || spec_le16_at(d, 510) == 0xaa55
}

/// What a successful parse stores for each field.
pub open spec fn spec_boot_sector_of(d: Seq<u8>) -> FAT32BootSector {
    FAT32BootSector {
        jump_boot: [d[0], d[1], d[2]],
        oem_name: [d[3], d[4], d[5], d[6], d[7], d[8], d[9], d[10]],
        bytes_per_sector: spec_le16_at(d, 11),
        sectors_per_cluster: d[13],
        reserved_sectors: spec_le16_at(d, 14),
        num_fats: d[16],
        root_entries: spec_le16_at(d, 17),
        total_sectors_16: spec_le16_at(d, 19),
        media: d[21],
        sectors_per_fat_16: spec_le16_at(d, 22),
        sectors_per_track: spec_le16_at(d, 24),
        heads: spec_le16_at(d, 26),
        hidden_sectors: spec_le32_at(d, 28),
        total_sectors_32: spec_le32_at(d, 32),
        sectors_per_fat_32: spec_le32_at(d, 36),
        root_cluster: spec_le32_at(d, 44),
        fsinfo_sector: spec_le16_at(d, 48),
    }
}

/// Minimal FAT32 boot-sector parser.
pub struct FAT32Reader {
    boot_sector: Option<FAT32BootSector>,
}

impl FAT32Reader {
    pub closed spec fn spec_boot_sector(&self) -> Option<FAT32BootSector> {
        self.boot_sector
    }

    pub fn new() -> (r: FAT32Reader)
        ensures
            r.spec_boot_sector() is None,
    {
        FAT32Reader { boot_sector: None }
    }

    /// Parses a boot sector image: it must be at least 90 bytes, and carry
    /// the 0xAA55 signature if it spans offset 511.  On failure the reader
    /// keeps its previous state.
    pub fn parse_boot_sector(&mut self, data: &[u8]) -> (r: Result<(), LuCastraError>)
        ensures
            r.is_ok() <==> (data@.len() >= 90 && spec_fat32_signature_ok(data@)),
            r.is_ok() ==> final(self).spec_boot_sector() == Some(spec_boot_sector_of(data@)),
            r.is_err() ==> final(self).spec_boot_sector() == old(self).spec_boot_sector(),
            data@.len() < 90 ==> (r matches Err(LuCastraError::FilesystemError(m))
                && m@ == "Boot sector too small"@),
            (data@.len() >= 90 && !spec_fat32_signature_ok(data@)) ==> (r matches Err(
                LuCastraError::FilesystemError(m),
            ) && m@ == "Invalid FAT32 signature"@),
    {
        if data.len() < 90 {
            return Err(LuCastraError::FilesystemError("Boot sector too small".to_owned()));
        }
        if data.len() >= 512 {
            let sig: u16 = (data[510] as u16) | (data[511] as u16) << 8;
            if sig != 0xaa55 {
                return Err(LuCastraError::FilesystemError("Invalid FAT32 signature".to_owned()));
            }
        }
        let bs = FAT32BootSector {
            jump_boot: [data[0], data[1], data[2]],
            oem_name: [
                data[3],
                data[4],
                data[5],
                data[6],
                data[7],
                data[8],
                data[9],
                data[10],
            ],
            bytes_per_sector: (data[11] as u16) | (data[12] as u16) << 8,
            sectors_per_cluster: data[13],
            reserved_sectors: (data[14] as u16) | (data[15] as u16) << 8,
            num_fats: data[16],
            root_entries: (data[17] as u16) | (data[18] as u16) << 8,
            total_sectors_16: (data[19] as u16) | (data[20] as u16) << 8,
            media: data[21],
            sectors_per_fat_16: (data[22] as u16) | (data[23] as u16) << 8,
            sectors_per_track: (data[24] as u16) | (data[25] as u16) << 8,
            heads: (data[26] as u16) | (data[27] as u16) << 8,
            hidden_sectors: (data[28] as u32) | (data[29] as u32) << 8 | (data[30] as u32) << 16
                | (data[31] as u32) << 24,
            total_sectors_32: (data[32] as u32) | (data[33] as u32) << 8 | (data[34] as u32) << 16
                | (data[35] as u32) << 24,
            sectors_per_fat_32: (data[36] as u32) | (data[37] as u32) << 8 | (
            data[38] as u32) << 16 | (data[39] as u32) << 24,
            root_cluster: (data[44] as u32) | (data[45] as u32) << 8 | (data[46] as u32) << 16 | (
            data[47] as u32) << 24,
            fsinfo_sector: (data[48] as u16) | (data[49] as u16) << 8,
        };
        self.boot_sector = Some(bs);
        Ok(())
    }

    /// The parsed boot sector, if any.
    pub fn boot_sector(&self) -> (r: Option<&FAT32BootSector>)
        ensures
            (match r {
                Some(b) => self.spec_boot_sector() == Some(*b),
                None => self.spec_boot_sector() is None,
            }),
    {
        self.boot_sector.as_ref()
    }

    /// The logical block address of the first FAT: hidden plus reserved
    /// sectors, wrapping on overflow as 32-bit addition does.
    pub fn fat_lba(&self) -> (r: Option<u32>)
        ensures
            (match self.spec_boot_sector() {
                Some(bs) => r == Some(
                    vstd::wrapping::u32_specs::wrapping_add(
                        bs.hidden_sectors,
                        bs.reserved_sectors as u32,
                    ),
                ),
                None => r is None,
            }),
    {
        match &self.boot_sector {
            Some(bs) => Some(bs.hidden_sectors.wrapping_add(bs.reserved_sectors as u32)),
            None => None,
        }
    }

    /// The logical block address of the root directory: the FAT location
    /// plus all FAT copies, wrapping as 32-bit arithmetic does.
    pub fn root_dir_lba(&self) -> (r: Option<u32>)
        ensures
            (match self.spec_boot_sector() {
                Some(bs) => r == Some(
                    vstd::wrapping::u32_specs::wrapping_add(
                        vstd::wrapping::u32_specs::wrapping_add(
                            bs.hidden_sectors,
                            bs.reserved_sectors as u32,
                        ),
                        vstd::wrapping::u32_specs::wrapping_mul(
                            bs.num_fats as u32,
                            bs.sectors_per_fat_32,
                        ),
                    ),
                ),
                None => r is None,
            }),
    {
        match &self.boot_sector {
            Some(bs) => {
                let fats = (bs.num_fats as u32).wrapping_mul(bs.sectors_per_fat_32);
                Some(bs.hidden_sectors.wrapping_add(bs.reserved_sectors as u32).wrapping_add(fats))
            },
            None => None,
        }
    }
}

/// The fields read from an ELF header.
#[derive(Clone, Copy)]
pub struct ELFHeader {
    pub magic: [u8; 4],
    pub class: u8,
    pub endian: u8,
    pub version: u8,
    pub os_abi: u8,
    pub abi_version: u8,
    pub e_type: u16,
    pub e_machine: u16,
    pub e_entry: u64,
}

/// The four ELF magic bytes.
pub open spec fn spec_valid_elf(d: Seq<u8>) -> bool {
    d.len() >= 4 && d[0] == 0x7f && d[1] == 0x45 && d[2] == 0x4c && d[3] == 0x46
}

/// What a successful header parse stores.
pub open spec fn spec_elf_header_of(d: Seq<u8>) -> ELFHeader {
    ELFHeader {
        magic: [d[0], d[1], d[2], d[3]],
        class: d[4],
        endian: d[5],
        version: d[6],
        os_abi: d[7],
        abi_version: d[8],
        e_type: spec_le16_at(d, 16),
        e_machine: spec_le16_at(d, 18),
        e_entry: spec_le64_at(d, 32),
    }
}

/// Minimal ELF header reader.
pub struct ElfLoader {
    elf_header: Option<ELFHeader>,
}

impl ElfLoader {
    pub closed spec fn spec_header(&self) -> Option<ELFHeader> {
        self.elf_header
    }

    pub fn new() -> (r: ElfLoader)
        ensures
            r.spec_header() is None,
    {
        ElfLoader { elf_header: None }
    }

    /// Whether the image starts with the ELF magic.
    pub fn validate_elf(data: &[u8]) -> (r: bool)
        ensures
            r == spec_valid_elf(data@),
    {
        if data.len() < 4 {
            return false;
        }
        data[0] == 0x7f && data[1] == 0x45 && data[2] == 0x4c && data[3] == 0x46
    }

    /// Parses the header of an image with a valid magic and at least 64
    /// bytes; on failure the loader keeps its previous state.
    pub fn parse_header(&mut self, data: &[u8]) -> (r: Result<(), LuCastraError>)
        ensures
            r.is_ok() <==> (spec_valid_elf(data@) && data@.len() >= 64),
            r.is_ok() ==> final(self).spec_header() == Some(spec_elf_header_of(data@)),
            r.is_err() ==> final(self).spec_header() == old(self).spec_header(),
            !spec_valid_elf(data@) ==> (r matches Err(LuCastraError::SyscallError(m))
                && m@ == "Invalid ELF magic"@),
            (spec_valid_elf(data@) && data@.len() < 64) ==> (r matches Err(
                LuCastraError::SyscallError(m),
            ) && m@ == "ELF header too small"@),
    {
        if !Self::validate_elf(data) {
            return Err(LuCastraError::SyscallError("Invalid ELF magic".to_owned()));
        }
        if data.len() < 64 {
            return Err(LuCastraError::SyscallError("ELF header too small".to_owned()));
        }
        let header = ELFHeader {
            magic: [data[0], data[1], data[2], data[3]],
            class: data[4],
            endian: data[5],
            version: data[6],
            os_abi: data[7],
            abi_version: data[8],
            e_type: (data[16] as u16) | (data[17] as u16) << 8,
            e_machine: (data[18] as u16) | (data[19] as u16) << 8,
            e_entry: (data[32] as u64) | (data[33] as u64) << 8 | (data[34] as u64) << 16 | (
            data[35] as u64) << 24 | (data[36] as u64) << 32 | (data[37] as u64) << 40 | (
            data[38] as u64) << 48 | (data[39] as u64) << 56,
        };
        self.elf_header = Some(header);
        Ok(())
    }

    /// The entry-point address of the parsed header, if any.
    pub fn entry_point(&self) -> (r: Option<u64>)
        ensures
            (match self.spec_header() {
                Some(h) => r == Some(h.e_entry),
                None => r is None,
            }),
    {
        match &self.elf_header {
            Some(h) => Some(h.e_entry),
            None => None,
        }
    }

    /// Parses the header and reports the placeholder load address used by
    /// the current loader.
    pub fn load(&mut self, data: &[u8]) -> (r: Result<usize, LuCastraError>)
        ensures
            r.is_ok() <==> (spec_valid_elf(data@) && data@.len() >= 64),
            r.is_ok() ==> r == Ok::<usize, LuCastraError>(0x1000usize)
                && final(self).spec_header() == Some(spec_elf_header_of(data@)),
            r.is_err() ==> final(self).spec_header() == old(self).spec_header(),
    {
        match self.parse_header(data) {
            Ok(()) => Ok(0x1000),
            Err(e) => Err(e),
        }
    }
}

} // verus!
