//! Hardware abstraction: driver traits and their in-memory mock
//! implementations.

use vstd::prelude::*;
use crate::core_types::{InputEvent, LuCastraError};
use crate::strutil::str_eq;

verus! {

/// A device that can be probed and reset.
pub trait HalDevice {
    fn probe(&mut self) -> Result<(), LuCastraError>;

    fn reset(&mut self) -> Result<(), LuCastraError>;
}

/// Sector-addressed storage.
pub trait BlockDevice {
    fn read_sector(&mut self, sector: u64, buffer: &mut Vec<u8>) -> Result<usize, LuCastraError>;

    fn write_sector(&mut self, sector: u64, buffer: &Vec<u8>) -> Result<usize, LuCastraError>;

    fn sector_size(&self) -> usize;

    fn total_sectors(&self) -> u64;
}

/// An in-memory block device.
pub struct MockBlockDevice {
    data: Vec<u8>,
    sector_size: usize,
}

impl MockBlockDevice {
    pub closed spec fn spec_data(&self) -> Seq<u8> {
        self.data@
    }

    pub closed spec fn spec_sector_size(&self) -> usize {
        self.sector_size
    }

    /// A zero-filled device of `size` bytes in sectors of `sector_size`.
    pub fn new(size: usize, sector_size: usize) -> (r: MockBlockDevice)
        ensures
            r.spec_data().len() == size,
            forall|i: int| 0 <= i < size ==> r.spec_data()[i] == 0u8,
            r.spec_sector_size() == sector_size,
    {
        let mut data: Vec<u8> = Vec::new();
        let mut i: usize = 0;
        while i < size
            invariant
                i <= size,
                data@.len() == i,
                forall|j: int| 0 <= j < i ==> data@[j] == 0u8,
            decreases size - i,
        {
            data.push(0);
            i += 1;
        }
        MockBlockDevice { data, sector_size }
    }
}

impl BlockDevice for MockBlockDevice {
    /// Copies from the sector offset into the buffer, as far as both
    /// reach; an offset beyond the device reads nothing.
    fn read_sector(&mut self, sector: u64, buffer: &mut Vec<u8>) -> Result<usize, LuCastraError> {
        let dlen = self.data.len();
        let ssize = self.sector_size;
        if ssize == 0 {
            return Ok(0);
        }
        proof {
            assert((sector as int) * (ssize as int)
                < 0x1_0000_0000_0000_0000_0000_0000_0000_0000) by (nonlinear_arith)
                requires
                    0 <= sector as int <= 0xffff_ffff_ffff_ffff,
                    0 <= ssize as int <= 0xffff_ffff_ffff_ffff,
            ;
        }
        let offset128: u128 = (sector as u128) * (ssize as u128);
        if offset128 >= dlen as u128 {
            return Ok(0);
        }
        let offset: usize = offset128 as usize;
        let avail = dlen - offset;
        let to_read = if buffer.len() < avail {
            buffer.len()
        } else {
            avail
        };
        let mut i: usize = 0;
        while i < to_read
            invariant
                i <= to_read,
                to_read <= buffer@.len(),
                dlen == self.data@.len(),
                offset + to_read <= dlen,
            decreases to_read - i,
        {
            let b = self.data[offset + i];
            buffer[i] = b;
            i += 1;
        }
        Ok(to_read)
    }

    /// Copies the buffer onto the sector offset, as far as both reach; an
    /// offset beyond the device writes nothing.
    fn write_sector(&mut self, sector: u64, buffer: &Vec<u8>) -> Result<usize, LuCastraError> {
        let dlen = self.data.len();
        let ssize = self.sector_size;
        if ssize == 0 {
            return Ok(0);
        }
        proof {
            assert((sector as int) * (ssize as int)
                < 0x1_0000_0000_0000_0000_0000_0000_0000_0000) by (nonlinear_arith)
                requires
                    0 <= sector as int <= 0xffff_ffff_ffff_ffff,
                    0 <= ssize as int <= 0xffff_ffff_ffff_ffff,
            ;
        }
        let offset128: u128 = (sector as u128) * (ssize as u128);
        if offset128 >= dlen as u128 {
            return Ok(0);
        }
        let offset: usize = offset128 as usize;
        let avail = dlen - offset;
        let to_write = if buffer.len() < avail {
            buffer.len()
        } else {
            avail
        };
        let mut i: usize = 0;
        while i < to_write
            invariant
                i <= to_write,
                to_write <= buffer@.len(),
                dlen == self.data@.len(),
                offset + to_write <= dlen,
            decreases to_write - i,
        {
            let b = buffer[i];
            self.data[offset + i] = b;
            i += 1;
        }
        Ok(to_write)
    }

    fn sector_size(&self) -> usize {
        self.sector_size
    }

    fn total_sectors(&self) -> u64 {
        if self.sector_size == 0 {
            0
        } else {
            (self.data.len() / self.sector_size) as u64
        }
    }
}

/// A mountable filesystem driver.
pub trait FileSystemDriver {
    fn mount(&mut self, path: &str) -> Result<(), LuCastraError>;

    fn unmount(&mut self) -> Result<(), LuCastraError>;

    fn list_files(&self, path: &str) -> Result<Vec<String>, LuCastraError>;

    fn read_file(&self, path: &str) -> Result<Vec<u8>, LuCastraError>;

    fn write_file(&mut self, path: &str, data: &Vec<u8>) -> Result<(), LuCastraError>;

    fn is_mounted(&self) -> bool;
}

/// An in-memory filesystem.
pub struct MockFileSystem {
    mounted: bool,
    files: Vec<(String, Vec<u8>)>,
}

impl MockFileSystem {
    pub fn new() -> (r: MockFileSystem)
    {
        MockFileSystem { mounted: false, files: Vec::new() }
    }
}

impl FileSystemDriver for MockFileSystem {
    fn mount(&mut self, _path: &str) -> Result<(), LuCastraError> {
        self.mounted = true;
        Ok(())
    }

    fn unmount(&mut self) -> Result<(), LuCastraError> {
        self.mounted = false;
        Ok(())
    }

    fn list_files(&self, _path: &str) -> Result<Vec<String>, LuCastraError> {
        let mut out: Vec<String> = Vec::new();
        let mut i: usize = 0;
        while i < self.files.len()
            decreases self.files@.len() - i,
        {
            out.push(self.files[i].0.clone());
            i += 1;
        }
        Ok(out)
    }

    fn read_file(&self, path: &str) -> Result<Vec<u8>, LuCastraError> {
        let mut i: usize = 0;
        while i < self.files.len()
            decreases self.files@.len() - i,
        {
            if str_eq(self.files[i].0.as_str(), path) {
                let mut out: Vec<u8> = Vec::new();
                let mut j: usize = 0;
                let data = &self.files[i].1;
                while j < data.len()
                    decreases data@.len() - j,
                {
                    out.push(data[j]);
                    j += 1;
                }
                return Ok(out);
            }
            i += 1;
        }
        let mut m = "File not found: ".to_owned();
        vstd::string::StringExecFns::append(&mut m, path);
        Err(LuCastraError::FilesystemError(m))
    }

    fn write_file(&mut self, path: &str, data: &Vec<u8>) -> Result<(), LuCastraError> {
        let mut copy: Vec<u8> = Vec::new();
        let mut j: usize = 0;
        while j < data.len()
            decreases data@.len() - j,
        {
            copy.push(data[j]);
            j += 1;
        }
        let mut i: usize = 0;
        while i < self.files.len()
            decreases self.files@.len() - i,
        {
            if str_eq(self.files[i].0.as_str(), path) {
                self.files[i] = (path.to_owned(), copy);
                return Ok(());
            }
            i += 1;
        }
        self.files.push((path.to_owned(), copy));
        Ok(())
    }

    fn is_mounted(&self) -> bool {
        self.mounted
    }
}

/// A pollable input source.
pub trait InputDriver {
    fn poll_event(&mut self) -> Result<Option<InputEvent>, LuCastraError>;

    fn is_ready(&self) -> bool;
}

/// A scripted input driver: events are injected, then served in order.
pub struct MockInputDriver {
    event_queue: Vec<InputEvent>,
    index: usize,
}

impl MockInputDriver {
    pub closed spec fn spec_queue(&self) -> Seq<InputEvent> {
        self.event_queue@
    }

    pub closed spec fn spec_index(&self) -> usize {
        self.index
    }

    pub fn new() -> (r: MockInputDriver)
        ensures
            r.spec_queue().len() == 0,
            r.spec_index() == 0,
    {
        MockInputDriver { event_queue: Vec::new(), index: 0 }
    }

    /// Queues one event behind those already waiting.
    pub fn inject_event(&mut self, event: InputEvent)
        ensures
            final(self).spec_queue() == old(self).spec_queue().push(event),
            final(self).spec_index() == old(self).spec_index(),
    {
        self.event_queue.push(event);
    }
}

impl InputDriver for MockInputDriver {
    fn poll_event(&mut self) -> Result<Option<InputEvent>, LuCastraError> {
        if self.index < self.event_queue.len() {
            let e = self.event_queue[self.index].clone();
            self.index = self.index + 1;
            Ok(Some(e))
        } else {
            Ok(None)
        }
    }

    fn is_ready(&self) -> bool {
        self.index < self.event_queue.len()
    }
}

} // verus!
