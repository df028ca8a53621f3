//! Host file access control: whitelist validation and audit records.
//! Resolving a path against the real filesystem is I/O and is done by the
//! caller; the rules themselves are pure and verified.

use vstd::prelude::*;
use crate::strutil::{starts_with, contains_sub, spec_has_prefix, spec_contains_sub};
use crate::sysutil::canonical_path;

verus! {

#[derive(Debug)]
pub enum FileAccessError {
    NotWhitelisted(String),
    InvalidPath(String),
    OperationFailed(String),
    PermissionDenied,
    UsbNotAllowed,
}

/// The audited operations.
#[derive(Clone, Copy, PartialEq, Eq, Structural, Debug)]
pub enum FileOperation {
    Read,
    Write,
    Move,
    Copy,
    Delete,
    List,
}

impl FileOperation {
    /// The operation's audit-log name.
    pub fn name(&self) -> (r: String)
        ensures
            (match self {
                FileOperation::Read => r@ == "read"@,
                FileOperation::Write => r@ == "write"@,
                FileOperation::Move => r@ == "move"@,
                FileOperation::Copy => r@ == "copy"@,
                FileOperation::Delete => r@ == "delete"@,
                FileOperation::List => r@ == "list"@,
            }),
    {
        match self {
            FileOperation::Read => "read".to_owned(),
            FileOperation::Write => "write".to_owned(),
            FileOperation::Move => "move".to_owned(),
            FileOperation::Copy => "copy".to_owned(),
            FileOperation::Delete => "delete".to_owned(),
            FileOperation::List => "list".to_owned(),
        }
    }
}

/// One audit-log record.
pub struct AuditEntry {
    pub timestamp: String,
    pub operation: FileOperation,
    pub source_path: String,
    pub dest_path: Option<String>,
    pub success: bool,
    pub error_msg: Option<String>,
    pub user_approved: bool,
}

/// A host-file-access request awaiting approval.
pub struct HostFileAccessRequest {
    pub operation: FileOperation,
    pub path: String,
    pub dest_path: Option<String>,
    pub requires_approval: bool,
}

/// Whether an operation writes.
pub open spec fn spec_is_write_op(op: FileOperation) -> bool {
    op == FileOperation::Write || op == FileOperation::Move || op == FileOperation::Delete || op
        == FileOperation::Copy
}

/// Whether an operation only reads.
pub open spec fn spec_is_read_op(op: FileOperation) -> bool {
    op == FileOperation::Read || op == FileOperation::List
}

/// The removable-media rule: paths under `/media/` or `/mnt/`.
pub open spec fn spec_is_removable(p: Seq<char>) -> bool {
    spec_contains_sub(p, "/media/"@) || spec_contains_sub(p, "/mnt/"@)
}

/// Whether `p` sits under one of the allowed directories.
pub open spec fn spec_whitelisted(allowed: Seq<String>, p: Seq<char>) -> bool {
    exists|i: int| 0 <= i < allowed.len() && spec_has_prefix(p, (#[trigger] allowed[i])@)
}

/// Checks paths against the configured whitelist.
pub struct FileAccessValidator {
    allowed_dirs: Vec<String>,
    allow_host_read: bool,
    allow_host_write: bool,
    allow_usb: bool,
}

impl FileAccessValidator {
    pub closed spec fn spec_allowed(&self) -> Seq<String> {
        self.allowed_dirs@
    }

    pub closed spec fn spec_allow_read(&self) -> bool {
        self.allow_host_read
    }

    pub closed spec fn spec_allow_write(&self) -> bool {
        self.allow_host_write
    }

    pub closed spec fn spec_allow_usb(&self) -> bool {
        self.allow_usb
    }

    pub fn new(
        allowed_dirs: Vec<String>,
        allow_host_read: bool,
        allow_host_write: bool,
        allow_usb: bool,
    ) -> (r: FileAccessValidator)
        ensures
            r.spec_allowed() == allowed_dirs@,
            r.spec_allow_read() == allow_host_read,
            r.spec_allow_write() == allow_host_write,
            r.spec_allow_usb() == allow_usb,
    {
        FileAccessValidator { allowed_dirs, allow_host_read, allow_host_write, allow_usb }
    }

    /// Whether a resolved path is on removable media.
    pub fn is_removable_media(&self, path: &str) -> (r: bool)
        ensures
            r == spec_is_removable(path@),
    {
        contains_sub(path, "/media/") || contains_sub(path, "/mnt/")
    }

    /// The whitelist rule, applied to an already-resolved (canonical)
    /// path, checked in order: write-class operations need write
    /// permission and read-class operations read permission; the path
    /// must sit under an allowed directory; removable media needs its own
    /// permission.
    pub fn validate_resolved(&self, resolved: &str, operation: FileOperation) -> (r: Result<
        (),
        FileAccessError,
    >)
        ensures
            ({
                let write_denied = spec_is_write_op(operation) && !self.spec_allow_write();
                let read_denied = !write_denied && spec_is_read_op(operation)
                    && !self.spec_allow_read();
                if write_denied || read_denied {
                    r == Err::<(), FileAccessError>(FileAccessError::PermissionDenied)
                } else if !spec_whitelisted(self.spec_allowed(), resolved@) {
                    r matches Err(FileAccessError::NotWhitelisted(p)) && p@ == resolved@
                } else if spec_is_removable(resolved@) && !self.spec_allow_usb() {
                    r == Err::<(), FileAccessError>(FileAccessError::UsbNotAllowed)
                } else {
                    r == Ok::<(), FileAccessError>(())
                }
            }),
    {
        if (matches!(operation, FileOperation::Write) || matches!(operation, FileOperation::Move)
            || matches!(operation, FileOperation::Delete) || matches!(
            operation,
            FileOperation::Copy,
        )) && !self.allow_host_write {
            return Err(FileAccessError::PermissionDenied);
        }
        if (matches!(operation, FileOperation::Read) || matches!(operation, FileOperation::List))
            && !self.allow_host_read {
            return Err(FileAccessError::PermissionDenied);
        }
        let mut is_allowed = false;
        let mut i: usize = 0;
        while i < self.allowed_dirs.len()
            invariant
                i <= self.spec_allowed().len(),
                is_allowed ==> spec_whitelisted(self.spec_allowed(), resolved@),
                !is_allowed ==> forall|j: int|
                    0 <= j < i ==> !spec_has_prefix(
                        resolved@,
                        (#[trigger] self.spec_allowed()[j])@,
                    ),
            decreases self.allowed_dirs@.len() - i,
        {
            if starts_with(resolved, self.allowed_dirs[i].as_str()) {
                is_allowed = true;
            }
            i += 1;
        }
        assert(is_allowed == spec_whitelisted(self.spec_allowed(), resolved@));
        if !is_allowed {
            return Err(FileAccessError::NotWhitelisted(resolved.to_owned()));
        }
        if self.is_removable_media(resolved) && !self.allow_usb {
            return Err(FileAccessError::UsbNotAllowed);
        }
        Ok(())
    }

    /// Validates a request against the whitelist: the permission checks
    /// come first and need no filesystem; then the path is resolved
    /// against the real filesystem (`InvalidPath` if that fails) and the
    /// resolved path is held to the whitelist and the removable-media
    /// rule.
    pub fn validate_path(&self, path: &str, operation: FileOperation) -> (r: Result<
        (),
        FileAccessError,
    >)
        ensures
            (spec_is_write_op(operation) && !self.spec_allow_write()) ==> r == Err::<
                (),
                FileAccessError,
            >(FileAccessError::PermissionDenied),
            (!(spec_is_write_op(operation) && !self.spec_allow_write()) && spec_is_read_op(
                operation,
            ) && !self.spec_allow_read()) ==> r == Err::<(), FileAccessError>(
                FileAccessError::PermissionDenied,
            ),
            r.is_ok() ==> {
                &&& (spec_is_write_op(operation) ==> self.spec_allow_write())
                &&& (spec_is_read_op(operation) ==> self.spec_allow_read())
                &&& exists|p: Seq<char>|
                    #![auto]
                    spec_whitelisted(self.spec_allowed(), p) && (spec_is_removable(p)
                        ==> self.spec_allow_usb())
            },
            (match r {
                Err(FileAccessError::NotWhitelisted(p)) => !spec_whitelisted(
                    self.spec_allowed(),
                    p@,
                ),
                Err(FileAccessError::UsbNotAllowed) => !self.spec_allow_usb(),
                _ => true,
            }),
    {
        match self.validate_permissions(operation) {
            Ok(()) => {},
            Err(e) => {
                return Err(e);
            },
        }
        let resolved = match canonical_path(path) {
            Some(p) => p,
            None => {
                return Err(FileAccessError::InvalidPath(path.to_owned()));
            },
        };
        self.validate_resolved(resolved.as_str(), operation)
    }

    /// The permission half of `validate_path`, which needs no filesystem:
    /// the checks made before a path is ever resolved.
    pub fn validate_permissions(&self, operation: FileOperation) -> (r: Result<
        (),
        FileAccessError,
    >)
        ensures
            r.is_err() <==> ((spec_is_write_op(operation) && !self.spec_allow_write()) || (
            spec_is_read_op(operation) && !self.spec_allow_read())),
            r.is_err() ==> r == Err::<(), FileAccessError>(FileAccessError::PermissionDenied),
    {
        if (matches!(operation, FileOperation::Write) || matches!(operation, FileOperation::Move)
            || matches!(operation, FileOperation::Delete) || matches!(
            operation,
            FileOperation::Copy,
        )) && !self.allow_host_write {
            return Err(FileAccessError::PermissionDenied);
        }
        if (matches!(operation, FileOperation::Read) || matches!(operation, FileOperation::List))
            && !self.allow_host_read {
            return Err(FileAccessError::PermissionDenied);
        }
        Ok(())
    }

    /// The allowed directories.
    pub fn allowed_dirs(&self) -> (r: &Vec<String>)
        ensures
            r@ == self.spec_allowed(),
    {
        &self.allowed_dirs
    }

    /// Replaces the allowed directories.
    pub fn set_allowed_dirs(&mut self, dirs: Vec<String>)
        ensures
            final(self).spec_allowed() == dirs@,
            final(self).spec_allow_read() == old(self).spec_allow_read(),
            final(self).spec_allow_write() == old(self).spec_allow_write(),
            final(self).spec_allow_usb() == old(self).spec_allow_usb(),
    {
        self.allowed_dirs = dirs;
    }

    /// Adds one allowed directory, unless an equal entry is present.
    pub fn add_allowed_dir(&mut self, dir: String)
        ensures
            final(self).spec_allow_read() == old(self).spec_allow_read(),
            final(self).spec_allow_write() == old(self).spec_allow_write(),
            final(self).spec_allow_usb() == old(self).spec_allow_usb(),
            final(self).spec_allowed() == old(self).spec_allowed() || final(self).spec_allowed()
                == old(self).spec_allowed().push(dir),
    {
        let mut present = false;
        let mut i: usize = 0;
        while i < self.allowed_dirs.len()
            invariant
                i <= self.allowed_dirs@.len(),
                self.allowed_dirs@ == old(self).spec_allowed(),
                self.allow_host_read == old(self).spec_allow_read(),
                self.allow_host_write == old(self).spec_allow_write(),
                self.allow_usb == old(self).spec_allow_usb(),
            decreases self.allowed_dirs@.len() - i,
        {
            if crate::strutil::str_eq(self.allowed_dirs[i].as_str(), dir.as_str()) {
                present = true;
            }
            i += 1;
        }
        if !present {
            self.allowed_dirs.push(dir);
        }
    }
}

} // verus!
