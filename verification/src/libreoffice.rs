//! Launch configuration for the sandboxed office suite.

use vstd::prelude::*;
use vstd::string::StringExecFns;
use crate::core_types::LuCastraError;
use crate::sysutil::path_exists;

verus! {

/// Where the office executable and the document live, and whether file
/// access is sandboxed.
pub struct LibreOfficeConfig {
    pub executable_path: String,
    pub document_path: String,
    pub sandbox_enabled: bool,
}

impl LibreOfficeConfig {
    /// A configuration with the sandbox switched on.
    pub fn new(executable: String, document: String) -> (r: LibreOfficeConfig)
        ensures
            r.executable_path@ == executable@,
            r.document_path@ == document@,
            r.sandbox_enabled,
    {
        LibreOfficeConfig {
            executable_path: executable,
            document_path: document,
            sandbox_enabled: true,
        }
    }

    /// The same configuration with the sandbox toggled.
    pub fn with_sandbox(self, enabled: bool) -> (r: LibreOfficeConfig)
        ensures
            r.executable_path@ == self.executable_path@,
            r.document_path@ == self.document_path@,
            r.sandbox_enabled == enabled,
    {
        LibreOfficeConfig { sandbox_enabled: enabled, ..self }
    }

    /// The validation rule, on an already-answered existence check: only a
    /// missing executable is an error; a missing document is allowed (it
    /// may be new).
    pub fn validate_with(&self, executable_exists: bool) -> (r: Result<(), LuCastraError>)
        ensures
            r.is_ok() <==> executable_exists,
            !executable_exists ==> (r matches Err(LuCastraError::SyscallError(m))
                && m@ == "LibreOffice executable not found: "@ + self.executable_path@),
    {
        if !executable_exists {
            return Err(
                LuCastraError::SyscallError(
                    "LibreOffice executable not found: ".to_owned().concat(
                        self.executable_path.as_str(),
                    ),
                ),
            );
        }
        Ok(())
    }

    /// Checks the configured paths against the filesystem; fails exactly
    /// when the executable does not exist.
    pub fn validate(&self) -> (r: Result<(), LuCastraError>)
        ensures
            (r matches Err(e) ==> e matches LuCastraError::SyscallError(m)
                && m@ == "LibreOffice executable not found: "@ + self.executable_path@),
    {
        let exists = path_exists(self.executable_path.as_str());
        self.validate_with(exists)
    }
}

/// Launches the office suite with a validated configuration.
pub struct LibreOfficeLauncher {
    config: LibreOfficeConfig,
}

impl LibreOfficeLauncher {
    pub closed spec fn spec_config(&self) -> LibreOfficeConfig {
        self.config
    }

    pub fn new(config: LibreOfficeConfig) -> (r: LibreOfficeLauncher)
        ensures
            r.spec_config() == config,
    {
        LibreOfficeLauncher { config }
    }

    /// Validates the configuration; the actual process launch is pending
    /// on the syscall-handler integration, so a valid configuration only
    /// reports success.
    pub fn launch(&self) -> (r: Result<(), LuCastraError>)
        ensures
            (r matches Err(e) ==> e matches LuCastraError::SyscallError(m)
                && m@ == "LibreOffice executable not found: "@
                + self.spec_config().executable_path@),
    {
        match self.config.validate() {
            Ok(()) => Ok(()),
            Err(e) => Err(e),
        }
    }
}

} // verus!
