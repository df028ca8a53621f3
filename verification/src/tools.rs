//! The tool-call surface: requests, installation methods, and results.
//! Running installers spawns processes and stays outside the library.

use vstd::prelude::*;
use vstd::string::StringExecFns;

verus! {

#[derive(Debug)]
pub enum ToolError {
    Search(String),
    Read(String),
    Install(String),
    Core(crate::core_types::LuCastraError),
    Json(String),
    Io(String),
}

/// A requested tool invocation.
pub enum Tool {
    Search { query: String, top_k: Option<usize> },
    Read { path: String },
    Install { program: String, method: InstallMethod },
    HostFileAccess {
        operation: crate::file_access::FileOperation,
        path: String,
        dest_path: Option<String>,
    },
}

/// How a program is to be installed.
pub enum InstallMethod {
    Command { cmd: String, args: Vec<String> },
    Download { url: String, installer_args: Vec<String> },
}

/// The outcome of one tool run.
pub struct ToolResult {
    pub tool: String,
    pub success: bool,
    pub output: String,
}

impl ToolResult {
    pub fn success(tool: &str, output: String) -> (r: ToolResult)
        ensures
            r.tool@ == tool@,
            r.success,
            r.output@ == output@,
    {
        ToolResult { tool: tool.to_owned(), success: true, output }
    }

    pub fn failure(tool: &str, error: String) -> (r: ToolResult)
        ensures
            r.tool@ == tool@,
            !r.success,
            r.output@ == error@,
    {
        ToolResult { tool: tool.to_owned(), success: false, output: error }
    }
}

/// The installer runner.  Spawning the processes is done by the caller of
/// the library; the rules below fix, exactly, which file a download uses
/// and how a finished command's outcome is reported.
pub struct InstallTool;

impl InstallTool {
    pub fn new() -> InstallTool {
        InstallTool
    }

    /// Where a downloaded installer for `program` is placed.
    pub fn installer_path(program: &str) -> (r: String)
        ensures
            r@ == "C:\\Users\\Public\\Downloads\\"@ + program@ + "_installer.exe"@,
    {
        let mut s = "C:\\Users\\Public\\Downloads\\".to_owned();
        s.append(program);
        s.append("_installer.exe");
        s
    }

    /// The report for a command-based installation, from the finished
    /// command's outcome: on success the captured standard output, on
    /// failure the status description and the captured standard error.
    pub fn command_result(
        program: &str,
        success: bool,
        status: &str,
        stdout: &str,
        stderr: &str,
    ) -> (r: ToolResult)
        ensures
            r.tool@ == "install"@,
            r.success == success,
            success ==> r.output@ == "Successfully installed '"@ + program@ + "'\n\nOutput:\n"@
                + stdout@,
            !success ==> r.output@ == "Failed to install '"@ + program@ + "': "@ + status@
                + "\n\nError output:\n"@ + stderr@,
    {
        if success {
            let mut m = "Successfully installed '".to_owned();
            m.append(program);
            m.append("'\n\nOutput:\n");
            m.append(stdout);
            ToolResult::success("install", m)
        } else {
            let mut m = "Failed to install '".to_owned();
            m.append(program);
            m.append("': ");
            m.append(status);
            m.append("\n\nError output:\n");
            m.append(stderr);
            ToolResult::failure("install", m)
        }
    }

    /// The report for a download-based installation: a failed download is
    /// reported first, then a failed installer run, and only both
    /// succeeding reports success.
    pub fn download_result(
        program: &str,
        download_ok: bool,
        download_stderr: &str,
        install_ok: bool,
        install_stderr: &str,
    ) -> (r: ToolResult)
        ensures
            r.tool@ == "install"@,
            r.success == (download_ok && install_ok),
            !download_ok ==> r.output@ == "Download failed: "@ + download_stderr@,
            (download_ok && !install_ok) ==> r.output@ == "Installation failed: "@
                + install_stderr@,
            (download_ok && install_ok) ==> r.output@
                == "Successfully downloaded and installed '"@ + program@ + "'"@,
    {
        if !download_ok {
            let mut m = "Download failed: ".to_owned();
            m.append(download_stderr);
            ToolResult::failure("install", m)
        } else if !install_ok {
            let mut m = "Installation failed: ".to_owned();
            m.append(install_stderr);
            ToolResult::failure("install", m)
        } else {
            let mut m = "Successfully downloaded and installed '".to_owned();
            m.append(program);
            m.append("'");
            ToolResult::success("install", m)
        }
    }
}

} // verus!
