//! Shared system types: commands, devices, input events and the common
//! error type of the surrounding services.

use vstd::prelude::*;
use vstd::string::StringExecFns;

verus! {

/// The common error type of the system's services.
#[derive(Debug)]
pub enum LuCastraError {
    DeviceNotFound(String),
    DeviceIoError(String),
    FilesystemError(String),
    InputError(String),
    InvalidCommand(String),
    ServiceError(String),
    ConfigError(String),
    SyscallError(String),
}

impl LuCastraError {
    /// A human-readable description, mirroring the display form of each
    /// variant.
    pub fn message(&self) -> (r: String)
        ensures
            (match self {
                LuCastraError::DeviceNotFound(s) => r@ == "device not found: "@ + s@,
                LuCastraError::DeviceIoError(s) => r@ == "device io error: "@ + s@,
                LuCastraError::FilesystemError(s) => r@ == "filesystem error: "@ + s@,
                LuCastraError::InputError(s) => r@ == "input error: "@ + s@,
                LuCastraError::InvalidCommand(s) => r@ == "invalid command: "@ + s@,
                LuCastraError::ServiceError(s) => r@ == "service error: "@ + s@,
                LuCastraError::ConfigError(s) => r@ == "config error: "@ + s@,
                LuCastraError::SyscallError(s) => r@ == "compat/syscall error: "@ + s@,
            }),
    {
        match self {
            LuCastraError::DeviceNotFound(s) => "device not found: ".to_owned().concat(
                s.as_str(),
            ),
            LuCastraError::DeviceIoError(s) => "device io error: ".to_owned().concat(s.as_str()),
            LuCastraError::FilesystemError(s) => "filesystem error: ".to_owned().concat(
                s.as_str(),
            ),
            LuCastraError::InputError(s) => "input error: ".to_owned().concat(s.as_str()),
            LuCastraError::InvalidCommand(s) => "invalid command: ".to_owned().concat(s.as_str()),
            LuCastraError::ServiceError(s) => "service error: ".to_owned().concat(s.as_str()),
            LuCastraError::ConfigError(s) => "config error: ".to_owned().concat(s.as_str()),
            LuCastraError::SyscallError(s) => "compat/syscall error: ".to_owned().concat(
                s.as_str(),
            ),
        }
    }
}

/// A request sent to the system.
pub struct Command {
    pub id: String,
    pub payload: CommandPayload,
}

pub enum CommandPayload {
    ListDevices,
    Mount { device_path: String, mount_point: String },
    Unmount { mount_point: String },
    ListFiles { path: String },
    ReadFile { path: String },
    WriteFile { path: String, content: Vec<u8> },
    Search { query: String },
    Query { text: String, use_rag: Option<bool> },
    Status,
    Shutdown,
    Echo { message: String },
}

/// A directory entry as reported over the command interface.
pub struct FileEntry {
    pub path: String,
    pub is_dir: bool,
    pub size: u64,
}

#[derive(Clone, Copy, PartialEq, Eq, Structural, Debug)]
pub enum DeviceType {
    BlockDevice,
    InputDevice,
    CharDevice,
    Other,
}

/// Description of a detected device.
#[derive(Clone, Debug)]
pub struct DeviceInfo {
    pub path: String,
    pub device_type: DeviceType,
    pub name: String,
    pub size_bytes: Option<u64>,
    pub mounted: bool,
    pub mount_point: Option<String>,
}

#[derive(Clone, Copy, PartialEq, Eq, Structural, Debug)]
pub enum KeyCode {
    A,
    B,
    C,
    D,
    E,
    F,
    G,
    H,
    I,
    J,
    K,
    L,
    M,
    N,
    O,
    P,
    Q,
    R,
    S,
    T,
    U,
    V,
    W,
    X,
    Y,
    Z,
    Num0,
    Num1,
    Num2,
    Num3,
    Num4,
    Num5,
    Num6,
    Num7,
    Num8,
    Num9,
    Enter,
    Space,
    Escape,
    Backspace,
    Tab,
    Delete,
    ArrowUp,
    ArrowDown,
    ArrowLeft,
    ArrowRight,
    Home,
    End,
    PageUp,
    PageDown,
    F1,
    F2,
    F3,
    F4,
    F5,
    F6,
    F7,
    F8,
    F9,
    F10,
    F11,
    F12,
    LShift,
    RShift,
    LCtrl,
    RCtrl,
    LAlt,
    RAlt,
    Other(u32),
}

#[derive(Clone, Copy, PartialEq, Eq, Structural, Debug)]
pub enum InputEventType {
    KeyPress,
    KeyRelease,
    MouseMove,
    MouseButton,
    Scroll,
}

/// A single input event from a keyboard or pointing device.
#[derive(Clone, Debug)]
pub struct InputEvent {
    pub event_type: InputEventType,
    pub timestamp: u64,
    pub key: Option<KeyCode>,
    pub x: Option<i32>,
    pub y: Option<i32>,
    pub pressed: Option<bool>,
}

} // verus!
