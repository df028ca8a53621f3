//! Messages and view-model records of the desktop shell.

use vstd::prelude::*;

verus! {

/// Events the desktop shell reacts to.
pub enum Message {
    InputChanged(String),
    SendMessage,
    OpenFileManager,
    OpenSettings,
    CloseSettings,
    SaveSettings,
    ClearError,
    DismissToast(usize),
    UpdateSetting(SettingChange),
}

/// One edited settings field.
pub enum SettingChange {
    ServerUrl(String),
    ModelSize(String),
    Temperature(String),
    MaxTokens(String),
    Theme(String),
    AutoStart(bool),
    UseGpu(bool),
    WindowWidth(String),
    WindowHeight(String),
    FontSize(String),
}

/// One rendered chat entry.
pub struct ChatMessage {
    pub role: String,
    pub content: String,
}

/// One transient notice shown to the user.
pub struct NoticeToast {
    pub id: usize,
    pub message: String,
}

} // verus!
