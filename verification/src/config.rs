//! Configuration records (the integer- and string-valued sections) with
//! their defaults, and the well-known directories derived from the
//! platform configuration directory.

use vstd::prelude::*;
use vstd::string::StringExecFns;
use crate::sysutil::{os_config_dir, os_home_dir};
use crate::strutil::{starts_with, str_eq, spec_has_prefix, chars_of, string_of};

verus! {

#[derive(Debug)]
pub enum ConfigError {
    Read(String),
    Parse(String),
    Serialize(String),
    NoConfigDir,
}

/// Storage settings.
pub struct StorageConfig {
    pub data_dir: String,
    pub use_host_fs: bool,
    pub cache_size_mb: u64,
    pub auto_index: bool,
}

/// Window and appearance settings.
pub struct GuiConfig {
    pub window_width: u32,
    pub window_height: u32,
    pub theme: String,
    pub font_size: u16,
    pub animations: bool,
    pub message_history_limit: usize,
}

/// Access-control settings.
pub struct SecurityConfig {
    pub enable_rbac: bool,
    pub enable_sandboxing: bool,
    pub require_auth: bool,
    pub oauth_providers: Vec<String>,
    pub enable_biometrics: bool,
    pub allow_host_read: bool,
    pub allow_host_write: bool,
    pub allow_usb: bool,
    pub auto_sync_documents: bool,
    pub allowed_host_dirs: Vec<String>,
}

/// Logging and maintenance settings.
pub struct AdvancedConfig {
    pub telemetry: bool,
    pub log_level: String,
    pub crash_reporting: bool,
    pub beta_channel: bool,
    pub worker_threads: usize,
}

pub fn default_llm_url() -> (r: String)
    ensures
        r@ == "http://localhost:8000"@,
{
    "http://localhost:8000".to_owned()
}

pub fn default_model_size() -> (r: String)
    ensures
        r@ == "7b"@,
{
    "7b".to_owned()
}

pub fn default_quantization() -> (r: String)
    ensures
        r@ == "4bit"@,
{
    "4bit".to_owned()
}

pub fn default_max_tokens() -> (r: u32)
    ensures
        r == 2048,
{
    2048
}

pub fn default_cache_size() -> (r: u64)
    ensures
        r == 1024,
{
    1024
}

pub fn default_max_results() -> (r: usize)
    ensures
        r == 10,
{
    10
}

pub fn default_embedding_model() -> (r: String)
    ensures
        r@ == "bge-small-en-v1.5"@,
{
    "bge-small-en-v1.5".to_owned()
}

pub fn default_window_width() -> (r: u32)
    ensures
        r == 1280,
{
    1280
}

pub fn default_window_height() -> (r: u32)
    ensures
        r == 800,
{
    800
}

pub fn default_theme() -> (r: String)
    ensures
        r@ == "dark"@,
{
    "dark".to_owned()
}

pub fn default_font_size() -> (r: u16)
    ensures
        r == 16,
{
    16
}

pub fn default_message_history() -> (r: usize)
    ensures
        r == 1000,
{
    1000
}

pub fn default_log_level() -> (r: String)
    ensures
        r@ == "info"@,
{
    "info".to_owned()
}

pub fn default_true() -> (r: bool)
    ensures
        r,
{
    true
}

pub fn default_false() -> (r: bool)
    ensures
        !r,
{
    false
}

/// The directories a fresh installation may read and write.
pub fn default_allowed_dirs() -> (r: Vec<String>)
    ensures
        r@.len() == 3,
        r@[0]@ == "~/Documents"@,
        r@[1]@ == "~/Downloads"@,
        r@[2]@ == "~/Desktop"@,
{
    let mut v: Vec<String> = Vec::new();
    v.push("~/Documents".to_owned());
    v.push("~/Downloads".to_owned());
    v.push("~/Desktop".to_owned());
    v
}

impl Default for StorageConfig {
    /// Host filesystem on, one gigabyte of cache, auto-indexing on, data
    /// under the platform data directory.
    fn default() -> (r: StorageConfig)
        ensures
            r.use_host_fs,
            r.cache_size_mb == 1024,
            r.auto_index,
    {
        StorageConfig {
            data_dir: default_data_dir(),
            use_host_fs: true,
            cache_size_mb: default_cache_size(),
            auto_index: true,
        }
    }
}

impl Default for GuiConfig {
    fn default() -> (r: GuiConfig)
        ensures
            r.window_width == 1280,
            r.window_height == 800,
            r.theme@ == "dark"@,
            r.font_size == 16,
            r.animations,
            r.message_history_limit == 1000,
    {
        GuiConfig {
            window_width: default_window_width(),
            window_height: default_window_height(),
            theme: default_theme(),
            font_size: default_font_size(),
            animations: true,
            message_history_limit: default_message_history(),
        }
    }
}

impl Default for SecurityConfig {
    fn default() -> (r: SecurityConfig)
        ensures
            r.enable_rbac,
            r.enable_sandboxing,
            !r.require_auth,
            r.oauth_providers@.len() == 0,
            !r.enable_biometrics,
            r.allow_host_read,
            !r.allow_host_write,
            !r.allow_usb,
            !r.auto_sync_documents,
            r.allowed_host_dirs@.len() == 3,
    {
        SecurityConfig {
            enable_rbac: true,
            enable_sandboxing: true,
            require_auth: false,
            oauth_providers: Vec::new(),
            enable_biometrics: false,
            allow_host_read: true,
            allow_host_write: false,
            allow_usb: false,
            auto_sync_documents: false,
            allowed_host_dirs: default_allowed_dirs(),
        }
    }
}

impl Default for AdvancedConfig {
    fn default() -> (r: AdvancedConfig)
        ensures
            !r.telemetry,
            r.log_level@ == "info"@,
            !r.crash_reporting,
            !r.beta_channel,
            r.worker_threads == 0,
    {
        AdvancedConfig {
            telemetry: false,
            log_level: default_log_level(),
            crash_reporting: false,
            beta_channel: false,
            worker_threads: 0,
        }
    }
}

/// The base configuration directory: the platform configuration directory
/// plus `lucastra`, or a local fallback when the platform defines none.
fn resolve_config_dir() -> (r: String)
    ensures
        spec_ends_with(r@, "lucastra"@),
{
    match os_config_dir() {
        Some(base) => {
            let mut s = base;
            s.append("/lucastra");
            proof {
                reveal_strlit("/lucastra");
                reveal_strlit("lucastra");
                assert(s@.subrange(s@.len() - 8, s@.len() as int) =~= "lucastra"@);
            }
            s
        },
        None => {
            proof {
                reveal_strlit("./.lucastra");
                reveal_strlit("lucastra");
            }
            let s = "./.lucastra".to_owned();
            proof {
                assert(s@.subrange(s@.len() - 8, s@.len() as int) =~= "lucastra"@);
            }
            s
        },
    }
}

/// Whether `s` ends with `suffix`.
pub open spec fn spec_ends_with(s: Seq<char>, suffix: Seq<char>) -> bool {
    suffix.len() <= s.len() && s.subrange(s.len() - suffix.len(), s.len() as int) == suffix
}

/// The configuration root.
pub fn get_config_dir() -> (r: Result<String, ConfigError>)
    ensures
        r matches Ok(p) && spec_ends_with(p@, "lucastra"@),
{
    Ok(resolve_config_dir())
}

/// The configuration file path, under the configuration root.
pub fn get_config_file_path() -> (r: Result<String, ConfigError>)
    ensures
        r matches Ok(p) && spec_ends_with(p@, "/config.toml"@),
{
    let mut s = resolve_config_dir();
    s.append("/config.toml");
    proof {
        reveal_strlit("/config.toml");
        assert(s@.subrange(s@.len() - 12, s@.len() as int) =~= "/config.toml"@);
    }
    Ok(s)
}

/// The data directory, under the configuration root.
pub fn get_data_dir() -> (r: Result<String, ConfigError>)
    ensures
        r matches Ok(p) && spec_ends_with(p@, "/data"@),
{
    let mut s = resolve_config_dir();
    s.append("/data");
    proof {
        reveal_strlit("/data");
        assert(s@.subrange(s@.len() - 5, s@.len() as int) =~= "/data"@);
    }
    Ok(s)
}

/// The logs directory, under the configuration root.
pub fn get_logs_dir() -> (r: Result<String, ConfigError>)
    ensures
        r matches Ok(p) && spec_ends_with(p@, "/logs"@),
{
    let mut s = resolve_config_dir();
    s.append("/logs");
    proof {
        reveal_strlit("/logs");
        assert(s@.subrange(s@.len() - 5, s@.len() as int) =~= "/logs"@);
    }
    Ok(s)
}

/// The models directory, under the configuration root.
pub fn get_models_dir() -> (r: Result<String, ConfigError>)
    ensures
        r matches Ok(p) && spec_ends_with(p@, "/models"@),
{
    let mut s = resolve_config_dir();
    s.append("/models");
    proof {
        reveal_strlit("/models");
        assert(s@.subrange(s@.len() - 7, s@.len() as int) =~= "/models"@);
    }
    Ok(s)
}

/// The data directory default for `StorageConfig`.
pub fn default_data_dir() -> (r: String)
    ensures
        spec_ends_with(r@, "/data"@),
{
    let mut s = resolve_config_dir();
    s.append("/data");
    proof {
        reveal_strlit("/data");
        assert(s@.subrange(s@.len() - 5, s@.len() as int) =~= "/data"@);
    }
    s
}

/// Every configured directory expanded against one home answer.
pub open spec fn spec_expand_all(home: Option<Seq<char>>, dirs: Seq<String>) -> Seq<Seq<char>> {
    dirs.map_values(|d: String| spec_expand_dir(home, d@))
}

/// Tilde expansion against a known home directory: `~` becomes the home
/// directory, a `~/` prefix is grafted onto it, anything else is kept.
pub open spec fn spec_expand_dir(home: Option<Seq<char>>, path: Seq<char>) -> Seq<char> {
    match home {
        Some(h) => if path == "~"@ {
            h
        } else if spec_has_prefix(path, "~/"@) {
            h + "/"@ + path.skip(2)
        } else {
            path
        },
        None => path,
    }
}

/// Expands one configured directory against the given home directory.
fn expand_allowed_dir(home: &Option<String>, path: &str) -> (r: String)
    ensures
        r@ == spec_expand_dir(
            match home {
                Some(h) => Some(h@),
                None => None,
            },
            path@,
        ),
{
    proof {
        reveal_strlit("~");
        reveal_strlit("~/");
        reveal_strlit("/");
    }
    match home {
        Some(h) => {
            if str_eq(path, "~") {
                h.clone()
            } else if starts_with(path, "~/") {
                let mut s = h.clone();
                s.append("/");
                let cs = chars_of(path);
                let mut tail: Vec<char> = Vec::new();
                let mut i: usize = 2;
                proof {
                    assert(path@.len() >= 2);
                }
                while i < cs.len()
                    invariant
                        2 <= i <= cs@.len(),
                        cs@ == path@,
                        tail@ == path@.subrange(2, i as int),
                    decreases cs@.len() - i,
                {
                    tail.push(cs[i]);
                    assert(tail@ =~= path@.subrange(2, i + 1));
                    i += 1;
                }
                assert(tail@ =~= path@.skip(2));
                s.append(string_of(&tail).as_str());
                s
            } else {
                path.to_owned()
            }
        },
        None => path.to_owned(),
    }
}

impl SecurityConfig {
    /// The allowed directories with `~` expanded against the current home
    /// directory: whatever home the platform reports, every entry is
    /// expanded against that same answer.
    pub fn resolved_allowed_dirs(&self) -> (r: Vec<String>)
        ensures
            exists|home: Option<Seq<char>>|
                r@.map_values(|x: String| x@) == #[trigger] spec_expand_all(
                    home,
                    self.allowed_host_dirs@,
                ),
    {
        let home = os_home_dir();
        let ghost gh: Option<Seq<char>> = match &home {
            Some(h) => Some(h@),
            None => None,
        };
        let mut out: Vec<String> = Vec::new();
        let mut i: usize = 0;
        while i < self.allowed_host_dirs.len()
            invariant
                i <= self.allowed_host_dirs@.len(),
                out@.len() == i,
                gh == (match &home {
                    Some(h) => Some(h@),
                    None => None::<Seq<char>>,
                }),
                forall|j: int|
                    0 <= j < i ==> (#[trigger] out@[j])@ == spec_expand_dir(
                        gh,
                        self.allowed_host_dirs@[j]@,
                    ),
            decreases self.allowed_host_dirs@.len() - i,
        {
            let e = expand_allowed_dir(&home, self.allowed_host_dirs[i].as_str());
            out.push(e);
            i += 1;
        }
        proof {
            assert(out@.map_values(|x: String| x@) =~= spec_expand_all(
                gh,
                self.allowed_host_dirs@,
            ));
        }
        out
    }
}

} // verus!
