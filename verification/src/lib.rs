//! A document retrieval core: a BM25 lexical ranker over an inverted index,
//! a cosine-similarity vector ranker, and a content-addressed embedding
//! cache, together with the surrounding system's small services.

use vstd::prelude::*;

pub mod bm25;
pub mod browser;
pub mod cache;
pub mod compat;
pub mod config;
pub mod conversation;
pub mod core_types;
pub mod db;
pub mod devices;
pub mod file_access;
pub mod filemanager;
pub mod gui_types;
pub mod hal;
pub mod kernel;
pub mod libreoffice;
pub mod llm_types;
pub mod loader;
pub mod metrics;
pub mod obs_config;
pub mod ranking;
pub mod search_service;
pub mod services;
pub mod strutil;
pub mod syscall;
pub mod sysutil;
pub mod tokenizer;
pub mod tools;
pub mod vector;

verus! {

/// The smaller of two integers.
pub open spec fn spec_min(a: int, b: int) -> int {
    if a < b {
        a
    } else {
        b
    }
}

} // verus!
