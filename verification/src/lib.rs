//! Verified core of an on-device inference runtime: scanning of safetensors
//! headers, key/value cache bookkeeping, attention masks, prompt templates and
//! the bookkeeping around token generation.
use vstd::prelude::*;

pub mod ann;
pub mod config;
pub mod debug_format;
pub mod device_info;
pub mod encoding;
pub mod error;
pub mod generation;
pub mod json_scan;
pub mod kv_cache;
pub mod mask;
pub mod model_dims;
pub mod runner;
pub mod runtime;
pub mod safetensors;
pub mod template;
pub mod token_info;
pub mod tokenizer;
pub mod weight_names;
pub mod text;

verus! {

} // verus!
