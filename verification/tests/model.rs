use std::collections::HashSet;

use sn_inference::config::{join_path, Config, ConfigModel, ConfigModelCommon, ConfigPaths, ConfigTokenizerCustom, LLaMAConfig, QuantizationConfig, Qwen3Config};
use sn_inference::error::Error;
use sn_inference::generation::{prefill_plan, GenerationProgress, HeaderTracker, StepAction, TokenStream};
use sn_inference::mask::{create_attention_mask, create_causal_mask, normalize_and_broadcast_mask, AttentionMask};
use sn_inference::kv_cache::KVCache;
use sn_inference::model_dims::{attention_llama_dims, attention_qwen3_dims};
use sn_inference::runner::{expand_tilde, generate_path_id, get_base_path, get_base_path_models, model_path_and_id, LoadPlan, Runner};
use sn_inference::token_info::{peak_memory_from_query, TokenGeneratedInfo};
use sn_inference::weight_names::{extract_layer_index, parse_usize, route_llama_weight, route_qwen3_block_weight, AttentionProj, LlamaWeightTarget, MlpProj, Qwen3BlockTarget, WeightParam};

fn qwen3(hidden: i32, layers: i32, heads: i32, kv: i32, head_dim: Option<i32>) -> Qwen3Config {
    Qwen3Config {
        hidden_size: hidden,
        num_hidden_layers: layers,
        num_attention_heads: heads,
        num_key_value_heads: kv,
        head_dim,
        intermediate_size: 128,
        attention_bias: false,
        eos_token_id: 2,
        vocab_size: 10,
        tie_word_embeddings: false,
        quantization: None,
        quantization_config: None,
    }
}

fn llama(hidden: i32, heads: i32, kv: i32) -> LLaMAConfig {
    LLaMAConfig {
        hidden_size: hidden,
        num_hidden_layers: 2,
        num_attention_heads: heads,
        num_key_value_heads: kv,
        intermediate_size: 128,
        attention_bias: true,
        eos_token_id: vec![1],
        vocab_size: 10,
        tie_word_embeddings: true,
        quantization: None,
    }
}

#[test]
fn causal_mask_rows_follow_the_cache() {
    let m = create_causal_mask(2, 1, None).unwrap();
    assert_eq!(m, vec![vec![true, true, false], vec![true, true, true]]);
    let w = create_causal_mask(2, 1, Some(1)).unwrap();
    assert_eq!(w, vec![vec![true, true, false], vec![false, true, true]]);
    assert_eq!(create_causal_mask(-1, 0, None), Err(Error::InvalidMaskSize { n: -1, offset: 0 }));
}

#[test]
fn attention_mask_is_causal_unless_asked() {
    assert!(matches!(create_attention_mask::<u8, u8>(4, None, false), Ok(AttentionMask::Causal)));
    match create_attention_mask::<u8, u8>(2, None, true) {
        Ok(AttentionMask::Array(rows)) => assert_eq!(rows, vec![vec![true, false], vec![true, true]]),
        other => panic!("unexpected {:?}", other),
    }
    let mut cache: KVCache<u8, u8> = KVCache::default();
    cache.update_and_fetch(&[0, 0, 0], &[0, 0, 0], 0, 0);
    cache.max_size = Some(3);
    assert!(matches!(create_attention_mask(1, Some(&cache), true), Ok(AttentionMask::Causal)));
    match create_attention_mask(2, Some(&cache), false) {
        Ok(AttentionMask::Array(rows)) => assert_eq!(rows, vec![vec![false, false, true, true, false], vec![false, false, false, true, true]]),
        other => panic!("unexpected {:?}", other),
    }
}

#[test]
fn user_masks_are_broadcast_to_four_dimensions() {
    let s = normalize_and_broadcast_mask(&vec![2, 5]).unwrap();
    assert_eq!(s.reshape, Some(vec![2, 1, 1, 5]));
    assert_eq!(s.broadcast, vec![2, 1, 5, 5]);
    assert_eq!(normalize_and_broadcast_mask(&vec![1, 2, 3, 4, 5]).unwrap_err(), Error::UnexpectedMaskShape(vec![1, 2, 3, 4, 5]));
}

#[test]
fn attention_sizes_split_the_hidden_size() {
    let d = attention_llama_dims(&llama(64, 8, 2)).unwrap();
    assert_eq!((d.head_dim, d.q_dims, d.kv_dims, d.bias), (8, 64, 16, true));
    assert!(matches!(attention_llama_dims(&llama(60, 8, 2)), Err(Error::InvalidConfig(_))));
    assert!(matches!(attention_llama_dims(&llama(64, 8, 3)), Err(Error::InvalidConfig(_))));
    let q = attention_qwen3_dims(&qwen3(64, 2, 8, 4, Some(16))).unwrap();
    assert_eq!((q.head_dim, q.q_dims, q.kv_dims), (16, 128, 64));
}

#[test]
fn qwen3_names_follow_the_published_sizes() {
    assert_eq!(qwen3(4096, 32, 32, 8, None).get_name(), "models-Qwen3-8B-Instruct-fp16");
    let mut q = qwen3(1, 1, 1, 1, None);
    q.quantization = Some(QuantizationConfig { group_size: 64, bits: 4 });
    assert_eq!(q.get_name(), "models-Qwen3-unknown-size-Instruct-4bit");
}

#[test]
fn config_paths_are_joined_to_the_root() {
    assert_eq!(join_path("/m", "config.json"), "/m/config.json");
    let p = ConfigPaths::new("/m");
    assert_eq!(p.tokenizer_path, "/m/tokenizer.json");
    let c = Config::new("/m", ConfigModel::Qwen3(qwen3(1, 1, 1, 1, None)), ConfigTokenizerCustom::default());
    assert_eq!(c.special_tokens_path, "/m/special_tokens_map.json");
    assert_eq!(c.tokenizer_custom.get_chat_template(), "");
    assert_eq!(c.tokenizer_custom.chat_template_path("/m"), Some("/m/chat_template.jinja".to_string()));
}

#[test]
fn layer_index_is_the_part_after_layers() {
    assert_eq!(extract_layer_index("model.layers.12.self_attn.q_proj.weight"), Some(12));
    assert_eq!(extract_layer_index("model.norm.weight"), None);
    assert_eq!(parse_usize("+7"), Some(7));
    assert_eq!(parse_usize("x"), None);
}

#[test]
fn llama_weights_are_routed_by_name() {
    assert_eq!(route_llama_weight("lm_head.scales", 2), Ok(LlamaWeightTarget::LmHead(WeightParam::Scales)));
    assert_eq!(route_llama_weight("model.layers.1.mlp.up_proj.weight", 2), Ok(LlamaWeightTarget::Layer(1)));
    assert_eq!(route_llama_weight("model.layers.5.mlp.up_proj.weight", 2), Err(Error::UnsupportedWeight("model.layers.5.mlp.up_proj.weight".to_string())));
    assert!(matches!(route_llama_weight("model.layers.x.mlp.up_proj.weight", 2), Err(Error::ParseIntError(_))));
    assert_eq!(route_llama_weight("something.else", 2), Ok(LlamaWeightTarget::Ignored));
}

#[test]
fn qwen3_block_weights_are_routed_by_name() {
    assert_eq!(route_qwen3_block_weight("model.layers.0.self_attn.k_proj.biases"), Ok(Qwen3BlockTarget::Attention(AttentionProj::K, WeightParam::Biases)));
    assert_eq!(route_qwen3_block_weight("model.layers.0.mlp.gate_proj.weight"), Ok(Qwen3BlockTarget::Mlp(MlpProj::Gate, WeightParam::Weight)));
    assert_eq!(route_qwen3_block_weight("model.layers.0.input_layernorm.weight"), Ok(Qwen3BlockTarget::InputLayerNorm));
    assert!(route_qwen3_block_weight("model.layers.0.unknown.weight").is_err());
}

#[test]
fn base_path_expands_home() {
    assert_eq!(expand_tilde("~/x", Some("/home/u")), "/home/u/x");
    assert_eq!(expand_tilde("/abs", Some("/home/u")), "/abs");
    assert_eq!(get_base_path(None, Some("/home/u")), "/home/u/.sanaga");
    assert_eq!(get_base_path_models(Some("/srv"), None), "/srv/models/");
}

#[test]
fn path_ids_are_the_last_ten_hex_digits() {
    assert_eq!(generate_path_id(&"abcde".to_string()), "6162636465");
    assert_eq!(generate_path_id(&"/tmp/models/x".to_string()), "656c732f78");
    let (path, id) = model_path_and_id("m", Some("/srv"), None);
    assert_eq!(path, "/srv/models/m");
    assert_eq!(id, generate_path_id(&path));
}

#[test]
fn runner_finds_and_unloads_by_id() {
    let mut r: Runner<u32> = Runner::new();
    r.add_model("a".to_string(), 1);
    r.add_model("b".to_string(), 2);
    assert_eq!(r.get_model_by_id("b"), Some(&2));
    assert_eq!(r.require_model("c"), Err(Error::ModelRuntimeNotFoundWithId("c".to_string())));
    // Only an id under which no model runs can be unloaded: nothing changes.
    r.unload_model("c");
    assert_eq!(r.models.len(), 2);
    assert_eq!(r.get_model_by_id("a"), Some(&1));
}

#[test]
fn loading_a_loaded_name_reuses_it() {
    let mut r: Runner<u32> = Runner::new();
    let plan = r.plan_load("m", Some("/srv"), None);
    let (path, id) = model_path_and_id("m", Some("/srv"), None);
    assert_eq!(plan, LoadPlan::Load { path: path.clone(), id: id.clone() });
    assert_eq!(r.finish_load(id.clone(), 7), id);
    assert_eq!(r.plan_load("m", Some("/srv"), None), LoadPlan::Reuse(id));
    assert_eq!(r.models.len(), 1);
    // Names whose paths end in the same five bytes share an id.
    assert_eq!(generate_path_id(&"/a/x-end5".to_string()), generate_path_id(&"/b/y-end5".to_string()));
}

#[test]
fn prefill_takes_whole_chunks_while_more_than_one_is_left() {
    assert_eq!(prefill_plan(128), (0, 0));
    assert_eq!(prefill_plan(129), (1, 128));
    assert_eq!(prefill_plan(300), (2, 256));
}

#[test]
fn generation_stops_on_end_of_turn() {
    let eot = HashSet::from([9u32]);
    let mut p = GenerationProgress::new(3);
    assert!(p.can_step());
    assert_eq!(p.after_token(4, &eot), StepAction::Continue { clear_cache: true });
    assert_eq!(p.after_token(5, &eot), StepAction::Continue { clear_cache: false });
    assert_eq!(p.after_token(9, &eot), StepAction::Finish);
    assert_eq!(p.total_generated_tokens, 2);
    p.after_token(6, &eot);
    assert!(!p.can_step());
}

#[test]
fn header_opens_then_closes() {
    let ids = HashSet::from([1u32, 2]);
    let mut h = HeaderTracker::new();
    h.observe(5, &ids);
    assert!(!h.has_header_start);
    h.observe(1, &ids);
    assert!(h.has_header_start && !h.has_header_end);
    h.observe(2, &ids);
    assert!(h.has_header_end);
}

#[test]
fn stream_keeps_text_outside_header_until_end_of_turn() {
    let eot = HashSet::from([9u32]);
    let headers = HashSet::from([1u32, 2]);
    let mut s = TokenStream::new();
    let token = |t: u32| {
        let mut g = TokenGeneratedInfo::default();
        g.set_token(&[t], 0);
        g
    };
    assert_eq!(s.receive(token(1), "<h>".to_string(), Ok(10), &eot, &headers), "");
    assert_eq!(s.receive(token(2), "</h>".to_string(), Ok(10), &eot, &headers), "</h>");
    assert_eq!(s.receive(token(5), "Hi".to_string(), Ok(12), &eot, &headers), "Hi");
    assert!(!s.stop);
    s.receive(token(9), "!".to_string(), Err(Error::MemoryPeakQueryFailure), &eot, &headers);
    assert!(s.stop);
    assert_eq!(s.get_text(), "</h>Hi!");
    assert_eq!(s.responses[2].peak_memory, 12);
}

#[test]
fn token_info_records_token_text_and_end() {
    let mut g = TokenGeneratedInfo::default();
    g.set_token(&[42, 7], 3);
    assert_eq!(*g.get_token(), 42);
    assert_eq!(g.generation_tokens, 3);
    g.set_text("x".to_string());
    assert_eq!(g.end(Some("stop".to_string()), Ok(99)), Ok(()));
    assert_eq!((g.peak_memory, g.finish_reason.clone()), (99, Some("stop".to_string())));
    assert_eq!(g.end(None, Err(Error::MemoryPeakQueryFailure)), Err(Error::MemoryPeakQueryFailure));
    assert_eq!(g.peak_memory, 99);
    assert_eq!(peak_memory_from_query(0, 5), Ok(5));
    assert_eq!(peak_memory_from_query(1, 5), Err(Error::MemoryPeakQueryFailure));
}
