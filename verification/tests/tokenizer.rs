use std::collections::HashSet;
use std::rc::Rc;

use sn_inference::config::{Config, ConfigModel, ConfigTokenizerCustom, LLaMAConfig, Qwen3Config};
use sn_inference::error::Error;
use sn_inference::runtime::{embedding_batch, prompt_ids};
use sn_inference::token_info::TokenGeneratedInfo;
use sn_inference::tokenizer::{eot_ids_from_config, find_token_id, flatten_ids, header_ids, HugTokenizer, Tokenizer};

const TOKENIZER_JSON: &str = r#"{
  "version": "1.0",
  "truncation": null,
  "padding": null,
  "added_tokens": [
    {"id": 3, "content": "<pad>", "single_word": false, "lstrip": false, "rstrip": false, "normalized": false, "special": true},
    {"id": 4, "content": "<|start_header_id|>", "single_word": false, "lstrip": false, "rstrip": false, "normalized": false, "special": true},
    {"id": 5, "content": "<|end_header_id|>", "single_word": false, "lstrip": false, "rstrip": false, "normalized": false, "special": true}
  ],
  "normalizer": null,
  "pre_tokenizer": {"type": "Whitespace"},
  "post_processor": null,
  "decoder": null,
  "model": {
    "type": "WordLevel",
    "vocab": {"[UNK]": 0, "hello": 1, "world": 2, "<pad>": 3, "<|start_header_id|>": 4, "<|end_header_id|>": 5},
    "unk_token": "[UNK]"
  }
}"#;

fn hug() -> HugTokenizer {
    tokenizers::Tokenizer::from_bytes(TOKENIZER_JSON.as_bytes()).unwrap().into_inner()
}

fn qwen3_config() -> Qwen3Config {
    Qwen3Config {
        hidden_size: 64,
        num_hidden_layers: 2,
        num_attention_heads: 4,
        num_key_value_heads: 2,
        head_dim: None,
        intermediate_size: 128,
        attention_bias: false,
        eos_token_id: 151645,
        vocab_size: 6,
        tie_word_embeddings: true,
        quantization: None,
        quantization_config: None,
    }
}

fn config(pad_token: Option<&str>) -> Rc<Config> {
    let custom = ConfigTokenizerCustom { chat_template: None, pad_token: pad_token.map(|s| s.to_string()) };
    Rc::new(Config::new("/models/tiny", ConfigModel::Qwen3(qwen3_config()), custom))
}

fn tokens() -> Vec<(u32, String)> {
    vec![
        (3, "<pad>".to_string()),
        (4, "<|start_header_id|>".to_string()),
        (5, "<|end_header_id|>".to_string()),
        (9, "x<|end_header_id|>y".to_string()),
    ]
}

#[test]
fn pad_token_is_taken_from_added_tokens() {
    let t = Tokenizer::new(config(Some("<pad>")), hug()).unwrap();
    assert_eq!(t.get_pad_token_id(), Some(3));
}

#[test]
fn no_pad_token_without_configured_name() {
    let t = Tokenizer::new(config(None), hug()).unwrap();
    assert_eq!(t.get_pad_token_id(), None);
}

#[test]
fn unknown_pad_name_leaves_padding_unset() {
    let t = Tokenizer::new(config(Some("<nothing>")), hug()).unwrap();
    assert_eq!(t.get_pad_token_id(), None);
}

#[test]
fn encode_and_decode_round_trip() {
    let t = Tokenizer::new(config(None), hug()).unwrap();
    let e = t.encode("hello world", true).unwrap();
    assert_eq!(e.get_ids(), &[1, 2]);
    assert_eq!(t.decode_response(&vec![1, 2], true).unwrap(), "hello world");
    // Special tokens are dropped when asked.
    assert_eq!(t.decode_response(&vec![4, 1], true).unwrap(), "hello");
}

#[test]
fn prompt_ids_are_joined_in_order() {
    let t = Tokenizer::new(config(None), hug()).unwrap();
    assert_eq!(t.encode_prompt(vec!["hello world".to_string(), "world".to_string()]).unwrap(), vec![1, 2, 2]);
}

#[test]
fn padded_batch_encodings_share_a_length() {
    let t = Tokenizer::new(config(Some("<pad>")), hug()).unwrap();
    let batch = t.encode_batch(vec!["hello world".to_string(), "world".to_string()], true).unwrap();
    assert_eq!(batch[0].get_ids(), &[1, 2]);
    assert_eq!(batch[1].get_ids(), &[2, 3]);
    assert_eq!(batch[1].get_attention_mask(), &[1, 0]);
    let padded = embedding_batch(&t, &vec!["hello".to_string(), "hello world world".to_string()]).unwrap();
    assert_eq!(padded[0].get_ids(), &[1, 3, 3]);
    assert_eq!(padded[0].get_attention_mask(), &[1, 0, 0]);
}

#[test]
fn embedding_batch_needs_pad_token() {
    let t = Tokenizer::new(config(None), hug()).unwrap();
    assert!(matches!(embedding_batch(&t, &vec!["hello".to_string()]), Err(Error::MissingPadToken)));
}

#[test]
fn empty_prompt_is_refused() {
    let t = Tokenizer::new(config(None), hug()).unwrap();
    assert_eq!(prompt_ids(&t, String::new()), Err(Error::EmptyPrompt));
    assert_eq!(prompt_ids(&t, "hello".to_string()), Ok(vec![1]));
}

#[test]
fn header_token_ids_are_the_marker_tokens() {
    let t = Tokenizer::new(config(None), hug()).unwrap();
    assert_eq!(t.header_token_ids(), HashSet::from([4, 5]));
    assert_eq!(header_ids(&tokens()), HashSet::from([4, 5, 9]));
}

#[test]
fn eot_ids_come_from_the_configuration() {
    let t = Tokenizer::new(config(None), hug()).unwrap();
    assert_eq!(t.eot_ids(), HashSet::from([151645]));
    let llama = LLaMAConfig {
        hidden_size: 64,
        num_hidden_layers: 2,
        num_attention_heads: 4,
        num_key_value_heads: 2,
        intermediate_size: 128,
        attention_bias: false,
        eos_token_id: vec![128001, 128008, 128009],
        vocab_size: 6,
        tie_word_embeddings: true,
        quantization: None,
    };
    assert_eq!(eot_ids_from_config(&ConfigModel::LLaMA(llama)), HashSet::from([128001, 128008, 128009]));
}

#[test]
fn token_id_is_found_by_content() {
    assert_eq!(find_token_id(&tokens(), &"<|end_header_id|>".to_string()), Some(5));
    assert_eq!(find_token_id(&tokens(), &"<none>".to_string()), None);
}

#[test]
fn flattened_ids_keep_their_order() {
    assert_eq!(flatten_ids(&vec![vec![1, 2], vec![], vec![3]]), vec![1, 2, 3]);
    assert_eq!(flatten_ids(&vec![]), Vec::<u32>::new());
}

#[test]
fn decoded_text_is_set_outside_the_header() {
    let t = Tokenizer::new(config(None), hug()).unwrap();
    let mut gti = TokenGeneratedInfo::default();
    gti.set_token(&[1], 0);
    t.decode_response_from_generated_token_info(&mut gti, false, false).unwrap();
    assert_eq!(gti.text, "hello");
    let mut inside = TokenGeneratedInfo::default();
    inside.set_token(&[2], 1);
    t.decode_response_from_generated_token_info(&mut inside, true, false).unwrap();
    assert_eq!(inside.text, "");
}

#[test]
fn empty_batches_encode_to_nothing() {
    let t = Tokenizer::new(config(Some("<pad>")), hug()).unwrap();
    assert_eq!(t.encode_batch(vec![], true).unwrap().len(), 0);
    assert_eq!(t.encode_prompt(vec![]).unwrap(), Vec::<u32>::new());
    assert!(matches!(embedding_batch(&t, &vec![]), Err(Error::PaddingFailedFindMax)));
}

#[test]
fn added_tokens_are_those_of_the_tokenizer() {
    let t = Tokenizer::new(config(None), hug()).unwrap();
    let mut added = t.added_tokens().clone();
    added.sort();
    assert_eq!(added, vec![(3, "<pad>".to_string()), (4, "<|start_header_id|>".to_string()), (5, "<|end_header_id|>".to_string())]);
}
