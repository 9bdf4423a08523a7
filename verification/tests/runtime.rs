use sn_inference::config::{model_family, FamilyError, ModelFamily};
use sn_inference::config::QuantizationConfig;
use sn_inference::error::Error;
use sn_inference::runtime::{
    check_prompt, find_model_path_in, is_readme_name, keeps_weight, quantization_params, sanitize_names,
    similarity_inputs, starts_with_readme, supports_quantization, FileEntry, EMB_TASK_QUERY,
};

fn entry(name: Option<&str>, parent: Option<&str>) -> FileEntry {
    FileEntry { name: name.map(|s| s.to_string()), parent: parent.map(|s| s.to_string()) }
}

#[test]
fn readme_names_are_recognised_in_any_case() {
    assert!(is_readme_name("README.md"));
    assert!(is_readme_name("ReadMe"));
    assert!(is_readme_name("readme.txt"));
    assert!(!is_readme_name("config.json"));
    assert!(!is_readme_name("read.me"));
    assert!(starts_with_readme("readme.md"));
    assert!(!starts_with_readme("README.md"));
}

#[test]
fn model_directory_is_that_of_the_first_card() {
    let entries = vec![
        entry(Some("config.json"), Some("/root/a")),
        entry(None, Some("/root/x")),
        entry(Some("README.md"), Some("/root/a/b")),
        entry(Some("readme"), Some("/root/c")),
    ];
    assert_eq!(find_model_path_in(&entries, "/root"), Ok("/root/a/b".to_string()));
}

#[test]
fn root_without_card_holds_no_model() {
    let entries = vec![entry(Some("model.safetensors"), Some("/root"))];
    assert_eq!(find_model_path_in(&entries, "/root"), Err(Error::RootModelPathNotFound("/root".to_string())));
    let orphan = vec![entry(Some("README"), None)];
    assert_eq!(find_model_path_in(&orphan, "/"), Err(Error::RootModelPathNotFound("/".to_string())));
}

#[test]
fn sanitize_drops_rotary_frequencies_and_tied_head() {
    assert!(!keeps_weight("model.layers.0.self_attn.rotary_emb.inv_freq", false));
    assert!(!keeps_weight("lm_head.weight", true));
    assert!(keeps_weight("lm_head.weight", false));
    assert!(keeps_weight("lm_head.weights", true));
    let names: Vec<String> = vec![
        "model.embed_tokens.weight",
        "lm_head.weight",
        "model.layers.3.self_attn.rotary_emb.inv_freq",
        "model.norm.weight",
    ]
    .into_iter()
    .map(String::from)
    .collect();
    assert_eq!(sanitize_names(&names, true), vec!["model.embed_tokens.weight".to_string(), "model.norm.weight".to_string()]);
    assert_eq!(sanitize_names(&names, false).len(), 3);
}

#[test]
fn quantization_defaults_to_groups_of_64_with_4_bits() {
    assert_eq!(quantization_params(&None), (64, 4));
    let q = Some(QuantizationConfig { group_size: 32, bits: 8 });
    assert_eq!(quantization_params(&q), (32, 8));
    assert!(supports_quantization(&q));
    assert!(!supports_quantization(&None));
}

#[test]
fn similarity_inputs_put_queries_first() {
    let r = similarity_inputs(&vec!["q1".to_string()], &vec!["d1".to_string(), "d2".to_string()]);
    assert_eq!(r, vec![format!("{}q1", EMB_TASK_QUERY), "d1".to_string(), "d2".to_string()]);
    assert!(r[0].starts_with("Instruct: Given a web search query"));
}

#[test]
fn prompt_check_refuses_empty_prompts() {
    assert_eq!(check_prompt(vec![]), Err(Error::EmptyPrompt));
    assert_eq!(check_prompt(vec![5, 6]), Ok(vec![5, 6]));
}

#[test]
fn model_family_comes_from_model_type() {
    assert_eq!(model_family(Some("llama")), Ok(ModelFamily::LLaMA));
    assert_eq!(model_family(Some("qwen3")), Ok(ModelFamily::Qwen3));
    assert_eq!(model_family(Some("mistral")), Err(FamilyError::UnknownModelType("mistral".to_string())));
    assert_eq!(model_family(None), Err(FamilyError::MissingModelType));
}
