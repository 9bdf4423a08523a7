use sn_inference::config::{Config, ConfigModel, ConfigTokenizerCustom, Qwen3Config};
use sn_inference::error::Error;
use sn_inference::template::{build_context, convert_python_to_rust_template, ChatTemplate};

fn config(template: &str) -> Config {
    let model = Qwen3Config {
        hidden_size: 64,
        num_hidden_layers: 2,
        num_attention_heads: 4,
        num_key_value_heads: 2,
        head_dim: None,
        intermediate_size: 128,
        attention_bias: false,
        eos_token_id: 2,
        vocab_size: 10,
        tie_word_embeddings: true,
        quantization: None,
        quantization_config: None,
    };
    let custom = ConfigTokenizerCustom { chat_template: Some(template.to_string()), pad_token: None };
    Config::new("/m", ConfigModel::Qwen3(model), custom)
}

#[test]
fn python_idioms_are_rewritten() {
    let t = "{{ message.content.startswith('<tool_response>') }}|{{ message.content.endswith('</tool_response>') }}";
    assert_eq!(
        convert_python_to_rust_template(t),
        "{{ message.content[:15] == '<tool_response>' }}|{{ message.content[-16:] == '</tool_response>' }}"
    );
    let think = "{{ message.content.split('</think>')[-1].lstrip('\\n') }}";
    assert_eq!(convert_python_to_rust_template(think), "{{ (message.content | split('</think>'))[-1] | trim }}");
}

#[test]
fn context_is_framed_as_one_json_object() {
    assert_eq!(build_context("[]", None, None, None), r#"{"messages":[]}"#);
    assert_eq!(
        build_context("[1]", Some("[2]"), Some("[3]"), Some(true)),
        r#"{"messages":[1],"custom_tools":[2],"documents":[3],"add_generation_prompt":{"add_generation_prompt":true}}"#
    );
    let v: serde_json::Value = serde_json::from_str(&build_context("[]", None, Some("[]"), Some(false))).unwrap();
    assert!(v.get("documents").is_some());
}

#[test]
fn chat_template_renders_messages() {
    let template = ChatTemplate::new(&config(
        "{% for m in messages %}<{{ m.role }}>{{ m.content }}{% endfor %}{% if add_generation_prompt %}<assistant>{% endif %}",
    ))
    .unwrap();
    let messages = r#"[{"role":"user","content":"hi"},{"role":"assistant","content":"yo"}]"#;
    assert_eq!(template.apply_chat_template(messages, None, None).unwrap(), "<user>hi<assistant>yo<assistant>");
    assert_eq!(template.render_chat_template(messages, None, None, None).unwrap(), "<user>hi<assistant>yo");
}

#[test]
fn template_errors_are_reported() {
    let broken = ChatTemplate::new(&config("{% for m in messages %}")).unwrap();
    assert!(matches!(broken.apply_chat_template("[]", None, None), Err(Error::MiniJinjaError(_))));
}

#[test]
fn template_is_registered_as_chat() {
    let t = ChatTemplate::new(&config("x")).unwrap();
    assert_eq!(t.name(), "chat");
    assert_eq!(t.template(), "x");
}
