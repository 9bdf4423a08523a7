//! Model configuration: the files a model directory holds, the fields of the
//! model configuration that the runtime reads, and the name it shows.
use vstd::prelude::*;
use vstd::string::StrSliceExecFns;
use vstd::string::StringExecFns;

verus! {

/// `name` appended to the directory `root`, with a single separator between
/// them: nothing is added to an empty root or to one that already ends in `/`.
pub open spec fn path_join(root: Seq<char>, name: Seq<char>) -> Seq<char> {
    if root.len() == 0 {
        name
    } else if root.last() == '/' {
        root + name
    } else {
        root + seq!['/'] + name
    }
}

/// Joins a relative file name onto a directory path.
pub fn join_path(root: &str, name: &str) -> (r: String)
    ensures
        r@ == path_join(root@, name@),
{
    let n = root.unicode_len();
    let mut out = root.to_owned();
    if n > 0 && root.get_char(n - 1) != '/' {
        let sep = "/";
        proof {
            reveal_strlit("/");
        }
        out.append(sep);
    }
    out.append(name);
    out
}

/// The files of a model directory that the configuration is read from.
#[derive(Debug, Clone)]
pub struct ConfigPaths {
    pub root_path: String,
    pub config_path: String,
    pub tokenizer_path: String,
    pub tokenizer_custom_path: String,
    pub tokenizer_vocab_path: String,
    pub special_tokens_path: String,
}

impl ConfigPaths {
    /// The configuration files under the model directory `path`.
    pub fn new(path: &str) -> (r: ConfigPaths)
        ensures
            r.root_path@ == path@,
            r.config_path@ == path_join(path@, "config.json"@),
            r.tokenizer_path@ == path_join(path@, "tokenizer.json"@),
            r.tokenizer_custom_path@ == path_join(path@, "tokenizer_config.json"@),
            r.tokenizer_vocab_path@ == path_join(path@, "vocab.json"@),
            r.special_tokens_path@ == path_join(path@, "special_tokens_map.json"@),
    {
        ConfigPaths {
            root_path: path.to_owned(),
            config_path: join_path(path, "config.json"),
            tokenizer_path: join_path(path, "tokenizer.json"),
            tokenizer_custom_path: join_path(path, "tokenizer_config.json"),
            tokenizer_vocab_path: join_path(path, "vocab.json"),
            special_tokens_path: join_path(path, "special_tokens_map.json"),
        }
    }
}

/// Quantization settings of a model.
#[derive(Debug, Clone, Copy)]
pub struct QuantizationConfig {
    pub group_size: i32,
    pub bits: i32,
}

/// The fields of a Qwen3 configuration that the runtime's logic reads.
#[derive(Debug, Clone)]
pub struct Qwen3Config {
    pub hidden_size: i32,
    pub num_hidden_layers: i32,
    pub num_attention_heads: i32,
    pub num_key_value_heads: i32,
    pub head_dim: Option<i32>,
    pub intermediate_size: i32,
    pub attention_bias: bool,
    pub eos_token_id: i32,
    pub vocab_size: i32,
    pub tie_word_embeddings: bool,
    pub quantization: Option<QuantizationConfig>,
    pub quantization_config: Option<QuantizationConfig>,
}

/// The rope scaling section of a Qwen3 configuration; it holds no field.
#[derive(Debug, Clone, Copy)]
pub struct Qwen3RopeScalingConfig {}

/// The fields of a LLaMA configuration that the runtime's logic reads.
#[derive(Debug, Clone)]
pub struct LLaMAConfig {
    pub hidden_size: i32,
    pub num_hidden_layers: i32,
    pub num_attention_heads: i32,
    pub num_key_value_heads: i32,
    pub intermediate_size: i32,
    pub attention_bias: bool,
    pub eos_token_id: Vec<i32>,
    pub vocab_size: i32,
    pub tie_word_embeddings: bool,
    pub quantization: Option<QuantizationConfig>,
}

/// The configuration of one of the supported model families.
#[derive(Debug, Clone)]
pub enum ConfigModel {
    LLaMA(LLaMAConfig),
    Qwen3(Qwen3Config),
}

/// The model families a configuration can describe.
#[derive(Debug, Clone, Copy, PartialEq, Eq)]
pub enum ModelFamily {
    LLaMA,
    Qwen3,
}

/// Why a model configuration names no family this library reads.
#[derive(Debug, Clone, PartialEq, Eq)]
pub enum FamilyError {
    /// The configuration has no textual `model_type`.
    MissingModelType,
    /// The `model_type` names a family that is not supported.
    UnknownModelType(String),
}

/// The family a `model_type` names.
pub open spec fn family_of(model_type: Option<Seq<char>>) -> Option<ModelFamily> {
    match model_type {
        Some(t) => if t == "llama"@ {
            Some(ModelFamily::LLaMA)
        } else if t == "qwen3"@ {
            Some(ModelFamily::Qwen3)
        } else {
            None
        },
        None => None,
    }
}

/// The family of a configuration from its `model_type` field (`None` where
/// the field is absent or not text): `llama` or `qwen3`.
pub fn model_family(model_type: Option<&str>) -> (r: Result<ModelFamily, FamilyError>)
    ensures
        match model_type {
            None => r == Err::<ModelFamily, FamilyError>(FamilyError::MissingModelType),
            Some(t) => match family_of(Some(t@)) {
                Some(f) => r == Ok::<ModelFamily, FamilyError>(f),
                None => r matches Err(FamilyError::UnknownModelType(u)) && u@ == t@,
            },
        },
{
    match model_type {
        None => Err(FamilyError::MissingModelType),
        Some(t) => {
            proof {
                reveal_strlit("llama");
                reveal_strlit("qwen3");
            }
            if text_equals(t, "llama") {
                Ok(ModelFamily::LLaMA)
            } else if text_equals(t, "qwen3") {
                Ok(ModelFamily::Qwen3)
            } else {
                Err(FamilyError::UnknownModelType(t.to_owned()))
            }
        },
    }
}

/// Whether two texts are equal.
fn text_equals(a: &str, b: &str) -> (r: bool)
    ensures
        r == (a@ == b@),
{
    let n = a.unicode_len();
    if n != b.unicode_len() {
        return false;
    }
    let mut i: usize = 0;
    while i < n
        invariant
            n == a@.len(),
            n == b@.len(),
            i <= n,
            forall|j: int| 0 <= j < i ==> a@[j] == b@[j],
        decreases n - i,
    {
        if a.get_char(i) != b.get_char(i) {
            return false;
        }
        i = i + 1;
    }
    assert(a@ =~= b@);
    true
}

/// What every model configuration can say about itself.
pub trait ConfigModelCommon {
    fn get_name(&self) -> String;
}

/// The size label that a Qwen3 model of the given shape is published under.
pub open spec fn qwen3_size_label(hidden_size: i32, num_hidden_layers: i32) -> Seq<char> {
    if hidden_size == 4096 && num_hidden_layers == 32 {
        "8B"@
    } else if hidden_size == 5120 && num_hidden_layers == 40 {
        "13B"@
    } else if hidden_size == 6656 && num_hidden_layers == 60 {
        "70B"@
    } else {
        "unknown-size"@
    }
}

/// The display name of a Qwen3 model.
pub open spec fn qwen3_model_name(c: Qwen3Config) -> Seq<char> {
    let quant = if c.quantization is Some || c.quantization_config is Some {
        "4bit"@
    } else {
        "fp16"@
    };
    "models-"@ + "Qwen3"@ + "-"@ + qwen3_size_label(c.hidden_size, c.num_hidden_layers) + "-"@
        + "Instruct"@ + "-"@ + quant
}

impl ConfigModelCommon for Qwen3Config {
    fn get_name(&self) -> (r: String)
        ensures
            r@ == qwen3_model_name(*self),
    {
        let size = if self.hidden_size == 4096 && self.num_hidden_layers == 32 {
            "8B"
        } else if self.hidden_size == 5120 && self.num_hidden_layers == 40 {
            "13B"
        } else if self.hidden_size == 6656 && self.num_hidden_layers == 60 {
            "70B"
        } else {
            "unknown-size"
        };
        let quant = if self.quantization.is_some() || self.quantization_config.is_some() {
            "4bit"
        } else {
            "fp16"
        };
        let mut name = String::new();
        name.append("models-");
        name.append("Qwen3");
        name.append("-");
        name.append(size);
        name.append("-");
        name.append("Instruct");
        name.append("-");
        name.append(quant);
        name
    }
}


/// Settings read from `tokenizer_config.json`.
#[derive(Debug, Clone)]
pub struct ConfigTokenizerCustom {
    pub chat_template: Option<String>,
    pub pad_token: Option<String>,
}

impl Default for ConfigTokenizerCustom {
    fn default() -> (r: ConfigTokenizerCustom)
        ensures
            r.chat_template is None,
            r.pad_token is None,
    {
        ConfigTokenizerCustom { chat_template: None, pad_token: None }
    }
}

const DEFAULT_CHAT_TEMPLATE: &'static str = "";

/// The chat template of a tokenizer configuration, empty when it has none.
pub open spec fn chat_template_text(c: ConfigTokenizerCustom) -> Seq<char> {
    match c.chat_template {
        Some(t) => t@,
        None => Seq::empty(),
    }
}

/// The file a model directory keeps its chat template in when the tokenizer
/// configuration does not hold one.
pub open spec fn chat_template_file(root_path: Seq<char>) -> Seq<char> {
    root_path + "/chat_template.jinja"@
}

impl ConfigTokenizerCustom {
    /// The chat template, or the empty template when there is none.
    pub fn get_chat_template(&self) -> (r: &str)
        ensures
            r@ == chat_template_text(*self),
    {
        if let Some(chat) = &self.chat_template {
            chat.as_str()
        } else {
            proof {
                reveal_strlit("");
            }
            DEFAULT_CHAT_TEMPLATE
        }
    }

    /// The file to read the chat template from: only when the configuration
    /// holds none, and then `chat_template.jinja` under `root_path`.
    pub fn chat_template_path(&self, root_path: &str) -> (r: Option<String>)
        ensures
            self.chat_template is Some ==> r is None,
            self.chat_template is None ==> (r matches Some(p) && p@ == chat_template_file(root_path@)),
    {
        if self.chat_template.is_none() {
            let mut path = root_path.to_owned();
            path.append("/chat_template.jinja");
            Some(path)
        } else {
            None
        }
    }

    /// Fills in the chat template read from the model directory.
    pub fn set_chat_template(&mut self, template: String)
        ensures
            final(self).chat_template == Some(template),
            final(self).pad_token == old(self).pad_token,
    {
        self.chat_template = Some(template);
    }
}

/// The configuration of a model directory.
#[derive(Debug, Clone)]
pub struct Config {
    pub model: ConfigModel,
    pub tokenizer_custom: ConfigTokenizerCustom,
    pub root_path: String,
    pub tokenizer_custom_path: String,
    pub tokenizer_path: String,
    pub tokenizer_vocab_path: String,
    pub special_tokens_path: String,
}

impl Config {
    /// The configuration of the model directory `path`, from its model and
    /// tokenizer settings.
    pub fn new(path: &str, model: ConfigModel, tokenizer_custom: ConfigTokenizerCustom) -> (r:
        Config)
        ensures
            r.model == model,
            r.tokenizer_custom == tokenizer_custom,
            r.root_path@ == path@,
            r.tokenizer_path@ == path_join(path@, "tokenizer.json"@),
            r.tokenizer_custom_path@ == path_join(path@, "tokenizer_config.json"@),
            r.tokenizer_vocab_path@ == path_join(path@, "vocab.json"@),
            r.special_tokens_path@ == path_join(path@, "special_tokens_map.json"@),
    {
        let paths = ConfigPaths::new(path);
        Config {
            model,
            tokenizer_custom,
            root_path: paths.root_path,
            tokenizer_custom_path: paths.tokenizer_custom_path,
            tokenizer_path: paths.tokenizer_path,
            tokenizer_vocab_path: paths.tokenizer_vocab_path,
            special_tokens_path: paths.special_tokens_path,
        }
    }
}

} // verus!
