//! The model's tokenizer: encoding prompts into token ids, decoding ids into
//! text, and the token ids that the generation loop watches for.
use vstd::prelude::*;
use std::collections::HashSet;
use std::rc::Rc;
use crate::config::{Config, ConfigModel};
use crate::encoding::SimpleEncoding;
use crate::error::{Error, Result};
use crate::generation::decode_response_from_generated_token_info;
use crate::text::{contains_seq, contains_str};
use crate::token_info::TokenGeneratedInfo;

verus! {

broadcast use vstd::std_specs::hash::group_hash_axioms;

#[verifier::external_type_specification]
#[verifier::external_body]
#[verifier::reject_recursive_types(M)]
#[verifier::reject_recursive_types(N)]
#[verifier::reject_recursive_types(PT)]
#[verifier::reject_recursive_types(PP)]
#[verifier::reject_recursive_types(D)]
pub struct ExTokenizerImpl<M, N, PT, PP, D>(tokenizers::TokenizerImpl<M, N, PT, PP, D>);

#[verifier::external_type_specification]
#[verifier::external_body]
pub struct ExModelWrapper(tokenizers::models::ModelWrapper);

#[verifier::external_type_specification]
#[verifier::external_body]
pub struct ExNormalizerWrapper(tokenizers::normalizers::NormalizerWrapper);

#[verifier::external_type_specification]
#[verifier::external_body]
pub struct ExPreTokenizerWrapper(tokenizers::pre_tokenizers::PreTokenizerWrapper);

#[verifier::external_type_specification]
#[verifier::external_body]
pub struct ExPostProcessorWrapper(tokenizers::processors::PostProcessorWrapper);

#[verifier::external_type_specification]
#[verifier::external_body]
pub struct ExDecoderWrapper(tokenizers::decoders::DecoderWrapper);

/// The tokenizer of the `tokenizers` crate with the components that a
/// tokenizer file describes.
pub type HugTokenizer = tokenizers::TokenizerImpl<
    tokenizers::models::ModelWrapper,
    tokenizers::normalizers::NormalizerWrapper,
    tokenizers::pre_tokenizers::PreTokenizerWrapper,
    tokenizers::processors::PostProcessorWrapper,
    tokenizers::decoders::DecoderWrapper,
>;

/// The pad id of the padding parameters that
/// `tokenizers::TokenizerImpl::get_padding` gives for `tool`, `None` when it has
/// none: a field of the tokenizer value.
pub uninterp spec fn pad_id_of(tool: HugTokenizer) -> Option<u32>;

/// The added tokens of `tool`, by id, as
/// `tokenizers::TokenizerImpl::get_added_tokens_decoder` holds them: each id with
/// the content of its token.
pub uninterp spec fn added_token_map(tool: HugTokenizer) -> Map<u32, Seq<char>>;

/// The text that `tokenizers::TokenizerImpl::decode` gives for `ids` with `tool`,
/// `None` where it fails. Decoding maps each id to its token through the added
/// vocabulary and the model and runs the decoder on them; none of these draws
/// on chance, so the text depends on the tokenizer value and the arguments
/// alone.
pub uninterp spec fn decoded_text(tool: HugTokenizer, ids: Seq<u32>, skip_special_tokens: bool) -> Option<Seq<char>>;

/// `tokenizers::TokenizerImpl::get_padding`: the pad id of the tokenizer's
/// padding parameters, if it has any.
#[verifier::external_body]
fn padding_id(tool: &HugTokenizer) -> (r: Option<u32>)
    ensures
        r == pad_id_of(*tool),
{
    tool.get_padding().map(|params| params.pad_id)
}

/// `tokenizers::TokenizerImpl::get_added_tokens_decoder`: each added token as its
/// id and its content, every entry of the map once, in the order in which
/// the map is walked (which is not promised).
#[verifier::external_body]
fn added_tokens_of(tool: &HugTokenizer) -> (r: Vec<(u32, String)>)
    ensures
        forall|i: int| 0 <= i < r@.len() ==> added_token_map(*tool).contains_key((#[trigger] r@[i]).0)
            && added_token_map(*tool)[r@[i].0] == r@[i].1@,
        forall|i: int, j: int| 0 <= i < j < r@.len() ==> (#[trigger] r@[i]).0 != (#[trigger] r@[j]).0,
        forall|k: u32| #[trigger] added_token_map(*tool).contains_key(k) ==> exists|i: int| 0 <= i < r@.len() && (#[trigger] r@[i]).0 == k,
{
    tool.get_added_tokens_decoder().into_iter().map(|(id, token)| (id, token.content)).collect()
}

/// `tokenizers::TokenizerImpl::with_padding` with the default padding parameters
/// of the `tokenizers` crate and `pad_id` as their pad id. It sets the padding
/// field alone: the added tokens and decoding, which do not read it, stay as
/// they were.
#[verifier::external_body]
fn set_padding_id(tool: &mut HugTokenizer, pad_id: u32)
    ensures
        pad_id_of(*final(tool)) == Some(pad_id),
        added_token_map(*final(tool)) == added_token_map(*old(tool)),
        forall|ids: Seq<u32>, skip: bool| #[trigger] decoded_text(*final(tool), ids, skip) == decoded_text(*old(tool), ids, skip),
{
    let params = tokenizers::PaddingParams { pad_id, ..Default::default() };
    tool.with_padding(Some(params));
}

/// The ids and attention mask of each encoding that
/// `tokenizers::TokenizerImpl::encode_batch` makes of `inputs`, or the text of its
/// error. The source encodes each input into one encoding, in order, and
/// every encoding carries one attention-mask entry per id (the model, the
/// post-processors, truncation and padding extend or cut both alike); the ids
/// themselves are not named: the model may draw on chance (BPE dropout,
/// unigram sampling), so equal arguments need not give equal ids. An empty
/// batch of inputs always succeeds.
#[verifier::external_body]
fn encode_batch_raw(tool: &HugTokenizer, inputs: Vec<String>, add_special_tokens: bool) -> (r: core::result::Result<Vec<(Vec<u32>, Vec<u32>)>, String>)
    ensures
        inputs@.len() == 0 ==> r is Ok,
        r matches Ok(v) ==> v@.len() == inputs@.len(),
        r matches Ok(v) ==> forall|i: int| 0 <= i < v@.len() ==> (#[trigger] v@[i]).0@.len() == v@[i].1@.len(),
{
    match tool.encode_batch(inputs, add_special_tokens) {
        Ok(encodings) => Ok(encodings.iter().map(|e| (e.get_ids().to_vec(), e.get_attention_mask().to_vec())).collect()),
        Err(e) => Err(e.to_string()),
    }
}

/// The ids and attention mask of the encoding that
/// `tokenizers::TokenizerImpl::encode` makes of `input`, or the text of its error.
/// The encoding carries one attention-mask entry per id, as every encoding the
/// source builds does; the ids are not named, as the model may draw on chance
/// (BPE dropout, unigram sampling).
#[verifier::external_body]
fn encode_raw(tool: &HugTokenizer, input: &str, add_special_tokens: bool) -> (r: core::result::Result<(Vec<u32>, Vec<u32>), String>)
    ensures
        r matches Ok(e) ==> e.0@.len() == e.1@.len(),
{
    match tool.encode(input, add_special_tokens) {
        Ok(e) => Ok((e.get_ids().to_vec(), e.get_attention_mask().to_vec())),
        Err(e) => Err(e.to_string()),
    }
}

/// `tokenizers::TokenizerImpl::decode`: the text of `ids`, or the text of its
/// error.
#[verifier::external_body]
fn decode_raw(tool: &HugTokenizer, ids: &[u32], skip_special_tokens: bool) -> (r: core::result::Result<String, String>)
    ensures
        match decoded_text(*tool, ids@, skip_special_tokens) {
            Some(t) => r matches Ok(s) && s@ == t,
            None => r is Err,
        },
{
    tool.decode(ids, skip_special_tokens).map_err(|e| e.to_string())
}

/// Whether some token of `tokens` has exactly the content `content`.
pub open spec fn has_token_with_content(tokens: Seq<(u32, String)>, content: Seq<char>) -> bool {
    exists|i: int| 0 <= i < tokens.len() && (#[trigger] tokens[i]).1@ == content
}

/// The id of the first token of `tokens`, from index `from` on, whose content
/// is `content`.
pub open spec fn first_id_with(tokens: Seq<(u32, String)>, content: Seq<char>, from: int) -> Option<u32>
    decreases tokens.len() - from,
{
    if from < 0 || from >= tokens.len() {
        None
    } else if tokens[from].1@ == content {
        Some(tokens[from].0)
    } else {
        first_id_with(tokens, content, from + 1)
    }
}

/// The pad id a tokenizer ends up with: the one of its own padding
/// parameters, else the id of the first added token whose content is the
/// configured pad token.
pub open spec fn pad_decision(own: Option<u32>, pad_token: Option<String>, tokens: Seq<(u32, String)>) -> Option<u32> {
    match own {
        Some(p) => Some(p),
        None => match pad_token {
            Some(c) => first_id_with(tokens, c@, 0),
            None => None,
        },
    }
}

/// The id of the first token of `tokens` whose content is `content`, if
/// there is one.
pub fn find_token_id(tokens: &Vec<(u32, String)>, content: &String) -> (r: Option<u32>)
    ensures
        r == first_id_with(tokens@, content@, 0),
        r is None <==> !has_token_with_content(tokens@, content@),
        r matches Some(id) ==> exists|i: int| 0 <= i < tokens@.len() && #[trigger] tokens@[i] == (id, tokens@[i].1) && tokens@[i].1@ == content@,
{
    let mut i: usize = 0;
    while i < tokens.len()
        invariant
            i <= tokens@.len(),
            forall|j: int| 0 <= j < i ==> (#[trigger] tokens@[j]).1@ != content@,
            first_id_with(tokens@, content@, 0) == first_id_with(tokens@, content@, i as int),
        decreases tokens@.len() - i,
    {
        if tokens[i].1.eq(content) {
            assert(tokens@[i as int] == (tokens@[i as int].0, tokens@[i as int].1));
            return Some(tokens[i].0);
        }
        i = i + 1;
    }
    None
}

/// Whether the content of a token marks the start or the end of a message
/// header.
pub open spec fn is_header_content(content: Seq<char>) -> bool {
    contains_seq(content, "<|start_header_id|>"@) || contains_seq(content, "<|end_header_id|>"@)
}

/// The ids of the tokens of `tokens` whose content marks a message header.
pub open spec fn header_ids_of(tokens: Seq<(u32, String)>) -> Set<u32> {
    Set::new(|id: u32| exists|i: int| 0 <= i < tokens.len() && (#[trigger] tokens[i]).0 == id && is_header_content(tokens[i].1@))
}

/// The ids of the tokens that mark the start or the end of a message header.
pub fn header_ids(tokens: &Vec<(u32, String)>) -> (r: HashSet<u32>)
    ensures
        r@ == header_ids_of(tokens@),
{
    let mut r: HashSet<u32> = HashSet::new();
    let mut i: usize = 0;
    while i < tokens.len()
        invariant
            i <= tokens@.len(),
            r@ == Set::new(|id: u32| exists|j: int| 0 <= j < i && (#[trigger] tokens@[j]).0 == id && is_header_content(tokens@[j].1@)),
        decreases tokens@.len() - i,
    {
        let content = tokens[i].1.as_str();
        if contains_str(content, "<|start_header_id|>") || contains_str(content, "<|end_header_id|>") {
            r.insert(tokens[i].0);
        }
        proof {
            assert forall|id: u32| r@.contains(id) <==> exists|j: int| 0 <= j < i + 1 && (#[trigger] tokens@[j]).0 == id && is_header_content(tokens@[j].1@) by {
                if exists|j: int| 0 <= j < i + 1 && (#[trigger] tokens@[j]).0 == id && is_header_content(tokens@[j].1@) {
                    let j = choose|j: int| 0 <= j < i + 1 && (#[trigger] tokens@[j]).0 == id && is_header_content(tokens@[j].1@);
                    if j < i {
                    }
                }
            }
        }
        i = i + 1;
        assert(r@ =~= Set::new(|id: u32| exists|j: int| 0 <= j < i && (#[trigger] tokens@[j]).0 == id && is_header_content(tokens@[j].1@)));
    }
    assert(r@ =~= header_ids_of(tokens@));
    r
}

/// The ids that end a turn of the model, as its configuration lists them.
pub open spec fn eot_ids_of(model: ConfigModel) -> Set<u32> {
    match model {
        ConfigModel::LLaMA(c) => Set::new(|id: u32| exists|i: int| 0 <= i < c.eos_token_id@.len() && id == #[trigger] c.eos_token_id@[i] as u32),
        ConfigModel::Qwen3(c) => set![c.eos_token_id as u32],
    }
}

/// The ids that end a turn of the model described by `model`.
pub fn eot_ids_from_config(model: &ConfigModel) -> (r: HashSet<u32>)
    ensures
        r@ == eot_ids_of(*model),
{
    let mut r: HashSet<u32> = HashSet::new();
    match model {
        ConfigModel::LLaMA(c) => {
            let ids = &c.eos_token_id;
            let mut i: usize = 0;
            while i < ids.len()
                invariant
                    i <= ids@.len(),
                    r@ == Set::new(|id: u32| exists|j: int| 0 <= j < i && id == #[trigger] ids@[j] as u32),
                decreases ids@.len() - i,
            {
                r.insert(ids[i] as u32);
                i = i + 1;
                assert(r@ =~= Set::new(|id: u32| exists|j: int| 0 <= j < i && id == #[trigger] ids@[j] as u32));
            }
        },
        ConfigModel::Qwen3(c) => {
            r.insert(c.eos_token_id as u32);
            assert(r@ =~= set![c.eos_token_id as u32]);
        },
    }
    r
}

/// The token ids of a batch of encodings, one encoding after another.
pub open spec fn flattened(ids: Seq<Vec<u32>>) -> Seq<u32>
    decreases ids.len(),
{
    if ids.len() == 0 {
        Seq::empty()
    } else {
        flattened(ids.drop_last()) + ids.last()@
    }
}

/// Joins the token ids of a batch of encodings into one list, in order.
pub fn flatten_ids(ids: &Vec<Vec<u32>>) -> (r: Vec<u32>)
    ensures
        r@ == flattened(ids@),
{
    let mut r: Vec<u32> = Vec::new();
    let mut i: usize = 0;
    while i < ids.len()
        invariant
            i <= ids@.len(),
            r@ == flattened(ids@.take(i as int)),
        decreases ids@.len() - i,
    {
        let part = &ids[i];
        let mut k: usize = 0;
        let ghost before = r@;
        while k < part.len()
            invariant
                k <= part@.len(),
                r@ == before + part@.take(k as int),
            decreases part@.len() - k,
        {
            r.push(part[k]);
            k = k + 1;
            assert(r@ =~= before + part@.take(k as int));
        }
        assert(ids@.take(i + 1).drop_last() =~= ids@.take(i as int));
        assert(part@.take(k as int) =~= part@);
        i = i + 1;
    }
    assert(ids@.take(i as int) =~= ids@);
    r
}

/// The model's tokenizer together with the configuration it was loaded for
/// and its added tokens (the tokenizer adds none after it is loaded).
pub struct Tokenizer {
    tool: HugTokenizer,
    config: Rc<Config>,
    added: Vec<(u32, String)>,
    /// The pad id of the padding parameters the tokenizer was loaded with.
    own_pad: Ghost<Option<u32>>,
}

impl Tokenizer {
    /// The configuration the tokenizer was loaded for.
    pub closed spec fn spec_config(&self) -> Config {
        *self.config
    }

    /// The added tokens, each as its id and its content.
    pub closed spec fn spec_added_tokens(&self) -> Seq<(u32, String)> {
        self.added@
    }

    /// The pad id of the padding parameters the tokenizer was loaded with,
    /// if it had any.
    pub closed spec fn spec_own_pad(&self) -> Option<u32> {
        self.own_pad@
    }

    /// The pad id the tokenizer pads with, if any.
    pub closed spec fn spec_pad_id(&self) -> Option<u32> {
        pad_id_of(self.tool)
    }

    /// The tokenizer value of the `tokenizers` crate.
    pub closed spec fn spec_tool(&self) -> HugTokenizer {
        self.tool
    }

    /// Wraps a tokenizer loaded for `config`. Where the tokenizer pads with no
    /// parameters of its own and the configuration names a pad token, the
    /// first added token with that content becomes the pad token, if there is
    /// one.
    pub fn new(config: Rc<Config>, tool: HugTokenizer) -> (r: Result<Tokenizer>)
        ensures
            r matches Ok(t) && t.spec_config() == *config,
            r matches Ok(t) && t.spec_own_pad() == pad_id_of(tool),
            r matches Ok(t) && t.spec_pad_id() == pad_decision(
                t.spec_own_pad(),
                config.tokenizer_custom.pad_token,
                t.spec_added_tokens(),
            ),
            r matches Ok(t) && added_token_map(t.spec_tool()) == added_token_map(tool),
            r matches Ok(t) && forall|ids: Seq<u32>, skip: bool|
                #[trigger] decoded_text(t.spec_tool(), ids, skip) == decoded_text(tool, ids, skip),
            r matches Ok(t) && forall|i: int| 0 <= i < t.spec_added_tokens().len()
                ==> added_token_map(tool).contains_key((#[trigger] t.spec_added_tokens()[i]).0)
                    && added_token_map(tool)[t.spec_added_tokens()[i].0] == t.spec_added_tokens()[i].1@,
            r matches Ok(t) && forall|i: int, j: int| 0 <= i < j < t.spec_added_tokens().len()
                ==> (#[trigger] t.spec_added_tokens()[i]).0 != (#[trigger] t.spec_added_tokens()[j]).0,
            r matches Ok(t) && forall|k: u32| #[trigger] added_token_map(tool).contains_key(k)
                ==> exists|i: int| 0 <= i < t.spec_added_tokens().len() && (#[trigger] t.spec_added_tokens()[i]).0 == k,
    {
        let ghost input = tool;
        let mut tool = tool;
        let added = added_tokens_of(&tool);
        let (own, _) = add_padding_params(&config, &mut tool, &added);
        let t = Tokenizer { tool, config, added, own_pad: Ghost(own) };
        assert(forall|ids: Seq<u32>, skip: bool| #[trigger] decoded_text(t.spec_tool(), ids, skip) == decoded_text(input, ids, skip));
        Ok(t)
    }

    /// The added tokens of the tokenizer, each as its id and its content.
    pub fn added_tokens(&self) -> (r: &Vec<(u32, String)>)
        ensures
            r@ == self.spec_added_tokens(),
    {
        &self.added
    }

    /// The pad id of the tokenizer's padding parameters, if it has any: its
    /// own, or the one set from the configured pad token when it was loaded.
    pub fn get_pad_token_id(&self) -> (r: Option<u32>)
        ensures
            r == self.spec_pad_id(),
    {
        padding_id(&self.tool)
    }

    /// Encodes each input into its token ids and attention mask.
    pub fn encode_batch(&self, input: Vec<String>, add_special_tokens: bool) -> (r: Result<Vec<SimpleEncoding>>)
        ensures
            r matches Ok(v) ==> v@.len() == input@.len(),
            input@.len() == 0 ==> (r matches Ok(v) && v@.len() == 0),
            r matches Ok(v) ==> forall|i: int| 0 <= i < v@.len()
                ==> (#[trigger] v@[i]).spec_ids().len() == v@[i].spec_attention_mask().len(),
            r matches Err(e) ==> e is TokenizerError,
    {
        match encode_batch_raw(&self.tool, input, add_special_tokens) {
            Ok(parts) => Ok(to_encodings(parts)),
            Err(e) => Err(Error::TokenizerError(e)),
        }
    }

    /// Encodes one input into its token ids and attention mask.
    pub fn encode(&self, input: &str, add_special_tokens: bool) -> (r: Result<SimpleEncoding>)
        ensures
            r matches Ok(e) ==> e.spec_ids().len() == e.spec_attention_mask().len(),
            r matches Err(e) ==> e is TokenizerError,
    {
        match encode_raw(&self.tool, input, add_special_tokens) {
            Ok((ids, mask)) => Ok(SimpleEncoding::new(ids, mask)),
            Err(e) => Err(Error::TokenizerError(e)),
        }
    }

    /// Encodes each message, special tokens added, and joins the token ids of
    /// all of them in order.
    pub fn encode_prompt(&self, messages: Vec<String>) -> (r: Result<Vec<u32>>)
        ensures
            r matches Err(e) ==> e is EncodingProcessingError,
            messages@.len() == 0 ==> (r matches Ok(ids) && ids@.len() == 0),
            r matches Ok(ids) ==> exists|per_message: Seq<Vec<u32>>|
                per_message.len() == messages@.len() && ids@ == #[trigger] flattened(per_message),
    {
        let ghost n = messages@.len();
        match encode_batch_raw(&self.tool, messages, true) {
            Ok(parts) => {
                let ids = ids_of(&parts);
                let joined = flatten_ids(&ids);
                assert(ids@.len() == n && joined@ == flattened(ids@));
                Ok(joined)
            },
            Err(e) => Err(Error::EncodingProcessingError(e)),
        }
    }

    /// The text of `ids`.
    pub fn decode_response(&self, ids: &Vec<u32>, skip_special_tokens: bool) -> (r: Result<String>)
        ensures
            match decoded_text(self.spec_tool(), ids@, skip_special_tokens) {
                Some(t) => r matches Ok(s) && s@ == t,
                None => r matches Err(e) && e is TokenizerError,
            },
    {
        match decode_raw(&self.tool, ids.as_slice(), skip_special_tokens) {
            Ok(s) => Ok(s),
            Err(e) => Err(Error::TokenizerError(e)),
        }
    }

    /// Decodes the tokens of `generated_token_info`, special tokens skipped,
    /// and sets its text unless a message header has started and not ended.
    pub fn decode_response_from_generated_token_info(&self, generated_token_info: &mut TokenGeneratedInfo, has_header_start: bool, has_header_end: bool) -> (r: Result<()>)
        ensures
            final(generated_token_info).original_token == old(generated_token_info).original_token,
            final(generated_token_info).from_draft == old(generated_token_info).from_draft,
            final(generated_token_info).prompt_tokens == old(generated_token_info).prompt_tokens,
            final(generated_token_info).peak_memory == old(generated_token_info).peak_memory,
            final(generated_token_info).finish_reason == old(generated_token_info).finish_reason,
            final(generated_token_info).generation_tokens == old(generated_token_info).generation_tokens,
            r is Ok <==> decoded_text(self.spec_tool(), old(generated_token_info).original_token@, true) is Some,
            (!has_header_start || has_header_end) ==> match decoded_text(self.spec_tool(), old(generated_token_info).original_token@, true) {
                Some(t) => final(generated_token_info).text@ == t,
                None => true,
            },
            (r is Err || (has_header_start && !has_header_end)) ==> *final(generated_token_info) == *old(generated_token_info),
    {
        let decoded = self.decode_response(&generated_token_info.original_token, true)?;
        decode_response_from_generated_token_info(generated_token_info, decoded, has_header_start, has_header_end);
        Ok(())
    }

    /// The ids of the added tokens that mark the start or the end of a
    /// message header.
    pub fn header_token_ids(&self) -> (r: HashSet<u32>)
        ensures
            r@ == header_ids_of(self.spec_added_tokens()),
    {
        header_ids(&self.added)
    }

    /// The ids that end a turn of the model the tokenizer was loaded for.
    pub fn eot_ids(&self) -> (r: HashSet<u32>)
        ensures
            r@ == eot_ids_of(self.spec_config().model),
    {
        eot_ids_from_config(&self.config.model)
    }
}

/// Where `tool` has no padding parameters and `config` names a pad token, sets
/// the id of the first added token with that content as the pad id, if there
/// is one. Returns the pad id `tool` had of its own and the one it pads with
/// afterwards.
fn add_padding_params(config: &Rc<Config>, tool: &mut HugTokenizer, tokens: &Vec<(u32, String)>) -> (r: (Option<u32>, Option<u32>))
    ensures
        r.0 == pad_id_of(*old(tool)),
        r.1 == pad_decision(r.0, config.tokenizer_custom.pad_token, tokens@),
        pad_id_of(*final(tool)) == r.1,
        added_token_map(*final(tool)) == added_token_map(*old(tool)),
        forall|ids: Seq<u32>, skip: bool| #[trigger] decoded_text(*final(tool), ids, skip) == decoded_text(*old(tool), ids, skip),
{
    let own = padding_id(tool);
    match own {
        Some(p) => (own, Some(p)),
        None => match &config.tokenizer_custom.pad_token {
            Some(padding) => {
                match find_token_id(tokens, padding) {
                    Some(id) => {
                        set_padding_id(tool, id);
                        (own, Some(id))
                    },
                    None => (own, None),
                }
            },
            None => (own, None),
        },
    }
}

/// Each pair of ids and attention mask as an encoding.
fn to_encodings(parts: Vec<(Vec<u32>, Vec<u32>)>) -> (r: Vec<SimpleEncoding>)
    ensures
        r@.len() == parts@.len(),
        forall|i: int| 0 <= i < parts@.len() ==> (#[trigger] r@[i]).spec_ids() == parts@[i].0@ && r@[i].spec_attention_mask() == parts@[i].1@,
{
    let mut r: Vec<SimpleEncoding> = Vec::new();
    let mut i: usize = 0;
    while i < parts.len()
        invariant
            i <= parts@.len(),
            r@.len() == i,
            forall|j: int| 0 <= j < i ==> (#[trigger] r@[j]).spec_ids() == parts@[j].0@ && r@[j].spec_attention_mask() == parts@[j].1@,
        decreases parts@.len() - i,
    {
        let (ids, mask) = (parts[i].0.clone(), parts[i].1.clone());
        r.push(SimpleEncoding::new(ids, mask));
        i = i + 1;
    }
    r
}

/// The ids of each pair of ids and attention mask.
fn ids_of(parts: &Vec<(Vec<u32>, Vec<u32>)>) -> (r: Vec<Vec<u32>>)
    ensures
        r@.len() == parts@.len(),
        forall|i: int| 0 <= i < parts@.len() ==> (#[trigger] r@[i])@ == parts@[i].0@,
{
    let mut r: Vec<Vec<u32>> = Vec::new();
    let mut i: usize = 0;
    while i < parts.len()
        invariant
            i <= parts@.len(),
            r@.len() == i,
            forall|j: int| 0 <= j < i ==> (#[trigger] r@[j])@ == parts@[j].0@,
        decreases parts@.len() - i,
    {
        r.push(parts[i].0.clone());
        i = i + 1;
    }
    r
}

} // verus!
