//! The decisions a loaded model runtime takes around the tensor runtime:
//! where a model lies under its root, which weights it keeps, how it is
//! quantized, and what it hands the tokenizer and the model.
use vstd::prelude::*;
use vstd::string::StringExecFns;
use crate::config::QuantizationConfig;
use crate::encoding::{lemma_max_len_bounds, pad_encode_batch, SimpleEncoding};
use crate::error::{Error, Result};
use crate::text::{chars_of, contains_seq, contains_str};
use crate::tokenizer::Tokenizer;
use crate::weight_names::starts_with;

verus! {

/// The instruction put before each query whose similarity to documents is
/// measured.
pub const EMB_TASK_QUERY: &'static str = "Instruct: Given a web search query, retrieve relevant passages that answer the query\nQuery: ";

/// The lower-case form of `s` that `str::to_lowercase` gives (full Unicode
/// case mapping).
pub uninterp spec fn lowercase_of(s: Seq<char>) -> Seq<char>;

/// `str::to_lowercase`, which maps each character of `s` to its lower-case
/// form as Unicode defines it; its result depends on `s` alone.
#[verifier::external_body]
fn to_lowercase(s: &str) -> (r: String)
    ensures
        r@ == lowercase_of(s@),
{
    s.to_lowercase()
}

/// Whether a lower-case file name starts with "readme".
pub fn starts_with_readme(lower: &str) -> (r: bool)
    ensures
        r == starts_with(lower@, "readme"@),
{
    let cs = chars_of(lower);
    let p = chars_of("readme");
    if p.len() > cs.len() {
        return false;
    }
    let mut i: usize = 0;
    while i < p.len()
        invariant
            cs@ == lower@,
            p@ == "readme"@,
            p@.len() <= cs@.len(),
            i <= p@.len(),
            forall|j: int| 0 <= j < i ==> cs@[j] == p@[j],
        decreases p@.len() - i,
    {
        if cs[i] != p[i] {
            assert(lower@.take(p@.len() as int)[i as int] != p@[i as int]);
            return false;
        }
        i = i + 1;
    }
    assert(lower@.take(p@.len() as int) =~= p@);
    true
}

/// Whether a file is the model card that marks the directory of a model: its
/// name, in lower case, starts with "readme".
pub fn is_readme_name(name: &str) -> (r: bool)
    ensures
        r == starts_with(lowercase_of(name@), "readme"@),
{
    let lower = to_lowercase(name);
    starts_with_readme(lower.as_str())
}

/// A file met while walking the root of a model: its name, where it has one
/// that is text, and the directory that holds it, where it has one.
#[derive(Debug, Clone)]
pub struct FileEntry {
    pub name: Option<String>,
    pub parent: Option<String>,
}

/// Whether an entry is a model card.
pub open spec fn is_card(e: FileEntry) -> bool {
    e.name matches Some(n) && starts_with(lowercase_of(n@), "readme"@)
}

/// The index of the first model card among `entries`, if there is one.
pub open spec fn first_card(entries: Seq<FileEntry>, from: int) -> Option<int>
    decreases entries.len() - from,
{
    if from < 0 || from >= entries.len() {
        None
    } else if is_card(entries[from]) {
        Some(from)
    } else {
        first_card(entries, from + 1)
    }
}

/// The outcome of the search for a model's directory.
pub open spec fn model_dir_result(entries: Seq<FileEntry>, root: Seq<char>) -> core::result::Result<Seq<char>, Seq<char>> {
    match first_card(entries, 0) {
        Some(i) => match entries[i].parent {
            Some(p) => Ok(p@),
            None => Err(root),
        },
        None => Err(root),
    }
}

/// The directory of the model under `root`, given the files found below
/// `root` in the order of the walk: the directory of the first model card.
/// Where there is none, or the first has no directory, the root holds no
/// model.
pub fn find_model_path_in(entries: &Vec<FileEntry>, root: &str) -> (r: Result<String>)
    ensures
        match model_dir_result(entries@, root@) {
            Ok(p) => r matches Ok(s) && s@ == p,
            Err(m) => r matches Err(Error::RootModelPathNotFound(s)) && s@ == m,
        },
{
    let mut i: usize = 0;
    while i < entries.len()
        invariant
            i <= entries@.len(),
            first_card(entries@, 0) == first_card(entries@, i as int),
        decreases entries@.len() - i,
    {
        let is_readme = match &entries[i].name {
            Some(n) => is_readme_name(n.as_str()),
            None => false,
        };
        if is_readme {
            assert(first_card(entries@, i as int) == Some(i as int));
            return match &entries[i].parent {
                Some(p) => Ok(p.clone()),
                None => Err(Error::RootModelPathNotFound(root.to_string())),
            };
        }
        i = i + 1;
    }
    Err(Error::RootModelPathNotFound(root.to_string()))
}

/// Whether a weight stays in the model when it is loaded: rotary frequencies
/// are computed, not loaded, and a model that ties its output projection to
/// its embeddings has no output weight of its own.
pub open spec fn keeps_weight_spec(name: Seq<char>, tie_word_embeddings: bool) -> bool {
    !contains_seq(name, "self_attn.rotary_emb.inv_freq"@) && !(tie_word_embeddings && name == "lm_head.weight"@)
}

/// Whether the weight `name` is kept when a model is sanitized.
pub fn keeps_weight(name: &str, tie_word_embeddings: bool) -> (r: bool)
    ensures
        r == keeps_weight_spec(name@, tie_word_embeddings),
{
    if contains_str(name, "self_attn.rotary_emb.inv_freq") {
        return false;
    }
    if tie_word_embeddings {
        let cs = chars_of(name);
        let target = chars_of("lm_head.weight");
        if cs.len() == target.len() {
            let mut i: usize = 0;
            while i < cs.len()
                invariant
                    cs@ == name@,
                    target@ == "lm_head.weight"@,
                    cs@.len() == target@.len(),
                    !contains_seq(name@, "self_attn.rotary_emb.inv_freq"@),
                    tie_word_embeddings,
                    i <= cs@.len(),
                    forall|j: int| 0 <= j < i ==> cs@[j] == target@[j],
                decreases cs@.len() - i,
            {
                if cs[i] != target[i] {
                    assert(name@[i as int] != "lm_head.weight"@[i as int]);
                    return true;
                }
                i = i + 1;
            }
            assert(name@ =~= "lm_head.weight"@);
            return false;
        }
    }
    true
}

/// The names among `names` that a model keeps, in order.
pub fn sanitize_names(names: &Vec<String>, tie_word_embeddings: bool) -> (r: Vec<String>)
    ensures
        r@.map_values(|s: String| s@) == names@.map_values(|s: String| s@).filter(|n: Seq<char>| keeps_weight_spec(n, tie_word_embeddings)),
{
    let ghost f = |n: Seq<char>| keeps_weight_spec(n, tie_word_embeddings);
    let ghost views = names@.map_values(|s: String| s@);
    let mut r: Vec<String> = Vec::new();
    let mut i: usize = 0;
    while i < names.len()
        invariant
            i <= names@.len(),
            views == names@.map_values(|s: String| s@),
            f == (|n: Seq<char>| keeps_weight_spec(n, tie_word_embeddings)),
            r@.map_values(|s: String| s@) == views.take(i as int).filter(f),
        decreases names@.len() - i,
    {
        proof {
            reveal(Seq::filter);
            assert(views.take(i + 1).drop_last() =~= views.take(i as int));
        }
        if keeps_weight(names[i].as_str(), tie_word_embeddings) {
            let ghost before = r@;
            r.push(names[i].clone());
            assert(r@.map_values(|s: String| s@) =~= before.map_values(|s: String| s@).push(names@[i as int]@));
        }
        i = i + 1;
    }
    assert(views.take(i as int) =~= views);
    r
}

/// The group size and bits a model is quantized with: those of its
/// configuration, and groups of 64 with 4 bits where it names none.
pub fn quantization_params(quantization: &Option<QuantizationConfig>) -> (r: (i32, i32))
    ensures
        r == (match quantization {
            Some(q) => (q.group_size, q.bits),
            None => (64i32, 4i32),
        }),
{
    match quantization {
        Some(q) => (q.group_size, q.bits),
        None => (64, 4),
    }
}

/// Whether a model is quantized when it is loaded: when its configuration
/// carries quantization parameters.
pub fn supports_quantization(quantization: &Option<QuantizationConfig>) -> (r: bool)
    ensures
        r == quantization is Some,
{
    quantization.is_some()
}

/// The texts embedded to compare queries with documents: each query after
/// the instruction, then the documents, in order.
pub fn similarity_inputs(queries: &Vec<String>, documents: &Vec<String>) -> (r: Vec<String>)
    ensures
        r@.len() == queries@.len() + documents@.len(),
        forall|i: int| 0 <= i < queries@.len() ==> (#[trigger] r@[i])@ == EMB_TASK_QUERY@ + queries@[i]@,
        forall|i: int| 0 <= i < documents@.len() ==> (#[trigger] r@[queries@.len() + i])@ == documents@[i]@,
{
    let mut r: Vec<String> = Vec::new();
    let mut i: usize = 0;
    while i < queries.len()
        invariant
            i <= queries@.len(),
            r@.len() == i,
            forall|j: int| 0 <= j < i ==> (#[trigger] r@[j])@ == EMB_TASK_QUERY@ + queries@[j]@,
        decreases queries@.len() - i,
    {
        let mut s = String::from_str(EMB_TASK_QUERY);
        s.append(queries[i].as_str());
        r.push(s);
        i = i + 1;
    }
    let mut k: usize = 0;
    while k < documents.len()
        invariant
            k <= documents@.len(),
            r@.len() == queries@.len() + k,
            forall|j: int| 0 <= j < queries@.len() ==> (#[trigger] r@[j])@ == EMB_TASK_QUERY@ + queries@[j]@,
            forall|j: int| 0 <= j < k ==> (#[trigger] r@[queries@.len() + j])@ == documents@[j]@,
        decreases documents@.len() - k,
    {
        r.push(documents[k].clone());
        k = k + 1;
    }
    r
}

/// The padded batch of encodings of `texts` for the embedding model: the
/// tokenizer must pad with a token of its own (`MissingPadToken` otherwise);
/// each text is encoded with special tokens and the batch is padded with that
/// token to its longest encoding.
pub fn embedding_batch(tokenizer: &Tokenizer, texts: &Vec<String>) -> (r: Result<Vec<SimpleEncoding>>)
    ensures
        r matches Err(e) ==> (e is MissingPadToken || e is TokenizerError || e is PaddingFailedFindMax),
        tokenizer.spec_pad_id() is None ==> r == Err::<Vec<SimpleEncoding>, Error>(Error::MissingPadToken),
        tokenizer.spec_pad_id() is Some ==> !(r matches Err(Error::MissingPadToken)),
        tokenizer.spec_pad_id() is Some && texts@.len() == 0 ==> r == Err::<Vec<SimpleEncoding>, Error>(Error::PaddingFailedFindMax),
        r matches Ok(v) ==> v@.len() == texts@.len(),
        r matches Ok(v) ==> forall|i: int, j: int| 0 <= i < v@.len() && 0 <= j < v@.len()
            ==> #[trigger] v@[i].spec_ids().len() == #[trigger] v@[j].spec_ids().len()
                && v@[i].spec_attention_mask().len() == v@[i].spec_ids().len(),
{
    let pad = match tokenizer.get_pad_token_id() {
        Some(p) => p,
        None => return Err(Error::MissingPadToken),
    };
    let batch = tokenizer.encode_batch(texts.clone(), true)?;
    let padded = pad_encode_batch(batch.as_slice(), pad);
    proof {
        if padded is Ok {
            lemma_max_len_bounds(batch@);
        }
    }
    padded
}


/// The token ids of a rendered prompt; a prompt that encodes to no token is
/// refused with `EmptyPrompt`.
pub fn prompt_ids(tokenizer: &Tokenizer, rendered: String) -> (r: Result<Vec<u32>>)
    ensures
        r matches Ok(ids) ==> ids@.len() > 0,
        r matches Err(e) ==> (e is EmptyPrompt || e is EncodingProcessingError),
{
    let mut messages: Vec<String> = Vec::new();
    messages.push(rendered);
    let ids = tokenizer.encode_prompt(messages)?;
    check_prompt(ids)
}

/// Refuses a prompt without tokens.
pub fn check_prompt(ids: Vec<u32>) -> (r: Result<Vec<u32>>)
    ensures
        ids@.len() == 0 ==> r == Err::<Vec<u32>, Error>(Error::EmptyPrompt),
        ids@.len() > 0 ==> (r matches Ok(v) && v@ == ids@),
{
    if ids.len() == 0 {
        Err(Error::EmptyPrompt)
    } else {
        Ok(ids)
    }
}

} // verus!
