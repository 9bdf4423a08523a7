//! The registry of loaded models: where models are installed, the id each
//! one is known by, and looking models up and unloading them.
use vstd::prelude::*;
use vstd::string::{StrSliceExecFns, StringExecFns};
use crate::error::Error;

verus! {

/// The installation directory used when none is configured.
pub const BASE_PATH_DEFAULT: &'static str = "~/.sanaga";

/// `path` with a leading `~` replaced by the home directory, when it is known.
pub open spec fn expanded_path(path: Seq<char>, home: Option<Seq<char>>) -> Seq<char> {
    match home {
        Some(h) => if path.len() > 0 && path[0] == '~' { h + path.skip(1) } else { path },
        None => path,
    }
}

/// Expands a leading `~` into the home directory.
pub fn expand_tilde(path: &str, home: Option<&str>) -> (r: String)
    ensures
        r@ == expanded_path(path@, match home { Some(h) => Some(h@), None => None }),
{
    let n = path.unicode_len();
    if n > 0 && path.get_char(0) == '~' {
        if let Some(h) = home {
            let mut out = h.to_owned();
            out.append(path.substring_char(1, n));
            assert(path@.subrange(1, n as int) =~= path@.skip(1));
            return out;
        }
    }
    path.to_owned()
}

/// The installation directory: the configured one, or `~/.sanaga`, with a
/// leading `~` expanded.
pub open spec fn base_path(configured: Option<Seq<char>>, home: Option<Seq<char>>) -> Seq<char> {
    expanded_path(
        match configured {
            Some(p) => p,
            None => BASE_PATH_DEFAULT@,
        },
        home,
    )
}

/// The installation directory, from the configured path (if any) and the
/// home directory (if known).
pub fn get_base_path(configured: Option<&str>, home: Option<&str>) -> (r: String)
    ensures
        r@ == base_path(
            match configured { Some(p) => Some(p@), None => None },
            match home { Some(h) => Some(h@), None => None },
        ),
{
    let path = match configured {
        Some(p) => p,
        None => BASE_PATH_DEFAULT,
    };
    expand_tilde(path, home)
}

/// The directory that holds the installed models.
pub fn get_base_path_models(configured: Option<&str>, home: Option<&str>) -> (r: String)
    ensures
        r@ == base_path(
            match configured { Some(p) => Some(p@), None => None },
            match home { Some(h) => Some(h@), None => None },
        ) + "/models/"@,
{
    let mut p = get_base_path(configured, home);
    p.append("/models/");
    p
}

/// The lowercase hexadecimal digit of `v`, below 16.
pub open spec fn hex_digit(v: int) -> char {
    if v < 10 {
        (('0' as int) + v) as char
    } else {
        (('a' as int) + v - 10) as char
    }
}

/// Bytes written as lowercase hexadecimal, two digits per byte, high first.
pub open spec fn hex_lower(bytes: Seq<u8>) -> Seq<char>
    decreases bytes.len(),
{
    if bytes.len() == 0 {
        Seq::empty()
    } else {
        hex_lower(bytes.drop_last()) + seq![hex_digit(bytes.last() as int / 16), hex_digit(bytes.last() as int % 16)]
    }
}

pub proof fn lemma_hex_lower_len(bytes: Seq<u8>)
    ensures
        hex_lower(bytes).len() == 2 * bytes.len(),
    decreases bytes.len(),
{
    if bytes.len() > 0 {
        lemma_hex_lower_len(bytes.drop_last());
    }
}

/// `hex::encode`: the bytes as lowercase hexadecimal, two digits per byte,
/// the high half of each byte first, from the table `0123456789abcdef`.
#[verifier::external_body]
fn hex_encode(data: &[u8]) -> (r: String)
    ensures
        r@ == hex_lower(data@),
{
    hex::encode(data)
}

/// The id a model path is known by: the last ten hexadecimal digits of its
/// UTF-8 bytes.
pub open spec fn path_id(salt: Seq<char>) -> Seq<char> {
    let h = hex_lower(vstd::utf8::encode_utf8(salt));
    h.skip(h.len() - 10)
}

/// The id of the model installed at `salt`: the last ten hexadecimal digits
/// of its bytes, that is the last five bytes of the path, so paths that end
/// alike share an id.
pub fn generate_path_id(salt: &String) -> (r: String)
    requires
        vstd::utf8::encode_utf8(salt@).len() >= 5,
    ensures
        r@ == path_id(salt@),
{
    let bytes = salt.as_str().as_bytes();
    let id = hex_encode(bytes);
    proof {
        lemma_hex_lower_len(bytes@);
    }
    let n = id.as_str().unicode_len();
    let tail = id.as_str().substring_char(n - 10, n);
    assert(id@.subrange(n - 10, n as int) =~= id@.skip(n - 10));
    tail.to_owned()
}

proof fn lemma_encode_utf8_len(chars: Seq<char>)
    ensures
        vstd::utf8::encode_utf8(chars).len() >= chars.len(),
    decreases chars.len(),
{
    if chars.len() > 0 {
        lemma_encode_utf8_len(chars.drop_first());
        assert(vstd::utf8::encode_scalar(chars[0] as u32).len() >= 1);
    }
}

/// Where the model `name` is installed, and the id it is loaded under.
pub fn model_path_and_id(name: &str, configured: Option<&str>, home: Option<&str>) -> (r: (String, String))
    ensures
        r.0@ == base_path(
            match configured { Some(p) => Some(p@), None => None },
            match home { Some(h) => Some(h@), None => None },
        ) + "/models/"@ + name@,
        r.1@ == path_id(r.0@),
{
    let mut path = get_base_path_models(configured, home);
    path.append(name);
    proof {
        reveal_strlit("/models/");
        lemma_encode_utf8_len(path@);
    }
    let id = generate_path_id(&path);
    (path, id)
}

/// The texts of the ids of the registered models, in order.
pub open spec fn ids_of<M>(models: Seq<(String, M)>) -> Seq<Seq<char>> {
    Seq::new(models.len(), |i: int| models[i].0@)
}

/// The index of the first model registered under `id`.
pub open spec fn first_with_id(ids: Seq<Seq<char>>, id: Seq<char>, from: int) -> Option<int>
    decreases ids.len() - from,
{
    if from < 0 || from >= ids.len() {
        None
    } else if ids[from] == id {
        Some(from)
    } else {
        first_with_id(ids, id, from + 1)
    }
}

pub proof fn lemma_first_with_id(ids: Seq<Seq<char>>, id: Seq<char>, from: int)
    requires
        from >= 0,
    ensures
        first_with_id(ids, id, from) matches Some(i) ==> from <= i < ids.len() && ids[i] == id
            && forall|j: int| from <= j < i ==> ids[j] != id,
        first_with_id(ids, id, from) is None ==> forall|j: int| from <= j < ids.len() ==> ids[j] != id,
    decreases ids.len() - from,
{
    if 0 <= from < ids.len() && ids[from] != id {
        lemma_first_with_id(ids, id, from + 1);
    }
}

/// Registering a model under an id that no loaded model has makes it the one
/// found under that id, and keeps ids unique.
pub proof fn lemma_add_then_find<M>(models: Seq<(String, M)>, id: String, model: M)
    requires
        first_with_id(ids_of(models), id@, 0) is None,
        forall|i: int, j: int| 0 <= i < j < models.len() ==> ids_of(models)[i] != ids_of(models)[j],
    ensures
        first_with_id(ids_of(models.push((id, model))), id@, 0) == Some(models.len() as int),
        forall|i: int, j: int|
            0 <= i < j < models.len() + 1 ==> ids_of(models.push((id, model)))[i] != ids_of(
                models.push((id, model)),
            )[j],
{
    let ids = ids_of(models);
    let ids2 = ids_of(models.push((id, model)));
    lemma_first_with_id(ids, id@, 0);
    assert forall|k: int| 0 <= k < models.len() implies ids2[k] == ids[k] by {}
    assert(ids2[models.len() as int] == id@);
    lemma_first_with_id(ids2, id@, 0);
    assert(first_with_id(ids2, id@, 0) == Some(models.len() as int)) by {
        if first_with_id(ids2, id@, 0) != Some(models.len() as int) {
            lemma_first_with_id(ids2, id@, 0);
        }
    }
}

/// The loaded models, each under its id.
pub struct Runner<M> {
    pub models: Vec<(String, M)>,
}

impl<M> Runner<M> {
    /// The ids of the loaded models.
    pub open spec fn ids(&self) -> Seq<Seq<char>> {
        ids_of(self.models@)
    }

    /// No two loaded models share an id.
    pub open spec fn ids_unique(&self) -> bool {
        forall|i: int, j: int| 0 <= i < j < self.models@.len() ==> self.ids()[i] != self.ids()[j]
    }

    /// A registry with no model.
    pub fn new() -> (r: Self)
        ensures
            r.models@.len() == 0,
    {
        Runner { models: Vec::new() }
    }

    fn position_of(&self, model_id: &str) -> (r: Option<usize>)
        ensures
            r matches Some(i) ==> i < self.models@.len() && first_with_id(self.ids(), model_id@, 0) == Some(i as int),
            r is None ==> first_with_id(self.ids(), model_id@, 0) is None,
    {
        let target = model_id.to_owned();
        proof {
            lemma_first_with_id(self.ids(), model_id@, 0);
        }
        let mut i: usize = 0;
        while i < self.models.len()
            invariant
                0 <= i <= self.models@.len(),
                target@ == model_id@,
                first_with_id(self.ids(), model_id@, 0) == first_with_id(self.ids(), model_id@, i as int),
                first_with_id(self.ids(), model_id@, 0) matches Some(k) ==> 0 <= k < self.models@.len(),
            decreases self.models@.len() - i,
        {
            if self.models[i].0 == target {
                proof {
                    lemma_first_with_id(self.ids(), model_id@, i as int);
                }
                return Some(i);
            }
            i = i + 1;
        }
        None
    }

    /// The first model loaded under `model_id`.
    pub fn get_model_by_id(&self, model_id: &str) -> (r: Option<&M>)
        ensures
            match first_with_id(self.ids(), model_id@, 0) {
                Some(i) => r matches Some(m) && *m == self.models@[i].1,
                None => r is None,
            },
    {
        match self.position_of(model_id) {
            Some(i) => Some(&self.models[i].1),
            None => None,
        }
    }

    /// The model loaded under `model_id`, or the error that no such model runs.
    pub fn require_model(&self, model_id: &str) -> (r: Result<&M, Error>)
        ensures
            match first_with_id(self.ids(), model_id@, 0) {
                Some(i) => r matches Ok(m) && *m == self.models@[i].1,
                None => r matches Err(Error::ModelRuntimeNotFoundWithId(s)) && s@ == model_id@,
            },
    {
        match self.get_model_by_id(model_id) {
            Some(m) => Ok(m),
            None => Err(Error::ModelRuntimeNotFoundWithId(model_id.to_owned())),
        }
    }

    /// Registers a freshly loaded model.
    pub fn add_model(&mut self, id: String, model: M)
        ensures
            final(self).models@ == old(self).models@.push((id, model)),
    {
        self.models.push((id, model));
    }

    /// Unloads the model loaded under `model_id`. The registry is searched
    /// under its read lock and the model removed under its write lock, taken
    /// while the read lock is still held, which never returns: so only an id
    /// under which no model runs is accepted, and nothing changes.
    pub fn unload_model(&mut self, model_id: &str)
        requires
            first_with_id(old(self).ids(), model_id@, 0) is None,
        ensures
            final(self).models@ == old(self).models@,
    {
        if let Some(index) = self.position_of(model_id) {
            self.models.remove(index);
        }
    }
}

/// Where the model `name` is installed.
pub open spec fn model_path_of(name: Seq<char>, configured: Option<Seq<char>>, home: Option<Seq<char>>) -> Seq<char> {
    base_path(configured, home) + "/models/"@ + name
}

/// What loading a model by name comes to.
#[derive(Debug, Clone, PartialEq, Eq)]
pub enum LoadPlan {
    /// A model runs under this id already: it is used as it is.
    Reuse(String),
    /// The model at `path` is loaded and registered under `id`.
    Load { path: String, id: String },
}

impl<M> Runner<M> {
    /// Decides how the model `name` is loaded: it is installed under the
    /// models directory, and its id is the last ten hexadecimal digits of
    /// that path (so two names whose paths end in the same five bytes share
    /// an id). Where a model already runs under that id, it is reused and
    /// nothing is loaded or registered again.
    pub fn plan_load(&self, name: &str, configured: Option<&str>, home: Option<&str>) -> (r: LoadPlan)
        ensures
            ({
                let path = model_path_of(
                    name@,
                    match configured { Some(p) => Some(p@), None => None },
                    match home { Some(h) => Some(h@), None => None },
                );
                match first_with_id(self.ids(), path_id(path), 0) {
                    Some(_) => r matches LoadPlan::Reuse(id) && id@ == path_id(path),
                    None => r matches LoadPlan::Load { path: p, id } && p@ == path && id@ == path_id(path),
                }
            }),
    {
        let (path, id) = model_path_and_id(name, configured, home);
        match self.position_of(id.as_str()) {
            Some(_) => LoadPlan::Reuse(id),
            None => LoadPlan::Load { path, id },
        }
    }

    /// Registers a model loaded as `plan_load` asked and returns its id.
    pub fn finish_load(&mut self, id: String, model: M) -> (r: String)
        ensures
            final(self).models@ == old(self).models@.push((id, model)),
            r@ == id@,
    {
        let r = id.clone();
        self.models.push((id, model));
        r
    }
}

/// Once a model is registered under an id, planning to load a name with that
/// id reuses it: a model is found under the id.
pub proof fn lemma_loaded_id_is_reused<M>(models: Seq<(String, M)>, id: String, model: M)
    ensures
        first_with_id(ids_of(models.push((id, model))), id@, 0) is Some,
{
    let ids2 = ids_of(models.push((id, model)));
    lemma_first_with_id(ids2, id@, 0);
    assert(ids2[models.len() as int] == id@);
}

} // verus!
