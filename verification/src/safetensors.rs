//! Reading the layout of safetensors weight files: where the JSON header
//! ends, which bytes each tensor occupies, and the element types named in it.
use vstd::prelude::*;
use crate::error::Error;
use crate::json_scan::{find_json_object_end_bytes, json_object_end, lemma_short_buffer_fits};
use crate::text::chars_of;
use crate::config::{join_path, path_join};

verus! {

/// Element types of tensors.
#[derive(Debug, Clone, Copy, PartialEq, Eq)]
pub enum Dtype {
    Bool,
    Uint8,
    Uint16,
    Uint32,
    Uint64,
    Int8,
    Int16,
    Int32,
    Int64,
    Float16,
    Float32,
    Float64,
    Bfloat16,
    Complex64,
}

/// `c` is `d` once an ASCII capital is turned into its small letter.
pub open spec fn lowers_to(c: char, d: char) -> bool {
    if 'A' <= c <= 'Z' {
        (c as u32) + 32 == d as u32
    } else {
        c == d
    }
}

/// `s` is `name` up to the case of ASCII letters. (Lower-casing a name by the
/// Unicode rules gives one of the names below exactly when this holds: no
/// other character lower-cases to the letters they use.)
pub open spec fn same_name(s: Seq<char>, name: Seq<char>) -> bool {
    &&& s.len() == name.len()
    &&& forall|i: int| 0 <= i < s.len() ==> lowers_to(#[trigger] s[i], name[i])
}

/// The element type a safetensors header names; unknown names read as `Bool`.
/// Names are compared after lower-casing, so `Complex64` is never matched.
pub open spec fn dtype_of_name(s: Seq<char>) -> Dtype {
    if same_name(s, "bool"@) { Dtype::Bool }
    else if same_name(s, "u8"@) { Dtype::Uint8 }
    else if same_name(s, "u16"@) { Dtype::Uint16 }
    else if same_name(s, "u32"@) { Dtype::Uint32 }
    else if same_name(s, "u64"@) { Dtype::Uint64 }
    else if same_name(s, "i8"@) { Dtype::Int8 }
    else if same_name(s, "i16"@) { Dtype::Int16 }
    else if same_name(s, "i32"@) { Dtype::Int32 }
    else if same_name(s, "i64"@) { Dtype::Int64 }
    else if same_name(s, "f16"@) { Dtype::Float16 }
    else if same_name(s, "f32"@) { Dtype::Float32 }
    else if same_name(s, "f64"@) { Dtype::Float64 }
    else if same_name(s, "bf16"@) { Dtype::Bfloat16 }
    else if same_name(s, "bfloat16"@) { Dtype::Bfloat16 }
    else if same_name(s, "Complex64"@) { Dtype::Complex64 }
    else { Dtype::Bool }
}

fn is_name(s: &Vec<char>, name: &str) -> (r: bool)
    ensures
        r == same_name(s@, name@),
{
    let n = chars_of(name);
    if s.len() != n.len() {
        return false;
    }
    let mut i: usize = 0;
    while i < s.len()
        invariant
            n@ == name@,
            s@.len() == n@.len(),
            0 <= i <= s@.len(),
            forall|j: int| 0 <= j < i ==> lowers_to(#[trigger] s@[j], n@[j]),
        decreases s@.len() - i,
    {
        let c = s[i];
        let lower_matches = if c >= 'A' && c <= 'Z' {
            (c as u32) + 32 == (n[i] as u32)
        } else {
            c == n[i]
        };
        if !lower_matches {
            return false;
        }
        i = i + 1;
    }
    true
}

/// Extension on element types: reading them from their safetensors names.
pub trait DTypeExt: Sized {
    fn from_string_unsafe(type_in_str: &str) -> Self;
}

impl DTypeExt for Dtype {
    fn from_string_unsafe(type_in_str: &str) -> (r: Dtype)
        ensures
            r == dtype_of_name(type_in_str@),
    {
        let s = chars_of(type_in_str);
        if is_name(&s, "bool") { Dtype::Bool }
        else if is_name(&s, "u8") { Dtype::Uint8 }
        else if is_name(&s, "u16") { Dtype::Uint16 }
        else if is_name(&s, "u32") { Dtype::Uint32 }
        else if is_name(&s, "u64") { Dtype::Uint64 }
        else if is_name(&s, "i8") { Dtype::Int8 }
        else if is_name(&s, "i16") { Dtype::Int16 }
        else if is_name(&s, "i32") { Dtype::Int32 }
        else if is_name(&s, "i64") { Dtype::Int64 }
        else if is_name(&s, "f16") { Dtype::Float16 }
        else if is_name(&s, "f32") { Dtype::Float32 }
        else if is_name(&s, "f64") { Dtype::Float64 }
        else if is_name(&s, "bf16") { Dtype::Bfloat16 }
        else if is_name(&s, "bfloat16") { Dtype::Bfloat16 }
        else if is_name(&s, "Complex64") { Dtype::Complex64 }
        else { Dtype::Bool }
    }
}

/// `c` is the ASCII letter `lower` in either case.
pub open spec fn letter_either_case(c: char, lower: char) -> bool {
    c == lower || (c as u32) + 32 == lower as u32
}

proof fn lemma_same_name_by_chars(s: Seq<char>, name: Seq<char>)
    requires
        name.len() <= 4,
    ensures
        same_name(s, name) <==> (s.len() == name.len() && (name.len() > 0 ==> lowers_to(s[0], name[0]))
            && (name.len() > 1 ==> lowers_to(s[1], name[1])) && (name.len() > 2 ==> lowers_to(s[2], name[2]))
            && (name.len() > 3 ==> lowers_to(s[3], name[3]))),
{
    if s.len() == name.len() && (name.len() > 0 ==> lowers_to(s[0], name[0]))
        && (name.len() > 1 ==> lowers_to(s[1], name[1])) && (name.len() > 2 ==> lowers_to(s[2], name[2]))
        && (name.len() > 3 ==> lowers_to(s[3], name[3])) {
        assert forall|i: int| 0 <= i < s.len() implies lowers_to(#[trigger] s[i], name[i]) by {
            if i == 0 {} else if i == 1 {} else if i == 2 {} else {}
        }
    }
}

proof fn lemma_letter_either_case(c: char, l: char, m: char)
    requires
        'a' <= l <= 'z',
        letter_either_case(c, l),
    ensures
        lowers_to(c, l),
        lowers_to(c, m) ==> m == l,
{
    if c == l {
        assert(!('A' <= c <= 'Z'));
    } else {
        assert('A' <= c <= 'Z');
    }
}

/// Each safetensors name of a sized integer or float type, in any ASCII case,
/// reads as the element type of that kind and width: `u8`…`u64` as the
/// unsigned, `i8`…`i64` as the signed integers, `f16`, `f32`, `f64` and
/// `bf16` and `bfloat16` as the floats of that width; `bool` reads as
/// `Bool`.
pub proof fn lemma_dtype_names(s: Seq<char>)
    ensures
        s.len() == 2 && s[1] == '8' ==> {
            &&& letter_either_case(s[0], 'u') ==> dtype_of_name(s) == Dtype::Uint8
            &&& letter_either_case(s[0], 'i') ==> dtype_of_name(s) == Dtype::Int8
        },
        s.len() == 3 ==> {
            let width16 = s[1] == '1' && s[2] == '6';
            let width32 = s[1] == '3' && s[2] == '2';
            let width64 = s[1] == '6' && s[2] == '4';
            &&& letter_either_case(s[0], 'u') && width16 ==> dtype_of_name(s) == Dtype::Uint16
            &&& letter_either_case(s[0], 'u') && width32 ==> dtype_of_name(s) == Dtype::Uint32
            &&& letter_either_case(s[0], 'u') && width64 ==> dtype_of_name(s) == Dtype::Uint64
            &&& letter_either_case(s[0], 'i') && width16 ==> dtype_of_name(s) == Dtype::Int16
            &&& letter_either_case(s[0], 'i') && width32 ==> dtype_of_name(s) == Dtype::Int32
            &&& letter_either_case(s[0], 'i') && width64 ==> dtype_of_name(s) == Dtype::Int64
            &&& letter_either_case(s[0], 'f') && width16 ==> dtype_of_name(s) == Dtype::Float16
            &&& letter_either_case(s[0], 'f') && width32 ==> dtype_of_name(s) == Dtype::Float32
            &&& letter_either_case(s[0], 'f') && width64 ==> dtype_of_name(s) == Dtype::Float64
        },
        s.len() == 4 && letter_either_case(s[0], 'b') && letter_either_case(s[1], 'f')
            && s[2] == '1' && s[3] == '6' ==> dtype_of_name(s) == Dtype::Bfloat16,
        s.len() == 4 && letter_either_case(s[0], 'b') && letter_either_case(s[1], 'o')
            && letter_either_case(s[2], 'o') && letter_either_case(s[3], 'l') ==> dtype_of_name(s) == Dtype::Bool,
        s.len() == 8 && letter_either_case(s[0], 'b') && letter_either_case(s[1], 'f')
            && letter_either_case(s[2], 'l') && letter_either_case(s[3], 'o') && letter_either_case(s[4], 'a')
            && letter_either_case(s[5], 't') && s[6] == '1' && s[7] == '6' ==> dtype_of_name(s) == Dtype::Bfloat16,
{
    reveal_strlit("bool");
    reveal_strlit("u8");
    reveal_strlit("u16");
    reveal_strlit("u32");
    reveal_strlit("u64");
    reveal_strlit("i8");
    reveal_strlit("i16");
    reveal_strlit("i32");
    reveal_strlit("i64");
    reveal_strlit("f16");
    reveal_strlit("f32");
    reveal_strlit("f64");
    reveal_strlit("bf16");
    reveal_strlit("bfloat16");
    reveal_strlit("Complex64");
    if s.len() >= 2 {
        assert(!('A' <= s[1] <= 'Z') ==> (lowers_to(s[1], '8') <==> s[1] == '8'));
    }
    if s.len() == 3 {
        assert(s[1] == '1' || s[1] == '3' || s[1] == '6' ==> !('A' <= s[1] <= 'Z'));
        assert(s[2] == '6' || s[2] == '2' || s[2] == '4' ==> !('A' <= s[2] <= 'Z'));
    }
    if s.len() == 2 || s.len() == 3 {
        if letter_either_case(s[0], 'u') {
            lemma_letter_either_case(s[0], 'u', 'i');
            lemma_letter_either_case(s[0], 'u', 'f');
            lemma_letter_either_case(s[0], 'u', 'b');
        }
        if letter_either_case(s[0], 'i') {
            lemma_letter_either_case(s[0], 'i', 'u');
            lemma_letter_either_case(s[0], 'i', 'f');
            lemma_letter_either_case(s[0], 'i', 'b');
        }
        if letter_either_case(s[0], 'f') {
            lemma_letter_either_case(s[0], 'f', 'u');
            lemma_letter_either_case(s[0], 'f', 'i');
            lemma_letter_either_case(s[0], 'f', 'b');
        }
    }
    if s.len() == 4 && letter_either_case(s[0], 'b') && letter_either_case(s[1], 'f') && s[2] == '1' && s[3] == '6' {
        lemma_letter_either_case(s[0], 'b', 'b');
        lemma_letter_either_case(s[1], 'f', 'o');
        assert(!('A' <= s[2] <= 'Z') && !('A' <= s[3] <= 'Z'));
    }
    if s.len() == 8 && letter_either_case(s[0], 'b') && letter_either_case(s[1], 'f')
        && letter_either_case(s[2], 'l') && letter_either_case(s[3], 'o') && letter_either_case(s[4], 'a')
        && letter_either_case(s[5], 't') && s[6] == '1' && s[7] == '6' {
        let name = "bfloat16"@;
        assert forall|i: int| 0 <= i < s.len() implies lowers_to(#[trigger] s[i], name[i]) by {
            if i < 6 {
                lemma_letter_either_case(s[i], name[i], name[i]);
            } else {
                assert(!('A' <= s[i] <= 'Z'));
            }
        }
    }
    lemma_same_name_by_chars(s, "bool"@);
    lemma_same_name_by_chars(s, "u8"@);
    lemma_same_name_by_chars(s, "u16"@);
    lemma_same_name_by_chars(s, "u32"@);
    lemma_same_name_by_chars(s, "u64"@);
    lemma_same_name_by_chars(s, "i8"@);
    lemma_same_name_by_chars(s, "i16"@);
    lemma_same_name_by_chars(s, "i32"@);
    lemma_same_name_by_chars(s, "i64"@);
    lemma_same_name_by_chars(s, "f16"@);
    lemma_same_name_by_chars(s, "f32"@);
    lemma_same_name_by_chars(s, "f64"@);
    lemma_same_name_by_chars(s, "bf16"@);
}

/// No name reads as `Complex64`: names are compared after lower-casing, and
/// that name has a capital.
pub proof fn lemma_no_name_reads_complex(s: Seq<char>)
    ensures
        dtype_of_name(s) != Dtype::Complex64,
{
    reveal_strlit("Complex64");
    if s.len() == 9 {
        assert(!lowers_to(s[0], "Complex64"@[0]));
    }
}

/// A weights file must be at least this long; its header is looked for in
/// the bytes before this position.
pub const HEADER_MAX_SAFETENSORS: usize = 100000000;

/// The header starts after the eight bytes that give its length.
pub const HEADER_OFFSET_SAFETENSORS: usize = 8;

/// The length of the JSON header of a weights file: the header is the first
/// JSON object in the bytes from position 8 up to position 100 000 000; files
/// shorter than that are refused.
pub fn read_safetensors_header(file: &[u8]) -> (r: Result<usize, Error>)
    ensures
        file@.len() < 100000000 ==> r == Err::<usize, Error>(Error::SafetensorsHeaderReadError),
        file@.len() >= 100000000 ==> match json_object_end(file@.subrange(8, 100000000)) {
            Some(n) => r == Ok::<usize, Error>(n as usize),
            None => r == Err::<usize, Error>(Error::SafetensorsHeaderReadError),
        },
{
    if file.len() < HEADER_MAX_SAFETENSORS {
        return Err(Error::SafetensorsHeaderReadError);
    }
    let buffer = vstd::slice::slice_subrange(file, HEADER_OFFSET_SAFETENSORS, HEADER_MAX_SAFETENSORS);
    proof {
        lemma_short_buffer_fits(buffer@);
    }
    match find_json_object_end_bytes(buffer) {
        Some(size_header) => Ok(size_header),
        None => Err(Error::SafetensorsHeaderReadError),
    }
}

/// A tensor entry of a safetensors header.
#[derive(Debug, Clone)]
pub struct TensorJSON {
    pub data_offsets: [u64; 2],
    pub dtype: String,
    pub shape: Vec<i32>,
}

/// The metadata entry of a safetensors header.
#[derive(Debug, Clone)]
pub struct MetadataJSON {
    pub format: Option<String>,
}

/// A parsed safetensors header: its metadata and its tensors by name.
#[derive(Debug, Clone)]
pub struct WeightJSON {
    pub metadata: Option<MetadataJSON>,
    pub tensors: Vec<(String, TensorJSON)>,
}

/// The metadata kept for loaded weights.
#[derive(Debug, Clone)]
pub struct Metadata {
    pub format: Option<String>,
}

/// Where a tensor's data lies in its file.
#[derive(Debug, Clone)]
pub struct TensorLayout {
    pub name: String,
    pub dtype: Dtype,
    pub shape: Vec<i32>,
    pub start: usize,
    pub end: usize,
    pub size: u64,
}

/// The byte range of a tensor, counted from the start of the file.
pub open spec fn tensor_range(offset_header: int, t: TensorJSON) -> (int, int) {
    (offset_header + 8 + t.data_offsets[0], offset_header + 8 + t.data_offsets[1])
}

/// `l` is the layout of the header entry `t` in a file of `file_len` bytes.
pub open spec fn layout_of(l: TensorLayout, t: (String, TensorJSON), offset_header: int, file_len: int) -> bool {
    let (s, e) = tensor_range(offset_header, t.1);
    &&& l.name == t.0
    &&& l.start == s
    &&& l.end == e
    &&& e <= file_len
    &&& l.size == e - s
    &&& l.dtype == dtype_of_name(t.1.dtype@)
    &&& l.shape@ == t.1.shape@
}

/// The offsets of every tensor are ordered and their end fits the address space.
pub open spec fn offsets_valid(offset_header: int, tensors: Seq<(String, TensorJSON)>) -> bool {
    forall|i: int| 0 <= i < tensors.len() ==> {
        let t = #[trigger] tensors[i].1;
        &&& t.data_offsets[0] <= t.data_offsets[1]
        &&& offset_header + 8 + t.data_offsets[1] <= usize::MAX
    }
}

/// The layout of each tensor of a header, in the order of the header's
/// entries; the first tensor that ends beyond the file is reported.
pub fn read_safetensors_weights(file_len: usize, weights_json: &WeightJSON, offset_header: usize) -> (r: Result<Vec<TensorLayout>, Error>)
    requires
        offset_header + 8 <= usize::MAX,
        offsets_valid(offset_header as int, weights_json.tensors@),
    ensures
        r matches Ok(v) ==> {
            &&& v@.len() == weights_json.tensors@.len()
            &&& forall|i: int| 0 <= i < v@.len() ==> layout_of(#[trigger] v@[i], weights_json.tensors@[i], offset_header as int, file_len as int)
        },
        r matches Err(err) ==> exists|k: int| {
            &&& 0 <= k < weights_json.tensors@.len()
            &&& forall|i: int| 0 <= i < k ==> tensor_range(offset_header as int, #[trigger] weights_json.tensors@[i].1).1 <= file_len
            &&& tensor_range(offset_header as int, weights_json.tensors@[k].1).1 > file_len
            &&& err == (Error::SafetensorsOutOfBounds {
                tensor: weights_json.tensors@[k].0,
                start: tensor_range(offset_header as int, weights_json.tensors@[k].1).0 as usize,
                end: tensor_range(offset_header as int, weights_json.tensors@[k].1).1 as usize,
                file_size: file_len,
            })
        },
        r is Ok <==> forall|i: int| 0 <= i < weights_json.tensors@.len() ==> tensor_range(offset_header as int, #[trigger] weights_json.tensors@[i].1).1 <= file_len,
{
    let mut out: Vec<TensorLayout> = Vec::new();
    let base_offset = offset_header + HEADER_OFFSET_SAFETENSORS;
    let mut i: usize = 0;
    while i < weights_json.tensors.len()
        invariant
            offsets_valid(offset_header as int, weights_json.tensors@),
            base_offset == offset_header + 8,
            0 <= i <= weights_json.tensors@.len(),
            out@.len() == i,
            forall|j: int| 0 <= j < i ==> tensor_range(offset_header as int, #[trigger] weights_json.tensors@[j].1).1 <= file_len,
            forall|j: int| 0 <= j < i ==> layout_of(#[trigger] out@[j], weights_json.tensors@[j], offset_header as int, file_len as int),
        decreases weights_json.tensors@.len() - i,
    {
        let entry = &weights_json.tensors[i];
        let weight = &entry.1;
        assert(weight.data_offsets[0] <= weight.data_offsets[1]);
        let offset_start = base_offset + weight.data_offsets[0] as usize;
        let offset_end = base_offset + weight.data_offsets[1] as usize;
        if offset_end > file_len {
            return Err(Error::SafetensorsOutOfBounds {
                tensor: entry.0.clone(),
                start: offset_start,
                end: offset_end,
                file_size: file_len,
            });
        }
        let dtype = Dtype::from_string_unsafe(weight.dtype.as_str());
        let shape = weight.shape.clone();
        assert(shape@ =~= weight.shape@);
        let name = entry.0.clone();
        out.push(TensorLayout {
            name,
            dtype,
            shape,
            start: offset_start,
            end: offset_end,
            size: (offset_end - offset_start) as u64,
        });
        i = i + 1;
    }
    Ok(out)
}

/// The count check after all files are loaded: some tensor must have been
/// found, and every tensor named in a header must have been kept.
pub fn check_loaded_tensors(total_expected_tensors: usize, loaded: usize) -> (r: Result<(), Error>)
    ensures
        loaded == 0 ==> r == Err::<(), Error>(Error::NoTensorInModelFile),
        loaded != 0 && total_expected_tensors != loaded ==> r == Err::<(), Error>(
            Error::TensorSizeMismatch(total_expected_tensors, loaded),
        ),
        loaded != 0 && total_expected_tensors == loaded ==> r is Ok,
{
    if loaded == 0 {
        Err(Error::NoTensorInModelFile)
    } else if total_expected_tensors != loaded {
        Err(Error::TensorSizeMismatch(total_expected_tensors, loaded))
    } else {
        Ok(())
    }
}

/// The metadata format of merged weights: that of the first file that has one.
pub open spec fn merged_format(list: Seq<Metadata>) -> Option<String>
    decreases list.len(),
{
    if list.len() == 0 {
        None
    } else if list[0].format is Some {
        list[0].format
    } else {
        merged_format(list.skip(1))
    }
}

/// Merges the metadata of several weight files: the first one that names a
/// format is kept.
pub fn merge_metadata(list: Vec<Metadata>) -> (r: Metadata)
    ensures
        r.format == merged_format(list@),
{
    let mut merged = Metadata { format: None };
    let ghost orig = list@;
    let mut i: usize = 0;
    assert(list@.skip(0) =~= list@);
    while i < list.len()
        invariant
            orig == list@,
            0 <= i <= list@.len(),
            merged.format is Some ==> merged.format == merged_format(list@),
            merged.format is None ==> merged_format(list@) == merged_format(list@.skip(i as int)),
        decreases list@.len() - i,
    {
        assert(list@.skip(i as int).skip(1) =~= list@.skip(i + 1));
        if merged.format.is_none() {
            let format = match &list[i].format {
                Some(f) => Some(f.clone()),
                None => None,
            };
            merged = Metadata { format };
        }
        i = i + 1;
    }
    merged
}

/// The pattern of the weight files of a model: `model*.safetensors`, or
/// `weight*.safetensors` where there are none of those.
pub fn weight_file_pattern(model_path: &str, fallback: bool) -> (r: String)
    ensures
        r@ == path_join(model_path@, if fallback { "weight*.safetensors"@ } else { "model*.safetensors"@ }),
{
    if fallback {
        join_path(model_path, "weight*.safetensors")
    } else {
        join_path(model_path, "model*.safetensors")
    }
}

/// The weight files of a model, from the files matching its first pattern
/// and those matching the fallback one: the first ones where there are any,
/// else the fallback ones; a model with neither has no weights, and the
/// fallback pattern is reported.
pub fn select_weight_files(model_files: Vec<String>, weight_files: Vec<String>, fallback_pattern: String) -> (r: Result<Vec<String>, Error>)
    ensures
        model_files@.len() > 0 ==> r == Ok::<Vec<String>, Error>(model_files),
        model_files@.len() == 0 && weight_files@.len() > 0 ==> r == Ok::<Vec<String>, Error>(weight_files),
        model_files@.len() == 0 && weight_files@.len() == 0 ==> r == Err::<Vec<String>, Error>(Error::ModelWeightPathNotFound(fallback_pattern)),
{
    if model_files.len() > 0 {
        Ok(model_files)
    } else if weight_files.len() > 0 {
        Ok(weight_files)
    } else {
        Err(Error::ModelWeightPathNotFound(fallback_pattern))
    }
}

} // verus!
