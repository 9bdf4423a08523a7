use sn_inference::encoding::{pad_encode_batch, SimpleEncoding};
use sn_inference::error::Error;
use sn_inference::safetensors::{select_weight_files, weight_file_pattern, check_loaded_tensors, merge_metadata, read_safetensors_header, read_safetensors_weights, DTypeExt, Dtype, Metadata, MetadataJSON, TensorJSON, WeightJSON};
use sn_inference::text::{contains_str, replace_all_str};
use sn_inference::template::{tool_schemas_json, Tool};
use sn_inference::json_scan::find_json_object_end_bytes;

fn tensor(name: &str, start: u64, end: u64, dtype: &str) -> (String, TensorJSON) {
    (name.to_string(), TensorJSON { data_offsets: [start, end], dtype: dtype.to_string(), shape: vec![2, 2] })
}

#[test]
fn dtype_names_ignore_ascii_case() {
    assert_eq!(Dtype::from_string_unsafe("F16"), Dtype::Float16);
    assert_eq!(Dtype::from_string_unsafe("bf16"), Dtype::Bfloat16);
    assert_eq!(Dtype::from_string_unsafe("BFloat16"), Dtype::Bfloat16);
    assert_eq!(Dtype::from_string_unsafe("u32"), Dtype::Uint32);
    // Names are lower-cased first, so the capitalised name never matches.
    assert_eq!(Dtype::from_string_unsafe("Complex64"), Dtype::Bool);
    assert_eq!(Dtype::from_string_unsafe("q4"), Dtype::Bool);
}

#[test]
fn header_needs_the_whole_window() {
    assert_eq!(read_safetensors_header(&[0u8; 16]), Err(Error::SafetensorsHeaderReadError));
    let mut file = vec![b' '; 100_000_000];
    let header = br#"{"a":{"dtype":"F32"}}"#;
    file[8..8 + header.len()].copy_from_slice(header);
    assert_eq!(read_safetensors_header(&file), Ok(header.len()));
    let open = vec![b'{'; 100_000_000];
    assert_eq!(read_safetensors_header(&open), Err(Error::SafetensorsHeaderReadError));
}

#[test]
fn tensor_ranges_follow_the_header() {
    let json = WeightJSON {
        metadata: Some(MetadataJSON { format: Some("pt".to_string()) }),
        tensors: vec![tensor("a", 0, 16, "F32"), tensor("b", 16, 24, "bf16")],
    };
    let layouts = read_safetensors_weights(100, &json, 10).unwrap();
    assert_eq!((layouts[0].start, layouts[0].end, layouts[0].size), (18, 34, 16));
    assert_eq!((layouts[1].start, layouts[1].end, layouts[1].dtype), (34, 42, Dtype::Bfloat16));
    assert_eq!(layouts[1].shape, vec![2, 2]);
    assert_eq!(
        read_safetensors_weights(40, &json, 10).unwrap_err(),
        Error::SafetensorsOutOfBounds { tensor: "b".to_string(), start: 34, end: 42, file_size: 40 }
    );
}

#[test]
fn loaded_tensor_counts_are_checked() {
    assert_eq!(check_loaded_tensors(0, 0), Err(Error::NoTensorInModelFile));
    assert_eq!(check_loaded_tensors(3, 2), Err(Error::TensorSizeMismatch(3, 2)));
    assert_eq!(check_loaded_tensors(2, 2), Ok(()));
}

#[test]
fn first_named_format_wins() {
    let m = merge_metadata(vec![Metadata { format: None }, Metadata { format: Some("mlx".to_string()) }, Metadata { format: Some("pt".to_string()) }]);
    assert_eq!(m.format, Some("mlx".to_string()));
    assert_eq!(merge_metadata(vec![]).format, None);
}

#[test]
fn batches_are_padded_to_the_longest() {
    let a = SimpleEncoding::new(vec![1, 2, 3], vec![1, 1, 1]);
    let b = SimpleEncoding::new(vec![4], vec![1]);
    let padded = pad_encode_batch(&[a, b], 0).unwrap();
    assert_eq!(padded[1].get_ids(), &[4, 0, 0]);
    assert_eq!(padded[1].get_attention_mask(), &[1, 0, 0]);
    assert_eq!(padded[0].get_ids(), &[1, 2, 3]);
    assert!(matches!(pad_encode_batch(&[], 0), Err(Error::PaddingFailedFindMax)));
}

#[test]
fn substring_search_and_replacement() {
    assert!(contains_str("a<|end_header_id|>b", "<|end_header_id|>"));
    assert!(!contains_str("abc", "abd"));
    assert!(contains_str("abc", ""));
    assert!(!contains_str("", "a"));
    assert_eq!(replace_all_str("aaa", "aa", "b"), "ba");
    assert_eq!(replace_all_str("xyx", "x", ""), "y");
}

#[test]
fn weight_files_fall_back_to_the_second_pattern() {
    assert_eq!(weight_file_pattern("/m", false), "/m/model*.safetensors");
    assert_eq!(weight_file_pattern("/m", true), "/m/weight*.safetensors");
    let a = vec!["/m/model-1.safetensors".to_string()];
    let b = vec!["/m/weight.safetensors".to_string()];
    assert_eq!(select_weight_files(a.clone(), b.clone(), "p".to_string()), Ok(a));
    assert_eq!(select_weight_files(vec![], b.clone(), "p".to_string()), Ok(b));
    assert_eq!(select_weight_files(vec![], vec![], "/m/weight*.safetensors".to_string()), Err(Error::ModelWeightPathNotFound("/m/weight*.safetensors".to_string())));
}

#[test]
fn empty_pattern_is_inserted_everywhere() {
    assert_eq!(replace_all_str("ab", "", "x"), "xaxbx");
    assert_eq!(replace_all_str("", "", "x"), "x");
    assert_eq!(replace_all_str("ab", "", "x"), "ab".replace("", "x"));
}

#[test]
fn schema_tools_are_kept_in_a_json_array() {
    use_tools();
}

fn use_tools() {
    let tools = vec![
        Tool::Function("f".to_string()),
        Tool::Schema("{\"a\":1}".to_string()),
        Tool::Function("g".to_string()),
        Tool::Schema("{\"b\":2}".to_string()),
    ];
    assert_eq!(tool_schemas_json(&tools), "[{\"a\":1},{\"b\":2}]");
    assert_eq!(tool_schemas_json(&vec![]), "[]");
}

#[test]
fn object_end_is_kept_when_bytes_are_appended() {
    let b = br#"{"k":{"x":"}"}}"#.to_vec();
    let e = find_json_object_end_bytes(&b).unwrap();
    assert_eq!(e, b.len());
    assert_eq!(b[e - 1], b'}');
    assert_eq!(find_json_object_end_bytes(&b[..e]), Some(e));
    let mut longer = b.clone();
    longer.extend_from_slice(b"{{{{ tail");
    assert_eq!(find_json_object_end_bytes(&longer), Some(e));
}
