use sn_inference::debug_format::{format_debug_weight, PrintDebugOptions, PrintValueMode};

fn render_f32(v: f32, mode: Option<PrintValueMode>) -> String {
    match mode {
        Some(PrintValueMode::Decimal(n)) => format!("{:>9.*e}", n, v),
        Some(PrintValueMode::Rounded(n)) => format!("{:>9.*}", n, v),
        _ => format!("{:?}", v),
    }
}

fn render_all(values: &[f32], opts: &Option<PrintDebugOptions>) -> Vec<String> {
    let mode = opts.as_ref().and_then(|o| o.print_value_mode());
    values.iter().map(|v| render_f32(*v, mode)).collect()
}

#[test]
fn test_format_value_decimal() {
    let opts = Some(PrintDebugOptions::default().with_print_value_mode(PrintValueMode::Decimal(3)));
    let values = render_all(&[std::f32::consts::PI], &opts);
    let out = format_debug_weight(&values, &vec![1], opts, "Float32");
    assert!(out.contains("3.142e0"));
}

#[test]
fn test_format_value_rounded() {
    let opts = Some(PrintDebugOptions::default().with_print_value_mode(PrintValueMode::Rounded(2)));
    let values = render_all(&[std::f32::consts::PI], &opts);
    let out = format_debug_weight(&values, &vec![1], opts, "Float32");
    assert_eq!(out, "tensor([ [     3.14]], dtype=Float32)\n");
}

#[test]
fn test_format_value_default_debug() {
    let opts = Some(PrintDebugOptions::default());
    let values = vec![format!("{:?}", 42i32)];
    let out = format_debug_weight(&values, &vec![1], opts, "Int32");
    assert_eq!(out, "tensor([ [42]], dtype=Int32)\n");
}

#[test]
fn test_format_debug_weight_small_array() {
    let values = render_all(&[1.0f32, 2.0, 3.0, 4.0], &None);
    let s = format_debug_weight(&values, &vec![2, 2], None, "Float32");
    println!("{}", s);
    assert!(s.contains("tensor(["));
    assert!(s.contains("dtype"));
    assert!(s.contains("1"));
    assert!(s.contains("4"));
}

#[test]
fn test_format_debug_weight_head_tail() {
    let data: Vec<f32> = (0..20).map(|x| x as f32).collect();
    let opts = Some(PrintDebugOptions::default().with_head_tail(2));
    let values = render_all(&data, &opts);
    let s = format_debug_weight(&values, &vec![20], opts, "Float32");
    assert!(s.contains("...,"));
    assert!(s.contains("0"));
    assert!(s.contains("19"));
}

#[test]
fn rows_are_written_without_separators() {
    let values = render_all(&[1.0f32, 2.0, 3.0, 4.0], &None);
    let s = format_debug_weight(&values, &vec![2, 2], None, "Float32");
    assert_eq!(s, "tensor([ [[1.0, 2.0][3.0, 4.0]]], dtype=Float32)\n");
}

#[test]
fn head_tail_keeps_first_and_last_entries() {
    let values: Vec<String> = (0..20).map(|x| x.to_string()).collect();
    let opts = Some(PrintDebugOptions::default().with_head_tail(2));
    let s = format_debug_weight(&values, &vec![20], opts, "Int32");
    assert_eq!(s, "tensor([ [0, 1, ..., , 18, 19]], dtype=Int32)\n");
}

#[test]
fn head_tail_covering_whole_row_joins_halves() {
    let values: Vec<String> = (1..5).map(|x| x.to_string()).collect();
    let opts = Some(PrintDebugOptions::default().with_head_tail(5));
    let s = format_debug_weight(&values, &vec![4], opts, "Int32");
    assert_eq!(s, "tensor([ [1, 23, 4]], dtype=Int32)\n");
}

#[test]
fn head_tail_skips_middle_blocks() {
    let values: Vec<String> = (0..5).map(|x| x.to_string()).collect();
    let opts = Some(PrintDebugOptions::default().with_head_tail(1));
    let s = format_debug_weight(&values, &vec![5, 1], opts, "Int32");
    assert_eq!(s, "tensor([ [[, ..., ]...[, ..., ]]], dtype=Int32)\n");
}
