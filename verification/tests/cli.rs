use depthmap::cli::{parse_u32, plan, RunPlan};

fn args_of(parts: &[&str]) -> Vec<String> {
    parts.iter().map(|s| s.to_string()).collect()
}

#[test]
fn parse_u32_accepts_plain_decimals() {
    assert_eq!(parse_u32("0"), Some(0));
    assert_eq!(parse_u32("700"), Some(700));
    assert_eq!(parse_u32("4294967295"), Some(u32::MAX));
}

#[test]
fn parse_u32_rejects_empty_malformed_and_overflowing() {
    assert_eq!(parse_u32(""), None);
    assert_eq!(parse_u32("12a"), None);
    assert_eq!(parse_u32("-3"), None);
    assert_eq!(parse_u32(" 7"), None);
    assert_eq!(parse_u32("4294967296"), None);
    assert_eq!(parse_u32("99999999999999999999"), None);
}

#[test]
fn too_few_arguments_print_usage() {
    assert!(matches!(plan(&args_of(&["prog"])), RunPlan::Usage));
    assert!(matches!(plan(&args_of(&["prog", "m.onnx", "in.jpg"])), RunPlan::Usage));
}

#[test]
fn identical_paths_refuse_to_run() {
    // The guard that keeps a run from ever writing over its input.
    let p = plan(&args_of(&["prog", "m.onnx", "same.png", "same.png"]));
    assert!(matches!(p, RunPlan::SamePath));
    let q = plan(&args_of(&["prog", "m.onnx", "same.png", "same.png", "700", "500"]));
    assert!(matches!(q, RunPlan::SamePath));
}

#[test]
fn four_arguments_run_with_derived_dims() {
    let p = plan(&args_of(&["prog", "m.onnx", "in.jpg", "out.png"]));
    match p {
        RunPlan::Run { model, input, output, requested_w, requested_h } => {
            assert_eq!(model, "m.onnx");
            assert_eq!(input, "in.jpg");
            assert_eq!(output, "out.png");
            assert_eq!((requested_w, requested_h), (0, 0));
        },
        other => panic!("expected a run plan, got {:?}", other),
    }
}

#[test]
fn six_arguments_carry_the_requested_dims() {
    let p = plan(&args_of(&["prog", "m.onnx", "in.jpg", "out.png", "700", "500"]));
    match p {
        RunPlan::Run { requested_w, requested_h, .. } => {
            assert_eq!((requested_w, requested_h), (700, 500));
        },
        other => panic!("expected a run plan, got {:?}", other),
    }
}

#[test]
fn malformed_dimension_arguments_are_refused() {
    let p = plan(&args_of(&["prog", "m.onnx", "in.jpg", "out.png", "70x", "500"]));
    assert!(matches!(p, RunPlan::BadDimension));
    let q = plan(&args_of(&["prog", "m.onnx", "in.jpg", "out.png", "700", ""]));
    assert!(matches!(q, RunPlan::BadDimension));
}
