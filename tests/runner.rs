use zkasm_codegen::runner::{ExecutionResult, ExecutionStatus};

fn result(error: Option<&str>) -> ExecutionResult {
    ExecutionResult {
        path: "code.zkasm".to_string(),
        status: ExecutionStatus::RuntimeError,
        error: error.map(|e| e.to_string()),
        counters: None,
    }
}

#[test]
fn format_error_unescapes_line_feeds() {
    assert_eq!(result(Some("a\\nb\\n")).format_error(), "a\nb\n");
    assert_eq!(result(Some("\\\\n")).format_error(), "\\\n");
    assert_eq!(result(Some("plain")).format_error(), "plain");
    assert_eq!(result(Some("")).format_error(), "");
    assert_eq!(result(Some("ends with \\")).format_error(), "ends with \\");
}

#[test]
fn format_error_without_error() {
    assert_eq!(result(None).format_error(), "None");
}
