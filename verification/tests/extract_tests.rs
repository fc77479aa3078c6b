use aim::extract::{extract_all_component, extract_component, find_box};

#[test]
fn find_box_braced() {
    let r = find_box("the verdict is \\boxed{invalid} here");
    assert_eq!(r, Some("invalid".to_string()));
}

#[test]
fn find_box_nested_braces() {
    let r = find_box("\\boxed{\\frac{1}{2}}");
    assert_eq!(r, Some("\\frac{1}{2}".to_string()));
}

#[test]
fn find_box_last_marker_wins() {
    let r = find_box("\\boxed{valid} and later \\boxed{invalid}");
    assert_eq!(r, Some("invalid".to_string()));
}

#[test]
fn find_box_unbraced_up_to_dollar() {
    let r = find_box("$\\boxed invalid $ trailing");
    assert_eq!(r, Some("invalid".to_string()));
}

#[test]
fn find_box_unbraced_to_end_is_trimmed() {
    let r = find_box("result boxed  true  ");
    assert_eq!(r, Some("true".to_string()));
}

#[test]
fn find_box_missing_marker() {
    assert_eq!(find_box("no verdict here"), None);
}

#[test]
fn find_box_nothing_after_marker() {
    assert_eq!(find_box("ends with boxed"), None);
}

#[test]
fn find_box_empty_unbraced_argument() {
    assert_eq!(find_box("boxed $"), None);
}

#[test]
fn find_box_unclosed_brace_takes_rest() {
    assert_eq!(find_box("boxed{unclosed"), Some("unclosed".to_string()));
}

#[test]
fn extract_component_takes_last_match() {
    let text = "\\begin{proof}first\\end{proof}\\begin{proof}second\\end{proof}";
    assert_eq!(extract_component(text, "proof"), Some("second".to_string()));
}

#[test]
fn extract_component_missing_tag() {
    assert_eq!(extract_component("no environments", "proof"), None);
}

#[test]
fn extract_component_multiline_content() {
    let text = "\\begin{conjecture}line one\nline two\\end{conjecture}";
    assert_eq!(
        extract_component(text, "conjecture"),
        Some("line one\nline two".to_string())
    );
}

#[test]
fn extract_all_component_in_order() {
    let text = "\\begin{x}a\\end{x} mid \\begin{x}b\\end{x}\\begin{x}c\\end{x}";
    let all = extract_all_component(text, "x");
    assert_eq!(all, vec!["a".to_string(), "b".to_string(), "c".to_string()]);
}

#[test]
fn extract_all_component_none_found() {
    let all = extract_all_component("\\begin{x}unterminated", "x");
    assert!(all.is_empty());
}

#[test]
fn extract_all_component_ignores_begin_inside_content() {
    // The scan resumes after each complete environment.
    let text = "\\begin{x}a\\begin{x}b\\end{x}\\begin{x}c\\end{x}";
    let all = extract_all_component(text, "x");
    assert_eq!(all, vec!["a\\begin{x}b".to_string(), "c".to_string()]);
}
