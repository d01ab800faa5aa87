use minal::renderer::wrapped_line_count;
use minal::shell::{shell_integration_candidates, shell_integration_env_vars, truncate_output};

fn pair(a: &str, b: &str) -> (String, String) {
    (a.to_string(), b.to_string())
}

#[test]
fn integration_vars_without_a_scripts_directory() {
    let vars = shell_integration_env_vars("0.1.0", None, None);
    assert_eq!(vars, vec![pair("TERM_PROGRAM", "minal"), pair("TERM_PROGRAM_VERSION", "0.1.0")]);
}

#[test]
fn user_setting_wins_over_found_directory() {
    let vars = shell_integration_env_vars("1.2", Some("/mine".to_string()), Some("/found".to_string()));
    assert_eq!(vars.len(), 3);
    assert_eq!(vars[2], pair("MINAL_SHELL_INTEGRATION", "/mine"));
    let vars = shell_integration_env_vars("1.2", None, Some("/found".to_string()));
    assert_eq!(vars[2], pair("MINAL_SHELL_INTEGRATION", "/found"));
}

#[test]
fn candidate_directories_in_order() {
    assert_eq!(
        shell_integration_candidates(),
        vec!["shell-integration", "../share/minal/shell-integration", "../../shell-integration"]
    );
}

#[test]
fn short_output_is_kept_whole() {
    assert_eq!(truncate_output("hello"), "hello");
    let exact = "x".repeat(50_000);
    assert_eq!(truncate_output(&exact), exact);
}

#[test]
fn long_output_is_cut_with_a_mark() {
    let long = "y".repeat(50_001);
    let kept = truncate_output(&long);
    assert_eq!(kept.len(), 50_000 + "...(truncated)".len());
    assert!(kept.ends_with("...(truncated)"));
    assert!(kept.starts_with(&"y".repeat(50_000)));
}

#[test]
fn long_multibyte_output_is_cut_at_the_limit() {
    let long = "é".repeat(30_000);
    let kept = truncate_output(&long);
    assert_eq!(kept, format!("{}...(truncated)", "é".repeat(25_000)));
}

#[test]
fn wrapping_counts_lines() {
    assert_eq!(wrapped_line_count("", 10), 1);
    assert_eq!(wrapped_line_count("abc", 0), 1);
    assert_eq!(wrapped_line_count("abc", 3), 1);
    assert_eq!(wrapped_line_count("abcd", 3), 2);
    assert_eq!(wrapped_line_count("abcdefg", 3), 3);
    assert_eq!(wrapped_line_count("ab\ncd", 10), 2);
    assert_eq!(wrapped_line_count("ab\n", 10), 2);
    assert_eq!(wrapped_line_count("abc\nd", 3), 2);
}
