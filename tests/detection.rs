use repo_analyzer::detection::{analyze, Finding};
use repo_analyzer::patterns::{SafePattern, SuspiciousPattern, MAX_LINE_LENGTH};

fn texts(f: &Finding) -> Vec<&'static str> {
    f.matched_patterns.iter().map(|p| p.text()).collect()
}

#[test]
fn eval_and_from_char_code_are_reported() {
    let line = "var s = eval(String.fromCharCode(97, 108, 101, 114, 116));";
    let findings = analyze(line, "src/app.js");
    assert_eq!(findings.len(), 1);
    let f = &findings[0];
    assert_eq!(texts(f), vec!["eval(", "fromCharCode"]);
    assert_eq!(f.matched_patterns, vec![SuspiciousPattern::Eval, SuspiciousPattern::FromCharCode]);
    assert!(!f.is_minified);
    assert_eq!(f.line_number, 1);
    assert_eq!(f.line_length, line.len());
    assert_eq!(f.file_path, "src/app.js");
}

#[test]
fn long_line_with_base64_only_is_minified_finding() {
    let line = format!("base64{}", "a".repeat(594));
    assert_eq!(line.len(), 600);
    let findings = analyze(&line, "bundle.js");
    assert_eq!(findings.len(), 1);
    assert!(findings[0].is_minified);
    assert_eq!(findings[0].matched_patterns, vec![SuspiciousPattern::Base64]);
    assert_eq!(findings[0].line_length, 600);
}

#[test]
fn safe_pattern_suppresses_everything() {
    let safe = [
        "/*! lib v1 */ eval(atob('x')); _0x12; unescape(s); fromCharCode",
        "!function(e,t){eval(_0x1)}",
        "(function(f){ base64 \\x41 eval(1) })",
    ];
    for line in safe.iter() {
        assert!(analyze(line, "lib.min.js").is_empty());
    }
    let long_safe = format!("/*! {}eval(_0x", "x".repeat(700));
    assert!(analyze(&long_safe, "lib.min.js").is_empty());
}

#[test]
fn one_pattern_on_short_line_is_not_reported() {
    assert!(analyze("// decode the base64 payload", "a.js").is_empty());
    assert!(analyze("eval(code)", "a.js").is_empty());
    let at_threshold = format!("_0x{}", "b".repeat(MAX_LINE_LENGTH - 3));
    assert_eq!(at_threshold.len(), 500);
    assert!(analyze(&at_threshold, "a.js").is_empty());
    let over = format!("_0x{}", "b".repeat(MAX_LINE_LENGTH - 2));
    assert_eq!(over.len(), 501);
    let findings = analyze(&over, "a.js");
    assert_eq!(findings.len(), 1);
    assert!(findings[0].is_minified);
}

#[test]
fn no_pattern_on_long_line_is_not_reported() {
    let line = "x".repeat(2000);
    assert!(analyze(&line, "a.js").is_empty());
}

#[test]
fn all_six_patterns_in_fixed_order() {
    let line = "unescape( fromCharCode base64 \\x eval( _0x";
    let findings = analyze(line, "a.js");
    assert_eq!(findings.len(), 1);
    assert_eq!(
        texts(&findings[0]),
        vec!["_0x", "eval(", "\\x", "base64", "fromCharCode", "unescape("]
    );
    assert_eq!(SuspiciousPattern::all().len(), 6);
}

#[test]
fn lines_are_numbered_from_one_and_carriage_returns_dropped() {
    let content = "let a = 1;\r\nvar _0x1 = eval(x);\r\n\nok\nvar b = '\\x41' + unescape(c)";
    let findings = analyze(content, "f.ts");
    assert_eq!(findings.len(), 2);
    assert_eq!(findings[0].line_number, 2);
    assert_eq!(findings[0].line_length, "var _0x1 = eval(x);".len());
    assert_eq!(findings[1].line_number, 5);
    assert_eq!(texts(&findings[1]), vec!["\\x", "unescape("]);
}

#[test]
fn empty_content_has_no_findings() {
    assert!(analyze("", "a.js").is_empty());
    assert!(analyze("\n\n\n", "a.js").is_empty());
}

#[test]
fn analysis_is_repeatable_on_same_content() {
    let content = "eval(_0x1)\nfine\nunescape(base64)\n";
    let first = analyze(content, "x.js");
    let second = analyze(content, "x.js");
    assert_eq!(first, second);
    assert_eq!(first.len(), 2);
}

#[test]
fn pattern_texts() {
    assert_eq!(SuspiciousPattern::HexIdentifier.text(), "_0x");
    assert_eq!(SuspiciousPattern::HexEscape.text(), "\\x");
    assert_eq!(SafePattern::FunctionWrapper.text(), "!function(e,t)");
    assert_eq!(SafePattern::LibraryBanner.text(), "/*! ");
    assert_eq!(SafePattern::ModuleWrapper.text(), "(function(f)");
}
