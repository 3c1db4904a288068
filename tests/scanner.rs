use repo_analyzer::scanner::{Scanner, WasmScanner};

#[test]
fn accepts_only_script_extensions() {
    for p in ["a.js", "dir/b.ts", "c.jsx", "deep/d/e.tsx"].iter() {
        assert!(Scanner::accepts(p), "{}", p);
    }
    for p in ["a.json", "b.js.map", "js", "c.tsx.bak", "README.md", ""].iter() {
        assert!(!Scanner::accepts(p), "{}", p);
    }
}

#[test]
fn scanner_gathers_findings_in_file_order() {
    let mut s = Scanner::new();
    assert!(!s.analyze_content("let a = 1;", "clean.js"));
    assert!(!s.found_suspicious());
    assert!(s.analyze_content("x\neval(_0x1)", "bad.js"));
    assert!(!s.analyze_content("", "empty.ts"));
    assert!(s.analyze_content("unescape(base64)", "worse.ts"));
    assert!(s.found_suspicious());
    let r = s.finish();
    assert!(r.any_suspicious);
    assert_eq!(r.findings.len(), 2);
    assert_eq!(r.findings[0].file_path, "bad.js");
    assert_eq!(r.findings[0].line_number, 2);
    assert_eq!(r.findings[1].file_path, "worse.ts");
}

#[test]
fn clean_scan_has_no_verdict() {
    let mut s = Scanner::new();
    s.analyze_content("const x = 1;\n", "a.js");
    let r = s.finish();
    assert!(!r.any_suspicious);
    assert!(r.findings.is_empty());
}

fn verdict(files: &[(&str, &str)]) -> bool {
    let mut s = Scanner::new();
    for (path, content) in files {
        if Scanner::accepts(path) {
            s.analyze_content(content, path);
        }
    }
    s.finish().any_suspicious
}

#[test]
fn verdict_does_not_depend_on_enumeration_order() {
    let a = [
        ("notes.txt", "eval(_0x1)"),
        ("lib/a.js", "ok"),
        ("lib/b.ts", "fine"),
    ];
    let b = [a[2], a[0], a[1]];
    assert!(!verdict(&a));
    assert_eq!(verdict(&a), verdict(&b));
    let c = [("x.jsx", "eval(_0x1)"), ("y.md", "")];
    let d = [c[1], c[0]];
    assert!(verdict(&c));
    assert_eq!(verdict(&c), verdict(&d));
}

#[test]
fn single_text_scanner() {
    let mut w = WasmScanner::new();
    assert!(!w.scan());
    w.set_content("var _0xab = eval(s);".to_string());
    assert!(w.scan());
    w.set_content("/*! v1 */ var _0xab = eval(s);".to_string());
    assert!(!w.scan());
}
