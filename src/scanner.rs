//! The scan over one source: which files are analysed, and the findings and
//! verdict gathered over them.
use vstd::prelude::*;
use vstd::string::StringSliceAdditionalSpecFns;
use vstd::utf8::encode_utf8;

use crate::detection::{analysis, analyze, views, Finding, FindingView};
use crate::text::{ends_with, has_suffix};

verus! {

/// A path, and the bytes of the content fetched for it.
pub type FileRecord = (Seq<char>, Seq<u8>);

/// Only JavaScript and TypeScript files are analysed.
pub open spec fn is_source_path(p: Seq<char>) -> bool {
    has_suffix(p, seq!['.', 'j', 's']) || has_suffix(p, seq!['.', 't', 's']) || has_suffix(
        p,
        seq!['.', 'j', 's', 'x'],
    ) || has_suffix(p, seq!['.', 't', 's', 'x'])
}

/// The files of an enumeration that are analysed, in enumeration order.
pub open spec fn selected(files: Seq<FileRecord>) -> Seq<FileRecord> {
    files.filter(|f: FileRecord| is_source_path(f.0))
}

/// The findings over a sequence of analysed files, file by file.
pub open spec fn scan_findings(files: Seq<FileRecord>) -> Seq<FindingView>
    decreases files.len(),
{
    if files.len() == 0 {
        seq![]
    } else {
        scan_findings(files.drop_last()) + analysis(files.last().1, files.last().0)
    }
}

/// Some analysed file has a finding.
pub open spec fn any_findings(files: Seq<FileRecord>) -> bool {
    exists|i: int| 0 <= i < files.len() && #[trigger] analysis(files[i].1, files[i].0).len() > 0
}

/// The outcome of a scan.
#[derive(Debug, PartialEq, Eq)]
pub struct ScanResult {
    pub any_suspicious: bool,
    pub findings: Vec<Finding>,
}

/// Gathers findings over the files of one source. The caller enumerates the
/// source, keeps the paths that [`Scanner::accepts`], fetches each one's
/// content and hands it to [`Scanner::analyze_content`].
pub struct Scanner {
    findings: Vec<Finding>,
    found_suspicious: bool,
    files: Ghost<Seq<FileRecord>>,
}

impl Scanner {
    /// The files analysed so far, in order.
    pub closed spec fn files(&self) -> Seq<FileRecord> {
        self.files@
    }

    pub closed spec fn wf(&self) -> bool {
        &&& views(self.findings@) == scan_findings(self.files@)
        &&& self.found_suspicious == any_findings(self.files@)
    }

    pub fn new() -> (r: Scanner)
        ensures
            r.wf(),
            r.files() == Seq::<FileRecord>::empty(),
    {
        let r = Scanner { findings: Vec::new(), found_suspicious: false, files: Ghost(Seq::empty()) };
        assert(views(r.findings@) =~= seq![]);
        r
    }

    /// Whether a path names a file that is analysed: one ending in `.js`,
    /// `.ts`, `.jsx` or `.tsx`.
    pub fn accepts(path: &str) -> (r: bool)
        ensures
            r == is_source_path(path@),
    {
        proof {
            reveal_strlit(".js");
            reveal_strlit(".ts");
            reveal_strlit(".jsx");
            reveal_strlit(".tsx");
            assert(".js"@ =~= seq!['.', 'j', 's']);
            assert(".ts"@ =~= seq!['.', 't', 's']);
            assert(".jsx"@ =~= seq!['.', 'j', 's', 'x']);
            assert(".tsx"@ =~= seq!['.', 't', 's', 'x']);
        }
        ends_with(path, ".js") || ends_with(path, ".ts") || ends_with(path, ".jsx") || ends_with(
            path,
            ".tsx",
        )
    }

    /// Analyses one file's content and records its findings; returns whether
    /// it has any.
    pub fn analyze_content(&mut self, content: &str, file_path: &str) -> (r: bool)
        requires
            old(self).wf(),
        ensures
            final(self).wf(),
            final(self).files() == old(self).files().push((file_path@, content.spec_bytes())),
            r == (analysis(content.spec_bytes(), file_path@).len() > 0),
    {
        let ghost before = self.files@;
        let ghost record: FileRecord = (file_path@, content.spec_bytes());
        let mut found = analyze(content, file_path);
        let r = found.len() > 0;
        let ghost old_findings = self.findings@;
        self.findings.append(&mut found);
        self.found_suspicious = self.found_suspicious || r;
        self.files = Ghost(before.push(record));
        proof {
            let after = before.push(record);
            assert(after.drop_last() =~= before);
            assert(views(self.findings@) =~= views(old_findings) + analysis(record.1, record.0));
            if r {
                assert(analysis(after[before.len() as int].1, after[before.len() as int].0).len()
                    > 0);
            }
            if any_findings(before) {
                let i = choose|i: int|
                    0 <= i < before.len() && #[trigger] analysis(before[i].1, before[i].0).len()
                        > 0;
                assert(after[i] == before[i]);
            }
            if any_findings(after) {
                let i = choose|i: int|
                    0 <= i < after.len() && #[trigger] analysis(after[i].1, after[i].0).len() > 0;
                if i < before.len() {
                    assert(after[i] == before[i]);
                }
            }
        }
        r
    }

    /// Whether any file analysed so far has a finding.
    pub fn found_suspicious(&self) -> (r: bool)
        requires
            self.wf(),
        ensures
            r == any_findings(self.files()),
    {
        self.found_suspicious
    }

    /// The verdict and the findings, in the order the files were analysed.
    pub fn finish(self) -> (r: ScanResult)
        requires
            self.wf(),
        ensures
            r.any_suspicious == any_findings(self.files()),
            views(r.findings@) == scan_findings(self.files()),
    {
        ScanResult { any_suspicious: self.found_suspicious, findings: self.findings }
    }
}

} // verus!

verus! {

/// The path under which [`WasmScanner`] analyses its one text.
pub open spec fn single_file_path() -> Seq<char> {
    seq!['f', 'i', 'l', 'e', '.', 'j', 's']
}

/// Scans a single text as if it were the one file, `file.js`, of a source.
pub struct WasmScanner {
    content: String,
}

impl WasmScanner {
    pub closed spec fn spec_content(&self) -> Seq<char> {
        self.content@
    }

    /// A scanner holding empty text.
    pub fn new() -> (r: WasmScanner)
        ensures
            r.spec_content() == Seq::<char>::empty(),
    {
        WasmScanner { content: String::new() }
    }

    pub fn set_content(&mut self, content: String)
        ensures
            final(self).spec_content() == content@,
    {
        self.content = content;
    }

    /// Whether the text has a finding.
    pub fn scan(&self) -> (r: bool)
        ensures
            r == (analysis(encode_utf8(self.spec_content()), single_file_path()).len() > 0),
    {
        let path: &str = "file.js";
        proof {
            reveal_strlit("file.js");
            assert(path@ =~= single_file_path());
        }
        let mut scanner = Scanner::new();
        scanner.analyze_content(self.content.as_str(), path)
    }
}

} // verus!

verus! {

proof fn lemma_selected_contains(s: Seq<FileRecord>, x: FileRecord)
    ensures
        selected(s).contains(x) <==> s.contains(x) && is_source_path(x.0),
{
    let pred = |f: FileRecord| is_source_path(f.0);
    if selected(s).contains(x) {
        s.lemma_filter_contains_rev(pred, x);
        let i = choose|i: int| 0 <= i < selected(s).len() && selected(s)[i] == x;
        s.lemma_filter_pred(pred, i);
    }
    if s.contains(x) && is_source_path(x.0) {
        let i = choose|i: int| 0 <= i < s.len() && s[i] == x;
        s.lemma_filter_contains(pred, i);
    }
}

proof fn lemma_any_findings_contains(t: Seq<FileRecord>)
    ensures
        any_findings(t) <==> exists|x: FileRecord| #[trigger]
            t.contains(x) && analysis(x.1, x.0).len() > 0,
{
    if any_findings(t) {
        let i = choose|i: int| 0 <= i < t.len() && #[trigger] analysis(t[i].1, t[i].0).len() > 0;
        assert(t.contains(t[i]));
    }
    if exists|x: FileRecord| #[trigger] t.contains(x) && analysis(x.1, x.0).len() > 0 {
        let x = choose|x: FileRecord| #[trigger] t.contains(x) && analysis(x.1, x.0).len() > 0;
        let i = choose|i: int| 0 <= i < t.len() && t[i] == x;
        assert(analysis(t[i].1, t[i].0).len() > 0);
    }
}

/// Two enumerations that hold the same files, in whatever order, select the
/// same files for analysis and reach the same verdict, whichever connector
/// enumerated them.
pub proof fn verdict_is_source_independent(a: Seq<FileRecord>, b: Seq<FileRecord>)
    requires
        a.to_set() == b.to_set(),
    ensures
        selected(a).to_set() == selected(b).to_set(),
        any_findings(selected(a)) == any_findings(selected(b)),
{
    assert forall|x: FileRecord| a.contains(x) == b.contains(x) by {
        assert(a.to_set().contains(x) == a.contains(x));
        assert(b.to_set().contains(x) == b.contains(x));
        assert(a.to_set().contains(x) == b.to_set().contains(x));
    }
    assert forall|x: FileRecord| selected(a).contains(x) == selected(b).contains(x) by {
        lemma_selected_contains(a, x);
        lemma_selected_contains(b, x);
    }
    assert(selected(a).to_set() =~= selected(b).to_set());
    lemma_any_findings_contains(selected(a));
    lemma_any_findings_contains(selected(b));
}

} // verus!
