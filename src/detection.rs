//! The detection engine: splits file content into lines and reports each line
//! that looks obfuscated.
use vstd::prelude::*;
use vstd::string::StringSliceAdditionalSpecFns;

use crate::patterns::{suspicious_order, SafePattern, SuspiciousPattern, MAX_LINE_LENGTH};
use crate::text::{contains_bytes, contains_in};

verus! {

/// The byte that ends a line.
pub const NEWLINE: u8 = 10;

/// A carriage return; one that stands right before a newline is not part of
/// the line.
pub const CARRIAGE_RETURN: u8 = 13;

/// One reported line.
#[derive(Debug, PartialEq, Eq)]
pub struct Finding {
    pub file_path: String,
    /// 1-based.
    pub line_number: usize,
    /// In bytes.
    pub line_length: usize,
    /// The suspicious patterns that the line holds, in their fixed order.
    pub matched_patterns: Vec<SuspiciousPattern>,
    pub is_minified: bool,
}

/// The mathematical value of a [`Finding`].
pub struct FindingView {
    pub file_path: Seq<char>,
    pub line_number: nat,
    pub line_length: nat,
    pub matched_patterns: Seq<SuspiciousPattern>,
    pub is_minified: bool,
}

impl View for Finding {
    type V = FindingView;

    open spec fn view(&self) -> FindingView {
        FindingView {
            file_path: self.file_path@,
            line_number: self.line_number as nat,
            line_length: self.line_length as nat,
            matched_patterns: self.matched_patterns@,
            is_minified: self.is_minified,
        }
    }
}

/// The values of a sequence of findings.
pub open spec fn views(s: Seq<Finding>) -> Seq<FindingView> {
    s.map_values(|f: Finding| f@)
}

/// The line holds one of the safe patterns.
pub open spec fn is_safe_line(line: Seq<u8>) -> bool {
    exists|p: SafePattern| contains_bytes(line, p.pattern_bytes())
}

/// The suspicious patterns that occur in the line, in their fixed order.
pub open spec fn matched_patterns(line: Seq<u8>) -> Seq<SuspiciousPattern> {
    suspicious_order().filter(|p: SuspiciousPattern| contains_bytes(line, p.pattern_bytes()))
}

/// What is reported of one line, if anything: a line with a safe pattern
/// never; otherwise one with two suspicious patterns or more, or a minified one
/// with at least one.
pub open spec fn line_finding(path: Seq<char>, number: nat, line: Seq<u8>) -> Option<FindingView> {
    let matched = matched_patterns(line);
    let minified = line.len() > MAX_LINE_LENGTH;
    if !is_safe_line(line) && (matched.len() >= 2 || (minified && matched.len() >= 1)) {
        Some(
            FindingView {
                file_path: path,
                line_number: number,
                line_length: line.len(),
                matched_patterns: matched,
                is_minified: minified,
            },
        )
    } else {
        None
    }
}

/// The content cut at every newline; there is always at least one piece.
pub open spec fn pieces(s: Seq<u8>) -> Seq<Seq<u8>>
    decreases s.len(),
{
    if s.len() == 0 {
        seq![Seq::empty()]
    } else {
        let prev = pieces(s.drop_last());
        if s.last() == NEWLINE {
            prev.push(Seq::empty())
        } else {
            prev.update(prev.len() - 1, prev.last().push(s.last()))
        }
    }
}

/// A line that a newline ended, without a carriage return before it.
pub open spec fn strip_carriage_return(l: Seq<u8>) -> Seq<u8> {
    if l.len() > 0 && l.last() == CARRIAGE_RETURN {
        l.drop_last()
    } else {
        l
    }
}

/// The lines of the content: each newline ends a line (and a carriage return
/// right before it is dropped); what follows the last newline is a line of its
/// own unless it is empty.
pub open spec fn lines_of(s: Seq<u8>) -> Seq<Seq<u8>> {
    let p = pieces(s);
    let ended = p.drop_last().map_values(|l: Seq<u8>| strip_carriage_return(l));
    if p.last().len() == 0 {
        ended
    } else {
        ended.push(p.last())
    }
}

/// The findings of a sequence of lines, numbered from 1, in line order.
pub open spec fn findings_in(path: Seq<char>, lines: Seq<Seq<u8>>) -> Seq<FindingView>
    decreases lines.len(),
{
    if lines.len() == 0 {
        seq![]
    } else {
        let prev = findings_in(path, lines.drop_last());
        match line_finding(path, lines.len(), lines.last()) {
            Some(f) => prev.push(f),
            None => prev,
        }
    }
}

/// The findings of a file's content.
pub open spec fn analysis(content: Seq<u8>, path: Seq<char>) -> Seq<FindingView> {
    findings_in(path, lines_of(content))
}

proof fn lemma_findings_in_push(path: Seq<char>, lines: Seq<Seq<u8>>, line: Seq<u8>)
    ensures
        findings_in(path, lines.push(line)) == match line_finding(
            path,
            lines.len() + 1,
            line,
        ) {
            Some(f) => findings_in(path, lines).push(f),
            None => findings_in(path, lines),
        },
{
    assert(lines.push(line).drop_last() =~= lines);
}

/// Classifies the line `bytes[start..end]`, numbered `number`.
fn analyze_line(bytes: &[u8], start: usize, end: usize, number: usize, file_path: &str) -> (r:
    Option<Finding>)
    requires
        start <= end <= bytes@.len(),
    ensures
        match r {
            Some(f) => line_finding(
                file_path@,
                number as nat,
                bytes@.subrange(start as int, end as int),
            ) == Some(f@),
            None => line_finding(
                file_path@,
                number as nat,
                bytes@.subrange(start as int, end as int),
            ) is None,
        },
{
    let ghost line = bytes@.subrange(start as int, end as int);
    let safe1 = contains_in(bytes, start, end, SafePattern::FunctionWrapper.text().as_bytes());
    let safe2 = contains_in(bytes, start, end, SafePattern::LibraryBanner.text().as_bytes());
    let safe3 = contains_in(bytes, start, end, SafePattern::ModuleWrapper.text().as_bytes());
    if safe1 || safe2 || safe3 {
        return None;
    }
    assert forall|p: SafePattern| !contains_bytes(line, p.pattern_bytes()) by {
        match p {
            SafePattern::FunctionWrapper => {},
            SafePattern::LibraryBanner => {},
            SafePattern::ModuleWrapper => {},
        }
    }
    let all = SuspiciousPattern::all();
    let mut matched: Vec<SuspiciousPattern> = Vec::new();
    let mut k: usize = 0;
    while k < all.len()
        invariant
            all@ == suspicious_order(),
            k <= all@.len(),
            line == bytes@.subrange(start as int, end as int),
            start <= end <= bytes@.len(),
            matched@ == all@.subrange(0, k as int).filter(
                |p: SuspiciousPattern| contains_bytes(line, p.pattern_bytes()),
            ),
        decreases all@.len() - k,
    {
        let p = all[k];
        let hit = contains_in(bytes, start, end, p.text().as_bytes());
        proof {
            let pred = |p: SuspiciousPattern| contains_bytes(line, p.pattern_bytes());
            assert(all@.subrange(0, k + 1) =~= all@.subrange(0, k as int).push(p));
            all@.subrange(0, k as int).lemma_filter_push(p, pred);
        }
        if hit {
            matched.push(p);
        }
        k = k + 1;
    }
    assert(all@.subrange(0, all@.len() as int) =~= all@);
    let line_length = end - start;
    let is_minified = line_length > MAX_LINE_LENGTH;
    if matched.len() >= 2 || (is_minified && matched.len() >= 1) {
        Some(
            Finding {
                file_path: file_path.to_owned(),
                line_number: number,
                line_length,
                matched_patterns: matched,
                is_minified,
            },
        )
    } else {
        None
    }
}

/// Reports every suspicious line of `content`, in line order.
pub fn analyze(content: &str, file_path: &str) -> (r: Vec<Finding>)
    ensures
        views(r@) == analysis(content.spec_bytes(), file_path@),
{
    let bytes = content.as_bytes();
    let ghost b = bytes@;
    let ghost path = file_path@;
    let mut findings: Vec<Finding> = Vec::new();
    let mut start: usize = 0;
    let mut number: usize = 0;
    let ghost mut done: Seq<Seq<u8>> = seq![];
    let mut i: usize = 0;
    proof {
        assert(b.subrange(0, 0) =~= Seq::<u8>::empty());
        assert(done.push(Seq::<u8>::empty()) =~= seq![Seq::<u8>::empty()]);
    }
    while i < bytes.len()
        invariant
            b == bytes@,
            path == file_path@,
            start <= i <= b.len(),
            number == done.len(),
            number <= start,
            pieces(b.subrange(0, i as int)) == done.push(b.subrange(start as int, i as int)),
            views(findings@) == findings_in(
                path,
                done.map_values(|l: Seq<u8>| strip_carriage_return(l)),
            ),
        decreases b.len() - i,
    {
        proof {
            assert(b.subrange(0, i + 1).drop_last() =~= b.subrange(0, i as int));
        }
        if bytes[i] == NEWLINE {
            let mut end = i;
            if end > start && bytes[end - 1] == CARRIAGE_RETURN {
                end = end - 1;
            }
            let ghost piece = b.subrange(start as int, i as int);
            assert(b.subrange(start as int, end as int) == strip_carriage_return(piece)) by {
                if end < i {
                    assert(piece.drop_last() =~= b.subrange(start as int, end as int));
                }
            }
            number = number + 1;
            let found = analyze_line(bytes, start, end, number, file_path);
            proof {
                let f = |l: Seq<u8>| strip_carriage_return(l);
                assert(done.push(piece).map_values(f) =~= done.map_values(f).push(
                    strip_carriage_return(piece),
                ));
                lemma_findings_in_push(path, done.map_values(f), strip_carriage_return(piece));
                done = done.push(piece);
            }
            let ghost before = findings@;
            match found {
                Some(f) => {
                    findings.push(f);
                    assert(views(findings@) =~= views(before).push(f@));
                },
                None => {},
            }
            start = i + 1;
            proof {
                assert(b.subrange(start as int, i + 1) =~= Seq::<u8>::empty());
            }
        } else {
            proof {
                assert(b.subrange(start as int, i + 1) =~= b.subrange(
                    start as int,
                    i as int,
                ).push(b[i as int]));
            }
        }
        i = i + 1;
    }
    proof {
        assert(b.subrange(0, i as int) =~= b);
        assert(pieces(b).drop_last() =~= done);
    }
    let ghost ended = done.map_values(|l: Seq<u8>| strip_carriage_return(l));
    if start < bytes.len() {
        number = number + 1;
        let found = analyze_line(bytes, start, bytes.len(), number, file_path);
        proof {
            lemma_findings_in_push(path, ended, b.subrange(start as int, b.len() as int));
        }
        let ghost before = findings@;
        match found {
            Some(f) => {
                findings.push(f);
                assert(views(findings@) =~= views(before).push(f@));
            },
            None => {},
        }
    }
    findings
}

} // verus!

verus! {

proof fn lemma_findings_come_from_lines(path: Seq<char>, lines: Seq<Seq<u8>>)
    ensures
        forall|j: int|
            0 <= j < findings_in(path, lines).len() ==> {
                let f = #[trigger] findings_in(path, lines)[j];
                &&& 1 <= f.line_number <= lines.len()
                &&& line_finding(path, f.line_number, lines[f.line_number - 1]) == Some(f)
            },
    decreases lines.len(),
{
    if lines.len() > 0 {
        let prev = lines.drop_last();
        lemma_findings_come_from_lines(path, prev);
        assert forall|j: int| 0 <= j < findings_in(path, prev).len() implies {
            let f = #[trigger] findings_in(path, prev)[j];
            lines[f.line_number - 1] == prev[f.line_number - 1]
        } by {}
    }
}

/// A line that holds a safe pattern is never reported, whatever suspicious
/// patterns it holds besides.
pub proof fn safe_lines_are_never_reported(content: Seq<u8>, path: Seq<char>, k: int)
    requires
        0 <= k < lines_of(content).len(),
        is_safe_line(lines_of(content)[k]),
    ensures
        forall|j: int|
            0 <= j < analysis(content, path).len() ==> #[trigger] analysis(
                content,
                path,
            )[j].line_number != k + 1,
{
    lemma_findings_come_from_lines(path, lines_of(content));
}

/// A line of at most `MAX_LINE_LENGTH` bytes that holds fewer than two
/// suspicious patterns is never reported.
pub proof fn short_lines_need_two_patterns(content: Seq<u8>, path: Seq<char>, k: int)
    requires
        0 <= k < lines_of(content).len(),
        matched_patterns(lines_of(content)[k]).len() < 2,
        lines_of(content)[k].len() <= MAX_LINE_LENGTH,
    ensures
        forall|j: int|
            0 <= j < analysis(content, path).len() ==> #[trigger] analysis(
                content,
                path,
            )[j].line_number != k + 1,
{
    lemma_findings_come_from_lines(path, lines_of(content));
}

/// Two analyses of the same content under the same path give the same
/// findings, in the same order.
pub proof fn analysis_is_repeatable(
    content: Seq<u8>,
    path: Seq<char>,
    first: Seq<Finding>,
    second: Seq<Finding>,
)
    requires
        views(first) == analysis(content, path),
        views(second) == analysis(content, path),
    ensures
        views(first) == views(second),
{
}

} // verus!
