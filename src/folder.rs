//! The local folder source: its root, and the paths of the files that a walk
//! of the root finds.
use vstd::prelude::*;

use crate::error::ConnectorError;
use crate::text::{has_prefix, starts_with};

verus! {

/// `rel` appended to `base` as a path: an absolute `rel` stands alone, and a
/// separator goes between the two unless `base` is empty or ends with one.
pub open spec fn joined(base: Seq<char>, rel: Seq<char>) -> Seq<char> {
    if rel.len() > 0 && rel[0] == '/' {
        rel
    } else if base.len() == 0 || base.last() == '/' {
        base + rel
    } else {
        base + seq!['/'] + rel
    }
}

/// The path of `entry` relative to `root`, when `entry` lies at or below it.
pub open spec fn relative_to(root: Seq<char>, entry: Seq<char>) -> Option<Seq<char>> {
    if !has_prefix(entry, root) {
        None
    } else {
        let rest = entry.subrange(root.len() as int, entry.len() as int);
        if root.len() == 0 || root.last() == '/' || rest.len() == 0 {
            Some(rest)
        } else if rest[0] == '/' {
            Some(rest.drop_first())
        } else {
            None
        }
    }
}

/// Appends `rel` to `base` as a path.
pub fn join_path(base: &str, rel: &str) -> (r: String)
    ensures
        r@ == joined(base@, rel@),
{
    let n = base.unicode_len();
    if rel.unicode_len() > 0 && rel.get_char(0) == '/' {
        return rel.to_owned();
    }
    let mut r = base.to_owned();
    if !(n == 0 || base.get_char(n - 1) == '/') {
        r.append("/");
        proof {
            reveal_strlit("/");
        }
    }
    r.append(rel);
    r
}

/// A local directory tree. The walk itself and the file reads are the
/// caller's; this holds the root and decides which walked entries are files of
/// the source and under which relative path.
pub struct FolderConnector {
    root_path: String,
    has_package_json: bool,
}

impl FolderConnector {
    pub closed spec fn root(&self) -> Seq<char> {
        self.root_path@
    }

    pub closed spec fn has_manifest(&self) -> bool {
        self.has_package_json
    }

    /// A source rooted at `path`. `root_exists` tells whether that directory
    /// exists, `has_package_json` whether it holds a `package.json`.
    pub fn new(path: String, root_exists: bool, has_package_json: bool) -> (r: Result<
        FolderConnector,
        ConnectorError,
    >)
        ensures
            root_exists <==> r is Ok,
            !root_exists ==> r matches Err(ConnectorError::RootNotFound),
            r matches Ok(c) ==> c.root() == path@ && c.has_manifest() == has_package_json,
    {
        if !root_exists {
            return Err(ConnectorError::RootNotFound);
        }
        Ok(FolderConnector { root_path: path, has_package_json })
    }

    pub fn root_path(&self) -> (r: &str)
        ensures
            r@ == self.root(),
    {
        self.root_path.as_str()
    }

    /// Whether the root holds a `package.json`.
    pub fn has_package_json(&self) -> (r: bool)
        ensures
            r == self.has_manifest(),
    {
        self.has_package_json
    }

    /// The relative path under which a walked entry is a file of the source:
    /// none for an entry that is not a regular file or does not lie under the
    /// root.
    pub fn relative_path(&self, entry_path: &str, is_file: bool) -> (r: Option<String>)
        ensures
            !is_file ==> r is None,
            is_file ==> match r {
                Some(p) => relative_to(self.root(), entry_path@) == Some(p@),
                None => relative_to(self.root(), entry_path@) is None,
            },
    {
        if !is_file {
            return None;
        }
        let root = self.root_path.as_str();
        if !starts_with(entry_path, root) {
            return None;
        }
        let n = root.unicode_len();
        let m = entry_path.unicode_len();
        let rest = entry_path.substring_char(n, m);
        if n == 0 || root.get_char(n - 1) == '/' || m == n {
            Some(rest.to_owned())
        } else if rest.get_char(0) == '/' {
            let tail = rest.substring_char(1, m - n);
            assert(tail@ =~= rest@.drop_first());
            Some(tail.to_owned())
        } else {
            None
        }
    }

    /// Where the file at a relative path lies on disk.
    pub fn file_path(&self, relative: &str) -> (r: String)
        ensures
            r@ == joined(self.root(), relative@),
    {
        join_path(self.root_path.as_str(), relative)
    }
}

} // verus!
