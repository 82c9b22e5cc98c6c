//! Selecting files by how their tags meet a query set.
use vstd::prelude::*;
use vstd::string::*;
use crate::backend::{Backend, TagError};
use crate::tagset::TagSet;

verus! {

/// How the query tags are folded against a file's tags.
#[derive(Clone, Copy, Debug, PartialEq, Eq)]
pub enum FoldOp {
    /// The file has every query tag.
    And,
    /// The file has at least one query tag.
    Or,
    /// The file has exactly one of the query tags.
    Xor,
}

/// Whether file tags `file` meet query tags `query` under `op`.
pub open spec fn fold_holds(op: FoldOp, query: Set<Seq<char>>, file: Set<Seq<char>>) -> bool {
    let n = query.intersect(file).len();
    match op {
        FoldOp::And => n == query.len(),
        FoldOp::Or => n != 0,
        FoldOp::Xor => n == 1,
    }
}

/// The fold operation that a command-line word names: `&` or `&&`, `|` or
/// `||`, `^` or `^^`.
pub open spec fn fold_op_of(s: Seq<char>) -> Option<FoldOp> {
    if s == seq!['&'] || s == seq!['&', '&'] {
        Some(FoldOp::And)
    } else if s == seq!['|'] || s == seq!['|', '|'] {
        Some(FoldOp::Or)
    } else if s == seq!['^'] || s == seq!['^', '^'] {
        Some(FoldOp::Xor)
    } else {
        None
    }
}

impl FoldOp {
    /// The fold operation named by `s`, if any.
    pub fn parse(s: &str) -> (r: Option<FoldOp>)
        ensures
            r == fold_op_of(s@),
    {
        let n = s.unicode_len();
        if n == 0 || n > 2 {
            return None;
        }
        let c = s.get_char(0);
        if n == 2 && s.get_char(1) != c {
            return None;
        }
        proof {
            if n == 1 {
                assert(s@ =~= seq![c]);
            } else {
                assert(s@ =~= seq![c, c]);
            }
        }
        if c == '&' {
            Some(FoldOp::And)
        } else if c == '|' {
            Some(FoldOp::Or)
        } else if c == '^' {
            Some(FoldOp::Xor)
        } else {
            None
        }
    }
}

/// A fold operation and the set of tags it folds over.
pub struct Query {
    pub foldop: FoldOp,
    pub tags: TagSet,
}

impl Query {
    /// Whether a file that carries `file_tags` is selected.
    pub fn matches_tags(&self, file_tags: &TagSet) -> (r: bool)
        requires
            self.tags.wf(),
        ensures
            r == fold_holds(self.foldop, self.tags@, file_tags@),
    {
        let icnt = self.tags.common_count(file_tags);
        match self.foldop {
            FoldOp::And => icnt == self.tags.len(),
            FoldOp::Or => icnt != 0,
            FoldOp::Xor => icnt == 1,
        }
    }

    /// Whether a file is selected, given the outcome of reading its tags: a
    /// file whose tags cannot be read is not selected.
    pub fn matches_read(&self, read: &Result<TagSet, TagError>) -> (r: bool)
        requires
            self.tags.wf(),
        ensures
            r == (read is Ok && fold_holds(self.foldop, self.tags@, read->Ok_0@)),
    {
        match read {
            Ok(tags_on_file) => self.matches_tags(tags_on_file),
            Err(_) => false,
        }
    }

    /// Whether the file at `path` is selected, by the tags that `backend`
    /// holds for it; a file whose tags cannot be read is not selected.
    pub fn matches<B: Backend>(&self, path: &str, backend: &B) -> (r: bool)
        requires
            self.tags.wf(),
            backend.valid(),
        ensures
            r ==> exists|f: Set<Seq<char>>| fold_holds(self.foldop, self.tags@, f),
    {
        let read = backend.tags(path);
        self.matches_read(&read)
    }
}

} // verus!
