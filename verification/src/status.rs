//! The tri-state status model: which paths are staged, not staged, or
//! untracked, and the classification of raw status entries into those
//! three lists.

use vstd::prelude::*;

verus! {

/// Which of the three file-list sections a path belongs to.
#[derive(Clone, Copy, PartialEq, Eq, Structural, Debug)]
pub enum FileType {
    Staged,
    NotStaged,
    Untracked,
}

/// The tri-partition of paths produced by one status scan.
///
/// A path never appears twice within one list, but may legitimately appear
/// in both `staged` and `not_staged` at once (a partially staged change).
#[derive(Clone)]
pub struct StatusFiles {
    pub staged: Vec<String>,
    pub not_staged: Vec<String>,
    pub untracked: Vec<String>,
}

impl StatusFiles {
    /// The list for one section.
    pub open spec fn spec_section(&self, section: FileType) -> Seq<String> {
        match section {
            FileType::Staged => self.staged@,
            FileType::NotStaged => self.not_staged@,
            FileType::Untracked => self.untracked@,
        }
    }

    /// The length of the list for one section.
    pub open spec fn spec_section_len(&self, section: FileType) -> nat {
        self.spec_section(section).len()
    }

    /// How many entries the three lists hold together.
    pub open spec fn spec_total_files(&self) -> nat {
        self.staged@.len() + self.not_staged@.len() + self.untracked@.len()
    }

    pub fn total_files(&self) -> (n: usize)
        requires
            self.spec_total_files() <= usize::MAX,
        ensures
            n == self.spec_total_files(),
    {
        self.staged.len() + self.not_staged.len() + self.untracked.len()
    }
}

/// One path as a status scan reports it: the path together with the raw
/// status bits describing how HEAD, the index and the working tree
/// disagree about it.  The bit layout is libgit2's `git_status_t`.
pub struct StatusEntry {
    pub path: String,
    pub bits: u32,
}

/// Bits meaning the path differs between HEAD and the index: added,
/// modified, deleted, renamed or type-changed in the index.
pub const INDEX_CHANGED_BITS: u32 = 0x001f;

/// Bits meaning a tracked path differs between the index and the working
/// tree: modified, deleted, type-changed or renamed there.
pub const WORKTREE_CHANGED_BITS: u32 = 0x0f00;

/// Bit meaning the path exists in the working tree but neither in the
/// index nor in HEAD.
pub const WORKTREE_NEW_BIT: u32 = 0x0080;

/// The path belongs in the `staged` list.
pub open spec fn counts_as_staged(bits: u32) -> bool {
    bits & INDEX_CHANGED_BITS != 0
}

/// The path belongs in the `not_staged` list.
pub open spec fn counts_as_not_staged(bits: u32) -> bool {
    bits & WORKTREE_CHANGED_BITS != 0
}

/// The path belongs in the `untracked` list.
pub open spec fn counts_as_untracked(bits: u32) -> bool {
    bits & WORKTREE_NEW_BIT != 0
}

/// The paths of `entries` whose bits mark an index change, in scan order.
pub open spec fn staged_of(entries: Seq<StatusEntry>) -> Seq<Seq<char>>
    decreases entries.len(),
{
    if entries.len() == 0 {
        Seq::empty()
    } else {
        let prev = staged_of(entries.drop_last());
        if counts_as_staged(entries.last().bits) {
            prev.push(entries.last().path@)
        } else {
            prev
        }
    }
}

/// The paths of `entries` whose bits mark a working-tree change, in scan
/// order.
pub open spec fn not_staged_of(entries: Seq<StatusEntry>) -> Seq<Seq<char>>
    decreases entries.len(),
{
    if entries.len() == 0 {
        Seq::empty()
    } else {
        let prev = not_staged_of(entries.drop_last());
        if counts_as_not_staged(entries.last().bits) {
            prev.push(entries.last().path@)
        } else {
            prev
        }
    }
}

/// The paths of `entries` marked new in the working tree, in scan order.
pub open spec fn untracked_of(entries: Seq<StatusEntry>) -> Seq<Seq<char>>
    decreases entries.len(),
{
    if entries.len() == 0 {
        Seq::empty()
    } else {
        let prev = untracked_of(entries.drop_last());
        if counts_as_untracked(entries.last().bits) {
            prev.push(entries.last().path@)
        } else {
            prev
        }
    }
}

/// Sorts the entries of one status scan into the three lists.  One path
/// may land in more than one list: a partially staged file differs both
/// between HEAD and the index and between the index and the working
/// tree.
pub fn classify_status(entries: &Vec<StatusEntry>) -> (r: StatusFiles)
    ensures
        r.staged.deep_view() == staged_of(entries@),
        r.not_staged.deep_view() == not_staged_of(entries@),
        r.untracked.deep_view() == untracked_of(entries@),
{
    let mut staged: Vec<String> = Vec::new();
    let mut not_staged: Vec<String> = Vec::new();
    let mut untracked: Vec<String> = Vec::new();
    let n = entries.len();
    let mut i: usize = 0;
    proof {
        assert(entries@.take(0) =~= Seq::<StatusEntry>::empty());
        assert(staged.deep_view() =~= staged_of(entries@.take(0)));
        assert(not_staged.deep_view() =~= not_staged_of(entries@.take(0)));
        assert(untracked.deep_view() =~= untracked_of(entries@.take(0)));
    }
    while i < n
        invariant
            0 <= i <= n,
            n == entries@.len(),
            staged.deep_view() == staged_of(entries@.take(i as int)),
            not_staged.deep_view() == not_staged_of(entries@.take(i as int)),
            untracked.deep_view() == untracked_of(entries@.take(i as int)),
        decreases n - i,
    {
        proof {
            assert(entries@.take(i + 1).drop_last() =~= entries@.take(i as int));
            assert(entries@.take(i + 1).last() == entries@[i as int]);
        }
        let entry = &entries[i];
        if entry.bits & INDEX_CHANGED_BITS != 0 {
            let ghost prev = staged.deep_view();
            staged.push(entry.path.clone());
            proof {
                assert(staged.deep_view() =~= prev.push(entries@[i as int].path@));
            }
        }
        if entry.bits & WORKTREE_CHANGED_BITS != 0 {
            let ghost prev = not_staged.deep_view();
            not_staged.push(entry.path.clone());
            proof {
                assert(not_staged.deep_view() =~= prev.push(entries@[i as int].path@));
            }
        }
        if entry.bits & WORKTREE_NEW_BIT != 0 {
            let ghost prev = untracked.deep_view();
            untracked.push(entry.path.clone());
            proof {
                assert(untracked.deep_view() =~= prev.push(entries@[i as int].path@));
            }
        }
        i = i + 1;
    }
    proof {
        assert(entries@.take(n as int) =~= entries@);
    }
    StatusFiles { staged, not_staged, untracked }
}

impl Default for StatusFiles {
    /// Three empty lists: the fail-soft value when a status query fails.
    fn default() -> (r: Self)
        ensures
            r.staged@.len() == 0,
            r.not_staged@.len() == 0,
            r.untracked@.len() == 0,
    {
        StatusFiles { staged: Vec::new(), not_staged: Vec::new(), untracked: Vec::new() }
    }
}

} // verus!
