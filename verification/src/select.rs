//! The file-list selection ring.
//!
//! A selection is a section together with an index into that section's
//! list.  Moving down walks each non-empty section in order — staged,
//! not staged, untracked — and wraps back to the first non-empty section
//! after the last; moving up walks the same ring backwards.  Empty
//! sections are skipped.

use vstd::prelude::*;

use crate::status::FileType;

verus! {

/// The length of the list that `t` selects from.
pub open spec fn section_len(sl: nat, nl: nat, ul: nat, t: FileType) -> nat {
    match t {
        FileType::Staged => sl,
        FileType::NotStaged => nl,
        FileType::Untracked => ul,
    }
}

/// Where a selection index lands after its section's list is replaced:
/// unchanged while still in bounds, else pulled to the last entry, or
/// to zero when the list is now empty.
pub open spec fn clamped_index(len: nat, i: nat) -> nat {
    if len == 0 {
        0
    } else if i >= len {
        (len - 1) as nat
    } else {
        i
    }
}

/// The selection points at an existing entry of its section.
pub open spec fn live_selection(sl: nat, nl: nat, ul: nat, sel: (FileType, nat)) -> bool {
    sel.1 < section_len(sl, nl, ul, sel.0)
}

/// Where the selection moves on one "move down": one step within the
/// section, or to the start of the next non-empty section, wrapping
/// around; with every section empty the index just resets to zero.
pub open spec fn spec_select_next(sl: nat, nl: nat, ul: nat, sel: (FileType, nat)) -> (
    FileType,
    nat,
) {
    match sel.0 {
        FileType::Staged => {
            if sel.1 + 1 < sl {
                (FileType::Staged, sel.1 + 1)
            } else if nl > 0 {
                (FileType::NotStaged, 0)
            } else if ul > 0 {
                (FileType::Untracked, 0)
            } else {
                (FileType::Staged, 0)
            }
        },
        FileType::NotStaged => {
            if sel.1 + 1 < nl {
                (FileType::NotStaged, sel.1 + 1)
            } else if ul > 0 {
                (FileType::Untracked, 0)
            } else if sl > 0 {
                (FileType::Staged, 0)
            } else {
                (FileType::NotStaged, 0)
            }
        },
        FileType::Untracked => {
            if sel.1 + 1 < ul {
                (FileType::Untracked, sel.1 + 1)
            } else if sl > 0 {
                (FileType::Staged, 0)
            } else if nl > 0 {
                (FileType::NotStaged, 0)
            } else {
                (FileType::Untracked, 0)
            }
        },
    }
}

/// Where the selection moves on one "move up" within the file list: one
/// step within the section, or to the last entry of the previous
/// non-empty section, wrapping around.
pub open spec fn spec_select_previous(sl: nat, nl: nat, ul: nat, sel: (FileType, nat)) -> (
    FileType,
    nat,
) {
    match sel.0 {
        FileType::Staged => {
            if sel.1 > 0 {
                (FileType::Staged, (sel.1 - 1) as nat)
            } else if ul > 0 {
                (FileType::Untracked, (ul - 1) as nat)
            } else if nl > 0 {
                (FileType::NotStaged, (nl - 1) as nat)
            } else {
                (FileType::Staged, 0)
            }
        },
        FileType::NotStaged => {
            if sel.1 > 0 {
                (FileType::NotStaged, (sel.1 - 1) as nat)
            } else if sl > 0 {
                (FileType::Staged, (sl - 1) as nat)
            } else if ul > 0 {
                (FileType::Untracked, (ul - 1) as nat)
            } else {
                (FileType::NotStaged, 0)
            }
        },
        FileType::Untracked => {
            if sel.1 > 0 {
                (FileType::Untracked, (sel.1 - 1) as nat)
            } else if nl > 0 {
                (FileType::NotStaged, (nl - 1) as nat)
            } else if sl > 0 {
                (FileType::Staged, (sl - 1) as nat)
            } else {
                (FileType::Untracked, 0)
            }
        },
    }
}

/// The selection's position in the flat walk staged, not staged,
/// untracked.
pub open spec fn flat_index(sl: nat, nl: nat, ul: nat, sel: (FileType, nat)) -> nat {
    match sel.0 {
        FileType::Staged => sel.1,
        FileType::NotStaged => sl + sel.1,
        FileType::Untracked => sl + nl + sel.1,
    }
}

/// The live selection at flat position `f` of the walk.
pub open spec fn selection_at(sl: nat, nl: nat, ul: nat, f: nat) -> (FileType, nat) {
    if f < sl {
        (FileType::Staged, f)
    } else if f < sl + nl {
        (FileType::NotStaged, (f - sl) as nat)
    } else {
        (FileType::Untracked, (f - sl - nl) as nat)
    }
}

/// The selection after `k` "move down" steps.
pub open spec fn iterate_next(sl: nat, nl: nat, ul: nat, sel: (FileType, nat), k: nat) -> (
    FileType,
    nat,
)
    decreases k,
{
    if k == 0 {
        sel
    } else {
        iterate_next(sl, nl, ul, spec_select_next(sl, nl, ul, sel), (k - 1) as nat)
    }
}

/// A live selection sits at its own flat position.
pub proof fn lemma_selection_at_flat(sl: nat, nl: nat, ul: nat, sel: (FileType, nat))
    requires
        live_selection(sl, nl, ul, sel),
    ensures
        selection_at(sl, nl, ul, flat_index(sl, nl, ul, sel)) == sel,
        flat_index(sl, nl, ul, sel) < sl + nl + ul,
{
}

/// Every flat position below the total names a live selection, and
/// naming is inverse to taking the flat position.
pub proof fn lemma_flat_selection_at(sl: nat, nl: nat, ul: nat, f: nat)
    requires
        f < sl + nl + ul,
    ensures
        flat_index(sl, nl, ul, selection_at(sl, nl, ul, f)) == f,
        live_selection(sl, nl, ul, selection_at(sl, nl, ul, f)),
{
}

/// One "move down" advances the flat position by one, wrapping at the
/// end of the walk, and lands on a live selection again.
pub proof fn lemma_select_next_flat(sl: nat, nl: nat, ul: nat, sel: (FileType, nat))
    requires
        live_selection(sl, nl, ul, sel),
    ensures
        spec_select_next(sl, nl, ul, sel) == selection_at(
            sl,
            nl,
            ul,
            if flat_index(sl, nl, ul, sel) + 1 == sl + nl + ul {
                0
            } else {
                flat_index(sl, nl, ul, sel) + 1
            },
        ),
        live_selection(sl, nl, ul, spec_select_next(sl, nl, ul, sel)),
{
}

/// Iterating is one step at a time.
proof fn lemma_iterate_next_add(sl: nat, nl: nat, ul: nat, sel: (FileType, nat), a: nat, b: nat)
    ensures
        iterate_next(sl, nl, ul, sel, a + b) == iterate_next(
            sl,
            nl,
            ul,
            iterate_next(sl, nl, ul, sel, a),
            b,
        ),
    decreases a,
{
    if a > 0 {
        lemma_iterate_next_add(sl, nl, ul, spec_select_next(sl, nl, ul, sel), (a - 1) as nat, b);
        assert(a + b - 1 == (a - 1) as nat + b);
    }
}

/// As long as the walk does not wrap, `m` steps advance the flat
/// position by `m`.
proof fn lemma_iterate_next_no_wrap(sl: nat, nl: nat, ul: nat, sel: (FileType, nat), m: nat)
    requires
        live_selection(sl, nl, ul, sel),
        flat_index(sl, nl, ul, sel) + m < sl + nl + ul,
    ensures
        iterate_next(sl, nl, ul, sel, m) == selection_at(
            sl,
            nl,
            ul,
            flat_index(sl, nl, ul, sel) + m,
        ),
    decreases m,
{
    lemma_selection_at_flat(sl, nl, ul, sel);
    if m > 0 {
        let f = flat_index(sl, nl, ul, sel);
        lemma_select_next_flat(sl, nl, ul, sel);
        let next = spec_select_next(sl, nl, ul, sel);
        lemma_flat_selection_at(sl, nl, ul, f + 1);
        lemma_iterate_next_no_wrap(sl, nl, ul, next, (m - 1) as nat);
    }
}

/// Moving down once per listed file returns the selection to where it
/// started, as long as no list changes in between.  This holds of every
/// selection that points at an existing entry — and trivially when all
/// three lists are empty, where moving down leaves the selection alone.
pub proof fn lemma_navigation_ring(sl: nat, nl: nat, ul: nat, sel: (FileType, nat))
    requires
        live_selection(sl, nl, ul, sel) || (sl + nl + ul == 0 && sel.1 == 0),
    ensures
        iterate_next(sl, nl, ul, sel, sl + nl + ul) == sel,
{
    let total = sl + nl + ul;
    if total > 0 {
        let f = flat_index(sl, nl, ul, sel);
        lemma_selection_at_flat(sl, nl, ul, sel);
        let a = (total - 1 - f) as nat;
        lemma_iterate_next_no_wrap(sl, nl, ul, sel, a);
        let at_end = iterate_next(sl, nl, ul, sel, a);
        assert(at_end == selection_at(sl, nl, ul, (total - 1) as nat));
        lemma_flat_selection_at(sl, nl, ul, (total - 1) as nat);
        lemma_select_next_flat(sl, nl, ul, at_end);
        let wrapped = spec_select_next(sl, nl, ul, at_end);
        assert(wrapped == selection_at(sl, nl, ul, 0));
        lemma_flat_selection_at(sl, nl, ul, 0);
        lemma_iterate_next_no_wrap(sl, nl, ul, wrapped, f);
        assert(iterate_next(sl, nl, ul, wrapped, f) == sel);
        lemma_iterate_next_add(sl, nl, ul, sel, a, 1);
        assert(iterate_next(sl, nl, ul, at_end, 1) == iterate_next(sl, nl, ul, wrapped, 0));
        assert(iterate_next(sl, nl, ul, sel, a + 1) == wrapped);
        lemma_iterate_next_add(sl, nl, ul, sel, a + 1, f);
        assert(a + 1 + f == total);
    }
}

} // verus!
