//! Turning the nodes met while walking the stalked paths into watch targets.
use vstd::prelude::*;
use crate::listfile::views;

verus! {

/// One node met while walking a stalked path.
pub enum WalkItem {
    /// A readable file or directory, by its path.
    Entry(String),
    /// A node that could not be read, with the reason.
    Unreadable(String),
}

/// The watch targets of a walk, and the reasons of the nodes it had to skip.
pub struct Expansion {
    /// The paths of the readable nodes, in walk order.
    pub targets: Vec<String>,
    /// Why each unreadable node was skipped, in walk order.
    pub errors: Vec<String>,
}

/// The paths of the readable nodes among `items`, in order.
pub open spec fn targets_of(items: Seq<WalkItem>) -> Seq<Seq<char>>
    decreases items.len(),
{
    if items.len() == 0 {
        seq![]
    } else {
        let rest = targets_of(items.drop_last());
        match items.last() {
            WalkItem::Entry(p) => rest.push(p@),
            WalkItem::Unreadable(_) => rest,
        }
    }
}

/// The reasons given for the unreadable nodes among `items`, in order.
pub open spec fn errors_of(items: Seq<WalkItem>) -> Seq<Seq<char>>
    decreases items.len(),
{
    if items.len() == 0 {
        seq![]
    } else {
        let rest = errors_of(items.drop_last());
        match items.last() {
            WalkItem::Entry(_) => rest,
            WalkItem::Unreadable(e) => rest.push(e@),
        }
    }
}

/// Splits the nodes of a walk into watch targets and errors: an unreadable
/// node is reported and skipped, and the walk's other nodes still count.
pub fn collect_targets(items: &Vec<WalkItem>) -> (r: Expansion)
    ensures
        views(r.targets@) == targets_of(items@),
        views(r.errors@) == errors_of(items@),
{
    let mut targets: Vec<String> = Vec::new();
    let mut errors: Vec<String> = Vec::new();
    let mut i: usize = 0;
    while i < items.len()
        invariant
            i <= items@.len(),
            views(targets@) == targets_of(items@.subrange(0, i as int)),
            views(errors@) == errors_of(items@.subrange(0, i as int)),
        decreases items@.len() - i,
    {
        let ghost seen = items@.subrange(0, i + 1);
        assert(seen.drop_last() =~= items@.subrange(0, i as int));
        assert(seen.last() == items@[i as int]);
        match &items[i] {
            WalkItem::Entry(p) => {
                let ghost before = targets@;
                targets.push(p.clone());
                assert(views(targets@) =~= views(before).push(p@));
            },
            WalkItem::Unreadable(e) => {
                let ghost before = errors@;
                errors.push(e.clone());
                assert(views(errors@) =~= views(before).push(e@));
            },
        }
        i = i + 1;
    }
    assert(items@.subrange(0, items@.len() as int) =~= items@);
    Expansion { targets, errors }
}

} // verus!
