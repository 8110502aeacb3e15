//! Operations on a list of records: listing, adding and removing.
use vstd::prelude::*;
use crate::listfile::{lines_of, split_lines, views};

verus! {

/// Why a list operation could not be carried out.
#[derive(Clone, Copy, Debug, PartialEq, Eq, Structural)]
pub enum ListError {
    /// The instance directory or the list file does not exist.
    InstanceNotFound,
    /// The operation needs at least one record and the list has none.
    ListEmpty,
}

/// The result of removing values from a list.
pub struct Removal {
    /// The records that stay, in their order: the new contents of the list.
    pub kept: Vec<String>,
    /// Each value that was removed, once, in the order it was asked for.
    pub removed: Vec<String>,
}

/// The records of `entries` that equal none of `targets`, in order.
pub open spec fn keep(entries: Seq<Seq<char>>, targets: Seq<Seq<char>>) -> Seq<Seq<char>>
    decreases entries.len(),
{
    if entries.len() == 0 {
        seq![]
    } else {
        let rest = keep(entries.drop_last(), targets);
        if targets.contains(entries.last()) {
            rest
        } else {
            rest.push(entries.last())
        }
    }
}

/// The values of `targets` that occur in `entries`, each once, in the order
/// of their first mention in `targets`.
pub open spec fn reported(entries: Seq<Seq<char>>, targets: Seq<Seq<char>>) -> Seq<Seq<char>>
    decreases targets.len(),
{
    if targets.len() == 0 {
        seq![]
    } else {
        let rest = reported(entries, targets.drop_last());
        let t = targets.last();
        if entries.contains(t) && !targets.drop_last().contains(t) {
            rest.push(t)
        } else {
            rest
        }
    }
}

/// The number of times `v` occurs in `s`.
pub open spec fn occurrences(s: Seq<Seq<char>>, v: Seq<char>) -> nat
    decreases s.len(),
{
    if s.len() == 0 {
        0
    } else {
        occurrences(s.drop_last(), v) + if s.last() == v {
            1nat
        } else {
            0nat
        }
    }
}

proof fn lemma_views_prefix(v: Seq<String>, n: int)
    requires
        0 <= n < v.len(),
    ensures
        views(v.subrange(0, n + 1)) == views(v.subrange(0, n)).push(v[n]@),
        views(v.subrange(0, n + 1)).drop_last() == views(v.subrange(0, n)),
        views(v.subrange(0, n + 1)).last() == v[n]@,
{
    assert(views(v.subrange(0, n + 1)) =~= views(v.subrange(0, n)).push(v[n]@));
    assert(views(v.subrange(0, n + 1)).drop_last() =~= views(v.subrange(0, n)));
}

/// Whether one of the first `n` strings of `v` equals `x`.
fn contains_before(v: &Vec<String>, n: usize, x: &String) -> (r: bool)
    requires
        n <= v@.len(),
    ensures
        r == views(v@.subrange(0, n as int)).contains(x@),
{
    let mut i: usize = 0;
    while i < n
        invariant
            i <= n <= v@.len(),
            !views(v@.subrange(0, i as int)).contains(x@),
        decreases n - i,
    {
        proof {
            lemma_views_prefix(v@, i as int);
        }
        if v[i] == *x {
            assert(views(v@.subrange(0, n as int))[i as int] == x@);
            return true;
        }
        i = i + 1;
    }
    false
}

/// Whether some string of `v` equals `x`.
fn contains_entry(v: &Vec<String>, x: &String) -> (r: bool)
    ensures
        r == views(v@).contains(x@),
{
    let r = contains_before(v, v.len(), x);
    assert(v@.subrange(0, v@.len() as int) =~= v@);
    r
}

/// The records of a list file, given its text, or `None` where it is missing.
pub fn list_entries(file: Option<&str>) -> (r: Result<Vec<String>, ListError>)
    ensures
        file is None ==> r == Err::<Vec<String>, ListError>(ListError::InstanceNotFound),
        file is Some ==> (r matches Ok(v) && views(v@) == lines_of(file->0@)),
{
    match file {
        None => Err(ListError::InstanceNotFound),
        Some(text) => Ok(split_lines(text)),
    }
}

/// Removes from the list every record equal to one of `targets`, given the
/// list file's text, or `None` where it is missing. A missing list and an
/// empty one are errors, and then nothing is to be written.
pub fn remove_entries(file: Option<&str>, targets: &Vec<String>) -> (r: Result<
    Removal,
    ListError,
>)
    ensures
        file is None ==> r == Err::<Removal, ListError>(ListError::InstanceNotFound),
        (file is Some && lines_of(file->0@).len() == 0) ==> r == Err::<
            Removal,
            ListError,
        >(ListError::ListEmpty),
        (file is Some && lines_of(file->0@).len() > 0) ==> (r matches Ok(rm) && views(
            rm.kept@,
        ) == keep(lines_of(file->0@), views(targets@)) && views(rm.removed@) == reported(
            lines_of(file->0@),
            views(targets@),
        )),
{
    let text = match file {
        None => {
            return Err(ListError::InstanceNotFound);
        },
        Some(text) => text,
    };
    let entries = split_lines(text);
    if entries.len() == 0 {
        return Err(ListError::ListEmpty);
    }
    let ghost es = views(entries@);
    let ghost ts = views(targets@);
    let mut kept: Vec<String> = Vec::new();
    let mut i: usize = 0;
    while i < entries.len()
        invariant
            i <= entries@.len(),
            es == views(entries@),
            ts == views(targets@),
            views(kept@) == keep(views(entries@.subrange(0, i as int)), ts),
        decreases entries@.len() - i,
    {
        proof {
            lemma_views_prefix(entries@, i as int);
        }
        if !contains_entry(targets, &entries[i]) {
            kept.push(entries[i].clone());
            assert(views(kept@) =~= keep(views(entries@.subrange(0, i as int)), ts).push(
                entries@[i as int]@,
            ));
        }
        i = i + 1;
    }
    assert(entries@.subrange(0, entries@.len() as int) =~= entries@);
    let mut removed: Vec<String> = Vec::new();
    let mut j: usize = 0;
    while j < targets.len()
        invariant
            j <= targets@.len(),
            es == views(entries@),
            ts == views(targets@),
            views(removed@) == reported(es, views(targets@.subrange(0, j as int))),
        decreases targets@.len() - j,
    {
        proof {
            lemma_views_prefix(targets@, j as int);
        }
        if contains_entry(&entries, &targets[j]) && !contains_before(targets, j, &targets[j]) {
            removed.push(targets[j].clone());
            assert(views(removed@) =~= reported(es, views(targets@.subrange(0, j as int))).push(
                targets@[j as int]@,
            ));
        }
        j = j + 1;
    }
    assert(targets@.subrange(0, targets@.len() as int) =~= targets@);
    Ok(Removal { kept, removed })
}

/// Removing a value drops every occurrence of it, however many there were.
pub proof fn lemma_remove_all(entries: Seq<Seq<char>>, targets: Seq<Seq<char>>, v: Seq<char>)
    requires
        targets.contains(v),
    ensures
        !keep(entries, targets).contains(v),
        occurrences(keep(entries, targets), v) == 0,
        keep(entries, targets).len() + occurrences(entries, v) <= entries.len(),
    decreases entries.len(),
{
    if entries.len() > 0 {
        lemma_remove_all(entries.drop_last(), targets, v);
        let rest = keep(entries.drop_last(), targets);
        if !targets.contains(entries.last()) {
            assert(entries.last() != v);
            assert forall|k: int| 0 <= k < rest.push(entries.last()).len() implies rest.push(
                entries.last(),
            )[k] != v by {
                if k < rest.len() {
                    assert(rest.push(entries.last())[k] == rest[k]);
                    if rest[k] == v {
                        assert(rest.contains(v));
                    }
                }
            }
            assert(rest.push(entries.last()).drop_last() =~= rest);
        }
    }
}

/// Removing values none of which is in the list leaves it as it was and
/// reports nothing removed.
pub proof fn lemma_remove_absent(entries: Seq<Seq<char>>, targets: Seq<Seq<char>>)
    requires
        forall|k: int| 0 <= k < targets.len() ==> !entries.contains(#[trigger] targets[k]),
    ensures
        keep(entries, targets) == entries,
        reported(entries, targets).len() == 0,
{
    lemma_keep_absent(entries, targets);
    lemma_reported_absent(entries, targets);
}

proof fn lemma_keep_absent(entries: Seq<Seq<char>>, targets: Seq<Seq<char>>)
    requires
        forall|k: int| 0 <= k < targets.len() ==> !entries.contains(#[trigger] targets[k]),
    ensures
        keep(entries, targets) == entries,
    decreases entries.len(),
{
    if entries.len() > 0 {
        let before = entries.drop_last();
        assert forall|k: int| 0 <= k < targets.len() implies !before.contains(
            #[trigger] targets[k],
        ) by {
            if before.contains(targets[k]) {
                let m = choose|m: int| 0 <= m < before.len() && before[m] == targets[k];
                assert(entries[m] == targets[k]);
            }
        }
        lemma_keep_absent(before, targets);
        assert(!targets.contains(entries.last())) by {
            if targets.contains(entries.last()) {
                let k = choose|k: int| 0 <= k < targets.len() && targets[k] == entries.last();
                assert(entries[entries.len() - 1] == entries.last());
            }
        }
        assert(before.push(entries.last()) =~= entries);
    }
}

proof fn lemma_reported_absent(entries: Seq<Seq<char>>, targets: Seq<Seq<char>>)
    requires
        forall|k: int| 0 <= k < targets.len() ==> !entries.contains(#[trigger] targets[k]),
    ensures
        reported(entries, targets).len() == 0,
    decreases targets.len(),
{
    if targets.len() > 0 {
        let before = targets.drop_last();
        assert forall|k: int| 0 <= k < before.len() implies !entries.contains(
            #[trigger] before[k],
        ) by {
            assert(before[k] == targets[k]);
        }
        lemma_reported_absent(entries, before);
        assert(targets[targets.len() - 1] == targets.last());
    }
}

/// Whether adding records must first create the list file: an error where
/// the instance directory is missing, `true` where the list file is.
pub fn needs_list_created(instance_exists: bool, list_exists: bool) -> (r: Result<bool, ListError>)
    ensures
        !instance_exists ==> r == Err::<bool, ListError>(ListError::InstanceNotFound),
        instance_exists ==> r == Ok::<bool, ListError>(!list_exists),
{
    if !instance_exists {
        Err(ListError::InstanceNotFound)
    } else {
        Ok(!list_exists)
    }
}

} // verus!
