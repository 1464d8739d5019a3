//! Counting by label: how often each label occurs, the labels in the order in
//! which they first occurred.

use crate::text::owned;
use vstd::prelude::*;
use vstd::string::*;

verus! {

/// The position of the label in the table, or -1.
pub open spec fn tally_index(table: Seq<(Seq<char>, nat)>, label: Seq<char>) -> int
    decreases table.len(),
{
    if table.len() == 0 {
        -1
    } else if tally_index(table.drop_last(), label) >= 0 {
        tally_index(table.drop_last(), label)
    } else if table.last().0 == label {
        table.len() - 1
    } else {
        -1
    }
}

/// The table after one more occurrence of the label.
pub open spec fn tally_add(table: Seq<(Seq<char>, nat)>, label: Seq<char>) -> Seq<
    (Seq<char>, nat),
> {
    let at = tally_index(table, label);
    if at < 0 {
        table.push((label, 1nat))
    } else {
        table.update(at, (label, table[at].1 + 1))
    }
}

/// The table of the labels: each label once, in the order of first occurrence,
/// with the number of its occurrences.
pub open spec fn tally(labels: Seq<Seq<char>>) -> Seq<(Seq<char>, nat)>
    decreases labels.len(),
{
    if labels.len() == 0 {
        Seq::empty()
    } else {
        tally_add(tally(labels.drop_last()), labels.last())
    }
}

/// How often the label occurs among the labels.
pub open spec fn occurrences(labels: Seq<Seq<char>>, label: Seq<char>) -> nat
    decreases labels.len(),
{
    if labels.len() == 0 {
        0
    } else {
        occurrences(labels.drop_last(), label) + if labels.last() == label {
            1nat
        } else {
            0nat
        }
    }
}

/// The count of the label in the table.
pub open spec fn tally_count(table: Seq<(Seq<char>, nat)>, label: Seq<char>) -> Option<nat> {
    let at = tally_index(table, label);
    if at < 0 {
        None
    } else {
        Some(table[at].1)
    }
}

/// Whether no label stands twice in the table.
pub open spec fn labels_distinct(table: Seq<(Seq<char>, nat)>) -> bool {
    forall|i: int, j: int|
        0 <= i < j < table.len() ==> (#[trigger] table[i]).0 != (#[trigger] table[j]).0
}

/// What a table in memory stands for.
pub open spec fn table_view(table: Seq<(String, usize)>) -> Seq<(Seq<char>, nat)> {
    Seq::new(table.len(), |i: int| (table[i].0@, table[i].1 as nat))
}

/// `tally_index` finds the first row with the label, and -1 only where there is none.
pub proof fn lemma_tally_index(table: Seq<(Seq<char>, nat)>, label: Seq<char>)
    ensures
        -1 <= tally_index(table, label) < table.len(),
        tally_index(table, label) >= 0 ==> table[tally_index(table, label)].0 == label,
        forall|i: int|
            0 <= i < table.len() && (tally_index(table, label) < 0 || i < tally_index(table, label))
                ==> (#[trigger] table[i]).0 != label,
    decreases table.len(),
{
    if table.len() > 0 {
        let front = table.drop_last();
        lemma_tally_index(front, label);
        let at = tally_index(table, label);
        assert forall|i: int| 0 <= i < table.len() && (at < 0 || i < at) implies (
        #[trigger] table[i]).0 != label by {
            if i < front.len() {
                assert(front[i] == table[i]);
            }
        }
        if at >= 0 && at < front.len() {
            assert(front[at] == table[at]);
        }
    }
}

/// The table of the labels holds every label that occurs exactly once, with the
/// number of its occurrences, and no other; no count exceeds the number of labels.
pub proof fn lemma_tally(labels: Seq<Seq<char>>, label: Seq<char>)
    ensures
        labels_distinct(tally(labels)),
        tally(labels).len() <= labels.len(),
        tally_count(tally(labels), label) == if occurrences(labels, label) > 0 {
            Some(occurrences(labels, label))
        } else {
            None
        },
        occurrences(labels, label) <= labels.len(),
        forall|i: int| 0 <= i < tally(labels).len() ==> 1 <= (#[trigger] tally(labels)[i]).1
            <= labels.len(),
    decreases labels.len(),
{
    if labels.len() > 0 {
        let front = labels.drop_last();
        let added = labels.last();
        lemma_tally(front, label);
        lemma_tally(front, added);
        let before = tally(front);
        let after = tally(labels);
        lemma_tally_index(before, added);
        lemma_tally_index(before, label);
        lemma_tally_index(after, label);
        let at = tally_index(before, added);
        assert forall|i: int, j: int| 0 <= i < j < after.len() implies (#[trigger] after[i]).0 != (
        #[trigger] after[j]).0 by {
            if at < 0 {
                if j < before.len() {
                    assert(after[i] == before[i] && after[j] == before[j]);
                } else {
                    assert(after[i] == before[i]);
                }
            } else {
                assert(after[i].0 == before[i].0 && after[j].0 == before[j].0);
            }
        }
        assert forall|i: int| 0 <= i < after.len() implies 1 <= (#[trigger] after[i]).1
            <= labels.len() by {
            if i < before.len() {
                assert(1 <= before[i].1 <= front.len());
            }
        }
        let before_at = tally_index(before, label);
        let after_at = tally_index(after, label);
        if before_at >= 0 {
            assert(after[before_at].0 == label);
            if after_at != before_at {
                assert(after_at >= 0);
                if after_at < before_at {
                    assert(after[after_at].0 != after[before_at].0);
                } else {
                    assert(after[before_at].0 != after[after_at].0);
                }
            }
        } else if added == label {
            assert(after[before.len() as int].0 == label);
            if after_at != before.len() {
                assert(after_at >= 0);
                if after_at < before.len() {
                    assert(before[after_at] == after[after_at]);
                }
            }
        } else {
            if after_at >= 0 {
                if at < 0 {
                    if after_at < before.len() {
                        assert(before[after_at] == after[after_at]);
                    }
                } else {
                    assert(before[after_at].0 == after[after_at].0);
                }
            }
        }
    }
}

fn find_label(table: &Vec<(String, usize)>, label: &str) -> (r: Option<usize>)
    ensures
        match r {
            Some(at) => at == tally_index(table_view(table@), label@) && at < table@.len(),
            None => tally_index(table_view(table@), label@) < 0,
        },
{
    let ghost view = table_view(table@);
    proof {
        lemma_tally_index(view, label@);
    }
    let wanted = owned(label);
    let mut i: usize = 0;
    while i < table.len()
        invariant
            i <= table.len(),
            wanted@ == label@,
            view == table_view(table@),
            forall|k: int| 0 <= k < i ==> (#[trigger] view[k]).0 != label@,
            -1 <= tally_index(view, label@) < view.len(),
            tally_index(view, label@) >= 0 ==> view[tally_index(view, label@)].0 == label@,
            forall|k: int|
                0 <= k < view.len() && (tally_index(view, label@) < 0 || k < tally_index(
                    view,
                    label@,
                )) ==> (#[trigger] view[k]).0 != label@,
        decreases table.len() - i,
    {
        if table[i].0 == wanted {
            assert(view[i as int].0 == label@);
            return Some(i);
        }
        assert(view[i as int].0 != label@);
        i = i + 1;
    }
    None
}

/// Counts one more occurrence of the label.
pub fn count_label(table: &mut Vec<(String, usize)>, label: &str)
    requires
        forall|i: int| 0 <= i < old(table)@.len() ==> (#[trigger] old(table)@[i]).1 < usize::MAX,
    ensures
        table_view(final(table)@) == tally_add(table_view(old(table)@), label@),
{
    let ghost before = table_view(table@);
    match find_label(table, label) {
        Some(at) => {
            let ghost rows = table@;
            let (name, count) = table.remove(at);
            table.insert(at, (name, count + 1));
            proof {
                lemma_tally_index(before, label@);
                assert(before[at as int] == (rows[at as int].0@, rows[at as int].1 as nat));
                assert forall|i: int| 0 <= i < table@.len() implies #[trigger] table_view(table@)[i]
                    == tally_add(before, label@)[i] by {
                    if i != at {
                        assert(table@[i] == rows[i]);
                        assert(before[i] == (rows[i].0@, rows[i].1 as nat));
                    }
                }
            }
            assert(table_view(table@) =~= tally_add(before, label@));
        },
        None => {
            table.push((owned(label), 1));
            assert(table_view(table@) =~= tally_add(before, label@));
        },
    }
}

/// The count of the label in the table.
pub fn label_count(table: &Vec<(String, usize)>, label: &str) -> (r: Option<usize>)
    ensures
        match r {
            Some(n) => tally_count(table_view(table@), label@) == Some(n as nat),
            None => tally_count(table_view(table@), label@) is None,
        },
{
    match find_label(table, label) {
        Some(at) => Some(table[at].1),
        None => None,
    }
}

} // verus!
