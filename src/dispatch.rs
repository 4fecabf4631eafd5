//! The work list: which rows become extraction tasks.

use vstd::prelude::*;

verus! {

/// One row of the work list.
#[derive(Clone, Debug)]
pub struct WorkItem {
    pub identifier: String,
    pub url: String,
}

/// A row as (identifier, url).
pub type Row = (Seq<char>, Seq<char>);

pub open spec fn rows_of(items: Seq<WorkItem>) -> Seq<Row> {
    items.map_values(|w: WorkItem| (w.identifier@, w.url@))
}

pub open spec fn ids_of(rows: Seq<Row>) -> Seq<Seq<char>> {
    rows.map_values(|r: Row| r.0)
}

/// Both the identifier and the URL are filled in.
pub open spec fn is_complete(r: Row) -> bool {
    r.0.len() > 0 && r.1.len() > 0
}

/// The rows that get a task: complete rows whose identifier no earlier
/// scheduled row had, in the order of the list.
pub open spec fn scheduled(rows: Seq<Row>) -> Seq<Row>
    decreases rows.len(),
{
    if rows.len() == 0 {
        rows
    } else {
        let before = scheduled(rows.drop_last());
        let r = rows.last();
        if is_complete(r) && !ids_of(before).contains(r.0) {
            before.push(r)
        } else {
            before
        }
    }
}

/// The rows to extract, deduplicated by identifier: the first complete row
/// of each identifier is kept, later ones and incomplete rows are dropped.
pub fn schedule(items: &Vec<WorkItem>) -> (r: Vec<WorkItem>)
    ensures
        rows_of(r@) == scheduled(rows_of(items@)),
{
    let mut out: Vec<WorkItem> = Vec::new();
    let mut i: usize = 0;
    assert(rows_of(out@) =~= scheduled(rows_of(items@.take(0))));
    while i < items.len()
        invariant
            i <= items.len(),
            rows_of(out@) == scheduled(rows_of(items@.take(i as int))),
        decreases items.len() - i,
    {
        let w = &items[i];
        assert(rows_of(items@.take(i + 1)).drop_last() =~= rows_of(items@.take(i as int)));
        assert(rows_of(items@.take(i + 1)).last() == (w.identifier@, w.url@));
        if !w.identifier.as_str().is_empty() && !w.url.as_str().is_empty() {
            proof {
                assert(w.identifier@.len() > 0);
            }
            let mut known = false;
            let mut j: usize = 0;
            while j < out.len()
                invariant
                    j <= out.len(),
                    known == exists|k: int| 0 <= k < j && #[trigger] out@[k].identifier@ == w.identifier@,
                decreases out.len() - j,
            {
                if out[j].identifier == w.identifier {
                    known = true;
                }
                j += 1;
            }
            let ghost ids = ids_of(rows_of(out@));
            assert(known == ids.contains(w.identifier@)) by {
                if known {
                    let k = choose|k: int| 0 <= k < j && #[trigger] out@[k].identifier@ == w.identifier@;
                    assert(ids[k] == w.identifier@);
                }
                if ids.contains(w.identifier@) {
                    let k = choose|k: int| 0 <= k < ids.len() && ids[k] == w.identifier@;
                    assert(out@[k].identifier@ == w.identifier@);
                }
            }
            if !known {
                let ghost before = out@;
                out.push(WorkItem { identifier: w.identifier.clone(), url: w.url.clone() });
                assert(rows_of(out@) =~= rows_of(before).push((w.identifier@, w.url@)));
            }
        } else {
            proof {
                assert(w.identifier@.len() == 0 || w.url@.len() == 0);
            }
        }
        i += 1;
    }
    assert(items@.take(i as int) =~= items@);
    out
}

/// The first complete row of an identifier: complete, and every earlier row
/// with that identifier is not.
pub open spec fn first_complete(rows: Seq<Row>, i: int) -> bool {
    &&& 0 <= i < rows.len()
    &&& is_complete(rows[i])
    &&& forall|j: int| 0 <= j < i && rows[j].0 == rows[i].0 ==> !is_complete(#[trigger] rows[j])
}

/// `row` is the first complete row of its identifier in `rows`.
pub open spec fn is_first_complete_row(rows: Seq<Row>, row: Row) -> bool {
    exists|i: int| #[trigger] first_complete(rows, i) && rows[i] == row
}

/// At most one task is scheduled per identifier, the one scheduled is the
/// first complete row of that identifier (its URL wins), and every
/// identifier that has a complete row is scheduled.
pub proof fn lemma_one_task_per_identifier(rows: Seq<Row>)
    ensures
        forall|i: int, j: int|
            0 <= i < j < scheduled(rows).len() ==> #[trigger] scheduled(rows)[i].0
                != #[trigger] scheduled(rows)[j].0,
        forall|k: int|
            0 <= k < scheduled(rows).len() ==> is_first_complete_row(
                rows,
                #[trigger] scheduled(rows)[k],
            ),
        forall|i: int|
            0 <= i < rows.len() && is_complete(#[trigger] rows[i]) ==> ids_of(
                scheduled(rows),
            ).contains(rows[i].0),
    decreases rows.len(),
{
    if rows.len() > 0 {
        let front = rows.drop_last();
        let n = front.len() as int;
        let p = scheduled(front);
        let x = rows.last();
        let s = scheduled(rows);
        lemma_one_task_per_identifier(front);
        let pushed = is_complete(x) && !ids_of(p).contains(x.0);
        assert forall|i: int, j: int| 0 <= i < j < s.len() implies #[trigger] s[i].0
            != #[trigger] s[j].0 by {
            if pushed && j == p.len() {
                assert(ids_of(p)[i] == p[i].0);
            }
        }
        assert forall|k: int| 0 <= k < s.len() implies is_first_complete_row(
            rows,
            #[trigger] s[k],
        ) by {
            if k < p.len() {
                assert(s[k] == p[k]);
                assert(is_first_complete_row(front, p[k]));
                let i = choose|i: int| #[trigger] first_complete(front, i) && front[i] == p[k];
                assert forall|j: int| 0 <= j < i && rows[j].0 == rows[i].0 implies !is_complete(
                    #[trigger] rows[j],
                ) by {
                    assert(front[j] == rows[j]);
                }
                assert(first_complete(rows, i));
            } else {
                assert forall|j: int| 0 <= j < n && rows[j].0 == rows[n].0 implies !is_complete(
                    #[trigger] rows[j],
                ) by {
                    assert(front[j] == rows[j]);
                    if is_complete(front[j]) {
                        assert(ids_of(p).contains(front[j].0));
                    }
                }
                assert(first_complete(rows, n));
                assert(rows[n] == s[k]);
            }
        }
        assert forall|i: int| 0 <= i < rows.len() && is_complete(#[trigger] rows[i]) implies ids_of(
            s,
        ).contains(rows[i].0) by {
            if i < n {
                assert(front[i] == rows[i]);
                assert(ids_of(p).contains(rows[i].0));
                let k = choose|k: int| 0 <= k < ids_of(p).len() && ids_of(p)[k] == rows[i].0;
                if pushed {
                    assert(ids_of(s)[k] == rows[i].0);
                }
            } else if pushed {
                assert(ids_of(s)[n - n + p.len()] == x.0);
            }
        }
    }
}

} // verus!
