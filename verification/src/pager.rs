//! Paged scans over work rows. Every list operation hands back a page and
//! an opaque continuation cursor instead of an offset: the backing store's
//! scan and query primitives are cursor-native. The native key our store
//! emits carries the id of the last row of the page; decoding and
//! re-encoding it between pages goes through the cursor codec.

use crate::cursor::{AttrValueModel, EncodableAttributeValue, KeyEntryModel, PagingKey, entries_model, value_chars};
use crate::domain::work::{Work, WorkModel, WorkStatus};
use crate::errors::{AppError, AppResult};
use vstd::prelude::*;
use vstd::string::StringExecFns;

verus! {

pub open spec fn models_of(rows: Seq<Work>) -> Seq<WorkModel> {
    rows.map_values(|w: Work| w.model())
}

/// The first position holding `id`, or the length when no row does.
pub open spec fn find_id(ms: Seq<WorkModel>, id: Seq<char>) -> int
    decreases ms.len(),
{
    if ms.len() == 0 {
        0
    } else if ms[0].id == id {
        0
    } else {
        1 + find_id(ms.drop_first(), id)
    }
}

proof fn lemma_find_id_bounds(ms: Seq<WorkModel>, id: Seq<char>)
    ensures
        0 <= find_id(ms, id) <= ms.len(),
        find_id(ms, id) < ms.len() ==> ms[find_id(ms, id)].id == id,
        forall|j: int| 0 <= j < find_id(ms, id) ==> (#[trigger] ms[j]).id != id,
    decreases ms.len(),
{
    if ms.len() == 0 {
    } else if ms[0].id == id {
    } else {
        lemma_find_id_bounds(ms.drop_first(), id);
        assert forall|j: int| 0 <= j < find_id(ms, id) implies (#[trigger] ms[j]).id != id by {
            if j > 0 {
                assert(ms.drop_first()[j - 1] == ms[j]);
            }
        }
    }
}

/// The effective page size: the store's default of twenty when none is
/// given.
pub open spec fn limit_val(limit: Option<i32>) -> int {
    match limit {
        Option::Some(v) => v as int,
        Option::None => 20,
    }
}

/// Where a continuation key says the scan resumes: at the start for the
/// absent key, just past the named row otherwise — or past everything when
/// that row is gone. A key of any other shape is no key of this scan.
pub open spec fn start_of(ms: Seq<WorkModel>, key: Option<Seq<KeyEntryModel>>) -> Option<int> {
    match key {
        Option::None => Option::Some(0),
        Option::Some(es) => {
            if es.len() == 1 && es[0].name == "ID"@ && es[0].value is S {
                let i = find_id(ms, value_chars(es[0].value));
                if i == ms.len() {
                    Option::Some(i)
                } else {
                    Option::Some(i + 1)
                }
            } else {
                Option::None
            }
        },
    }
}

/// The native continuation key that names the row with `id`.
pub open spec fn key_for(id: Seq<char>) -> Seq<KeyEntryModel> {
    seq![KeyEntryModel { name: "ID"@, value: AttrValueModel::S(id) }]
}

/// One page of a scan over `rows`, resumed at `key`: the rows from the
/// resume position, at most the limit of them, and the continuation key
/// for the rest — absent exactly when the scan is done. A malformed key or
/// a non-positive limit is a `BadRequest`.
pub fn scan_page(rows: &Vec<Work>, key: &PagingKey, limit: Option<i32>) -> (r: AppResult<
    (Vec<Work>, PagingKey),
>)
    ensures
        r is Ok <==> start_of(models_of(rows@), key.model()) is Some && limit_val(limit) > 0,
        r matches Ok(p) ==> ({
            let ms = models_of(rows@);
            let start = start_of(ms, key.model())->0;
            let end = if start + limit_val(limit) <= ms.len() {
                start + limit_val(limit)
            } else {
                ms.len() as int
            };
            &&& models_of(p.0@) == ms.subrange(start, end)
            &&& p.1.model() == (if end < ms.len() {
                Option::Some(key_for(ms[end - 1].id))
            } else {
                Option::None
            })
        }),
        r matches Err(e) ==> e is BadRequest,
{
    let ghost ms = models_of(rows@);
    let lim: i32 = match limit {
        Option::Some(v) => v,
        Option::None => 20,
    };
    if lim <= 0 {
        return Err(AppError::BadRequest(bad_cursor_message()));
    }
    let start: usize = match &key.val {
        Option::None => 0,
        Option::Some(entries) => {
            if entries.len() != 1 {
                proof {
                    assert(key.model() matches Some(es) && es.len() != 1);
                }
                return Err(AppError::BadRequest(bad_cursor_message()));
            }
            let (name, value) = &entries[0];
            proof {
                assert(entries_model(entries@)[0] == crate::cursor::entry_model(entries@[0]));
            }
            if !string_is("ID", name) {
                return Err(AppError::BadRequest(bad_cursor_message()));
            }
            let id = match value {
                EncodableAttributeValue::S(id) => id,
                EncodableAttributeValue::N(_) => {
                    return Err(AppError::BadRequest(bad_cursor_message()));
                },
            };
            let i = find_row(rows, id);
            if i == rows.len() {
                i
            } else {
                i + 1
            }
        },
    };
    let end: usize = if rows.len() - start >= (lim as usize) {
        start + (lim as usize)
    } else {
        rows.len()
    };
    let mut page: Vec<Work> = Vec::new();
    let mut i: usize = start;
    while i < end
        invariant
            start <= i <= end <= rows@.len(),
            page@.len() == i - start,
            forall|j: int|
                0 <= j < page@.len() ==> (#[trigger] page@[j]).model() == rows@[start + j].model(),
        decreases end - i,
    {
        page.push(rows[i].clone());
        i = i + 1;
    }
    proof {
        assert(models_of(page@) =~= ms.subrange(start as int, end as int));
    }
    let next = if end < rows.len() {
        let last_id = rows[end - 1].id.clone();
        let k = PagingKey::from(
            Some(vec![(String::from_str("ID"), EncodableAttributeValue::S(last_id))]),
        );
        proof {
            let es = k.model()->0;
            assert(es[0] == crate::cursor::entry_model(k.val->0@[0]));
            assert(es =~= key_for(ms[end - 1].id));
        }
        k
    } else {
        PagingKey::from(None)
    };
    Ok((page, next))
}

/// The rows of one status, in storage order, as the status index serves
/// them; paging over this list and over the plain scan share one shape.
pub fn filter_by_status(rows: &Vec<Work>, status: WorkStatus) -> (r: Vec<Work>)
    ensures
        models_of(r@) == filter_status_spec(models_of(rows@), status),
{
    let ghost ms = models_of(rows@);
    let mut r: Vec<Work> = Vec::new();
    let mut i: usize = 0;
    proof {
        assert(ms.subrange(0, 0) =~= Seq::<WorkModel>::empty());
        assert(filter_status_spec(ms.subrange(0, 0), status) =~= Seq::<WorkModel>::empty());
        assert(models_of(r@) =~= Seq::<WorkModel>::empty());
    }
    while i < rows.len()
        invariant
            i <= rows@.len(),
            ms == models_of(rows@),
            models_of(r@) == filter_status_spec(ms.subrange(0, i as int), status),
        decreases rows@.len() - i,
    {
        let ghost prefix = ms.subrange(0, i as int);
        let keep = match (&rows[i].status, &status) {
            (WorkStatus::Prepare, WorkStatus::Prepare) => true,
            (WorkStatus::PublishNFT, WorkStatus::PublishNFT) => true,
            (WorkStatus::SellOrder, WorkStatus::SellOrder) => true,
            _ => false,
        };
        if keep {
            r.push(rows[i].clone());
        }
        proof {
            lemma_filter_status_push(prefix, ms[i as int], status);
            assert(ms.subrange(0, i as int + 1) =~= prefix.push(ms[i as int]));
            assert(models_of(r@) =~= filter_status_spec(ms.subrange(0, i as int + 1), status));
        }
        i = i + 1;
    }
    assert(ms.subrange(0, ms.len() as int) =~= ms);
    r
}

/// The subsequence of one status, order kept.
pub open spec fn filter_status_spec(ms: Seq<WorkModel>, status: WorkStatus) -> Seq<WorkModel>
    decreases ms.len(),
{
    if ms.len() == 0 {
        Seq::empty()
    } else {
        if ms[0].status == status {
            seq![ms[0]] + filter_status_spec(ms.drop_first(), status)
        } else {
            filter_status_spec(ms.drop_first(), status)
        }
    }
}

proof fn lemma_filter_status_push(ms: Seq<WorkModel>, m: WorkModel, status: WorkStatus)
    ensures
        filter_status_spec(ms.push(m), status) == filter_status_spec(ms, status) + (
        if m.status == status {
            seq![m]
        } else {
            Seq::empty()
        }),
    decreases ms.len(),
{
    if ms.len() == 0 {
        assert(ms.push(m)[0] == m);
        assert(ms.push(m).drop_first() =~= Seq::<WorkModel>::empty());
        assert(filter_status_spec(ms.push(m).drop_first(), status) =~= Seq::<WorkModel>::empty());
        if m.status == status {
            assert(filter_status_spec(ms.push(m), status) =~= filter_status_spec(ms, status)
                + seq![m]);
        } else {
            assert(filter_status_spec(ms.push(m), status) =~= filter_status_spec(ms, status)
                + Seq::<WorkModel>::empty());
        }
    } else {
        lemma_filter_status_push(ms.drop_first(), m, status);
        assert(ms.push(m).drop_first() =~= ms.drop_first().push(m));
        assert(ms.push(m)[0] == ms[0]);
        if ms[0].status == status {
            assert(filter_status_spec(ms.push(m), status) =~= filter_status_spec(ms, status) + (
            if m.status == status {
                seq![m]
            } else {
                Seq::empty()
            }));
        } else {
            assert(filter_status_spec(ms.push(m), status) =~= filter_status_spec(ms, status) + (
            if m.status == status {
                seq![m]
            } else {
                Seq::empty()
            }));
        }
    }
}

/// The first position whose row carries `id`, or the length.
fn find_row(rows: &Vec<Work>, id: &String) -> (r: usize)
    ensures
        r == find_id(models_of(rows@), id@),
        r <= rows@.len(),
{
    let ghost ms = models_of(rows@);
    let mut i: usize = 0;
    proof {
        lemma_find_id_bounds(ms, id@);
    }
    while i < rows.len()
        invariant
            i <= rows@.len(),
            ms == models_of(rows@),
            forall|j: int| 0 <= j < i ==> (#[trigger] ms[j]).id != id@,
            find_id(ms, id@) >= i,
        decreases rows@.len() - i,
    {
        if rows[i].id == *id {
            proof {
                assert(ms[i as int] == rows@[i as int].model());
                lemma_find_id_bounds(ms, id@);
                if find_id(ms, id@) > i as int {
                    assert(ms[i as int].id != id@);
                    assert(false);
                }
            }
            return i;
        }
        proof {
            lemma_find_id_bounds(ms, id@);
        }
        i = i + 1;
    }
    proof {
        lemma_find_id_bounds(ms, id@);
    }
    rows.len()
}

fn string_is(expected: &str, s: &String) -> (r: bool)
    ensures
        r == (s@ == expected@),
{
    let e = String::from_str(expected);
    *s == e
}

fn bad_cursor_message() -> String {
    String::from_str("invalid cursor")
}

} // verus!
