//! The entity store model: typed tables keyed by entity id, each seen in
//! contracts as a map from key to row model. The backing key-value store
//! offers per-item atomic reads and writes; these tables model exactly that,
//! and the orchestrator and the reconciliation job are verified against
//! them.

use crate::domain::asset::{Asset, AssetModel};
use crate::domain::work::{Thumbnail, ThumbnailModel, Work, WorkModel};
use crate::errors::{AppError, AppResult};
use crate::kvmap::{lemma_map_of_contains, lemma_map_of_index, lemma_map_of_push, lemma_map_of_remove, map_of, uniq_keys};
use vstd::prelude::*;
use vstd::string::StringExecFns;

verus! {

/// Prefixes every base table name, so one deployment's tables do not
/// collide with another's.
pub struct TableNameProvider {
    pub prefix: String,
}

impl TableNameProvider {
    pub fn new() -> (r: Self)
        ensures
            r.prefix@ == Seq::<char>::empty(),
    {
        Self { prefix: String::new() }
    }

    pub fn with(&self, base_name: &str) -> (r: String)
        ensures
            r@ == self.prefix@ + base_name@,
    {
        self.prefix.clone().concat(base_name)
    }
}

/// The table of works.
pub struct WorkTable {
    rows: Vec<Work>,
}

impl WorkTable {
    /// The rows as key/model pairs, in storage order.
    pub closed spec fn kvs(self) -> Seq<(Seq<char>, WorkModel)> {
        self.rows@.map_values(|r: Work| (r.id@, r.model()))
    }

    /// The table as a map from work id to row model.
    pub open spec fn contents(self) -> Map<Seq<char>, WorkModel> {
        map_of(self.kvs())
    }

    /// Each id keys at most one row.
    pub open spec fn wf(self) -> bool {
        uniq_keys(self.kvs())
    }

    pub fn new() -> (r: Self)
        ensures
            r.wf(),
            r.contents() == Map::<Seq<char>, WorkModel>::empty(),
    {
        let r = Self { rows: Vec::new() };
        proof {
            assert(r.kvs() =~= Seq::<(Seq<char>, WorkModel)>::empty());
        }
        r
    }

    /// The position of the row keyed by `id`, if any.
    fn find(&self, id: &String) -> (r: Option<usize>)
        ensures
            match r {
                Some(i) => i < self.kvs().len() && self.kvs()[i as int].0 == id@,
                None => forall|j: int| 0 <= j < self.kvs().len() ==> (#[trigger] self.kvs()[j]).0 != id@,
            },
    {
        let mut i: usize = 0;
        while i < self.rows.len()
            invariant
                i <= self.rows@.len(),
                forall|j: int| 0 <= j < i ==> (#[trigger] self.kvs()[j]).0 != id@,
            decreases self.rows@.len() - i,
        {
            if self.rows[i].id == *id {
                return Some(i);
            }
            i = i + 1;
        }
        None
    }


    /// Every stored row's id is the key it is stored under.
    pub proof fn lemma_keys(self)
        requires
            self.wf(),
        ensures
            forall|k: Seq<char>|
                self.contents().dom().contains(k) ==> (#[trigger] self.contents()[k]).id == k,
    {
        assert forall|k: Seq<char>| self.contents().dom().contains(k) implies (
        #[trigger] self.contents()[k]).id == k by {
            lemma_map_of_contains(self.kvs(), k);
            let i = choose|i: int| 0 <= i < self.kvs().len() && (#[trigger] self.kvs()[i]).0 == k;
            lemma_map_of_index(self.kvs(), i);
        }
    }

    /// Looks the work up by id; `NotFound` exactly when no row carries it.
    pub fn get(&self, id: &String) -> (r: AppResult<Work>)
        requires
            self.wf(),
        ensures
            r is Ok <==> self.contents().dom().contains(id@),
            r matches Ok(w) ==> w.model() == self.contents()[id@],
            r matches Err(e) ==> e is NotFound,
    {
        proof {
            lemma_map_of_contains(self.kvs(), id@);
        }
        match self.find(id) {
            Some(i) => {
                proof {
                    lemma_map_of_index(self.kvs(), i as int);
                }
                Ok(self.rows[i].clone())
            },
            None => Err(AppError::NotFound),
        }
    }

    /// Writes the row, replacing any row with the same id: an upsert, atomic
    /// per item in the backing store.
    pub fn put(&mut self, item: &Work)
        requires
            old(self).wf(),
        ensures
            final(self).wf(),
            final(self).contents() == old(self).contents().insert(item.id@, item.model()),
    {
        let ghost kvs0 = self.kvs();
        match self.find(&item.id) {
            Some(i) => {
                proof {
                    lemma_map_of_remove(kvs0, i as int);
                }
                self.rows.remove(i);
                proof {
                    assert(self.kvs() =~= kvs0.remove(i as int));
                    assert(forall|a: int, b: int|
                        0 <= a < b < self.kvs().len() ==> (#[trigger] self.kvs()[a]).0 != (
                        #[trigger] self.kvs()[b]).0);
                    assert(forall|j: int|
                        0 <= j < self.kvs().len() ==> (#[trigger] self.kvs()[j]).0 != item.id@)
                        by {
                        assert forall|j: int| 0 <= j < self.kvs().len() implies (
                        #[trigger] self.kvs()[j]).0 != item.id@ by {
                            if j < i {
                                assert(kvs0[j] == self.kvs()[j]);
                                assert(kvs0[j].0 != kvs0[i as int].0);
                            } else {
                                assert(kvs0[j + 1] == self.kvs()[j]);
                                assert(kvs0[i as int].0 != kvs0[j + 1].0);
                            }
                        }
                    }
                }
            },
            None => {},
        }
        let ghost kvs1 = self.kvs();
        self.rows.push(item.clone());
        proof {
            assert(self.kvs() =~= kvs1.push((item.id@, item.model())));
            lemma_map_of_push(kvs1, item.id@, item.model());
            assert(forall|j: int| 0 <= j < kvs1.len() ==> (#[trigger] kvs1[j]).0 != item.id@);
            assert(final(self).contents() =~= old(self).contents().insert(
                item.id@,
                item.model(),
            ));
        }
    }

    /// Removes the row keyed by `id`, if any.
    pub fn delete(&mut self, id: &String)
        requires
            old(self).wf(),
        ensures
            final(self).wf(),
            final(self).contents() == old(self).contents().remove(id@),
    {
        let ghost kvs0 = self.kvs();
        match self.find(id) {
            Some(i) => {
                proof {
                    lemma_map_of_remove(kvs0, i as int);
                }
                self.rows.remove(i);
                proof {
                    assert(self.kvs() =~= kvs0.remove(i as int));
                    assert(forall|a: int, b: int|
                        0 <= a < b < self.kvs().len() ==> (#[trigger] self.kvs()[a]).0 != (
                        #[trigger] self.kvs()[b]).0);
                }
            },
            None => {
                proof {
                    lemma_map_of_contains(kvs0, id@);
                    assert(final(self).contents() =~= old(self).contents().remove(id@));
                }
            },
        }
    }

    /// Every row, in storage order.
    pub fn get_all(&self) -> (r: Vec<Work>)
        ensures
            r@.map_values(|w: Work| (w.id@, w.model())) == self.kvs(),
    {
        let mut r: Vec<Work> = Vec::new();
        let mut i: usize = 0;
        while i < self.rows.len()
            invariant
                i <= self.rows@.len(),
                r@.len() == i,
                forall|j: int|
                    0 <= j < i ==> (#[trigger] r@[j]).id@ == self.kvs()[j].0 && r@[j].model()
                        == self.kvs()[j].1,
            decreases self.rows@.len() - i,
        {
            let w = self.rows[i].clone();
            proof {
                assert((w.id@, w.model()) == self.kvs()[i as int]);
            }
            r.push(w);
            i = i + 1;
        }
        assert(r@.map_values(|w: Work| (w.id@, w.model())) =~= self.kvs());
        r
    }

    /// Batch lookup: the rows for the ids that exist, in the caller's
    /// requested relative order; missing ids are silently dropped, never an
    /// error for the whole batch.
    pub fn get_multi(&self, ids: &Vec<String>) -> (r: Vec<Work>)
        requires
            self.wf(),
        ensures
            r@.map_values(|w: Work| w.model()) == get_multi_spec(
                self.contents(),
                ids@.map_values(|s: String| s@),
            ),
    {
        let ghost idseq = ids@.map_values(|s: String| s@);
        let mut r: Vec<Work> = Vec::new();
        let mut i: usize = 0;
        proof {
            assert(idseq.subrange(0, 0) =~= Seq::<Seq<char>>::empty());
        }
        while i < ids.len()
            invariant
                i <= ids@.len(),
                self.wf(),
                idseq == ids@.map_values(|s: String| s@),
                r@.map_values(|w: Work| w.model()) == get_multi_spec(
                    self.contents(),
                    idseq.subrange(0, i as int),
                ),
            decreases ids@.len() - i,
        {
            let ghost prefix = idseq.subrange(0, i as int);
            match self.get(&ids[i]) {
                Ok(w) => {
                    r.push(w);
                },
                Err(_) => {},
            }
            proof {
                lemma_get_multi_spec_push(self.contents(), prefix, idseq[i as int]);
                assert(idseq.subrange(0, i as int + 1) =~= prefix.push(idseq[i as int]));
                assert(r@.map_values(|w: Work| w.model()) =~= get_multi_spec(
                    self.contents(),
                    idseq.subrange(0, i as int + 1),
                ));
            }
            i = i + 1;
        }
        assert(idseq.subrange(0, idseq.len() as int) =~= idseq);
        r
    }
}

/// Batch-lookup semantics: for each requested id in order, the row model if
/// the id is present, nothing if it is not.
pub open spec fn get_multi_spec(m: Map<Seq<char>, WorkModel>, ids: Seq<Seq<char>>) -> Seq<
    WorkModel,
>
    decreases ids.len(),
{
    if ids.len() == 0 {
        Seq::empty()
    } else {
        if m.dom().contains(ids[0]) {
            seq![m[ids[0]]] + get_multi_spec(m, ids.drop_first())
        } else {
            get_multi_spec(m, ids.drop_first())
        }
    }
}

proof fn lemma_get_multi_spec_push(m: Map<Seq<char>, WorkModel>, ids: Seq<Seq<char>>, id: Seq<char>)
    ensures
        get_multi_spec(m, ids.push(id)) == get_multi_spec(m, ids) + (if m.dom().contains(id) {
            seq![m[id]]
        } else {
            Seq::empty()
        }),
    decreases ids.len(),
{
    if ids.len() == 0 {
        assert(ids.push(id)[0] == id);
        assert(ids.push(id).drop_first() =~= Seq::<Seq<char>>::empty());
        assert(get_multi_spec(m, ids.push(id).drop_first()) =~= Seq::<WorkModel>::empty());
        if m.dom().contains(id) {
            assert(get_multi_spec(m, ids.push(id)) =~= get_multi_spec(m, ids) + seq![m[id]]);
        } else {
            assert(get_multi_spec(m, ids.push(id)) =~= get_multi_spec(m, ids)
                + Seq::<WorkModel>::empty());
        }
    } else {
        lemma_get_multi_spec_push(m, ids.drop_first(), id);
        assert(ids.push(id).drop_first() =~= ids.drop_first().push(id));
        assert(ids.push(id)[0] == ids[0]);
        if m.dom().contains(ids[0]) {
            assert(get_multi_spec(m, ids.push(id)) =~= get_multi_spec(m, ids) + (
            if m.dom().contains(id) {
                seq![m[id]]
            } else {
                Seq::empty()
            }));
        } else {
            assert(get_multi_spec(m, ids.push(id)) =~= get_multi_spec(m, ids) + (
            if m.dom().contains(id) {
                seq![m[id]]
            } else {
                Seq::empty()
            }));
        }
    }
}

/// A table of asset rows; one instance per token standard.
pub struct AssetTable {
    rows: Vec<Asset>,
}

impl AssetTable {
    /// The rows as key/model pairs, in storage order.
    pub closed spec fn kvs(self) -> Seq<(Seq<char>, AssetModel)> {
        self.rows@.map_values(|r: Asset| (r.work_id@, r.model()))
    }

    /// The table as a map from work id to row model.
    pub open spec fn contents(self) -> Map<Seq<char>, AssetModel> {
        map_of(self.kvs())
    }

    /// Each work id keys at most one row.
    pub open spec fn wf(self) -> bool {
        uniq_keys(self.kvs())
    }

    pub fn new() -> (r: Self)
        ensures
            r.wf(),
            r.contents() == Map::<Seq<char>, AssetModel>::empty(),
    {
        let r = Self { rows: Vec::new() };
        proof {
            assert(r.kvs() =~= Seq::<(Seq<char>, AssetModel)>::empty());
        }
        r
    }

    /// The position of the row keyed by `work_id`, if any.
    fn find(&self, work_id: &String) -> (r: Option<usize>)
        ensures
            match r {
                Some(i) => i < self.kvs().len() && self.kvs()[i as int].0 == work_id@,
                None => forall|j: int|
                    0 <= j < self.kvs().len() ==> (#[trigger] self.kvs()[j]).0 != work_id@,
            },
    {
        let mut i: usize = 0;
        while i < self.rows.len()
            invariant
                i <= self.rows@.len(),
                forall|j: int| 0 <= j < i ==> (#[trigger] self.kvs()[j]).0 != work_id@,
            decreases self.rows@.len() - i,
        {
            if self.rows[i].work_id == *work_id {
                return Some(i);
            }
            i = i + 1;
        }
        None
    }


    /// Every stored row's work id is the key it is stored under.
    pub proof fn lemma_keys(self)
        requires
            self.wf(),
        ensures
            forall|k: Seq<char>|
                self.contents().dom().contains(k) ==> (#[trigger] self.contents()[k]).work_id
                    == k,
    {
        assert forall|k: Seq<char>| self.contents().dom().contains(k) implies (
        #[trigger] self.contents()[k]).work_id == k by {
            lemma_map_of_contains(self.kvs(), k);
            let i = choose|i: int| 0 <= i < self.kvs().len() && (#[trigger] self.kvs()[i]).0 == k;
            lemma_map_of_index(self.kvs(), i);
        }
    }

    /// Looks the row up by work id; `NotFound` exactly when no row carries
    /// it.
    pub fn get(&self, work_id: &String) -> (r: AppResult<Asset>)
        requires
            self.wf(),
        ensures
            r is Ok <==> self.contents().dom().contains(work_id@),
            r matches Ok(a) ==> a.model() == self.contents()[work_id@],
            r matches Err(e) ==> e is NotFound,
    {
        proof {
            lemma_map_of_contains(self.kvs(), work_id@);
        }
        match self.find(work_id) {
            Some(i) => {
                proof {
                    lemma_map_of_index(self.kvs(), i as int);
                }
                Ok(self.rows[i].clone())
            },
            None => Err(AppError::NotFound),
        }
    }

    /// Writes the row, replacing any row with the same work id.
    pub fn put(&mut self, item: &Asset)
        requires
            old(self).wf(),
        ensures
            final(self).wf(),
            final(self).contents() == old(self).contents().insert(item.work_id@, item.model()),
    {
        let ghost kvs0 = self.kvs();
        match self.find(&item.work_id) {
            Some(i) => {
                proof {
                    lemma_map_of_remove(kvs0, i as int);
                }
                self.rows.remove(i);
                proof {
                    assert(self.kvs() =~= kvs0.remove(i as int));
                    assert(forall|a: int, b: int|
                        0 <= a < b < self.kvs().len() ==> (#[trigger] self.kvs()[a]).0 != (
                        #[trigger] self.kvs()[b]).0);
                    assert forall|j: int| 0 <= j < self.kvs().len() implies (
                    #[trigger] self.kvs()[j]).0 != item.work_id@ by {
                        if j < i {
                            assert(kvs0[j] == self.kvs()[j]);
                            assert(kvs0[j].0 != kvs0[i as int].0);
                        } else {
                            assert(kvs0[j + 1] == self.kvs()[j]);
                            assert(kvs0[i as int].0 != kvs0[j + 1].0);
                        }
                    }
                }
            },
            None => {},
        }
        let ghost kvs1 = self.kvs();
        self.rows.push(item.clone());
        proof {
            assert(self.kvs() =~= kvs1.push((item.work_id@, item.model())));
            lemma_map_of_push(kvs1, item.work_id@, item.model());
            assert(forall|j: int| 0 <= j < kvs1.len() ==> (#[trigger] kvs1[j]).0 != item.work_id@);
            assert(final(self).contents() =~= old(self).contents().insert(
                item.work_id@,
                item.model(),
            ));
        }
    }

    /// Removes the row keyed by `work_id`, if any.
    pub fn delete(&mut self, work_id: &String)
        requires
            old(self).wf(),
        ensures
            final(self).wf(),
            final(self).contents() == old(self).contents().remove(work_id@),
    {
        let ghost kvs0 = self.kvs();
        match self.find(work_id) {
            Some(i) => {
                proof {
                    lemma_map_of_remove(kvs0, i as int);
                }
                self.rows.remove(i);
                proof {
                    assert(self.kvs() =~= kvs0.remove(i as int));
                    assert(forall|a: int, b: int|
                        0 <= a < b < self.kvs().len() ==> (#[trigger] self.kvs()[a]).0 != (
                        #[trigger] self.kvs()[b]).0);
                }
            },
            None => {
                proof {
                    lemma_map_of_contains(kvs0, work_id@);
                    assert(final(self).contents() =~= old(self).contents().remove(work_id@));
                }
            },
        }
    }

    /// Every row, in storage order.
    pub fn get_all(&self) -> (r: Vec<Asset>)
        ensures
            r@.map_values(|a: Asset| (a.work_id@, a.model())) == self.kvs(),
    {
        let mut r: Vec<Asset> = Vec::new();
        let mut i: usize = 0;
        while i < self.rows.len()
            invariant
                i <= self.rows@.len(),
                r@.len() == i,
                forall|j: int|
                    0 <= j < i ==> (#[trigger] r@[j]).work_id@ == self.kvs()[j].0 && r@[j].model()
                        == self.kvs()[j].1,
            decreases self.rows@.len() - i,
        {
            let a = self.rows[i].clone();
            proof {
                assert((a.work_id@, a.model()) == self.kvs()[i as int]);
            }
            r.push(a);
            i = i + 1;
        }
        assert(r@.map_values(|a: Asset| (a.work_id@, a.model())) =~= self.kvs());
        r
    }
}

/// The thumbnails of one work, in storage order.
pub open spec fn thumbs_of(vs: Seq<ThumbnailModel>, work_id: Seq<char>) -> Seq<ThumbnailModel>
    decreases vs.len(),
{
    if vs.len() == 0 {
        Seq::empty()
    } else {
        thumbs_of(vs.drop_last(), work_id) + (if vs.last().work_id == work_id {
            seq![vs.last()]
        } else {
            Seq::empty()
        })
    }
}

/// Insertion keeping `order` nondecreasing; an equal `order` goes after
/// what is already there.
pub open spec fn insert_by_order(m: ThumbnailModel, s: Seq<ThumbnailModel>) -> Seq<ThumbnailModel>
    decreases s.len(),
{
    if s.len() == 0 {
        seq![m]
    } else if m.order < s[0].order {
        seq![m] + s
    } else {
        seq![s[0]] + insert_by_order(m, s.drop_first())
    }
}

/// The stable sort by `order`: each element in turn, inserted in order.
pub open spec fn sort_by_order(s: Seq<ThumbnailModel>) -> Seq<ThumbnailModel>
    decreases s.len(),
{
    if s.len() == 0 {
        Seq::empty()
    } else {
        insert_by_order(s.last(), sort_by_order(s.drop_last()))
    }
}

proof fn lemma_insert_by_order_at(s: Seq<ThumbnailModel>, m: ThumbnailModel, pos: int)
    requires
        0 <= pos <= s.len(),
        forall|j: int| 0 <= j < pos ==> (#[trigger] s[j]).order <= m.order,
        pos < s.len() ==> s[pos].order > m.order,
    ensures
        insert_by_order(m, s) == s.subrange(0, pos) + seq![m] + s.subrange(pos, s.len() as int),
    decreases s.len(),
{
    if pos == 0 {
        if s.len() == 0 {
            assert(insert_by_order(m, s) =~= s.subrange(0, 0) + seq![m] + s.subrange(0, 0));
        } else {
            assert(insert_by_order(m, s) =~= s.subrange(0, 0) + seq![m] + s.subrange(
                0,
                s.len() as int,
            ));
        }
    } else {
        assert(s[0].order <= m.order);
        lemma_insert_by_order_at(s.drop_first(), m, pos - 1);
        assert(forall|j: int|
            0 <= j < s.drop_first().len() ==> s.drop_first()[j] == s[j + 1]);
        assert(s.drop_first().subrange(0, pos - 1) =~= s.subrange(1, pos));
        assert(s.drop_first().subrange(pos - 1, s.drop_first().len() as int) =~= s.subrange(
            pos,
            s.len() as int,
        ));
        assert(insert_by_order(m, s) =~= s.subrange(0, pos) + seq![m] + s.subrange(
            pos,
            s.len() as int,
        ));
    }
}

/// The table of thumbnails, keyed by thumbnail id; the work-id index sorts
/// a work's thumbnails by their `order`.
pub struct ThumbnailTable {
    rows: Vec<Thumbnail>,
}

impl ThumbnailTable {
    /// The rows as key/model pairs, in storage order.
    pub closed spec fn kvs(self) -> Seq<(Seq<char>, ThumbnailModel)> {
        self.rows@.map_values(|r: Thumbnail| (r.id@, r.model()))
    }

    /// The rows themselves, in storage order.
    pub closed spec fn row_models(self) -> Seq<ThumbnailModel> {
        self.rows@.map_values(|r: Thumbnail| r.model())
    }

    /// The table as a map from thumbnail id to row model.
    pub open spec fn contents(self) -> Map<Seq<char>, ThumbnailModel> {
        map_of(self.kvs())
    }

    /// Each id keys at most one row.
    pub open spec fn wf(self) -> bool {
        uniq_keys(self.kvs())
    }

    pub fn new() -> (r: Self)
        ensures
            r.wf(),
            r.contents() == Map::<Seq<char>, ThumbnailModel>::empty(),
            r.row_models() == Seq::<ThumbnailModel>::empty(),
    {
        let r = Self { rows: Vec::new() };
        proof {
            assert(r.kvs() =~= Seq::<(Seq<char>, ThumbnailModel)>::empty());
            assert(r.row_models() =~= Seq::<ThumbnailModel>::empty());
        }
        r
    }

    fn find(&self, id: &String) -> (r: Option<usize>)
        ensures
            match r {
                Some(i) => i < self.kvs().len() && self.kvs()[i as int].0 == id@,
                None => forall|j: int|
                    0 <= j < self.kvs().len() ==> (#[trigger] self.kvs()[j]).0 != id@,
            },
    {
        let mut i: usize = 0;
        while i < self.rows.len()
            invariant
                i <= self.rows@.len(),
                forall|j: int| 0 <= j < i ==> (#[trigger] self.kvs()[j]).0 != id@,
            decreases self.rows@.len() - i,
        {
            if self.rows[i].id == *id {
                return Some(i);
            }
            i = i + 1;
        }
        None
    }

    /// Writes the row, replacing any row with the same id; a fresh id goes
    /// at the end of the storage order.
    pub fn put(&mut self, item: &Thumbnail)
        requires
            old(self).wf(),
        ensures
            final(self).wf(),
            final(self).contents() == old(self).contents().insert(item.id@, item.model()),
            !old(self).contents().dom().contains(item.id@) ==> final(self).row_models() == old(
                self,
            ).row_models().push(item.model()),
    {
        let ghost kvs0 = self.kvs();
        proof {
            lemma_map_of_contains(kvs0, item.id@);
        }
        match self.find(&item.id) {
            Some(i) => {
                proof {
                    lemma_map_of_remove(kvs0, i as int);
                }
                self.rows.remove(i);
                proof {
                    assert(self.kvs() =~= kvs0.remove(i as int));
                    assert(forall|a: int, b: int|
                        0 <= a < b < self.kvs().len() ==> (#[trigger] self.kvs()[a]).0 != (
                        #[trigger] self.kvs()[b]).0);
                    assert forall|j: int| 0 <= j < self.kvs().len() implies (
                    #[trigger] self.kvs()[j]).0 != item.id@ by {
                        if j < i {
                            assert(kvs0[j] == self.kvs()[j]);
                            assert(kvs0[j].0 != kvs0[i as int].0);
                        } else {
                            assert(kvs0[j + 1] == self.kvs()[j]);
                            assert(kvs0[i as int].0 != kvs0[j + 1].0);
                        }
                    }
                }
            },
            None => {},
        }
        let ghost kvs1 = self.kvs();
        let ghost rm1 = self.row_models();
        self.rows.push(item.clone());
        proof {
            assert(self.kvs() =~= kvs1.push((item.id@, item.model())));
            lemma_map_of_push(kvs1, item.id@, item.model());
            assert(forall|j: int| 0 <= j < kvs1.len() ==> (#[trigger] kvs1[j]).0 != item.id@);
            assert(final(self).contents() =~= old(self).contents().insert(
                item.id@,
                item.model(),
            ));
            assert(final(self).row_models() =~= rm1.push(item.model()));
            if !old(self).contents().dom().contains(item.id@) {
                assert(rm1 =~= old(self).row_models());
            }
        }
    }

    /// Removes the row keyed by `id`, if any.
    pub fn delete(&mut self, id: &String)
        requires
            old(self).wf(),
        ensures
            final(self).wf(),
            final(self).contents() == old(self).contents().remove(id@),
    {
        let ghost kvs0 = self.kvs();
        match self.find(id) {
            Some(i) => {
                proof {
                    lemma_map_of_remove(kvs0, i as int);
                }
                self.rows.remove(i);
                proof {
                    assert(self.kvs() =~= kvs0.remove(i as int));
                    assert(forall|a: int, b: int|
                        0 <= a < b < self.kvs().len() ==> (#[trigger] self.kvs()[a]).0 != (
                        #[trigger] self.kvs()[b]).0);
                }
            },
            None => {
                proof {
                    lemma_map_of_contains(kvs0, id@);
                    assert(final(self).contents() =~= old(self).contents().remove(id@));
                }
            },
        }
    }

    /// The range query of the work-id index: every thumbnail of the work,
    /// ordered by its `order`, an equal `order` in storage order.
    pub fn get_by_work(&self, work_id: &String) -> (r: Vec<Thumbnail>)
        ensures
            r@.map_values(|t: Thumbnail| t.model()) == sort_by_order(
                thumbs_of(self.row_models(), work_id@),
            ),
    {
        let ghost vs = self.row_models();
        let mut r: Vec<Thumbnail> = Vec::new();
        let mut i: usize = 0;
        proof {
            assert(vs.subrange(0, 0) =~= Seq::<ThumbnailModel>::empty());
            assert(r@.map_values(|t: Thumbnail| t.model()) =~= Seq::<ThumbnailModel>::empty());
        }
        while i < self.rows.len()
            invariant
                i <= self.rows@.len(),
                vs == self.row_models(),
                r@.map_values(|t: Thumbnail| t.model()) == sort_by_order(
                    thumbs_of(vs.subrange(0, i as int), work_id@),
                ),
            decreases self.rows@.len() - i,
        {
            let ghost prefix = vs.subrange(0, i as int);
            let ghost m = vs[i as int];
            proof {
                assert(vs.subrange(0, i as int + 1).drop_last() =~= prefix);
                assert(vs.subrange(0, i as int + 1).last() == m);
            }
            if self.rows[i].work_id == *work_id {
                proof {
                    assert(m.work_id == work_id@);
                    assert(thumbs_of(vs.subrange(0, i as int + 1), work_id@) =~= thumbs_of(
                        prefix,
                        work_id@,
                    ).push(m));
                    assert(thumbs_of(prefix, work_id@).push(m).drop_last() =~= thumbs_of(
                        prefix,
                        work_id@,
                    ));
                }
                let row = self.rows[i].clone();
                insert_row_by_order(&mut r, row);
                proof {
                    assert(r@.map_values(|t: Thumbnail| t.model()) == sort_by_order(
                        thumbs_of(vs.subrange(0, i as int + 1), work_id@),
                    ));
                }
            } else {
                proof {
                    assert(m.work_id != work_id@);
                    assert(thumbs_of(vs.subrange(0, i as int + 1), work_id@) =~= thumbs_of(
                        prefix,
                        work_id@,
                    ));
                }
            }
            i = i + 1;
        }
        proof {
            assert(vs.subrange(0, vs.len() as int) =~= vs);
        }
        r
    }
}

/// Places one row at its sorted position, after any row of equal `order`.
fn insert_row_by_order(r: &mut Vec<Thumbnail>, row: Thumbnail)
    ensures
        final(r)@.map_values(|t: Thumbnail| t.model()) == insert_by_order(
            row.model(),
            old(r)@.map_values(|t: Thumbnail| t.model()),
        ),
{
    let ghost s = r@.map_values(|t: Thumbnail| t.model());
    let n = r.len();
    let mut pos: usize = 0;
    while pos < n && r[pos].order <= row.order
        invariant
            pos <= n == r@.len(),
            s == r@.map_values(|t: Thumbnail| t.model()),
            forall|j: int| 0 <= j < pos ==> (#[trigger] s[j]).order <= row.model().order,
        decreases n - pos,
    {
        proof {
            assert(s[pos as int].order <= row.model().order);
        }
        pos = pos + 1;
    }
    proof {
        lemma_insert_by_order_at(s, row.model(), pos as int);
    }
    r.insert(pos, row);
    proof {
        assert(final(r)@.map_values(|t: Thumbnail| t.model()) =~= s.subrange(0, pos as int)
            + seq![row.model()] + s.subrange(pos as int, s.len() as int));
    }
}

} // verus!
