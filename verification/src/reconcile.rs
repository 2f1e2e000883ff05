//! The reconciliation job: the self-healing pass that aligns the local
//! store with the ledger. For every identifier the ledger reports as
//! minted, the asset row is upserted from fetched canonical metadata and a
//! still-`Prepare` work is advanced; every local asset row whose identifier
//! the ledger no longer reports is deleted. One identifier's missing
//! metadata never blocks the rest.

use crate::domain::asset::{Asset, AssetModel, placeholder_model};
use crate::domain::work::{WorkModel, WorkStatus};
use crate::kvmap::{lemma_map_of_contains, lemma_map_of_index, lemma_map_of_push, lemma_map_of_remove, map_of, uniq_keys};
use crate::store::{AssetTable, WorkTable};
use vstd::prelude::*;

verus! {

/// What the ledger and the metadata service report for one minted
/// identifier: the contract, the assigned token id, and the canonical
/// metadata.
pub struct LedgerAssetInfo {
    pub work_id: String,
    pub contract_address: String,
    pub token_id: String,
    pub name: String,
    pub description: String,
    pub image_url: String,
    pub image_preview_url: String,
    pub permalink: String,
}

/// The mathematical shape of one fetched report.
pub struct InfoModel {
    pub contract_address: Seq<char>,
    pub token_id: Seq<char>,
    pub name: Seq<char>,
    pub description: Seq<char>,
    pub image_url: Seq<char>,
    pub image_preview_url: Seq<char>,
    pub permalink: Seq<char>,
}

impl LedgerAssetInfo {
    pub open spec fn model(self) -> InfoModel {
        InfoModel {
            contract_address: self.contract_address@,
            token_id: self.token_id@,
            name: self.name@,
            description: self.description@,
            image_url: self.image_url@,
            image_preview_url: self.image_preview_url@,
            permalink: self.permalink@,
        }
    }
}

impl Clone for LedgerAssetInfo {
    fn clone(&self) -> (r: Self)
        ensures
            r == *self,
    {
        LedgerAssetInfo {
            work_id: self.work_id.clone(),
            contract_address: self.contract_address.clone(),
            token_id: self.token_id.clone(),
            name: self.name.clone(),
            description: self.description.clone(),
            image_url: self.image_url.clone(),
            image_preview_url: self.image_preview_url.clone(),
            permalink: self.permalink.clone(),
        }
    }
}

/// The reports fetched for this run, keyed by work id. An identifier whose
/// fetch failed is simply absent.
pub struct AssetInfoTable {
    rows: Vec<LedgerAssetInfo>,
}

impl AssetInfoTable {
    pub closed spec fn kvs(self) -> Seq<(Seq<char>, InfoModel)> {
        self.rows@.map_values(|r: LedgerAssetInfo| (r.work_id@, r.model()))
    }

    pub open spec fn contents(self) -> Map<Seq<char>, InfoModel> {
        map_of(self.kvs())
    }

    pub open spec fn wf(self) -> bool {
        uniq_keys(self.kvs())
    }

    pub fn new() -> (r: Self)
        ensures
            r.wf(),
            r.contents() == Map::<Seq<char>, InfoModel>::empty(),
    {
        let r = Self { rows: Vec::new() };
        proof {
            assert(r.kvs() =~= Seq::<(Seq<char>, InfoModel)>::empty());
        }
        r
    }

    fn find(&self, work_id: &String) -> (r: Option<usize>)
        ensures
            match r {
                Some(i) => i < self.kvs().len() && self.kvs()[i as int].0 == work_id@,
                None => forall|j: int|
                    0 <= j < self.kvs().len() ==> (#[trigger] self.kvs()[j]).0 != work_id@,
            },
    {
        let mut i: usize = 0;
        while i < self.rows.len()
            invariant
                i <= self.rows@.len(),
                forall|j: int| 0 <= j < i ==> (#[trigger] self.kvs()[j]).0 != work_id@,
            decreases self.rows@.len() - i,
        {
            if self.rows[i].work_id == *work_id {
                return Some(i);
            }
            i = i + 1;
        }
        None
    }

    /// The report for `work_id`, if one was fetched.
    pub fn get(&self, work_id: &String) -> (r: Option<LedgerAssetInfo>)
        requires
            self.wf(),
        ensures
            r is Some <==> self.contents().dom().contains(work_id@),
            r matches Some(v) ==> v.model() == self.contents()[work_id@],
    {
        proof {
            lemma_map_of_contains(self.kvs(), work_id@);
        }
        match self.find(work_id) {
            Some(i) => {
                proof {
                    lemma_map_of_index(self.kvs(), i as int);
                }
                Some(self.rows[i].clone())
            },
            None => None,
        }
    }

    /// Records a fetched report, replacing any earlier one for the same id.
    pub fn put(&mut self, item: &LedgerAssetInfo)
        requires
            old(self).wf(),
        ensures
            final(self).wf(),
            final(self).contents() == old(self).contents().insert(item.work_id@, item.model()),
    {
        let ghost kvs0 = self.kvs();
        match self.find(&item.work_id) {
            Some(i) => {
                proof {
                    lemma_map_of_remove(kvs0, i as int);
                }
                self.rows.remove(i);
                proof {
                    assert(self.kvs() =~= kvs0.remove(i as int));
                    assert(forall|a: int, b: int|
                        0 <= a < b < self.kvs().len() ==> (#[trigger] self.kvs()[a]).0 != (
                        #[trigger] self.kvs()[b]).0);
                    assert forall|j: int| 0 <= j < self.kvs().len() implies (
                    #[trigger] self.kvs()[j]).0 != item.work_id@ by {
                        if j < i {
                            assert(kvs0[j] == self.kvs()[j]);
                            assert(kvs0[j].0 != kvs0[i as int].0);
                        } else {
                            assert(kvs0[j + 1] == self.kvs()[j]);
                            assert(kvs0[i as int].0 != kvs0[j + 1].0);
                        }
                    }
                }
            },
            None => {},
        }
        let ghost kvs1 = self.kvs();
        self.rows.push(item.clone());
        proof {
            assert(self.kvs() =~= kvs1.push((item.work_id@, item.model())));
            lemma_map_of_push(kvs1, item.work_id@, item.model());
            assert(forall|j: int|
                0 <= j < kvs1.len() ==> (#[trigger] kvs1[j]).0 != item.work_id@);
            assert(final(self).contents() =~= old(self).contents().insert(
                item.work_id@,
                item.model(),
            ));
        }
    }
}

/// A still-`Prepare` work advances to `PublishNFT`; any other status is
/// left as it is.
pub open spec fn advance_work(w: WorkModel) -> WorkModel {
    if w.status is Prepare {
        WorkModel { id: w.id, video_path: w.video_path, status: WorkStatus::PublishNFT }
    } else {
        w
    }
}

/// The asset row after an upsert from a fetched report: ledger-derived
/// fields from the report, prices kept from the existing row, or the
/// placeholder's prices when there was none.
pub open spec fn asset_after(base: Option<AssetModel>, id: Seq<char>, info: InfoModel) -> AssetModel {
    let b = match base {
        Option::Some(b) => b,
        Option::None => placeholder_model(id),
    };
    AssetModel {
        work_id: id,
        contract_address: info.contract_address,
        token_id: info.token_id,
        name: info.name,
        description: info.description,
        image_url: info.image_url,
        image_preview_url: info.image_preview_url,
        permalink: info.permalink,
        usd_price: b.usd_price,
        eth_price: b.eth_price,
    }
}

/// One identifier's upsert: nothing happens unless the work is known here
/// and a report was fetched; otherwise the asset row is upserted and the
/// work advanced.
pub open spec fn reconcile_step(
    works: Map<Seq<char>, WorkModel>,
    assets: Map<Seq<char>, AssetModel>,
    info: Map<Seq<char>, InfoModel>,
    id: Seq<char>,
) -> (Map<Seq<char>, WorkModel>, Map<Seq<char>, AssetModel>) {
    if works.dom().contains(id) && info.dom().contains(id) {
        (
            works.insert(id, advance_work(works[id])),
            assets.insert(
                id,
                asset_after(
                    if assets.dom().contains(id) {
                        Option::Some(assets[id])
                    } else {
                        Option::None
                    },
                    id,
                    info[id],
                ),
            ),
        )
    } else {
        (works, assets)
    }
}

/// The upsert phase: the identifiers the ledger reported, in order.
pub open spec fn reconcile_upserts(
    works: Map<Seq<char>, WorkModel>,
    assets: Map<Seq<char>, AssetModel>,
    info: Map<Seq<char>, InfoModel>,
    used: Seq<Seq<char>>,
) -> (Map<Seq<char>, WorkModel>, Map<Seq<char>, AssetModel>)
    decreases used.len(),
{
    if used.len() == 0 {
        (works, assets)
    } else {
        let s = reconcile_step(works, assets, info, used[0]);
        reconcile_upserts(s.0, s.1, info, used.drop_first())
    }
}

/// The identifiers the ledger reports as used, as a set.
pub open spec fn used_set(used: Seq<Seq<char>>) -> Set<Seq<char>> {
    Set::new(|k: Seq<char>| used.contains(k))
}

/// The whole job: upsert every ledger-reported identifier, then delete
/// every asset row whose identifier the ledger no longer reports.
pub open spec fn reconcile_spec(
    works: Map<Seq<char>, WorkModel>,
    assets: Map<Seq<char>, AssetModel>,
    info: Map<Seq<char>, InfoModel>,
    used: Seq<Seq<char>>,
) -> (Map<Seq<char>, WorkModel>, Map<Seq<char>, AssetModel>) {
    let up = reconcile_upserts(works, assets, info, used);
    (up.0, up.1.restrict(used_set(used)))
}

proof fn lemma_upserts_snoc(
    works: Map<Seq<char>, WorkModel>,
    assets: Map<Seq<char>, AssetModel>,
    info: Map<Seq<char>, InfoModel>,
    used: Seq<Seq<char>>,
    id: Seq<char>,
)
    ensures
        reconcile_upserts(works, assets, info, used.push(id)) == reconcile_step(
            reconcile_upserts(works, assets, info, used).0,
            reconcile_upserts(works, assets, info, used).1,
            info,
            id,
        ),
    decreases used.len(),
{
    if used.len() == 0 {
        assert(used.push(id)[0] == id);
        assert(used.push(id).drop_first() =~= Seq::<Seq<char>>::empty());
        let s = reconcile_step(works, assets, info, id);
        assert(reconcile_upserts(s.0, s.1, info, used.push(id).drop_first()) == s);
    } else {
        assert(used.push(id)[0] == used[0]);
        assert(used.push(id).drop_first() =~= used.drop_first().push(id));
        let s = reconcile_step(works, assets, info, used[0]);
        lemma_upserts_snoc(s.0, s.1, info, used.drop_first(), id);
    }
}

/// An identifier is settled when another upsert of it would change
/// nothing: the work, if it is known and reported, is already advanced and
/// its asset row already carries the reported fields.
pub open spec fn id_settled(
    works: Map<Seq<char>, WorkModel>,
    assets: Map<Seq<char>, AssetModel>,
    info: Map<Seq<char>, InfoModel>,
    id: Seq<char>,
) -> bool {
    works.dom().contains(id) && info.dom().contains(id) ==> {
        &&& !(works[id].status is Prepare)
        &&& assets.dom().contains(id)
        &&& assets[id] == asset_after(Option::Some(assets[id]), id, info[id])
    }
}

proof fn lemma_step_settles(
    works: Map<Seq<char>, WorkModel>,
    assets: Map<Seq<char>, AssetModel>,
    info: Map<Seq<char>, InfoModel>,
    id: Seq<char>,
    other: Seq<char>,
)
    ensures
        id_settled(
            reconcile_step(works, assets, info, id).0,
            reconcile_step(works, assets, info, id).1,
            info,
            id,
        ),
        id_settled(works, assets, info, other) ==> id_settled(
            reconcile_step(works, assets, info, id).0,
            reconcile_step(works, assets, info, id).1,
            info,
            other,
        ),
{
}

proof fn lemma_upserts_settle(
    works: Map<Seq<char>, WorkModel>,
    assets: Map<Seq<char>, AssetModel>,
    info: Map<Seq<char>, InfoModel>,
    used: Seq<Seq<char>>,
    id: Seq<char>,
)
    requires
        used.contains(id) || id_settled(works, assets, info, id),
    ensures
        id_settled(
            reconcile_upserts(works, assets, info, used).0,
            reconcile_upserts(works, assets, info, used).1,
            info,
            id,
        ),
    decreases used.len(),
{
    if used.len() == 0 {
    } else {
        let s = reconcile_step(works, assets, info, used[0]);
        lemma_step_settles(works, assets, info, used[0], id);
        if used.contains(id) && id != used[0] {
            assert(used.drop_first().contains(id)) by {
                let j = choose|j: int| 0 <= j < used.len() && used[j] == id;
                assert(used.drop_first()[j - 1] == id);
            }
            lemma_upserts_settle(s.0, s.1, info, used.drop_first(), id);
        } else {
            lemma_upserts_settle(s.0, s.1, info, used.drop_first(), id);
        }
    }
}

proof fn lemma_settled_step_identity(
    works: Map<Seq<char>, WorkModel>,
    assets: Map<Seq<char>, AssetModel>,
    info: Map<Seq<char>, InfoModel>,
    id: Seq<char>,
)
    requires
        id_settled(works, assets, info, id),
    ensures
        reconcile_step(works, assets, info, id) == (works, assets),
{
    if works.dom().contains(id) && info.dom().contains(id) {
        assert(advance_work(works[id]) == works[id]);
        assert(works.insert(id, works[id]) =~= works);
        assert(assets.insert(id, assets[id]) =~= assets);
    }
}

proof fn lemma_settled_upserts_identity(
    works: Map<Seq<char>, WorkModel>,
    assets: Map<Seq<char>, AssetModel>,
    info: Map<Seq<char>, InfoModel>,
    used: Seq<Seq<char>>,
)
    requires
        forall|id: Seq<char>| used.contains(id) ==> id_settled(works, assets, info, id),
    ensures
        reconcile_upserts(works, assets, info, used) == (works, assets),
    decreases used.len(),
{
    if used.len() == 0 {
    } else {
        assert(used.contains(used[0]));
        lemma_settled_step_identity(works, assets, info, used[0]);
        assert forall|id: Seq<char>| used.drop_first().contains(id) implies id_settled(
            works,
            assets,
            info,
            id,
        ) by {
            let j = choose|j: int| 0 <= j < used.drop_first().len() && used.drop_first()[j] == id;
            assert(used[j + 1] == id);
            assert(used.contains(id));
        }
        lemma_settled_upserts_identity(works, assets, info, used.drop_first());
    }
}

/// Running the job twice in a row with no ledger change between the runs is
/// a no-op on the second run: the second run returns exactly the state the
/// first run left behind.
pub proof fn lemma_reconcile_idempotent(
    works: Map<Seq<char>, WorkModel>,
    assets: Map<Seq<char>, AssetModel>,
    info: Map<Seq<char>, InfoModel>,
    used: Seq<Seq<char>>,
)
    ensures
        ({
            let once = reconcile_spec(works, assets, info, used);
            reconcile_spec(once.0, once.1, info, used) == once
        }),
{
    let up = reconcile_upserts(works, assets, info, used);
    let once = (up.0, up.1.restrict(used_set(used)));
    assert forall|id: Seq<char>| used.contains(id) implies id_settled(
        once.0,
        once.1,
        info,
        id,
    ) by {
        lemma_upserts_settle(works, assets, info, used, id);
        if up.0.dom().contains(id) && info.dom().contains(id) {
            assert(used_set(used).contains(id));
            assert(once.1.dom().contains(id) == up.1.dom().contains(id));
            if up.1.dom().contains(id) {
                assert(once.1[id] == up.1[id]);
            }
        }
    }
    lemma_settled_upserts_identity(once.0, once.1, info, used);
    assert(once.1.restrict(used_set(used)) =~= once.1);
}

/// The keys that appear in `s` at or after position `i`.
pub open spec fn keys_from(s: Seq<(Seq<char>, AssetModel)>, i: int) -> Set<Seq<char>> {
    Set::new(|k: Seq<char>| exists|j: int| i <= j < s.len() && (#[trigger] s[j]).0 == k)
}

/// Whether `id` is among the ledger-reported identifiers.
fn contains_id(used: &Vec<String>, id: &String) -> (r: bool)
    ensures
        r == used@.map_values(|s: String| s@).contains(id@),
{
    let ghost useq = used@.map_values(|s: String| s@);
    let mut i: usize = 0;
    while i < used.len()
        invariant
            i <= used@.len(),
            useq == used@.map_values(|s: String| s@),
            forall|j: int| 0 <= j < i ==> useq[j] != id@,
        decreases used@.len() - i,
    {
        if used[i] == *id {
            assert(useq[i as int] == id@);
            return true;
        }
        i = i + 1;
    }
    assert(forall|j: int| 0 <= j < useq.len() ==> useq[j] != id@);
    false
}

/// One run of the reconciliation job over the tables of one token
/// standard: `used` is what the ledger reports as minted, `info` the
/// reports fetched for this run (an identifier whose fetch failed is
/// absent, and is skipped, never blocking the rest).
pub fn reconcile(
    works: &mut WorkTable,
    assets: &mut AssetTable,
    used: &Vec<String>,
    info: &AssetInfoTable,
)
    requires
        old(works).wf(),
        old(assets).wf(),
        info.wf(),
    ensures
        final(works).wf(),
        final(assets).wf(),
        (final(works).contents(), final(assets).contents()) == reconcile_spec(
            old(works).contents(),
            old(assets).contents(),
            info.contents(),
            used@.map_values(|s: String| s@),
        ),
{
    let ghost w0 = works.contents();
    let ghost a0 = assets.contents();
    let ghost m = info.contents();
    let ghost useq = used@.map_values(|s: String| s@);
    let mut i: usize = 0;
    proof {
        assert(useq.subrange(0, 0) =~= Seq::<Seq<char>>::empty());
    }
    while i < used.len()
        invariant
            i <= used@.len(),
            works.wf(),
            assets.wf(),
            info.wf(),
            w0 == old(works).contents(),
            a0 == old(assets).contents(),
            m == info.contents(),
            useq == used@.map_values(|s: String| s@),
            (works.contents(), assets.contents()) == reconcile_upserts(
                w0,
                a0,
                m,
                useq.subrange(0, i as int),
            ),
        decreases used@.len() - i,
    {
        let ghost wpre = works.contents();
        let ghost apre = assets.contents();
        let id = &used[i];
        proof {
            assert(useq[i as int] == id@);
        }
        match works.get(id) {
            Err(_) => {
                proof {
                    assert(reconcile_step(wpre, apre, m, id@) == (wpre, apre));
                }
            },
            Ok(work) => {
                match info.get(id) {
                    None => {
                        proof {
                            assert(reconcile_step(wpre, apre, m, id@) == (wpre, apre));
                        }
                    },
                    Some(inf) => {
                        upsert_one(works, assets, info, id, work, inf);
                    },
                }
            },
        }
        proof {
            lemma_upserts_snoc(w0, a0, m, useq.subrange(0, i as int), useq[i as int]);
            assert(useq.subrange(0, i as int + 1) =~= useq.subrange(0, i as int).push(
                useq[i as int],
            ));
        }
        i = i + 1;
    }
    proof {
        assert(useq.subrange(0, useq.len() as int) =~= useq);
    }
    let ghost a1 = assets.contents();
    let ghost w1 = works.contents();
    let snapshot = assets.get_all();
    let ghost s0 = assets.kvs();
    proof {
        assert forall|k: Seq<char>| a1.dom().contains(k) implies used_set(useq).union(
            keys_from(s0, 0),
        ).contains(k) by {
            lemma_map_of_contains(s0, k);
        }
        assert(assets.contents() =~= a1.restrict(used_set(useq).union(keys_from(s0, 0))));
    }
    let mut j: usize = 0;
    while j < snapshot.len()
        invariant
            j <= snapshot@.len(),
            works.wf(),
            assets.wf(),
            works.contents() == w1,
            useq == used@.map_values(|s: String| s@),
            snapshot@.map_values(|a: Asset| (a.work_id@, a.model())) == s0,
            uniq_keys(s0),
            a1 == map_of(s0),
            assets.contents() == a1.restrict(used_set(useq).union(keys_from(s0, j as int))),
        decreases snapshot@.len() - j,
    {
        let ghost pre = assets.contents();
        let ghost kj = s0[j as int].0;
        proof {
            assert((snapshot@[j as int].work_id@, snapshot@[j as int].model()) == s0[j as int]);
        }
        let keep = contains_id(used, &snapshot[j].work_id);
        if !keep {
            assets.delete(&snapshot[j].work_id);
        }
        proof {
            let u = used_set(useq);
            assert forall|k: Seq<char>|
                u.union(keys_from(s0, j as int)).contains(k) && k != kj implies u.union(
                keys_from(s0, j as int + 1),
            ).contains(k) by {
                if !u.contains(k) {
                    let jj = choose|jj: int|
                        j <= jj < s0.len() && (#[trigger] s0[jj]).0 == k;
                    assert(jj != j);
                    assert(keys_from(s0, j as int + 1).contains(k));
                }
            }
            assert forall|k: Seq<char>|
                u.union(keys_from(s0, j as int + 1)).contains(k) implies u.union(
                keys_from(s0, j as int),
            ).contains(k) by {
                if !u.contains(k) {
                    let jj = choose|jj: int|
                        j + 1 <= jj < s0.len() && (#[trigger] s0[jj]).0 == k;
                    assert(keys_from(s0, j as int).contains(k));
                }
            }
            if keep {
                assert(u.contains(kj));
                assert(assets.contents() =~= a1.restrict(
                    u.union(keys_from(s0, j as int + 1)),
                ));
            } else {
                assert(!u.contains(kj));
                assert(!keys_from(s0, j as int + 1).contains(kj)) by {
                    if keys_from(s0, j as int + 1).contains(kj) {
                        let jj = choose|jj: int|
                            j + 1 <= jj < s0.len() && (#[trigger] s0[jj]).0 == kj;
                        assert(s0[j as int].0 == s0[jj].0);
                        assert(false);
                    }
                }
                assert(assets.contents() =~= a1.restrict(
                    u.union(keys_from(s0, j as int + 1)),
                ));
            }
        }
        j = j + 1;
    }
    proof {
        assert(keys_from(s0, s0.len() as int) =~= Set::<Seq<char>>::empty());
        assert(used_set(useq).union(keys_from(s0, snapshot@.len() as int)) =~= used_set(useq));
        assert(assets.contents() =~= a1.restrict(used_set(useq)));
    }
}

/// The upsert of one ledger-reported identifier whose work is known and
/// whose report was fetched: the asset row takes the report's fields, and a
/// still-`Prepare` work advances.
fn upsert_one(
    works: &mut WorkTable,
    assets: &mut AssetTable,
    info: &AssetInfoTable,
    id: &String,
    work: crate::domain::work::Work,
    inf: LedgerAssetInfo,
)
    requires
        old(works).wf(),
        old(assets).wf(),
        info.wf(),
        old(works).contents().dom().contains(id@),
        work.model() == old(works).contents()[id@],
        info.contents().dom().contains(id@),
        inf.model() == info.contents()[id@],
    ensures
        final(works).wf(),
        final(assets).wf(),
        (final(works).contents(), final(assets).contents()) == reconcile_step(
            old(works).contents(),
            old(assets).contents(),
            info.contents(),
            id@,
        ),
{
    let ghost wpre = works.contents();
    let ghost apre = assets.contents();
    let ghost m = info.contents();
    proof {
        works.lemma_keys();
        assets.lemma_keys();
    }
    let mut row = match assets.get(id) {
        Ok(r) => r,
        Err(_) => Asset::new(id.clone()),
    };
    row.published(
        inf.contract_address,
        inf.token_id,
        inf.name,
        inf.description,
        inf.image_url,
        inf.image_preview_url,
        inf.permalink,
    );
    proof {
        if apre.dom().contains(id@) {
            assert(row.model() == asset_after(Option::Some(apre[id@]), id@, m[id@]));
        } else {
            assert(row.model() == asset_after(Option::None, id@, m[id@]));
        }
        assert(row.work_id@ == id@);
    }
    assets.put(&row);
    let mut work = work;
    let is_prepare = match work.status {
        WorkStatus::Prepare => true,
        _ => false,
    };
    if is_prepare {
        let _ = work.update_status(WorkStatus::PublishNFT);
        proof {
            assert(work.model() == advance_work(wpre[id@]));
            assert(work.id@ == id@);
        }
        works.put(&work);
    } else {
        proof {
            assert(advance_work(wpre[id@]) == wpre[id@]);
            assert(wpre.insert(id@, wpre[id@]) =~= wpre);
        }
    }
}

} // verus!
