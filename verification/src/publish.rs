//! The publish orchestrator. The producer side prepares a mint: it checks
//! the work, writes the placeholder asset row and builds the mint task for
//! the bus. The consumer side finishes one: it takes what the ledger and the
//! metadata service reported and populates the asset row, advancing the
//! work. The sell action lists a published work and nothing else.

use crate::domain::asset::Asset;
use crate::domain::work::{Work, WorkModel, WorkStatus};
use crate::errors::{AppError, AppResult};
use crate::reconcile::{advance_work, asset_after, LedgerAssetInfo};
use crate::store::{AssetTable, WorkTable};
use crate::task::{MintNft1155Payload, MintNft721Payload, Task, TaskModel};
use vstd::prelude::*;
use vstd::string::StringExecFns;

verus! {

pub const WORK_CSV_PATH_PREFIX: &'static str = "work_csv";

pub const THUMBNAIL_CSV_PATH_PREFIX: &'static str = "thumbnail_csv";

pub const NFT_721_ASSET_PATH_PREFIX: &'static str = "721_asset";

pub const NFT_1155_ASSET_PATH_PREFIX: &'static str = "1155_asset";

/// The object key of an uploaded artifact: `prefix/work_id` plus a suffix
/// such as the format extension.
pub fn asset_object_key(prefix: &str, work_id: &String, suffix: &str) -> (r: String)
    ensures
        r@ == prefix@ + "/"@ + work_id@ + suffix@,
{
    let mut s = String::new();
    s.append(prefix);
    s.append("/");
    s.append(work_id.as_str());
    s.append(suffix);
    s
}

/// Whether a prepare may run for this work: the work must exist and must
/// still await its mint. A published or listed work is refused, so a
/// duplicate prepare cannot re-emit a mint for it; a still-`Prepare` work
/// with a leftover placeholder is a retry and is allowed.
pub open spec fn prepare_allowed(works: Map<Seq<char>, WorkModel>, work_id: Seq<char>) -> bool {
    works.dom().contains(work_id) && works[work_id].status is Prepare
}

/// Producer side of an ERC-721 publish, after the artifacts are uploaded:
/// writes the placeholder asset row and hands back the mint task to
/// publish. Exactly one placeholder row exists afterwards, keyed by the
/// work; the task carries everything the worker needs to resume.
pub fn prepare_erc721(
    works: &WorkTable,
    assets: &mut AssetTable,
    executor_id: &String,
    work_id: &String,
    ipfs_hash: String,
    s3_key: String,
) -> (r: AppResult<Task>)
    requires
        works.wf(),
        old(assets).wf(),
    ensures
        final(assets).wf(),
        r is Ok <==> prepare_allowed(works.contents(), work_id@),
        r matches Ok(task) ==> {
            &&& final(assets).contents() == old(assets).contents().insert(
                work_id@,
                crate::domain::asset::placeholder_model(work_id@),
            )
            &&& task.model() == (TaskModel::MintNFT721 {
                executor_id: executor_id@,
                work_id: work_id@,
                ipfs_hash: ipfs_hash@,
                s3_key: s3_key@,
            })
        },
        r is Err ==> *final(assets) == *old(assets),
        r matches Err(e) ==> (if works.contents().dom().contains(work_id@) {
            e is BadRequest
        } else {
            e is NotFound
        }),
{
    match check_preparable(works, work_id) {
        Ok(()) => {},
        Err(e) => {
            return Err(e);
        },
    }
    let placeholder = Asset::new(work_id.clone());
    assets.put(&placeholder);
    let payload = MintNft721Payload {
        executor_id: executor_id.clone(),
        work_id: work_id.clone(),
        ipfs_hash,
        s3_key,
    };
    Ok(Task::MintNFT721(payload))
}

/// Producer side of an ERC-1155 publish; as the ERC-721 side, with the
/// mint amount riding in the task.
pub fn prepare_erc1155(
    works: &WorkTable,
    assets: &mut AssetTable,
    executor_id: &String,
    work_id: &String,
    amount: u32,
    ipfs_hash: String,
    s3_key: String,
) -> (r: AppResult<Task>)
    requires
        works.wf(),
        old(assets).wf(),
    ensures
        final(assets).wf(),
        r is Ok <==> prepare_allowed(works.contents(), work_id@),
        r matches Ok(task) ==> {
            &&& final(assets).contents() == old(assets).contents().insert(
                work_id@,
                crate::domain::asset::placeholder_model(work_id@),
            )
            &&& task.model() == (TaskModel::MintNFT1155 {
                executor_id: executor_id@,
                work_id: work_id@,
                amount: amount,
                ipfs_hash: ipfs_hash@,
                s3_key: s3_key@,
            })
        },
        r is Err ==> *final(assets) == *old(assets),
        r matches Err(e) ==> (if works.contents().dom().contains(work_id@) {
            e is BadRequest
        } else {
            e is NotFound
        }),
{
    match check_preparable(works, work_id) {
        Ok(()) => {},
        Err(e) => {
            return Err(e);
        },
    }
    let placeholder = Asset::new(work_id.clone());
    assets.put(&placeholder);
    let payload = MintNft1155Payload {
        executor_id: executor_id.clone(),
        work_id: work_id.clone(),
        amount,
        ipfs_hash,
        s3_key,
    };
    Ok(Task::MintNFT1155(payload))
}

/// The prepare precondition as a check: `NotFound` for an unknown work,
/// `BadRequest` for one already past `Prepare`.
pub fn check_preparable(works: &WorkTable, work_id: &String) -> (r: AppResult<()>)
    requires
        works.wf(),
    ensures
        r is Ok <==> prepare_allowed(works.contents(), work_id@),
        r matches Err(e) ==> (if works.contents().dom().contains(work_id@) {
            e is BadRequest
        } else {
            e is NotFound
        }),
{
    let work = match works.get(work_id) {
        Ok(w) => w,
        Err(e) => {
            return Err(e);
        },
    };
    match work.status {
        WorkStatus::Prepare => Ok(()),
        _ => Err(AppError::BadRequest(String::from_str("work is already published"))),
    }
}

/// Consumer side of a publish, after the ledger mint was submitted and the
/// canonical metadata fetched: populates the asset row with the
/// ledger-confirmed fields and advances a still-`Prepare` work. The
/// placeholder row must exist — a missing one is `NotFound`, left to the
/// reconciliation job to repair.
pub fn process_mint(
    works: &mut WorkTable,
    assets: &mut AssetTable,
    work_id: &String,
    fetched: &LedgerAssetInfo,
) -> (r: AppResult<()>)
    requires
        old(works).wf(),
        old(assets).wf(),
    ensures
        final(works).wf(),
        final(assets).wf(),
        r is Ok <==> old(works).contents().dom().contains(work_id@) && old(
            assets,
        ).contents().dom().contains(work_id@),
        r is Ok ==> {
            &&& final(assets).contents() == old(assets).contents().insert(
                work_id@,
                asset_after(
                    Option::Some(old(assets).contents()[work_id@]),
                    work_id@,
                    fetched.model(),
                ),
            )
            &&& final(works).contents() == old(works).contents().insert(
                work_id@,
                advance_work(old(works).contents()[work_id@]),
            )
        },
        r is Err ==> *final(works) == *old(works) && *final(assets) == *old(assets),
        r matches Err(e) ==> e is NotFound,
{
    let ghost wpre = works.contents();
    let ghost apre = assets.contents();
    proof {
        works.lemma_keys();
        assets.lemma_keys();
    }
    let mut work = match works.get(work_id) {
        Ok(w) => w,
        Err(e) => {
            return Err(e);
        },
    };
    let mut row = match assets.get(work_id) {
        Ok(a) => a,
        Err(e) => {
            return Err(e);
        },
    };
    let f = fetched.clone();
    row.published(
        f.contract_address,
        f.token_id,
        f.name,
        f.description,
        f.image_url,
        f.image_preview_url,
        f.permalink,
    );
    proof {
        assert(row.model() == asset_after(Option::Some(apre[work_id@]), work_id@, fetched.model()));
        assert(row.work_id@ == work_id@);
    }
    assets.put(&row);
    let is_prepare = match work.status {
        WorkStatus::Prepare => true,
        _ => false,
    };
    if is_prepare {
        let _ = work.update_status(WorkStatus::PublishNFT);
        proof {
            assert(work.model() == advance_work(wpre[work_id@]));
        }
        works.put(&work);
    } else {
        proof {
            assert(advance_work(wpre[work_id@]) == wpre[work_id@]);
            assert(wpre.insert(work_id@, wpre[work_id@]) =~= wpre);
        }
    }
    Ok(())
}

/// The sell action's status move: a published work becomes listed. Listing
/// a work that is not `PublishNFT` — in particular one still in `Prepare` —
/// is refused and changes nothing.
pub fn mark_listed(works: &mut WorkTable, work_id: &String) -> (r: AppResult<()>)
    requires
        old(works).wf(),
    ensures
        final(works).wf(),
        r is Ok <==> old(works).contents().dom().contains(work_id@) && old(
            works,
        ).contents()[work_id@].status is PublishNFT,
        r is Ok ==> final(works).contents() == old(works).contents().insert(
            work_id@,
            (WorkModel {
                id: old(works).contents()[work_id@].id,
                video_path: old(works).contents()[work_id@].video_path,
                status: WorkStatus::SellOrder,
            }),
        ),
        r is Err ==> *final(works) == *old(works),
        r matches Err(e) ==> (if old(works).contents().dom().contains(work_id@) {
            e is BadRequest
        } else {
            e is NotFound
        }),
{
    proof {
        works.lemma_keys();
    }
    let mut work = match works.get(work_id) {
        Ok(w) => w,
        Err(e) => {
            return Err(e);
        },
    };
    match work.update_status(WorkStatus::SellOrder) {
        Ok(()) => {},
        Err(e) => {
            return Err(e);
        },
    }
    works.put(&work);
    Ok(())
}

/// Batch lookup keeping only works in the given status: the rows for the
/// requested ids that exist and qualify, in the caller's requested relative
/// order.
pub fn get_multi_by_status(works: &WorkTable, ids: &Vec<String>, status: WorkStatus) -> (r: Vec<
    Work,
>)
    requires
        works.wf(),
    ensures
        r@.map_values(|w: Work| w.model()) == multi_status_spec(
            works.contents(),
            ids@.map_values(|s: String| s@),
            status,
        ),
{
    let ghost idseq = ids@.map_values(|s: String| s@);
    let mut r: Vec<Work> = Vec::new();
    let mut i: usize = 0;
    proof {
        assert(idseq.subrange(0, 0) =~= Seq::<Seq<char>>::empty());
    }
    while i < ids.len()
        invariant
            i <= ids@.len(),
            works.wf(),
            idseq == ids@.map_values(|s: String| s@),
            r@.map_values(|w: Work| w.model()) == multi_status_spec(
                works.contents(),
                idseq.subrange(0, i as int),
                status,
            ),
        decreases ids@.len() - i,
    {
        let ghost prefix = idseq.subrange(0, i as int);
        match works.get(&ids[i]) {
            Ok(w) => {
                let keep = match (&w.status, &status) {
                    (WorkStatus::Prepare, WorkStatus::Prepare) => true,
                    (WorkStatus::PublishNFT, WorkStatus::PublishNFT) => true,
                    (WorkStatus::SellOrder, WorkStatus::SellOrder) => true,
                    _ => false,
                };
                if keep {
                    r.push(w);
                }
            },
            Err(_) => {},
        }
        proof {
            lemma_multi_status_spec_push(works.contents(), prefix, idseq[i as int], status);
            assert(idseq.subrange(0, i as int + 1) =~= prefix.push(idseq[i as int]));
            assert(r@.map_values(|w: Work| w.model()) =~= multi_status_spec(
                works.contents(),
                idseq.subrange(0, i as int + 1),
                status,
            ));
        }
        i = i + 1;
    }
    assert(idseq.subrange(0, idseq.len() as int) =~= idseq);
    r
}

/// Batch-lookup-with-filter semantics: for each requested id in order, the
/// row model if the id is present and its status qualifies.
pub open spec fn multi_status_spec(
    m: Map<Seq<char>, WorkModel>,
    ids: Seq<Seq<char>>,
    status: WorkStatus,
) -> Seq<WorkModel>
    decreases ids.len(),
{
    if ids.len() == 0 {
        Seq::empty()
    } else {
        if m.dom().contains(ids[0]) && m[ids[0]].status == status {
            seq![m[ids[0]]] + multi_status_spec(m, ids.drop_first(), status)
        } else {
            multi_status_spec(m, ids.drop_first(), status)
        }
    }
}

proof fn lemma_multi_status_spec_push(
    m: Map<Seq<char>, WorkModel>,
    ids: Seq<Seq<char>>,
    id: Seq<char>,
    status: WorkStatus,
)
    ensures
        multi_status_spec(m, ids.push(id), status) == multi_status_spec(m, ids, status) + (
        if m.dom().contains(id) && m[id].status == status {
            seq![m[id]]
        } else {
            Seq::empty()
        }),
    decreases ids.len(),
{
    if ids.len() == 0 {
        assert(ids.push(id)[0] == id);
        assert(ids.push(id).drop_first() =~= Seq::<Seq<char>>::empty());
        assert(multi_status_spec(m, ids.push(id).drop_first(), status)
            =~= Seq::<WorkModel>::empty());
        if m.dom().contains(id) && m[id].status == status {
            assert(multi_status_spec(m, ids.push(id), status) =~= multi_status_spec(m, ids, status)
                + seq![m[id]]);
        } else {
            assert(multi_status_spec(m, ids.push(id), status) =~= multi_status_spec(m, ids, status)
                + Seq::<WorkModel>::empty());
        }
    } else {
        lemma_multi_status_spec_push(m, ids.drop_first(), id, status);
        assert(ids.push(id).drop_first() =~= ids.drop_first().push(id));
        assert(ids.push(id)[0] == ids[0]);
        if m.dom().contains(ids[0]) && m[ids[0]].status == status {
            assert(multi_status_spec(m, ids.push(id), status) =~= multi_status_spec(m, ids, status)
                + (if m.dom().contains(id) && m[id].status == status {
                seq![m[id]]
            } else {
                Seq::empty()
            }));
        } else {
            assert(multi_status_spec(m, ids.push(id), status) =~= multi_status_spec(m, ids, status)
                + (if m.dom().contains(id) && m[id].status == status {
                seq![m[id]]
            } else {
                Seq::empty()
            }));
        }
    }
}

} // verus!
