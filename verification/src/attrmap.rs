//! The mapping layer between entities and the store's native attribute
//! maps: each row travels as named, tagged scalars. Reading is strict — a
//! missing attribute, a wrong tag, an unrecognized status name or an
//! unreadable order count is a hard `Internal` error, never a default.

use crate::cursor::{attr_model, AttrValueModel, EncodableAttributeValue, KeyEntryModel, entries_model};
use crate::domain::asset::{Asset, AssetModel};
use crate::domain::user::User;
use crate::domain::work::{Thumbnail, ThumbnailModel, Work, WorkModel, WorkStatus};
use crate::errors::{AppError, AppResult};
use crate::numtext::{parse_i32, parse_i32_spec, spell_i32, spell_i32_spec};
use vstd::prelude::*;
use vstd::string::StringExecFns;

verus! {

/// A row as the backing store carries it: named, tagged scalars.
pub type AttrMap = Vec<(String, EncodableAttributeValue)>;

/// The first value stored under `key`, if any.
pub open spec fn attr_lookup(es: Seq<KeyEntryModel>, key: Seq<char>) -> Option<AttrValueModel>
    decreases es.len(),
{
    if es.len() == 0 {
        Option::None
    } else if es[0].name == key {
        Option::Some(es[0].value)
    } else {
        attr_lookup(es.drop_first(), key)
    }
}

/// Finds the first attribute stored under `key`.
fn attr_get<'a>(attrs: &'a AttrMap, key: &str) -> (r: Option<&'a EncodableAttributeValue>)
    ensures
        match r {
            Option::Some(v) => attr_lookup(entries_model(attrs@), key@) == Option::Some(
                attr_model(*v),
            ),
            Option::None => attr_lookup(entries_model(attrs@), key@) is None,
        },
{
    let keys = String::from_str(key);
    let ghost es = entries_model(attrs@);
    let mut i: usize = 0;
    proof {
        assert(es.subrange(0, es.len() as int) =~= es);
    }
    while i < attrs.len()
        invariant
            i <= attrs@.len(),
            keys@ == key@,
            es == entries_model(attrs@),
            attr_lookup(es, key@) == attr_lookup(es.subrange(i as int, es.len() as int), key@),
        decreases attrs@.len() - i,
    {
        let ghost suffix = es.subrange(i as int, es.len() as int);
        if attrs[i].0 == keys {
            proof {
                assert(suffix[0] == crate::cursor::entry_model(attrs@[i as int]));
            }
            return Option::Some(&attrs[i].1);
        }
        proof {
            assert(suffix[0] == crate::cursor::entry_model(attrs@[i as int]));
            assert(suffix.drop_first() =~= es.subrange(i as int + 1, es.len() as int));
        }
        i = i + 1;
    }
    Option::None
}

fn corrupt_row_message() -> String {
    String::from_str("corrupt stored row")
}

/// A string attribute under `key`, or `None`.
pub open spec fn str_attr(es: Seq<KeyEntryModel>, key: Seq<char>) -> Option<Seq<char>> {
    match attr_lookup(es, key) {
        Option::Some(AttrValueModel::S(v)) => Option::Some(v),
        _ => Option::None,
    }
}

/// A numeric attribute under `key`, or `None`.
pub open spec fn num_attr(es: Seq<KeyEntryModel>, key: Seq<char>) -> Option<Seq<char>> {
    match attr_lookup(es, key) {
        Option::Some(AttrValueModel::N(v)) => Option::Some(v),
        _ => Option::None,
    }
}

/// Reads the string attribute under `key`; anything else is a hard error.
fn get_str_attr(attrs: &AttrMap, key: &str) -> (r: AppResult<String>)
    ensures
        r is Ok <==> str_attr(entries_model(attrs@), key@) is Some,
        r matches Ok(v) ==> str_attr(entries_model(attrs@), key@) == Option::Some(v@),
        r matches Err(e) ==> e is Internal,
{
    match attr_get(attrs, key) {
        Option::Some(EncodableAttributeValue::S(v)) => Ok(v.clone()),
        Option::Some(EncodableAttributeValue::N(_)) => Err(
            AppError::Internal(corrupt_row_message()),
        ),
        Option::None => Err(AppError::Internal(corrupt_row_message())),
    }
}

/// Reads the numeric attribute under `key`; anything else is a hard error.
fn get_num_attr(attrs: &AttrMap, key: &str) -> (r: AppResult<String>)
    ensures
        r is Ok <==> num_attr(entries_model(attrs@), key@) is Some,
        r matches Ok(v) ==> num_attr(entries_model(attrs@), key@) == Option::Some(v@),
        r matches Err(e) ==> e is Internal,
{
    match attr_get(attrs, key) {
        Option::Some(EncodableAttributeValue::N(v)) => Ok(v.clone()),
        Option::Some(EncodableAttributeValue::S(_)) => Err(
            AppError::Internal(corrupt_row_message()),
        ),
        Option::None => Err(AppError::Internal(corrupt_row_message())),
    }
}

/// The work a stored attribute map denotes, if it is well-formed: the
/// three string attributes, the status a recognized wire name.
pub open spec fn work_from_attrs_spec(es: Seq<KeyEntryModel>) -> Option<WorkModel> {
    match (str_attr(es, "ID"@), str_attr(es, "VideoPath"@), str_attr(es, "Status"@)) {
        (Option::Some(id), Option::Some(video_path), Option::Some(status_name)) => {
            match WorkStatus::parse_name(status_name) {
                Option::Some(status) => Option::Some(WorkModel { id, video_path, status }),
                Option::None => Option::None,
            }
        },
        _ => Option::None,
    }
}

/// The attribute map a work is stored as.
pub open spec fn work_attrs_model(m: WorkModel) -> Seq<KeyEntryModel> {
    seq![
        KeyEntryModel { name: "ID"@, value: AttrValueModel::S(m.id) },
        KeyEntryModel { name: "VideoPath"@, value: AttrValueModel::S(m.video_path) },
        KeyEntryModel { name: "Status"@, value: AttrValueModel::S(m.status.spec_name()) },
    ]
}

/// Reads a work row; any malformation is a hard `Internal` error.
pub fn work_from_attrs(attrs: &AttrMap) -> (r: AppResult<Work>)
    ensures
        r is Ok <==> work_from_attrs_spec(entries_model(attrs@)) is Some,
        r matches Ok(w) ==> work_from_attrs_spec(entries_model(attrs@)) == Option::Some(
            w.model(),
        ),
        r matches Err(e) ==> e is Internal,
{
    let id = match get_str_attr(attrs, "ID") {
        Ok(v) => v,
        Err(e) => {
            return Err(e);
        },
    };
    let video_path = match get_str_attr(attrs, "VideoPath") {
        Ok(v) => v,
        Err(e) => {
            return Err(e);
        },
    };
    let status_name = match get_str_attr(attrs, "Status") {
        Ok(v) => v,
        Err(e) => {
            return Err(e);
        },
    };
    let status = match WorkStatus::from(status_name) {
        Ok(s) => s,
        Err(e) => {
            return Err(e);
        },
    };
    Ok(Work { id, video_path, status })
}

/// Writes a work row.
pub fn work_to_attrs(w: &Work) -> (r: AttrMap)
    ensures
        entries_model(r@) == work_attrs_model(w.model()),
{
    let mut r: AttrMap = Vec::new();
    r.push((String::from_str("ID"), EncodableAttributeValue::S(w.id.clone())));
    r.push((String::from_str("VideoPath"), EncodableAttributeValue::S(w.video_path.clone())));
    r.push((String::from_str("Status"), EncodableAttributeValue::S(w.status.name())));
    proof {
        assert(entries_model(r@) =~= work_attrs_model(w.model()));
    }
    r
}

/// A stored work row always reads back as the work it was written from.
pub proof fn lemma_work_attrs_round_trip(m: WorkModel)
    ensures
        work_from_attrs_spec(work_attrs_model(m)) == Some(m),
{
    reveal_strlit("ID");
    reveal_strlit("VideoPath");
    reveal_strlit("Status");
    let es = work_attrs_model(m);
    assert("ID"@.len() == 2 && "VideoPath"@.len() == 9 && "Status"@.len() == 6);
    let t1 = es.drop_first();
    let t2 = t1.drop_first();
    assert(t1[0] == es[1] && t1[1] == es[2] && t2[0] == es[2]);
    assert(t1.len() == 2 && t2.len() == 1);
    assert(attr_lookup(es, "ID"@) == Option::Some(AttrValueModel::S(m.id)));
    assert(attr_lookup(t1, "VideoPath"@) == Option::Some(AttrValueModel::S(m.video_path)));
    assert(attr_lookup(es, "VideoPath"@) == Option::Some(AttrValueModel::S(m.video_path)));
    assert(attr_lookup(t2, "Status"@) == Option::Some(AttrValueModel::S(m.status.spec_name())));
    assert(attr_lookup(t1, "Status"@) == Option::Some(AttrValueModel::S(m.status.spec_name())));
    assert(attr_lookup(es, "Status"@) == Option::Some(AttrValueModel::S(m.status.spec_name())));
    crate::domain::work::lemma_status_name_round_trip(m.status);
}

/// The user a stored attribute map denotes, if it is well-formed.
pub open spec fn user_from_attrs_spec(es: Seq<KeyEntryModel>) -> Option<
    (Seq<char>, Seq<char>, Seq<char>),
> {
    match (
        str_attr(es, "ID"@),
        str_attr(es, "WalletAddress"@),
        str_attr(es, "WalletSecret"@),
    ) {
        (Option::Some(id), Option::Some(address), Option::Some(secret)) => Option::Some(
            (id, address, secret),
        ),
        _ => Option::None,
    }
}

/// The attribute map a user is stored as.
pub open spec fn user_attrs_model(id: Seq<char>, address: Seq<char>, secret: Seq<char>) -> Seq<
    KeyEntryModel,
> {
    seq![
        KeyEntryModel { name: "ID"@, value: AttrValueModel::S(id) },
        KeyEntryModel { name: "WalletAddress"@, value: AttrValueModel::S(address) },
        KeyEntryModel { name: "WalletSecret"@, value: AttrValueModel::S(secret) },
    ]
}

/// Reads a user row; any malformation is a hard `Internal` error.
pub fn user_from_attrs(attrs: &AttrMap) -> (r: AppResult<User>)
    ensures
        r is Ok <==> user_from_attrs_spec(entries_model(attrs@)) is Some,
        r matches Ok(u) ==> user_from_attrs_spec(entries_model(attrs@)) == Option::Some(
            (u.id@, u.wallet_address@, u.wallet_secret@),
        ),
        r matches Err(e) ==> e is Internal,
{
    let id = match get_str_attr(attrs, "ID") {
        Ok(v) => v,
        Err(e) => {
            return Err(e);
        },
    };
    let wallet_address = match get_str_attr(attrs, "WalletAddress") {
        Ok(v) => v,
        Err(e) => {
            return Err(e);
        },
    };
    let wallet_secret = match get_str_attr(attrs, "WalletSecret") {
        Ok(v) => v,
        Err(e) => {
            return Err(e);
        },
    };
    Ok(User { id, wallet_address, wallet_secret })
}

/// Writes a user row.
pub fn user_to_attrs(u: &User) -> (r: AttrMap)
    ensures
        entries_model(r@) == user_attrs_model(u.id@, u.wallet_address@, u.wallet_secret@),
{
    let mut r: AttrMap = Vec::new();
    r.push((String::from_str("ID"), EncodableAttributeValue::S(u.id.clone())));
    r.push((
        String::from_str("WalletAddress"),
        EncodableAttributeValue::S(u.wallet_address.clone()),
    ));
    r.push((
        String::from_str("WalletSecret"),
        EncodableAttributeValue::S(u.wallet_secret.clone()),
    ));
    proof {
        assert(entries_model(r@) =~= user_attrs_model(u.id@, u.wallet_address@, u.wallet_secret@));
    }
    r
}

/// A stored user row always reads back as the user it was written from.
pub proof fn lemma_user_attrs_round_trip(id: Seq<char>, address: Seq<char>, secret: Seq<char>)
    ensures
        user_from_attrs_spec(user_attrs_model(id, address, secret)) == Some(
            (id, address, secret),
        ),
{
    reveal_strlit("ID");
    reveal_strlit("WalletAddress");
    reveal_strlit("WalletSecret");
    let es = user_attrs_model(id, address, secret);
    assert("ID"@.len() == 2 && "WalletAddress"@.len() == 13 && "WalletSecret"@.len() == 12);
    let t1 = es.drop_first();
    let t2 = t1.drop_first();
    assert(t1[0] == es[1] && t1[1] == es[2] && t2[0] == es[2]);
    assert(t1.len() == 2 && t2.len() == 1);
    assert(attr_lookup(es, "ID"@) == Option::Some(AttrValueModel::S(id)));
    assert(attr_lookup(t1, "WalletAddress"@) == Option::Some(AttrValueModel::S(address)));
    assert(attr_lookup(es, "WalletAddress"@) == Option::Some(AttrValueModel::S(address)));
    assert(attr_lookup(t2, "WalletSecret"@) == Option::Some(AttrValueModel::S(secret)));
    assert(attr_lookup(t1, "WalletSecret"@) == Option::Some(AttrValueModel::S(secret)));
    assert(attr_lookup(es, "WalletSecret"@) == Option::Some(AttrValueModel::S(secret)));
}

/// The thumbnail a stored attribute map denotes, if it is well-formed: the
/// order must be a readable count.
pub open spec fn thumbnail_from_attrs_spec(es: Seq<KeyEntryModel>) -> Option<ThumbnailModel> {
    match (
        str_attr(es, "ID"@),
        str_attr(es, "WorkID"@),
        str_attr(es, "ImagePath"@),
        num_attr(es, "Order"@),
    ) {
        (
            Option::Some(id),
            Option::Some(work_id),
            Option::Some(image_path),
            Option::Some(order_text),
        ) => {
            match parse_i32_spec(order_text) {
                Option::Some(order) => Option::Some(
                    ThumbnailModel { id, work_id, image_path, order },
                ),
                Option::None => Option::None,
            }
        },
        _ => Option::None,
    }
}

/// The attribute map a thumbnail is stored as.
pub open spec fn thumbnail_attrs_model(m: ThumbnailModel) -> Seq<KeyEntryModel> {
    seq![
        KeyEntryModel { name: "ID"@, value: AttrValueModel::S(m.id) },
        KeyEntryModel { name: "WorkID"@, value: AttrValueModel::S(m.work_id) },
        KeyEntryModel { name: "ImagePath"@, value: AttrValueModel::S(m.image_path) },
        KeyEntryModel { name: "Order"@, value: AttrValueModel::N(spell_i32_spec(m.order as int)) },
    ]
}

/// Reads a thumbnail row; any malformation is a hard `Internal` error.
pub fn thumbnail_from_attrs(attrs: &AttrMap) -> (r: AppResult<Thumbnail>)
    ensures
        r is Ok <==> thumbnail_from_attrs_spec(entries_model(attrs@)) is Some,
        r matches Ok(t) ==> thumbnail_from_attrs_spec(entries_model(attrs@)) == Option::Some(
            t.model(),
        ),
        r matches Err(e) ==> e is Internal,
{
    let id = match get_str_attr(attrs, "ID") {
        Ok(v) => v,
        Err(e) => {
            return Err(e);
        },
    };
    let work_id = match get_str_attr(attrs, "WorkID") {
        Ok(v) => v,
        Err(e) => {
            return Err(e);
        },
    };
    let image_path = match get_str_attr(attrs, "ImagePath") {
        Ok(v) => v,
        Err(e) => {
            return Err(e);
        },
    };
    let order_text = match get_num_attr(attrs, "Order") {
        Ok(v) => v,
        Err(e) => {
            return Err(e);
        },
    };
    let order = match parse_i32(&order_text) {
        Option::Some(v) => v,
        Option::None => {
            return Err(AppError::Internal(corrupt_row_message()));
        },
    };
    Ok(Thumbnail { id, work_id, image_path, order })
}

/// Writes a thumbnail row.
pub fn thumbnail_to_attrs(t: &Thumbnail) -> (r: AttrMap)
    ensures
        entries_model(r@) == thumbnail_attrs_model(t.model()),
{
    let mut r: AttrMap = Vec::new();
    r.push((String::from_str("ID"), EncodableAttributeValue::S(t.id.clone())));
    r.push((String::from_str("WorkID"), EncodableAttributeValue::S(t.work_id.clone())));
    r.push((String::from_str("ImagePath"), EncodableAttributeValue::S(t.image_path.clone())));
    r.push((String::from_str("Order"), EncodableAttributeValue::N(spell_i32(t.order))));
    proof {
        assert(entries_model(r@) =~= thumbnail_attrs_model(t.model()));
    }
    r
}

/// A stored thumbnail row always reads back as the thumbnail it was
/// written from.
pub proof fn lemma_thumbnail_attrs_round_trip(m: ThumbnailModel)
    ensures
        thumbnail_from_attrs_spec(thumbnail_attrs_model(m)) == Some(m),
{
    reveal_strlit("ID");
    reveal_strlit("WorkID");
    reveal_strlit("ImagePath");
    reveal_strlit("Order");
    let es = thumbnail_attrs_model(m);
    assert("ID"@.len() == 2 && "WorkID"@.len() == 6 && "ImagePath"@.len() == 9 && "Order"@.len()
        == 5);
    let t1 = es.drop_first();
    let t2 = t1.drop_first();
    let t3 = t2.drop_first();
    assert(t1[0] == es[1] && t1[1] == es[2] && t1[2] == es[3]);
    assert(t2[0] == es[2] && t2[1] == es[3] && t3[0] == es[3]);
    assert(t1.len() == 3 && t2.len() == 2 && t3.len() == 1);
    assert(attr_lookup(es, "ID"@) == Option::Some(AttrValueModel::S(m.id)));
    assert(attr_lookup(t1, "WorkID"@) == Option::Some(AttrValueModel::S(m.work_id)));
    assert(attr_lookup(es, "WorkID"@) == Option::Some(AttrValueModel::S(m.work_id)));
    assert(attr_lookup(t2, "ImagePath"@) == Option::Some(AttrValueModel::S(m.image_path)));
    assert(attr_lookup(t1, "ImagePath"@) == Option::Some(AttrValueModel::S(m.image_path)));
    assert(attr_lookup(es, "ImagePath"@) == Option::Some(AttrValueModel::S(m.image_path)));
    assert(attr_lookup(t3, "Order"@) == Option::Some(
        AttrValueModel::N(spell_i32_spec(m.order as int)),
    ));
    assert(attr_lookup(t2, "Order"@) == Option::Some(
        AttrValueModel::N(spell_i32_spec(m.order as int)),
    ));
    assert(attr_lookup(t1, "Order"@) == Option::Some(
        AttrValueModel::N(spell_i32_spec(m.order as int)),
    ));
    assert(attr_lookup(es, "Order"@) == Option::Some(
        AttrValueModel::N(spell_i32_spec(m.order as int)),
    ));
    crate::numtext::lemma_spell_parse_round_trip(m.order);
}


/// The asset row a stored attribute map denotes, if it is well-formed:
/// eight string attributes and the two price counters.
pub open spec fn asset_from_attrs_spec(es: Seq<KeyEntryModel>) -> Option<AssetModel> {
    match (
        str_attr(es, "WorkID"@),
        str_attr(es, "ContractAddress"@),
        str_attr(es, "TokenID"@),
        str_attr(es, "Name"@),
        str_attr(es, "Description"@),
        str_attr(es, "ImageURL"@),
        str_attr(es, "ImagePreviewURL"@),
        str_attr(es, "Permalink"@),
        num_attr(es, "UsdPrice"@),
        num_attr(es, "EthPrice"@),
    ) {
        (Option::Some(work_id), Option::Some(contract_address), Option::Some(token_id), Option::Some(name), Option::Some(description), Option::Some(image_url), Option::Some(image_preview_url), Option::Some(permalink), Option::Some(usd_price), Option::Some(eth_price)) => Option::Some(
            AssetModel { work_id, contract_address, token_id, name, description, image_url, image_preview_url, permalink, usd_price, eth_price },
        ),
        _ => Option::None,
    }
}

/// The attribute map an asset row is stored as.
pub open spec fn asset_attrs_model(m: AssetModel) -> Seq<KeyEntryModel> {
    seq![
        KeyEntryModel { name: "WorkID"@, value: AttrValueModel::S(m.work_id) },
        KeyEntryModel { name: "ContractAddress"@, value: AttrValueModel::S(m.contract_address) },
        KeyEntryModel { name: "TokenID"@, value: AttrValueModel::S(m.token_id) },
        KeyEntryModel { name: "Name"@, value: AttrValueModel::S(m.name) },
        KeyEntryModel { name: "Description"@, value: AttrValueModel::S(m.description) },
        KeyEntryModel { name: "ImageURL"@, value: AttrValueModel::S(m.image_url) },
        KeyEntryModel { name: "ImagePreviewURL"@, value: AttrValueModel::S(m.image_preview_url) },
        KeyEntryModel { name: "Permalink"@, value: AttrValueModel::S(m.permalink) },
        KeyEntryModel { name: "UsdPrice"@, value: AttrValueModel::N(m.usd_price) },
        KeyEntryModel { name: "EthPrice"@, value: AttrValueModel::N(m.eth_price) },
    ]
}

/// Reads an asset row; any malformation is a hard `Internal` error.
pub fn asset_from_attrs(attrs: &AttrMap) -> (r: AppResult<Asset>)
    ensures
        r is Ok <==> asset_from_attrs_spec(entries_model(attrs@)) is Some,
        r matches Ok(a) ==> asset_from_attrs_spec(entries_model(attrs@)) == Option::Some(
            a.model(),
        ),
        r matches Err(e) ==> e is Internal,
{
    let work_id = match get_str_attr(attrs, "WorkID") {
        Ok(v) => v,
        Err(e) => {
            return Err(e);
        },
    };
    let contract_address = match get_str_attr(attrs, "ContractAddress") {
        Ok(v) => v,
        Err(e) => {
            return Err(e);
        },
    };
    let token_id = match get_str_attr(attrs, "TokenID") {
        Ok(v) => v,
        Err(e) => {
            return Err(e);
        },
    };
    let name = match get_str_attr(attrs, "Name") {
        Ok(v) => v,
        Err(e) => {
            return Err(e);
        },
    };
    let description = match get_str_attr(attrs, "Description") {
        Ok(v) => v,
        Err(e) => {
            return Err(e);
        },
    };
    let image_url = match get_str_attr(attrs, "ImageURL") {
        Ok(v) => v,
        Err(e) => {
            return Err(e);
        },
    };
    let image_preview_url = match get_str_attr(attrs, "ImagePreviewURL") {
        Ok(v) => v,
        Err(e) => {
            return Err(e);
        },
    };
    let permalink = match get_str_attr(attrs, "Permalink") {
        Ok(v) => v,
        Err(e) => {
            return Err(e);
        },
    };
    let usd_price = match get_num_attr(attrs, "UsdPrice") {
        Ok(v) => v,
        Err(e) => {
            return Err(e);
        },
    };
    let eth_price = match get_num_attr(attrs, "EthPrice") {
        Ok(v) => v,
        Err(e) => {
            return Err(e);
        },
    };
    Ok(Asset { work_id, contract_address, token_id, name, description, image_url, image_preview_url, permalink, usd_price, eth_price })
}

/// Writes an asset row.
pub fn asset_to_attrs(a: &Asset) -> (r: AttrMap)
    ensures
        entries_model(r@) == asset_attrs_model(a.model()),
{
    let mut r: AttrMap = Vec::new();
    r.push((String::from_str("WorkID"), EncodableAttributeValue::S(a.work_id.clone())));
    r.push((String::from_str("ContractAddress"), EncodableAttributeValue::S(a.contract_address.clone())));
    r.push((String::from_str("TokenID"), EncodableAttributeValue::S(a.token_id.clone())));
    r.push((String::from_str("Name"), EncodableAttributeValue::S(a.name.clone())));
    r.push((String::from_str("Description"), EncodableAttributeValue::S(a.description.clone())));
    r.push((String::from_str("ImageURL"), EncodableAttributeValue::S(a.image_url.clone())));
    r.push((String::from_str("ImagePreviewURL"), EncodableAttributeValue::S(a.image_preview_url.clone())));
    r.push((String::from_str("Permalink"), EncodableAttributeValue::S(a.permalink.clone())));
    r.push((String::from_str("UsdPrice"), EncodableAttributeValue::N(a.usd_price.clone())));
    r.push((String::from_str("EthPrice"), EncodableAttributeValue::N(a.eth_price.clone())));
    proof {
        assert(entries_model(r@) =~= asset_attrs_model(a.model()));
    }
    r
}

/// A stored asset row always reads back as the row it was written from.
#[verifier::rlimit(50)]
pub proof fn lemma_asset_attrs_round_trip(m: AssetModel)
    ensures
        asset_from_attrs_spec(asset_attrs_model(m)) == Some(m),
{
    reveal_strlit("WorkID");
    reveal_strlit("ContractAddress");
    reveal_strlit("TokenID");
    reveal_strlit("Name");
    reveal_strlit("Description");
    reveal_strlit("ImageURL");
    reveal_strlit("ImagePreviewURL");
    reveal_strlit("Permalink");
    reveal_strlit("UsdPrice");
    reveal_strlit("EthPrice");
    let es = asset_attrs_model(m);
    assert("WorkID"@.len() == 6 && "ContractAddress"@.len() == 15 && "TokenID"@.len() == 7
        && "Name"@.len() == 4 && "Description"@.len() == 11 && "ImageURL"@.len() == 8
        && "ImagePreviewURL"@.len() == 15 && "Permalink"@.len() == 9 && "UsdPrice"@.len() == 8
        && "EthPrice"@.len() == 8);
    assert("ContractAddress"@[0] == 'C' && "ImagePreviewURL"@[0] == 'I' && "ImageURL"@[0] == 'I'
        && "UsdPrice"@[0] == 'U' && "EthPrice"@[0] == 'E');
    let t1 = es.drop_first();
    let t2 = t1.drop_first();
    let t3 = t2.drop_first();
    let t4 = t3.drop_first();
    let t5 = t4.drop_first();
    let t6 = t5.drop_first();
    let t7 = t6.drop_first();
    let t8 = t7.drop_first();
    let t9 = t8.drop_first();
    assert(t1[0] == es[1] && t1[1] == es[2] && t1[2] == es[3] && t1[3] == es[4] && t1[4] == es[5] && t1[5] == es[6] && t1[6] == es[7] && t1[7] == es[8] && t1[8] == es[9]);
    assert(t2[0] == es[2] && t2[1] == es[3] && t2[2] == es[4] && t2[3] == es[5] && t2[4] == es[6] && t2[5] == es[7] && t2[6] == es[8] && t2[7] == es[9]);
    assert(t3[0] == es[3] && t3[1] == es[4] && t3[2] == es[5] && t3[3] == es[6] && t3[4] == es[7] && t3[5] == es[8] && t3[6] == es[9]);
    assert(t4[0] == es[4] && t4[1] == es[5] && t4[2] == es[6] && t4[3] == es[7] && t4[4] == es[8] && t4[5] == es[9]);
    assert(t5[0] == es[5] && t5[1] == es[6] && t5[2] == es[7] && t5[3] == es[8] && t5[4] == es[9]);
    assert(t6[0] == es[6] && t6[1] == es[7] && t6[2] == es[8] && t6[3] == es[9]);
    assert(t7[0] == es[7] && t7[1] == es[8] && t7[2] == es[9]);
    assert(t8[0] == es[8] && t8[1] == es[9]);
    assert(t9[0] == es[9]);
    assert(t1.len() == 9 && t2.len() == 8 && t3.len() == 7 && t4.len() == 6 && t5.len() == 5 && t6.len() == 4 && t7.len() == 3 && t8.len() == 2 && t9.len() == 1);
    assert(attr_lookup(es, "WorkID"@) == Option::Some(AttrValueModel::S(m.work_id)));
    assert(attr_lookup(t1, "ContractAddress"@) == Option::Some(AttrValueModel::S(m.contract_address)));
    assert(attr_lookup(es, "ContractAddress"@) == Option::Some(AttrValueModel::S(m.contract_address)));
    assert(attr_lookup(t2, "TokenID"@) == Option::Some(AttrValueModel::S(m.token_id)));
    assert(attr_lookup(t1, "TokenID"@) == Option::Some(AttrValueModel::S(m.token_id)));
    assert(attr_lookup(es, "TokenID"@) == Option::Some(AttrValueModel::S(m.token_id)));
    assert(attr_lookup(t3, "Name"@) == Option::Some(AttrValueModel::S(m.name)));
    assert(attr_lookup(t2, "Name"@) == Option::Some(AttrValueModel::S(m.name)));
    assert(attr_lookup(t1, "Name"@) == Option::Some(AttrValueModel::S(m.name)));
    assert(attr_lookup(es, "Name"@) == Option::Some(AttrValueModel::S(m.name)));
    assert(attr_lookup(t4, "Description"@) == Option::Some(AttrValueModel::S(m.description)));
    assert(attr_lookup(t3, "Description"@) == Option::Some(AttrValueModel::S(m.description)));
    assert(attr_lookup(t2, "Description"@) == Option::Some(AttrValueModel::S(m.description)));
    assert(attr_lookup(t1, "Description"@) == Option::Some(AttrValueModel::S(m.description)));
    assert(attr_lookup(es, "Description"@) == Option::Some(AttrValueModel::S(m.description)));
    assert(attr_lookup(t5, "ImageURL"@) == Option::Some(AttrValueModel::S(m.image_url)));
    assert(attr_lookup(t4, "ImageURL"@) == Option::Some(AttrValueModel::S(m.image_url)));
    assert(attr_lookup(t3, "ImageURL"@) == Option::Some(AttrValueModel::S(m.image_url)));
    assert(attr_lookup(t2, "ImageURL"@) == Option::Some(AttrValueModel::S(m.image_url)));
    assert(attr_lookup(t1, "ImageURL"@) == Option::Some(AttrValueModel::S(m.image_url)));
    assert(attr_lookup(es, "ImageURL"@) == Option::Some(AttrValueModel::S(m.image_url)));
    assert(attr_lookup(t6, "ImagePreviewURL"@) == Option::Some(AttrValueModel::S(m.image_preview_url)));
    assert(attr_lookup(t5, "ImagePreviewURL"@) == Option::Some(AttrValueModel::S(m.image_preview_url)));
    assert(attr_lookup(t4, "ImagePreviewURL"@) == Option::Some(AttrValueModel::S(m.image_preview_url)));
    assert(attr_lookup(t3, "ImagePreviewURL"@) == Option::Some(AttrValueModel::S(m.image_preview_url)));
    assert(attr_lookup(t2, "ImagePreviewURL"@) == Option::Some(AttrValueModel::S(m.image_preview_url)));
    assert(attr_lookup(t1, "ImagePreviewURL"@) == Option::Some(AttrValueModel::S(m.image_preview_url)));
    assert(attr_lookup(es, "ImagePreviewURL"@) == Option::Some(AttrValueModel::S(m.image_preview_url)));
    assert(attr_lookup(t7, "Permalink"@) == Option::Some(AttrValueModel::S(m.permalink)));
    assert(attr_lookup(t6, "Permalink"@) == Option::Some(AttrValueModel::S(m.permalink)));
    assert(attr_lookup(t5, "Permalink"@) == Option::Some(AttrValueModel::S(m.permalink)));
    assert(attr_lookup(t4, "Permalink"@) == Option::Some(AttrValueModel::S(m.permalink)));
    assert(attr_lookup(t3, "Permalink"@) == Option::Some(AttrValueModel::S(m.permalink)));
    assert(attr_lookup(t2, "Permalink"@) == Option::Some(AttrValueModel::S(m.permalink)));
    assert(attr_lookup(t1, "Permalink"@) == Option::Some(AttrValueModel::S(m.permalink)));
    assert(attr_lookup(es, "Permalink"@) == Option::Some(AttrValueModel::S(m.permalink)));
    assert(attr_lookup(t8, "UsdPrice"@) == Option::Some(AttrValueModel::N(m.usd_price)));
    assert(attr_lookup(t7, "UsdPrice"@) == Option::Some(AttrValueModel::N(m.usd_price)));
    assert(attr_lookup(t6, "UsdPrice"@) == Option::Some(AttrValueModel::N(m.usd_price)));
    assert(attr_lookup(t5, "UsdPrice"@) == Option::Some(AttrValueModel::N(m.usd_price)));
    assert(attr_lookup(t4, "UsdPrice"@) == Option::Some(AttrValueModel::N(m.usd_price)));
    assert(attr_lookup(t3, "UsdPrice"@) == Option::Some(AttrValueModel::N(m.usd_price)));
    assert(attr_lookup(t2, "UsdPrice"@) == Option::Some(AttrValueModel::N(m.usd_price)));
    assert(attr_lookup(t1, "UsdPrice"@) == Option::Some(AttrValueModel::N(m.usd_price)));
    assert(attr_lookup(es, "UsdPrice"@) == Option::Some(AttrValueModel::N(m.usd_price)));
    assert(attr_lookup(t9, "EthPrice"@) == Option::Some(AttrValueModel::N(m.eth_price)));
    assert(attr_lookup(t8, "EthPrice"@) == Option::Some(AttrValueModel::N(m.eth_price)));
    assert(attr_lookup(t7, "EthPrice"@) == Option::Some(AttrValueModel::N(m.eth_price)));
    assert(attr_lookup(t6, "EthPrice"@) == Option::Some(AttrValueModel::N(m.eth_price)));
    assert(attr_lookup(t5, "EthPrice"@) == Option::Some(AttrValueModel::N(m.eth_price)));
    assert(attr_lookup(t4, "EthPrice"@) == Option::Some(AttrValueModel::N(m.eth_price)));
    assert(attr_lookup(t3, "EthPrice"@) == Option::Some(AttrValueModel::N(m.eth_price)));
    assert(attr_lookup(t2, "EthPrice"@) == Option::Some(AttrValueModel::N(m.eth_price)));
    assert(attr_lookup(t1, "EthPrice"@) == Option::Some(AttrValueModel::N(m.eth_price)));
    assert(attr_lookup(es, "EthPrice"@) == Option::Some(AttrValueModel::N(m.eth_price)));
}

} // verus!
