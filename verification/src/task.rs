//! The task envelope: typed, versioned messages handed from request
//! handling to background workers over the message bus. Each variant has a
//! stable numeric discriminant; the payload travels as length-framed UTF-8
//! fields. Decoding rejects an unknown discriminant outright — a silently
//! dropped task would leave a work stuck in `Prepare` with no operator
//! visibility.

use crate::bytesfmt::{blob, le8, le8_val, parse_blob, push_blob, push_le8, read_blob, read_le8, sub_vec};
use crate::errors::{AppError, AppResult};
use crate::strutf8::string_from_utf8;
use vstd::prelude::*;
use vstd::string::StrSliceExecFns;
use vstd::string::StringExecFns;
use vstd::string::StringSliceAdditionalSpecFns;
use vstd::utf8::{decode_utf8, encode_utf8, valid_utf8};

verus! {

#[derive(Debug)]
pub struct CreateWorkPayload {
    pub executor_id: String,
    pub prefix: String,
    pub file_name: String,
}

#[derive(Debug)]
pub struct CreateThumbnailPayload {
    pub executor_id: String,
    pub prefix: String,
    pub file_name: String,
}

#[derive(Debug)]
pub struct MintNft721Payload {
    pub executor_id: String,
    pub work_id: String,
    pub ipfs_hash: String,
    pub s3_key: String,
}

#[derive(Debug)]
pub struct MintNft1155Payload {
    pub executor_id: String,
    pub work_id: String,
    pub amount: u32,
    pub ipfs_hash: String,
    pub s3_key: String,
}

/// A unit of asynchronous work on its way to a background worker.
#[derive(Debug)]
pub enum Task {
    CreateWork(CreateWorkPayload),
    CreateThumbnail(CreateThumbnailPayload),
    MintNFT721(MintNft721Payload),
    MintNFT1155(MintNft1155Payload),
}

/// The mathematical shape of a task.
pub enum TaskModel {
    CreateWork { executor_id: Seq<char>, prefix: Seq<char>, file_name: Seq<char> },
    CreateThumbnail { executor_id: Seq<char>, prefix: Seq<char>, file_name: Seq<char> },
    MintNFT721 { executor_id: Seq<char>, work_id: Seq<char>, ipfs_hash: Seq<char>, s3_key: Seq<char> },
    MintNFT1155 {
        executor_id: Seq<char>,
        work_id: Seq<char>,
        amount: u32,
        ipfs_hash: Seq<char>,
        s3_key: Seq<char>,
    },
}

/// A length-framed UTF-8 field.
pub open spec fn str_blob(s: Seq<char>) -> Seq<u8> {
    blob(encode_utf8(s))
}

/// The stable discriminant of each variant.
pub open spec fn subject_of(t: TaskModel) -> i32 {
    match t {
        TaskModel::CreateWork { .. } => 1,
        TaskModel::CreateThumbnail { .. } => 2,
        TaskModel::MintNFT721 { .. } => 3,
        TaskModel::MintNFT1155 { .. } => 4,
    }
}

/// The payload bytes of a task: its fields, one frame after the other, the
/// amount as a little-endian count.
pub open spec fn payload_bytes(t: TaskModel) -> Seq<u8> {
    match t {
        TaskModel::CreateWork { executor_id, prefix, file_name } => str_blob(executor_id)
            + str_blob(prefix) + str_blob(file_name),
        TaskModel::CreateThumbnail { executor_id, prefix, file_name } => str_blob(executor_id)
            + str_blob(prefix) + str_blob(file_name),
        TaskModel::MintNFT721 { executor_id, work_id, ipfs_hash, s3_key } => str_blob(executor_id)
            + str_blob(work_id) + str_blob(ipfs_hash) + str_blob(s3_key),
        TaskModel::MintNFT1155 { executor_id, work_id, amount, ipfs_hash, s3_key } => str_blob(
            executor_id,
        ) + str_blob(work_id) + le8(amount as u64) + str_blob(ipfs_hash) + str_blob(s3_key),
    }
}

/// Reads one framed UTF-8 field off the front of `b`.
pub open spec fn parse_str_field(b: Seq<u8>) -> Option<(Seq<char>, int)> {
    match parse_blob(b) {
        Option::None => Option::None,
        Option::Some((d, n)) => {
            if valid_utf8(d) {
                Option::Some((decode_utf8(d), n))
            } else {
                Option::None
            }
        },
    }
}

/// Reads the framed UTF-8 field at offset `i` of `b`; on success, the field
/// and the offset just past it.
pub open spec fn str_field_at(b: Seq<u8>, i: int) -> Option<(Seq<char>, int)>
    recommends
        0 <= i <= b.len(),
{
    match parse_str_field(b.subrange(i, b.len() as int)) {
        Option::None => Option::None,
        Option::Some((s, n)) => Option::Some((s, i + n)),
    }
}

/// Reads the little-endian count at offset `i` of `b`; it must fit the
/// amount's 32 bits.
pub open spec fn amount_field_at(b: Seq<u8>, i: int) -> Option<(u32, int)>
    recommends
        0 <= i <= b.len(),
{
    if i + 8 <= b.len() {
        let v = le8_val(b.subrange(i, i + 8));
        if v <= u32::MAX {
            Option::Some((v as u32, i + 8))
        } else {
            Option::None
        }
    } else {
        Option::None
    }
}

/// Three framed fields filling `b` exactly.
pub open spec fn parse_three_fields(b: Seq<u8>) -> Option<(Seq<char>, Seq<char>, Seq<char>)> {
    match str_field_at(b, 0) {
        Option::None => Option::None,
        Option::Some((x, i1)) => match str_field_at(b, i1) {
            Option::None => Option::None,
            Option::Some((y, i2)) => match str_field_at(b, i2) {
                Option::None => Option::None,
                Option::Some((z, i3)) => if i3 == b.len() {
                    Option::Some((x, y, z))
                } else {
                    Option::None
                },
            },
        },
    }
}

/// Four framed fields filling `b` exactly.
pub open spec fn parse_four_fields(b: Seq<u8>) -> Option<
    (Seq<char>, Seq<char>, Seq<char>, Seq<char>),
> {
    match str_field_at(b, 0) {
        Option::None => Option::None,
        Option::Some((x, i1)) => match str_field_at(b, i1) {
            Option::None => Option::None,
            Option::Some((y, i2)) => match str_field_at(b, i2) {
                Option::None => Option::None,
                Option::Some((z, i3)) => match str_field_at(b, i3) {
                    Option::None => Option::None,
                    Option::Some((w, i4)) => if i4 == b.len() {
                        Option::Some((x, y, z, w))
                    } else {
                        Option::None
                    },
                },
            },
        },
    }
}

/// The five fields of a batch-mint payload filling `b` exactly: two framed
/// fields, the amount, two framed fields.
pub open spec fn parse_mint1155_fields(b: Seq<u8>) -> Option<
    (Seq<char>, Seq<char>, u32, Seq<char>, Seq<char>),
> {
    match str_field_at(b, 0) {
        Option::None => Option::None,
        Option::Some((x, i1)) => match str_field_at(b, i1) {
            Option::None => Option::None,
            Option::Some((y, i2)) => match amount_field_at(b, i2) {
                Option::None => Option::None,
                Option::Some((am, i3)) => match str_field_at(b, i3) {
                    Option::None => Option::None,
                    Option::Some((z, i4)) => match str_field_at(b, i4) {
                        Option::None => Option::None,
                        Option::Some((w, i5)) => if i5 == b.len() {
                            Option::Some((x, y, am, z, w))
                        } else {
                            Option::None
                        },
                    },
                },
            },
        },
    }
}

/// Decoding a payload under a discriminant: the variant's fields in order,
/// with nothing left over; any other shape, and any unregistered
/// discriminant, fails.
pub open spec fn parse_task(subject: i32, b: Seq<u8>) -> Option<TaskModel> {
    if subject == 1 {
        match parse_three_fields(b) {
            Option::None => Option::None,
            Option::Some((executor_id, prefix, file_name)) => Option::Some(
                TaskModel::CreateWork { executor_id, prefix, file_name },
            ),
        }
    } else if subject == 2 {
        match parse_three_fields(b) {
            Option::None => Option::None,
            Option::Some((executor_id, prefix, file_name)) => Option::Some(
                TaskModel::CreateThumbnail { executor_id, prefix, file_name },
            ),
        }
    } else if subject == 3 {
        match parse_four_fields(b) {
            Option::None => Option::None,
            Option::Some((executor_id, work_id, ipfs_hash, s3_key)) => Option::Some(
                TaskModel::MintNFT721 { executor_id, work_id, ipfs_hash, s3_key },
            ),
        }
    } else if subject == 4 {
        match parse_mint1155_fields(b) {
            Option::None => Option::None,
            Option::Some((executor_id, work_id, amount, ipfs_hash, s3_key)) => Option::Some(
                TaskModel::MintNFT1155 { executor_id, work_id, amount, ipfs_hash, s3_key },
            ),
        }
    } else {
        Option::None
    }
}

/// Every text field of the task fits an eight-byte length frame.
pub open spec fn task_wf(t: TaskModel) -> bool {
    match t {
        TaskModel::CreateWork { executor_id, prefix, file_name } => encode_utf8(
            executor_id,
        ).len() < 0x1_0000_0000_0000_0000 && encode_utf8(prefix).len() < 0x1_0000_0000_0000_0000
            && encode_utf8(file_name).len() < 0x1_0000_0000_0000_0000,
        TaskModel::CreateThumbnail { executor_id, prefix, file_name } => encode_utf8(
            executor_id,
        ).len() < 0x1_0000_0000_0000_0000 && encode_utf8(prefix).len() < 0x1_0000_0000_0000_0000
            && encode_utf8(file_name).len() < 0x1_0000_0000_0000_0000,
        TaskModel::MintNFT721 { executor_id, work_id, ipfs_hash, s3_key } => encode_utf8(
            executor_id,
        ).len() < 0x1_0000_0000_0000_0000 && encode_utf8(work_id).len() < 0x1_0000_0000_0000_0000
            && encode_utf8(ipfs_hash).len() < 0x1_0000_0000_0000_0000 && encode_utf8(
            s3_key,
        ).len() < 0x1_0000_0000_0000_0000,
        TaskModel::MintNFT1155 { executor_id, work_id, amount: _, ipfs_hash, s3_key } => encode_utf8(
            executor_id,
        ).len() < 0x1_0000_0000_0000_0000 && encode_utf8(work_id).len() < 0x1_0000_0000_0000_0000
            && encode_utf8(ipfs_hash).len() < 0x1_0000_0000_0000_0000 && encode_utf8(
            s3_key,
        ).len() < 0x1_0000_0000_0000_0000,
    }
}

#[verifier::rlimit(50)]
proof fn lemma_parse_str_field_round_trip(s: Seq<char>, rest: Seq<u8>)
    requires
        encode_utf8(s).len() < 0x1_0000_0000_0000_0000,
    ensures
        parse_str_field(str_blob(s) + rest) matches Some(p) && p.0 == s && p.1 == str_blob(
            s,
        ).len(),
{
    let sb = encode_utf8(s);
    crate::bytesfmt::lemma_parse_blob_round_trip(sb, rest);
    vstd::utf8::encode_utf8_valid_utf8(s);
    vstd::utf8::encode_utf8_decode_utf8(s);
}

proof fn lemma_amount_field_at_round_trip(b: Seq<u8>, i: int, amount: u32, rest: Seq<u8>)
    requires
        0 <= i <= b.len(),
        b.subrange(i, b.len() as int) == le8(amount as u64) + rest,
    ensures
        amount_field_at(b, i) == Some((amount, i + 8)),
{
    let tail = b.subrange(i, b.len() as int);
    assert(tail.len() == 8 + rest.len());
    assert(i + 8 <= b.len());
    assert(b.subrange(i, i + 8) =~= tail.subrange(0, 8));
    assert(tail.subrange(0, 8) =~= le8(amount as u64));
    crate::bytesfmt::lemma_le8_round_trip(amount as u64);
}

proof fn lemma_parse_three_round_trip(a: Seq<char>, b: Seq<char>, c: Seq<char>)
    requires
        encode_utf8(a).len() < 0x1_0000_0000_0000_0000,
        encode_utf8(b).len() < 0x1_0000_0000_0000_0000,
        encode_utf8(c).len() < 0x1_0000_0000_0000_0000,
    ensures
        parse_three_fields(str_blob(a) + str_blob(b) + str_blob(c)) == Some((a, b, c)),
{
    let w = str_blob(a) + str_blob(b) + str_blob(c);
    let la = str_blob(a).len() as int;
    let lb = str_blob(b).len() as int;
    let lc = str_blob(c).len() as int;
    assert(w.subrange(0, w.len() as int) =~= str_blob(a) + (str_blob(b) + str_blob(c)));
    lemma_parse_str_field_round_trip(a, str_blob(b) + str_blob(c));
    assert(str_field_at(w, 0) == Some((a, la)));
    assert(w.subrange(la, w.len() as int) =~= str_blob(b) + str_blob(c));
    lemma_parse_str_field_round_trip(b, str_blob(c));
    assert(str_field_at(w, la) == Some((b, la + lb)));
    assert(w.subrange(la + lb, w.len() as int) =~= str_blob(c) + Seq::<u8>::empty());
    lemma_parse_str_field_round_trip(c, Seq::<u8>::empty());
    assert(str_field_at(w, la + lb) == Some((c, la + lb + lc)));
}

proof fn lemma_parse_four_round_trip(a: Seq<char>, b: Seq<char>, c: Seq<char>, d: Seq<char>)
    requires
        encode_utf8(a).len() < 0x1_0000_0000_0000_0000,
        encode_utf8(b).len() < 0x1_0000_0000_0000_0000,
        encode_utf8(c).len() < 0x1_0000_0000_0000_0000,
        encode_utf8(d).len() < 0x1_0000_0000_0000_0000,
    ensures
        parse_four_fields(str_blob(a) + str_blob(b) + str_blob(c) + str_blob(d)) == Some(
            (a, b, c, d),
        ),
{
    let w = str_blob(a) + str_blob(b) + str_blob(c) + str_blob(d);
    let la = str_blob(a).len() as int;
    let lb = str_blob(b).len() as int;
    let lc = str_blob(c).len() as int;
    let ld = str_blob(d).len() as int;
    assert(w.subrange(0, w.len() as int) =~= str_blob(a) + (str_blob(b) + str_blob(c) + str_blob(
        d,
    )));
    lemma_parse_str_field_round_trip(a, str_blob(b) + str_blob(c) + str_blob(d));
    assert(str_field_at(w, 0) == Some((a, la)));
    assert(w.subrange(la, w.len() as int) =~= str_blob(b) + (str_blob(c) + str_blob(d)));
    lemma_parse_str_field_round_trip(b, str_blob(c) + str_blob(d));
    assert(str_field_at(w, la) == Some((b, la + lb)));
    assert(w.subrange(la + lb, w.len() as int) =~= str_blob(c) + str_blob(d));
    lemma_parse_str_field_round_trip(c, str_blob(d));
    assert(str_field_at(w, la + lb) == Some((c, la + lb + lc)));
    assert(w.subrange(la + lb + lc, w.len() as int) =~= str_blob(d) + Seq::<u8>::empty());
    lemma_parse_str_field_round_trip(d, Seq::<u8>::empty());
    assert(str_field_at(w, la + lb + lc) == Some((d, la + lb + lc + ld)));
}

#[verifier::rlimit(50)]
proof fn lemma_parse_mint1155_round_trip(
    a: Seq<char>,
    b: Seq<char>,
    amount: u32,
    c: Seq<char>,
    d: Seq<char>,
)
    requires
        encode_utf8(a).len() < 0x1_0000_0000_0000_0000,
        encode_utf8(b).len() < 0x1_0000_0000_0000_0000,
        encode_utf8(c).len() < 0x1_0000_0000_0000_0000,
        encode_utf8(d).len() < 0x1_0000_0000_0000_0000,
    ensures
        parse_mint1155_fields(
            str_blob(a) + str_blob(b) + le8(amount as u64) + str_blob(c) + str_blob(d),
        ) == Some((a, b, amount, c, d)),
{
    let w = str_blob(a) + str_blob(b) + le8(amount as u64) + str_blob(c) + str_blob(d);
    let la = str_blob(a).len() as int;
    let lb = str_blob(b).len() as int;
    let lc = str_blob(c).len() as int;
    let ld = str_blob(d).len() as int;
    assert(w.subrange(0, w.len() as int) =~= str_blob(a) + (str_blob(b) + le8(amount as u64)
        + str_blob(c) + str_blob(d)));
    lemma_parse_str_field_round_trip(a, str_blob(b) + le8(amount as u64) + str_blob(c) + str_blob(
        d,
    ));
    assert(str_field_at(w, 0) == Some((a, la)));
    assert(w.subrange(la, w.len() as int) =~= str_blob(b) + (le8(amount as u64) + str_blob(c)
        + str_blob(d)));
    lemma_parse_str_field_round_trip(b, le8(amount as u64) + str_blob(c) + str_blob(d));
    assert(str_field_at(w, la) == Some((b, la + lb)));
    assert(w.subrange(la + lb, w.len() as int) =~= le8(amount as u64) + (str_blob(c) + str_blob(
        d,
    )));
    lemma_amount_field_at_round_trip(w, la + lb, amount, str_blob(c) + str_blob(d));
    assert(w.subrange(la + lb + 8, w.len() as int) =~= str_blob(c) + str_blob(d));
    lemma_parse_str_field_round_trip(c, str_blob(d));
    assert(str_field_at(w, la + lb + 8) == Some((c, la + lb + 8 + lc)));
    assert(w.subrange(la + lb + 8 + lc, w.len() as int) =~= str_blob(d) + Seq::<u8>::empty());
    lemma_parse_str_field_round_trip(d, Seq::<u8>::empty());
    assert(str_field_at(w, la + lb + 8 + lc) == Some((d, la + lb + 8 + lc + ld)));
}

/// Re-decoding an encoded task, under its own discriminant, yields the task
/// back: `from_wire(to_wire(t)) == t`. Together with the contracts of
/// `Task::message`, `Task::subject_number` and `Task::from_sns` this is the
/// wire round trip; `from_sns` itself states that an unregistered
/// discriminant always fails.
pub proof fn lemma_task_wire_round_trip(t: TaskModel)
    requires
        task_wf(t),
    ensures
        parse_task(subject_of(t), payload_bytes(t)) == Some(t),
{
    match t {
        TaskModel::CreateWork { executor_id, prefix, file_name } => {
            lemma_parse_three_round_trip(executor_id, prefix, file_name);
        },
        TaskModel::CreateThumbnail { executor_id, prefix, file_name } => {
            lemma_parse_three_round_trip(executor_id, prefix, file_name);
        },
        TaskModel::MintNFT721 { executor_id, work_id, ipfs_hash, s3_key } => {
            lemma_parse_four_round_trip(executor_id, work_id, ipfs_hash, s3_key);
        },
        TaskModel::MintNFT1155 { executor_id, work_id, amount, ipfs_hash, s3_key } => {
            lemma_parse_mint1155_round_trip(executor_id, work_id, amount, ipfs_hash, s3_key);
        },
    }
}

impl Task {
    /// The task as a mathematical value.
    pub open spec fn model(self) -> TaskModel {
        match self {
            Task::CreateWork(p) => TaskModel::CreateWork {
                executor_id: p.executor_id@,
                prefix: p.prefix@,
                file_name: p.file_name@,
            },
            Task::CreateThumbnail(p) => TaskModel::CreateThumbnail {
                executor_id: p.executor_id@,
                prefix: p.prefix@,
                file_name: p.file_name@,
            },
            Task::MintNFT721(p) => TaskModel::MintNFT721 {
                executor_id: p.executor_id@,
                work_id: p.work_id@,
                ipfs_hash: p.ipfs_hash@,
                s3_key: p.s3_key@,
            },
            Task::MintNFT1155(p) => TaskModel::MintNFT1155 {
                executor_id: p.executor_id@,
                work_id: p.work_id@,
                amount: p.amount,
                ipfs_hash: p.ipfs_hash@,
                s3_key: p.s3_key@,
            },
        }
    }

    /// The stable discriminant that rides as the bus subject.
    pub fn subject_number(&self) -> (r: i32)
        ensures
            r == subject_of(self.model()),
    {
        match self {
            Task::CreateWork(_) => 1,
            Task::CreateThumbnail(_) => 2,
            Task::MintNFT721(_) => 3,
            Task::MintNFT1155(_) => 4,
        }
    }

    /// The payload bytes that ride as the bus message.
    pub fn message(&self) -> (r: Vec<u8>)
        ensures
            r@ == payload_bytes(self.model()),
    {
        let mut out: Vec<u8> = Vec::new();
        match self {
            Task::CreateWork(p) => {
                push_str_field(&mut out, &p.executor_id);
                push_str_field(&mut out, &p.prefix);
                push_str_field(&mut out, &p.file_name);
                assert(out@ =~= payload_bytes(self.model()));
            },
            Task::CreateThumbnail(p) => {
                push_str_field(&mut out, &p.executor_id);
                push_str_field(&mut out, &p.prefix);
                push_str_field(&mut out, &p.file_name);
                assert(out@ =~= payload_bytes(self.model()));
            },
            Task::MintNFT721(p) => {
                push_str_field(&mut out, &p.executor_id);
                push_str_field(&mut out, &p.work_id);
                push_str_field(&mut out, &p.ipfs_hash);
                push_str_field(&mut out, &p.s3_key);
                assert(out@ =~= payload_bytes(self.model()));
            },
            Task::MintNFT1155(p) => {
                push_str_field(&mut out, &p.executor_id);
                push_str_field(&mut out, &p.work_id);
                push_le8(&mut out, p.amount as u64);
                push_str_field(&mut out, &p.ipfs_hash);
                push_str_field(&mut out, &p.s3_key);
                assert(out@ =~= payload_bytes(self.model()));
            },
        }
        out
    }

    /// The bus topic every task is published to.
    pub fn topic_arn(&self) -> (r: String)
        ensures
            r@ == "arn:aws:sns:ap-northeast-1:326914400610:canvas-nft-topic"@,
    {
        String::from_str("arn:aws:sns:ap-northeast-1:326914400610:canvas-nft-topic")
    }

    /// Decodes a delivered bus message. The decode succeeds exactly when the
    /// discriminant is registered and the payload has that variant's shape;
    /// in particular an unknown discriminant is always an error, never a
    /// default variant.
    pub fn from_sns(raw_number: i32, raw_message: Vec<u8>) -> (r: AppResult<Task>)
        ensures
            r matches Ok(task) ==> parse_task(raw_number, raw_message@) == Some(task.model()),
            r is Ok <==> parse_task(raw_number, raw_message@) is Some,
            r matches Err(e) ==> e is BadRequest,
            !(1 <= raw_number <= 4) ==> r is Err,
    {
        let b = &raw_message;
        if raw_number == 1 || raw_number == 2 {
            let (executor_id, prefix, file_name) = match read_three_strings(b) {
                Option::Some(t) => t,
                Option::None => {
                    return Err(AppError::BadRequest(unknown_task_message()));
                },
            };
            if raw_number == 1 {
                Ok(Task::CreateWork(CreateWorkPayload { executor_id, prefix, file_name }))
            } else {
                Ok(
                    Task::CreateThumbnail(
                        CreateThumbnailPayload { executor_id, prefix, file_name },
                    ),
                )
            }
        } else if raw_number == 3 {
            let (executor_id, work_id, ipfs_hash, s3_key) = match read_four_strings(b) {
                Option::Some(t) => t,
                Option::None => {
                    return Err(AppError::BadRequest(unknown_task_message()));
                },
            };
            Ok(Task::MintNFT721(MintNft721Payload { executor_id, work_id, ipfs_hash, s3_key }))
        } else if raw_number == 4 {
            let (executor_id, work_id, amount, ipfs_hash, s3_key) = match read_mint1155_fields(b) {
                Option::Some(t) => t,
                Option::None => {
                    return Err(AppError::BadRequest(unknown_task_message()));
                },
            };
            Ok(
                Task::MintNFT1155(
                    MintNft1155Payload { executor_id, work_id, amount, ipfs_hash, s3_key },
                ),
            )
        } else {
            Err(AppError::BadRequest(unknown_task_message()))
        }
    }
}

fn unknown_task_message() -> String {
    String::from_str("unknown task")
}

/// Appends one framed UTF-8 field.
fn push_str_field(out: &mut Vec<u8>, s: &String)
    ensures
        final(out)@ == old(out)@ + str_blob(s@),
{
    let bytes = s.as_str().as_bytes_vec();
    push_blob(out, &bytes);
}

/// Reads the framed UTF-8 field at offset `i` of `b`, as `str_field_at`
/// does.
fn read_str_field(b: &Vec<u8>, i: usize) -> (r: Option<(String, usize)>)
    requires
        i <= b@.len(),
    ensures
        match r {
            Option::Some((s, next)) => str_field_at(b@, i as int) == Some((s@, next as int))
                && i <= next <= b@.len(),
            Option::None => str_field_at(b@, i as int) is None,
        },
{
    let (start, end) = match read_blob(b, i) {
        Option::Some(p) => p,
        Option::None => {
            return Option::None;
        },
    };
    let data = sub_vec(b, start, end);
    match string_from_utf8(data) {
        Option::Some(s) => Option::Some((s, end)),
        Option::None => Option::None,
    }
}

/// Reads the little-endian amount at offset `i` of `b`, as `amount_field_at`
/// does.
fn read_amount_field(b: &Vec<u8>, i: usize) -> (r: Option<(u32, usize)>)
    requires
        i <= b@.len(),
    ensures
        match r {
            Option::Some((am, next)) => amount_field_at(b@, i as int) == Some((am, next as int))
                && i <= next <= b@.len(),
            Option::None => amount_field_at(b@, i as int) is None,
        },
{
    let n = b.len();
    if n - i < 8 {
        return Option::None;
    }
    let v = read_le8(b, i);
    if v > u32::MAX as u64 {
        return Option::None;
    }
    Option::Some((v as u32, i + 8))
}

fn read_three_strings(b: &Vec<u8>) -> (r: Option<(String, String, String)>)
    ensures
        match r {
            Option::Some((x, y, z)) => parse_three_fields(b@) == Some((x@, y@, z@)),
            Option::None => parse_three_fields(b@) is None,
        },
{
    let n = b.len();
    let (x, i1) = match read_str_field(b, 0) {
        Option::Some(p) => p,
        Option::None => {
            return Option::None;
        },
    };
    let (y, i2) = match read_str_field(b, i1) {
        Option::Some(p) => p,
        Option::None => {
            return Option::None;
        },
    };
    let (z, i3) = match read_str_field(b, i2) {
        Option::Some(p) => p,
        Option::None => {
            return Option::None;
        },
    };
    if i3 != n {
        return Option::None;
    }
    Option::Some((x, y, z))
}

fn read_four_strings(b: &Vec<u8>) -> (r: Option<(String, String, String, String)>)
    ensures
        match r {
            Option::Some((x, y, z, w)) => parse_four_fields(b@) == Some((x@, y@, z@, w@)),
            Option::None => parse_four_fields(b@) is None,
        },
{
    let n = b.len();
    let (x, i1) = match read_str_field(b, 0) {
        Option::Some(p) => p,
        Option::None => {
            return Option::None;
        },
    };
    let (y, i2) = match read_str_field(b, i1) {
        Option::Some(p) => p,
        Option::None => {
            return Option::None;
        },
    };
    let (z, i3) = match read_str_field(b, i2) {
        Option::Some(p) => p,
        Option::None => {
            return Option::None;
        },
    };
    let (w, i4) = match read_str_field(b, i3) {
        Option::Some(p) => p,
        Option::None => {
            return Option::None;
        },
    };
    if i4 != n {
        return Option::None;
    }
    Option::Some((x, y, z, w))
}

fn read_mint1155_fields(b: &Vec<u8>) -> (r: Option<(String, String, u32, String, String)>)
    ensures
        match r {
            Option::Some((x, y, am, z, w)) => parse_mint1155_fields(b@) == Some(
                (x@, y@, am, z@, w@),
            ),
            Option::None => parse_mint1155_fields(b@) is None,
        },
{
    let n = b.len();
    let (x, i1) = match read_str_field(b, 0) {
        Option::Some(p) => p,
        Option::None => {
            return Option::None;
        },
    };
    let (y, i2) = match read_str_field(b, i1) {
        Option::Some(p) => p,
        Option::None => {
            return Option::None;
        },
    };
    let (am, i3) = match read_amount_field(b, i2) {
        Option::Some(p) => p,
        Option::None => {
            return Option::None;
        },
    };
    let (z, i4) = match read_str_field(b, i3) {
        Option::Some(p) => p,
        Option::None => {
            return Option::None;
        },
    };
    let (w, i5) = match read_str_field(b, i4) {
        Option::Some(p) => p,
        Option::None => {
            return Option::None;
        },
    };
    if i5 != n {
        return Option::None;
    }
    Option::Some((x, y, am, z, w))
}

} // verus!
