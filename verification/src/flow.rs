use bytes::Bytes;
use vstd::prelude::*;
use vstd::string::StringExecFns;

use crate::reply::{bad_request, internal, Reply};
use crate::upload::{disk_write_failed, sanitize_filename, spec_sanitize_filename, ChunkInfo};

verus! {

broadcast use vstd::string::group_string_axioms;

/// Where an upload request stands: the outside work it waits for.
#[derive(Clone, Copy, Debug, PartialEq, Eq, Structural)]
pub enum UploadStage {
    /// Nothing done yet.
    Start,
    /// Waiting to learn whether the final file already exists.
    AwaitFinalExists,
    /// Waiting to learn whether a stale partial upload exists.
    AwaitStaleExists,
    /// Waiting for the stale partial upload to be removed.
    AwaitStaleRemoval,
    /// Waiting for the free space of the upload directory.
    AwaitFreeSpace,
    /// Waiting for the chunk to be appended to the partial upload.
    AwaitWrite,
    /// Waiting for the size of the partial upload.
    AwaitSize,
    /// Waiting for the partial upload to be discarded.
    AwaitDiscard,
    /// Waiting for the partial upload to be renamed to the final name.
    AwaitRename,
    /// The answer has been given.
    Finished,
}

/// What the outside work reports back.
#[derive(Clone, Copy, Debug, PartialEq, Eq, Structural)]
pub enum UploadEvent {
    /// The request is to be handled.
    Begin,
    /// Whether the final file exists.
    FinalExists(bool),
    /// Whether a partial upload of the same name exists.
    StaleExists(bool),
    /// Whether removing the stale partial upload succeeded.
    StaleRemoved(bool),
    /// The free bytes of the upload directory, `None` when they could not be learnt.
    FreeSpace(Option<u64>),
    /// Whether appending the chunk succeeded.
    Written(bool),
    /// The size of the partial upload, `None` when it could not be learnt.
    Size(Option<u64>),
    /// The partial upload was removed (or removing it failed; either way).
    Discarded,
    /// Whether renaming the partial upload to the final name succeeded.
    Renamed(bool),
}

/// The outside work to do next, or the answer.
#[derive(Clone, Copy, Debug, PartialEq, Eq)]
pub enum UploadAction {
    /// Report whether the final file exists.
    CheckFinalExists,
    /// Report whether the partial upload exists.
    CheckStaleExists,
    /// Remove the partial upload and report success.
    RemoveStale,
    /// Report the free bytes of the upload directory.
    QueryFreeSpace,
    /// Append the chunk to the partial upload (creating it) and report success.
    WriteChunk,
    /// Report the size of the partial upload.
    StatUpload,
    /// Remove the partial upload.
    DiscardUpload,
    /// Rename the partial upload to the final name and report success.
    Rename,
    /// Answer the request.
    Respond(Reply),
}

/// The facts of a request that the decisions depend on.
pub struct FlowFacts {
    /// The sanitized file name is empty.
    pub name_empty: bool,
    /// This is chunk 0.
    pub first_chunk: bool,
    /// This is the last chunk.
    pub last_chunk: bool,
    /// The announced size of the final file.
    pub total_file_size: u64,
}

/// Chunk `index` is the last of `count` chunks: `index + 1 == count`, the
/// sum taken modulo 2^64 as the server's release build computes it.
pub open spec fn spec_is_last_chunk(index: u64, count: u64) -> bool {
    if index == u64::MAX {
        count == 0
    } else {
        index + 1 == count
    }
}

pub open spec fn reply_of(status: u16, body: &'static str) -> Reply {
    Reply { status, body }
}

pub open spec fn write_failed_reply() -> Reply {
    reply_of(500, "Couldn't write the file to disk")
}

/// One decision: from the stage and the event, the next stage and action.
pub open spec fn spec_upload_step(f: FlowFacts, stage: UploadStage, ev: UploadEvent) -> (UploadStage, UploadAction) {
    match (stage, ev) {
        (UploadStage::Start, UploadEvent::Begin) => if f.name_empty {
            (UploadStage::Finished, UploadAction::Respond(reply_of(400, "Invalid filename")))
        } else if f.first_chunk {
            (UploadStage::AwaitFinalExists, UploadAction::CheckFinalExists)
        } else {
            (UploadStage::AwaitWrite, UploadAction::WriteChunk)
        },
        (UploadStage::AwaitFinalExists, UploadEvent::FinalExists(e)) => if e {
            (UploadStage::Finished, UploadAction::Respond(reply_of(400, "File already exists")))
        } else {
            (UploadStage::AwaitStaleExists, UploadAction::CheckStaleExists)
        },
        (UploadStage::AwaitStaleExists, UploadEvent::StaleExists(e)) => if e {
            (UploadStage::AwaitStaleRemoval, UploadAction::RemoveStale)
        } else {
            (UploadStage::AwaitFreeSpace, UploadAction::QueryFreeSpace)
        },
        (UploadStage::AwaitStaleRemoval, UploadEvent::StaleRemoved(ok)) => if ok {
            (UploadStage::AwaitFreeSpace, UploadAction::QueryFreeSpace)
        } else {
            (UploadStage::Finished, UploadAction::Respond(write_failed_reply()))
        },
        (UploadStage::AwaitFreeSpace, UploadEvent::FreeSpace(space)) => match space {
            Some(s) => if s < f.total_file_size {
                (UploadStage::Finished, UploadAction::Respond(reply_of(400, "No Space available")))
            } else {
                (UploadStage::AwaitWrite, UploadAction::WriteChunk)
            },
            None => (UploadStage::AwaitWrite, UploadAction::WriteChunk),
        },
        (UploadStage::AwaitWrite, UploadEvent::Written(ok)) => if !ok {
            (UploadStage::Finished, UploadAction::Respond(write_failed_reply()))
        } else if f.last_chunk {
            (UploadStage::AwaitSize, UploadAction::StatUpload)
        } else {
            (UploadStage::Finished, UploadAction::Respond(reply_of(200, "uploaded Chunk")))
        },
        (UploadStage::AwaitSize, UploadEvent::Size(size)) => match size {
            None => (UploadStage::Finished, UploadAction::Respond(write_failed_reply())),
            Some(n) => if n != f.total_file_size {
                (UploadStage::AwaitDiscard, UploadAction::DiscardUpload)
            } else {
                (UploadStage::AwaitRename, UploadAction::Rename)
            },
        },
        (UploadStage::AwaitDiscard, UploadEvent::Discarded) => (
            UploadStage::Finished,
            UploadAction::Respond(reply_of(500, "Size mismatch")),
        ),
        (UploadStage::AwaitRename, UploadEvent::Renamed(ok)) => if ok {
            (UploadStage::Finished, UploadAction::Respond(reply_of(200, "uploaded Chunk")))
        } else {
            (UploadStage::Finished, UploadAction::Respond(write_failed_reply()))
        },
        _ => (UploadStage::Finished, UploadAction::Respond(write_failed_reply())),
    }
}

/// The event answers the work that the stage waits for.
pub open spec fn spec_accepts(stage: UploadStage, ev: UploadEvent) -> bool {
    match (stage, ev) {
        (UploadStage::Start, UploadEvent::Begin) => true,
        (UploadStage::AwaitFinalExists, UploadEvent::FinalExists(_)) => true,
        (UploadStage::AwaitStaleExists, UploadEvent::StaleExists(_)) => true,
        (UploadStage::AwaitStaleRemoval, UploadEvent::StaleRemoved(_)) => true,
        (UploadStage::AwaitFreeSpace, UploadEvent::FreeSpace(_)) => true,
        (UploadStage::AwaitWrite, UploadEvent::Written(_)) => true,
        (UploadStage::AwaitSize, UploadEvent::Size(_)) => true,
        (UploadStage::AwaitDiscard, UploadEvent::Discarded) => true,
        (UploadStage::AwaitRename, UploadEvent::Renamed(_)) => true,
        _ => false,
    }
}

/// The name of the partial upload beside the final file `name`: `.<name>.uploading`.
pub open spec fn spec_upload_name(name: Seq<char>) -> Seq<char> {
    "."@ + name + ".uploading"@
}

/// What the file system would report to each outside work of one request.
pub struct FsAnswers {
    pub final_exists: bool,
    pub stale_exists: bool,
    pub stale_removed: bool,
    pub free_space: Option<u64>,
    pub written: bool,
    pub size: Option<u64>,
    pub renamed: bool,
}

/// The report that `env` gives to action `a`.
pub open spec fn spec_answer(a: UploadAction, env: FsAnswers) -> UploadEvent {
    match a {
        UploadAction::CheckFinalExists => UploadEvent::FinalExists(env.final_exists),
        UploadAction::CheckStaleExists => UploadEvent::StaleExists(env.stale_exists),
        UploadAction::RemoveStale => UploadEvent::StaleRemoved(env.stale_removed),
        UploadAction::QueryFreeSpace => UploadEvent::FreeSpace(env.free_space),
        UploadAction::WriteChunk => UploadEvent::Written(env.written),
        UploadAction::StatUpload => UploadEvent::Size(env.size),
        UploadAction::DiscardUpload => UploadEvent::Discarded,
        UploadAction::Rename => UploadEvent::Renamed(env.renamed),
        UploadAction::Respond(_) => UploadEvent::Begin,
    }
}

/// The actions decided, from `stage` receiving `ev` on, when every action is
/// answered by `env` (at most `fuel` further decisions).
pub open spec fn spec_trace(
    f: FlowFacts,
    stage: UploadStage,
    ev: UploadEvent,
    env: FsAnswers,
    fuel: nat,
) -> Seq<UploadAction>
    decreases fuel,
{
    let (next, a) = spec_upload_step(f, stage, ev);
    if a is Respond || fuel == 0 {
        seq![a]
    } else {
        seq![a] + spec_trace(f, next, spec_answer(a, env), env, (fuel - 1) as nat)
    }
}

/// Every event along the way answers what its stage waits for.
pub open spec fn spec_trace_accepted(
    f: FlowFacts,
    stage: UploadStage,
    ev: UploadEvent,
    env: FsAnswers,
    fuel: nat,
) -> bool
    decreases fuel,
{
    let (next, a) = spec_upload_step(f, stage, ev);
    spec_accepts(stage, ev) && (a is Respond || (fuel > 0 && spec_trace_accepted(
        f,
        next,
        spec_answer(a, env),
        env,
        (fuel - 1) as nat,
    )))
}

/// All actions of a request answered by `env`.
pub open spec fn spec_upload_run(f: FlowFacts, env: FsAnswers) -> Seq<UploadAction> {
    spec_trace(f, UploadStage::Start, UploadEvent::Begin, env, 8)
}

/// The answer to a chunk upload, as a decision table over the request's facts
/// and what the file system reports.
pub open spec fn spec_upload_outcome(f: FlowFacts, env: FsAnswers) -> Reply {
    if f.name_empty {
        reply_of(400, "Invalid filename")
    } else if f.first_chunk && env.final_exists {
        reply_of(400, "File already exists")
    } else if f.first_chunk && env.stale_exists && !env.stale_removed {
        write_failed_reply()
    } else if f.first_chunk && (env.free_space matches Some(s) && s < f.total_file_size) {
        reply_of(400, "No Space available")
    } else if !env.written {
        write_failed_reply()
    } else if !f.last_chunk {
        reply_of(200, "uploaded Chunk")
    } else {
        match env.size {
            None => write_failed_reply(),
            Some(n) => if n != f.total_file_size {
                reply_of(500, "Size mismatch")
            } else if env.renamed {
                reply_of(200, "uploaded Chunk")
            } else {
                write_failed_reply()
            },
        }
    }
}

/// Answering each action as the file system reports, a request ends after
/// at most nine decisions with the answer of the decision table, and every
/// report is one that the handling waits for.
pub proof fn law_upload_run_answers(f: FlowFacts, env: FsAnswers)
    ensures
        spec_trace_accepted(f, UploadStage::Start, UploadEvent::Begin, env, 8),
        spec_upload_run(f, env).len() <= 9,
        spec_upload_run(f, env).last() == UploadAction::Respond(spec_upload_outcome(f, env)),
        forall|i: int|
            0 <= i < spec_upload_run(f, env).len() - 1 ==> !(#[trigger] spec_upload_run(f, env)[i] is Respond),
{
    reveal_with_fuel(spec_trace, 9);
    reveal_with_fuel(spec_trace_accepted, 9);
}

/// A first chunk whose final file already exists is refused before anything
/// is removed, written or renamed.
pub proof fn law_existing_file_untouched(f: FlowFacts, env: FsAnswers)
    requires
        !f.name_empty,
        f.first_chunk,
        env.final_exists,
    ensures
        spec_upload_run(f, env) == seq![
            UploadAction::CheckFinalExists,
            UploadAction::Respond(reply_of(400, "File already exists")),
        ],
{
    reveal_with_fuel(spec_trace, 3);
    assert(spec_upload_run(f, env) =~= seq![
        UploadAction::CheckFinalExists,
        UploadAction::Respond(reply_of(400, "File already exists")),
    ]);
}

/// The partial upload becomes the final file only for the last chunk, once
/// the chunk was written and the partial upload has exactly the announced size.
pub proof fn law_rename_only_when_complete(f: FlowFacts, env: FsAnswers)
    ensures
        spec_upload_run(f, env).contains(UploadAction::Rename) ==> {
            &&& !f.name_empty
            &&& f.last_chunk
            &&& env.written
            &&& env.size == Some(f.total_file_size)
            &&& f.first_chunk ==> !env.final_exists
        },
{
    reveal_with_fuel(spec_trace, 9);
}

/// A chunk is written only under a valid name and, for the first chunk,
/// only once no final file exists, no stale partial upload remains and the
/// free space (where known) holds the announced size.
pub proof fn law_guards_before_write(f: FlowFacts, env: FsAnswers)
    ensures
        spec_upload_run(f, env).contains(UploadAction::WriteChunk) ==> {
            &&& !f.name_empty
            &&& f.first_chunk ==> {
                &&& !env.final_exists
                &&& env.stale_exists ==> env.stale_removed
                &&& !(env.free_space matches Some(s) && s < f.total_file_size)
            }
        },
{
    reveal_with_fuel(spec_trace, 9);
}

/// A chunk other than the first is written at once: no existence, stale
/// upload or free space check precedes it.
pub proof fn law_later_chunks_write_at_once(f: FlowFacts, env: FsAnswers)
    requires
        !f.name_empty,
        !f.first_chunk,
    ensures
        spec_upload_run(f, env)[0] == UploadAction::WriteChunk,
        !spec_upload_run(f, env).contains(UploadAction::CheckFinalExists),
        !spec_upload_run(f, env).contains(UploadAction::CheckStaleExists),
        !spec_upload_run(f, env).contains(UploadAction::RemoveStale),
        !spec_upload_run(f, env).contains(UploadAction::QueryFreeSpace),
{
    reveal_with_fuel(spec_trace, 9);
}

/// The facts that the decisions read from a chunk: its sanitized name, its
/// index and the announced counts. Its byte offset and its bytes are not
/// among them.
pub open spec fn chunk_facts(info: ChunkInfo) -> FlowFacts {
    FlowFacts {
        name_empty: spec_sanitize_filename(info.file_name@).len() == 0,
        first_chunk: info.chunk_index == 0,
        last_chunk: spec_is_last_chunk(info.chunk_index, info.total_chunk_count),
        total_file_size: info.total_file_size,
    }
}

/// A chunk's byte offset and its bytes never change a decision: two
/// requests that differ only in them are handled with the same actions,
/// answered alike, whatever the file system reports.
pub proof fn law_offset_and_bytes_never_decide(a: ChunkInfo, b: ChunkInfo, env: FsAnswers)
    requires
        a.file_name@ == b.file_name@,
        a.chunk_index == b.chunk_index,
        a.total_file_size == b.total_file_size,
        a.total_chunk_count == b.total_chunk_count,
    ensures
        chunk_facts(a) == chunk_facts(b),
        spec_upload_run(chunk_facts(a), env) == spec_upload_run(chunk_facts(b), env),
        spec_upload_outcome(chunk_facts(a), env) == spec_upload_outcome(chunk_facts(b), env),
{
}

/// A request is refused as `400 Invalid filename` exactly when its client
/// file name sanitizes to nothing: whatever the file system reports, the
/// handling of a chunk whose sanitized name is not empty never gives that
/// answer, and one whose sanitized name is empty gives it at once. The facts
/// read from a chunk are those of its place among the chunks, as the
/// assembly law counts them.
pub proof fn law_invalid_filename_only_for_empty_names(info: ChunkInfo, env: FsAnswers)
    ensures
        spec_upload_run(chunk_facts(info), env).last() == UploadAction::Respond(
            reply_of(400, "Invalid filename"),
        ) <==> spec_sanitize_filename(info.file_name@).len() == 0,
        spec_sanitize_filename(info.file_name@).len() > 0 ==> !spec_upload_run(
            chunk_facts(info),
            env,
        ).contains(UploadAction::Respond(reply_of(400, "Invalid filename"))),
        spec_sanitize_filename(info.file_name@).len() == 0 ==> spec_upload_run(chunk_facts(info), env)
            == seq![UploadAction::Respond(reply_of(400, "Invalid filename"))],
        info.chunk_index < info.total_chunk_count ==> chunk_facts(info) == nth_chunk_facts(
            info.file_name@,
            info.chunk_index as nat,
            info.total_chunk_count as nat,
            info.total_file_size,
        ),
{
    reveal_strlit("Invalid filename");
    reveal_strlit("File already exists");
    reveal_strlit("No Space available");
    assert("File already exists"@ != "Invalid filename"@) by {
        assert("File already exists"@[0] != "Invalid filename"@[0]);
    }
    assert("No Space available"@ != "Invalid filename"@) by {
        assert("No Space available"@[0] != "Invalid filename"@[0]);
    }
    let f = chunk_facts(info);
    law_upload_run_answers(f, env);
    reveal_with_fuel(spec_trace, 9);
    if spec_sanitize_filename(info.file_name@).len() == 0 {
        assert(spec_upload_run(f, env) =~= seq![UploadAction::Respond(reply_of(400, "Invalid filename"))]);
    }
}

/// A model of the upload directory's file system answering the action `a`
/// of a request for the final file `final_name` whose partial upload is
/// `upload_name` and whose chunk holds `data`: every operation succeeds and a
/// write appends the chunk. The report and the files afterwards.
pub open spec fn fs_effect(
    a: UploadAction,
    final_name: Seq<char>,
    upload_name: Seq<char>,
    data: Seq<u8>,
    files: Map<Seq<char>, Seq<u8>>,
    free_space: Option<u64>,
) -> (UploadEvent, Map<Seq<char>, Seq<u8>>) {
    match a {
        UploadAction::CheckFinalExists => (UploadEvent::FinalExists(files.contains_key(final_name)), files),
        UploadAction::CheckStaleExists => (UploadEvent::StaleExists(files.contains_key(upload_name)), files),
        UploadAction::RemoveStale => (UploadEvent::StaleRemoved(true), files.remove(upload_name)),
        UploadAction::QueryFreeSpace => (UploadEvent::FreeSpace(free_space), files),
        UploadAction::WriteChunk => {
            let before = if files.contains_key(upload_name) {
                files[upload_name]
            } else {
                Seq::empty()
            };
            (UploadEvent::Written(true), files.insert(upload_name, before + data))
        },
        UploadAction::StatUpload => (
            UploadEvent::Size(
                if files.contains_key(upload_name) && files[upload_name].len() <= u64::MAX {
                    Some(files[upload_name].len() as u64)
                } else {
                    None
                },
            ),
            files,
        ),
        UploadAction::DiscardUpload => (UploadEvent::Discarded, files.remove(upload_name)),
        UploadAction::Rename => if files.contains_key(upload_name) {
            (
                UploadEvent::Renamed(true),
                files.remove(upload_name).insert(final_name, files[upload_name]),
            )
        } else {
            (UploadEvent::Renamed(false), files)
        },
        UploadAction::Respond(_) => (UploadEvent::Begin, files),
    }
}

/// The answer and the files afterwards when the handling, from `stage`
/// receiving `ev` on, has its actions done by the model file system (at
/// most `fuel` further actions).
pub open spec fn fs_trace(
    f: FlowFacts,
    stage: UploadStage,
    ev: UploadEvent,
    final_name: Seq<char>,
    upload_name: Seq<char>,
    data: Seq<u8>,
    files: Map<Seq<char>, Seq<u8>>,
    free_space: Option<u64>,
    fuel: nat,
) -> (Reply, Map<Seq<char>, Seq<u8>>)
    decreases fuel,
{
    let (next, a) = spec_upload_step(f, stage, ev);
    match a {
        UploadAction::Respond(reply) => (reply, files),
        _ => if fuel == 0 {
            (write_failed_reply(), files)
        } else {
            let (ev2, files2) = fs_effect(a, final_name, upload_name, data, files, free_space);
            fs_trace(f, next, ev2, final_name, upload_name, data, files2, free_space, (fuel - 1) as nat)
        },
    }
}

/// One request, for a client file named `name` with facts `f` and chunk
/// bytes `data`, handled against the model file system holding `files`.
pub open spec fn fs_request(
    f: FlowFacts,
    name: Seq<char>,
    data: Seq<u8>,
    files: Map<Seq<char>, Seq<u8>>,
    free_space: Option<u64>,
) -> (Reply, Map<Seq<char>, Seq<u8>>) {
    let final_name = spec_sanitize_filename(name);
    fs_trace(
        f,
        UploadStage::Start,
        UploadEvent::Begin,
        final_name,
        spec_upload_name(final_name),
        data,
        files,
        free_space,
        8,
    )
}

/// The facts of chunk `i` of `n` chunks of the file `name`, announced as
/// `total` bytes long.
pub open spec fn nth_chunk_facts(name: Seq<char>, i: nat, n: nat, total: u64) -> FlowFacts {
    FlowFacts {
        name_empty: spec_sanitize_filename(name).len() == 0,
        first_chunk: i == 0,
        last_chunk: spec_is_last_chunk(i as u64, n as u64),
        total_file_size: total,
    }
}

/// The bytes of `chunks`, one after the other.
pub open spec fn concat_chunks(chunks: Seq<Seq<u8>>) -> Seq<u8>
    decreases chunks.len(),
{
    if chunks.len() == 0 {
        Seq::empty()
    } else {
        concat_chunks(chunks.drop_last()) + chunks.last()
    }
}

/// The answers to, and the files after, sending the first `k` of `chunks`
/// in order as the chunks of the file `name` of `total` bytes.
pub open spec fn fs_send_chunks(
    name: Seq<char>,
    chunks: Seq<Seq<u8>>,
    k: nat,
    total: u64,
    files: Map<Seq<char>, Seq<u8>>,
    free_space: Option<u64>,
) -> (Seq<Reply>, Map<Seq<char>, Seq<u8>>)
    decreases k,
{
    if k == 0 {
        (Seq::empty(), files)
    } else {
        let (replies, before) = fs_send_chunks(name, chunks, (k - 1) as nat, total, files, free_space);
        let (reply, after) = fs_request(
            nth_chunk_facts(name, (k - 1) as nat, chunks.len(), total),
            name,
            chunks[k - 1],
            before,
            free_space,
        );
        (replies.push(reply), after)
    }
}

proof fn lemma_upload_name_differs(final_name: Seq<char>)
    ensures
        spec_upload_name(final_name) != final_name,
{
    reveal_strlit(".");
    reveal_strlit(".uploading");
    assert(spec_upload_name(final_name).len() == final_name.len() + 11);
}

proof fn lemma_concat_take_step(chunks: Seq<Seq<u8>>, k: int)
    requires
        0 <= k < chunks.len(),
    ensures
        concat_chunks(chunks.take(k + 1)) == concat_chunks(chunks.take(k)) + chunks[k],
{
    assert(chunks.take(k + 1).drop_last() =~= chunks.take(k));
}

proof fn lemma_first_chunk_opens(
    f: FlowFacts,
    fname: Seq<char>,
    up: Seq<char>,
    data: Seq<u8>,
    files: Map<Seq<char>, Seq<u8>>,
    free_space: Option<u64>,
)
    requires
        !f.name_empty,
        f.first_chunk,
        !f.last_chunk,
        !files.contains_key(fname),
        free_space matches Some(s) ==> f.total_file_size <= s,
    ensures
        fs_trace(f, UploadStage::Start, UploadEvent::Begin, fname, up, data, files, free_space, 8)
            == (reply_of(200, "uploaded Chunk"), files.remove(up).insert(up, data)),
{
    reveal_with_fuel(fs_trace, 9);
    assert(files.remove(up).insert(up, Seq::empty() + data) =~= files.remove(up).insert(up, data));
    assert(files.insert(up, Seq::empty() + data) =~= files.remove(up).insert(up, data));
}

proof fn lemma_middle_chunk_appends(
    f: FlowFacts,
    fname: Seq<char>,
    up: Seq<char>,
    data: Seq<u8>,
    files: Map<Seq<char>, Seq<u8>>,
    free_space: Option<u64>,
)
    requires
        !f.name_empty,
        !f.first_chunk,
        !f.last_chunk,
        files.contains_key(up),
    ensures
        fs_trace(f, UploadStage::Start, UploadEvent::Begin, fname, up, data, files, free_space, 8)
            == (reply_of(200, "uploaded Chunk"), files.insert(up, files[up] + data)),
{
    reveal_with_fuel(fs_trace, 9);
}

proof fn lemma_last_chunk_closes(
    f: FlowFacts,
    fname: Seq<char>,
    up: Seq<char>,
    data: Seq<u8>,
    files: Map<Seq<char>, Seq<u8>>,
    free_space: Option<u64>,
)
    requires
        !f.name_empty,
        !f.first_chunk,
        f.last_chunk,
        fname != up,
        files.contains_key(up),
        files[up].len() + data.len() == f.total_file_size,
    ensures
        fs_trace(f, UploadStage::Start, UploadEvent::Begin, fname, up, data, files, free_space, 8)
            == (reply_of(200, "uploaded Chunk"), files.remove(up).insert(fname, files[up] + data)),
{
    reveal_with_fuel(fs_trace, 9);
    let written = files.insert(up, files[up] + data);
    assert(written.remove(up).insert(fname, written[up]) =~= files.remove(up).insert(fname, files[up] + data));
}

proof fn lemma_single_chunk_file(
    f: FlowFacts,
    fname: Seq<char>,
    up: Seq<char>,
    data: Seq<u8>,
    files: Map<Seq<char>, Seq<u8>>,
    free_space: Option<u64>,
)
    requires
        !f.name_empty,
        f.first_chunk,
        f.last_chunk,
        fname != up,
        !files.contains_key(fname),
        free_space matches Some(s) ==> f.total_file_size <= s,
        data.len() == f.total_file_size,
    ensures
        fs_trace(f, UploadStage::Start, UploadEvent::Begin, fname, up, data, files, free_space, 8)
            == (reply_of(200, "uploaded Chunk"), files.remove(up).insert(fname, data)),
{
    reveal_with_fuel(fs_trace, 9);
    let cleared = if files.contains_key(up) { files.remove(up) } else { files };
    assert(Seq::<u8>::empty() + data =~= data);
    let written = cleared.insert(up, Seq::empty() + data);
    assert(written.remove(up).insert(fname, written[up]) =~= files.remove(up).insert(fname, data));
}

proof fn lemma_chunks_sent_so_far(
    name: Seq<char>,
    chunks: Seq<Seq<u8>>,
    k: nat,
    total: u64,
    files: Map<Seq<char>, Seq<u8>>,
    free_space: Option<u64>,
)
    requires
        spec_sanitize_filename(name).len() > 0,
        1 <= k < chunks.len() <= u64::MAX,
        !files.contains_key(spec_sanitize_filename(name)),
        free_space matches Some(s) ==> total <= s,
    ensures
        ({
            let up = spec_upload_name(spec_sanitize_filename(name));
            fs_send_chunks(name, chunks, k, total, files, free_space) == (
                Seq::new(k, |i: int| reply_of(200, "uploaded Chunk")),
                files.remove(up).insert(up, concat_chunks(chunks.take(k as int))),
            )
        }),
    decreases k,
{
    let fname = spec_sanitize_filename(name);
    let up = spec_upload_name(fname);
    lemma_upload_name_differs(fname);
    let n = chunks.len();
    lemma_concat_take_step(chunks, (k - 1) as int);
    if k == 1 {
        assert(chunks.take(0) =~= Seq::<Seq<u8>>::empty());
        assert(Seq::<u8>::empty() + chunks[0] =~= chunks[0]);
        let f = nth_chunk_facts(name, 0, n, total);
        assert(!f.last_chunk);
        lemma_first_chunk_opens(f, fname, up, chunks[0], files, free_space);
        assert(fs_send_chunks(name, chunks, 0, total, files, free_space) == (Seq::<Reply>::empty(), files));
        assert(fs_request(f, name, chunks[0], files, free_space) == (reply_of(200, "uploaded Chunk"), files.remove(up).insert(up, chunks[0])));
        assert(files.remove(up).insert(up, chunks[0]) == files.remove(up).insert(up, concat_chunks(chunks.take(1))));
        assert(Seq::<Reply>::empty().push(reply_of(200, "uploaded Chunk")) =~= Seq::new(
            1,
            |i: int| reply_of(200, "uploaded Chunk"),
        ));
    } else {
        lemma_chunks_sent_so_far(name, chunks, (k - 1) as nat, total, files, free_space);
        let before = files.remove(up).insert(up, concat_chunks(chunks.take(k - 1)));
        let f = nth_chunk_facts(name, (k - 1) as nat, n, total);
        lemma_middle_chunk_appends(f, fname, up, chunks[k - 1], before, free_space);
        assert(before.insert(up, before[up] + chunks[k - 1]) =~= files.remove(up).insert(
            up,
            concat_chunks(chunks.take(k as int)),
        ));
        assert(Seq::new((k - 1) as nat, |i: int| reply_of(200, "uploaded Chunk")).push(
            reply_of(200, "uploaded Chunk"),
        ) =~= Seq::new(k, |i: int| reply_of(200, "uploaded Chunk")));
    }
}

/// Chunks sent in order, each appended to the partial upload as it comes,
/// assemble into the final file: when every file operation succeeds, each
/// chunk is answered `200 uploaded Chunk`, the final file holds the chunks'
/// bytes one after the other, no partial upload remains and no other file
/// changes. This holds for a valid name, a final file not there yet, an
/// announced size equal to the chunks' total, and free space (where known)
/// for it.
pub proof fn law_chunks_assemble(
    name: Seq<char>,
    chunks: Seq<Seq<u8>>,
    total: u64,
    files: Map<Seq<char>, Seq<u8>>,
    free_space: Option<u64>,
)
    requires
        spec_sanitize_filename(name).len() > 0,
        0 < chunks.len() <= u64::MAX,
        concat_chunks(chunks).len() == total,
        !files.contains_key(spec_sanitize_filename(name)),
        free_space matches Some(s) ==> total <= s,
    ensures
        ({
            let fname = spec_sanitize_filename(name);
            let up = spec_upload_name(fname);
            fs_send_chunks(name, chunks, chunks.len(), total, files, free_space) == (
                Seq::new(chunks.len(), |i: int| reply_of(200, "uploaded Chunk")),
                files.remove(up).insert(fname, concat_chunks(chunks)),
            )
        }),
{
    let fname = spec_sanitize_filename(name);
    let up = spec_upload_name(fname);
    lemma_upload_name_differs(fname);
    let n = chunks.len();
    assert(chunks.take(n as int) =~= chunks);
    lemma_concat_take_step(chunks, n - 1);
    let f = nth_chunk_facts(name, (n - 1) as nat, n, total);
    if n == 1 {
        assert(chunks.take(0) =~= Seq::<Seq<u8>>::empty());
        assert(Seq::<u8>::empty() + chunks[0] =~= chunks[0]);
        assert(f.first_chunk && f.last_chunk);
        lemma_single_chunk_file(f, fname, up, chunks[0], files, free_space);
        assert(fs_send_chunks(name, chunks, 0, total, files, free_space) == (Seq::<Reply>::empty(), files));
        assert(fs_request(f, name, chunks[0], files, free_space) == (reply_of(200, "uploaded Chunk"), files.remove(up).insert(fname, chunks[0])));
        assert(concat_chunks(chunks) == chunks[0]);
        assert(Seq::<Reply>::empty().push(reply_of(200, "uploaded Chunk")) =~= Seq::new(
            1,
            |i: int| reply_of(200, "uploaded Chunk"),
        ));
    } else {
        lemma_chunks_sent_so_far(name, chunks, (n - 1) as nat, total, files, free_space);
        let before = files.remove(up).insert(up, concat_chunks(chunks.take(n - 1)));
        assert(!f.first_chunk && f.last_chunk);
        lemma_last_chunk_closes(f, fname, up, chunks[n - 1], before, free_space);
        assert(fs_request(f, name, chunks[n - 1], before, free_space) == (reply_of(200, "uploaded Chunk"), before.remove(up).insert(fname, before[up] + chunks[n - 1])));
        assert(before.remove(up).insert(fname, before[up] + chunks[n - 1]) =~= files.remove(up).insert(
            fname,
            concat_chunks(chunks),
        ));
        assert(Seq::new((n - 1) as nat, |i: int| reply_of(200, "uploaded Chunk")).push(
            reply_of(200, "uploaded Chunk"),
        ) =~= Seq::new(n, |i: int| reply_of(200, "uploaded Chunk")));
    }
}

/// The handling of one chunk upload request.
pub struct UploadFlow {
    info: ChunkInfo,
    final_name: String,
    upload_name: String,
    stage: UploadStage,
}

impl UploadFlow {
    /// The final name is the sanitized client file name and the partial
    /// upload sits beside it as `.<name>.uploading`.
    #[verifier::type_invariant]
    spec fn names_agree(&self) -> bool {
        &&& self.final_name@ == spec_sanitize_filename(self.info.file_name@)
        &&& self.upload_name@ == spec_upload_name(self.final_name@)
    }

    pub closed spec fn stage(&self) -> UploadStage {
        self.stage
    }

    pub closed spec fn facts(&self) -> FlowFacts {
        FlowFacts {
            name_empty: self.final_name@.len() == 0,
            first_chunk: self.info.chunk_index == 0,
            last_chunk: spec_is_last_chunk(self.info.chunk_index, self.info.total_chunk_count),
            total_file_size: self.info.total_file_size,
        }
    }

    pub closed spec fn final_name_view(&self) -> Seq<char> {
        self.final_name@
    }

    pub closed spec fn upload_name_view(&self) -> Seq<char> {
        self.upload_name@
    }

    pub closed spec fn offset(&self) -> u64 {
        self.info.chunk_byte_offset
    }

    pub closed spec fn data(&self) -> Bytes {
        self.info.file_data
    }

    /// Starts the handling of the chunk `info`: the final file is named after
    /// the sanitized client file name, the partial upload `.<name>.uploading`.
    pub fn new(info: ChunkInfo) -> (r: Self)
        ensures
            r.stage() == UploadStage::Start,
            r.final_name_view() == spec_sanitize_filename(info.file_name@),
            r.upload_name_view() == spec_upload_name(spec_sanitize_filename(info.file_name@)),
            r.facts() == chunk_facts(info),
            r.offset() == info.chunk_byte_offset,
            r.data() == info.file_data,
    {
        let final_name = sanitize_filename(info.file_name.as_str());
        let mut upload_name = String::new();
        upload_name.append(".");
        upload_name.append(final_name.as_str());
        upload_name.append(".uploading");
        UploadFlow { info, final_name, upload_name, stage: UploadStage::Start }
    }

    /// Whether `ev` answers what the handling waits for.
    pub fn accepts(&self, ev: &UploadEvent) -> (r: bool)
        ensures
            r == spec_accepts(self.stage(), *ev),
    {
        match (self.stage, ev) {
            (UploadStage::Start, UploadEvent::Begin) => true,
            (UploadStage::AwaitFinalExists, UploadEvent::FinalExists(_)) => true,
            (UploadStage::AwaitStaleExists, UploadEvent::StaleExists(_)) => true,
            (UploadStage::AwaitStaleRemoval, UploadEvent::StaleRemoved(_)) => true,
            (UploadStage::AwaitFreeSpace, UploadEvent::FreeSpace(_)) => true,
            (UploadStage::AwaitWrite, UploadEvent::Written(_)) => true,
            (UploadStage::AwaitSize, UploadEvent::Size(_)) => true,
            (UploadStage::AwaitDiscard, UploadEvent::Discarded) => true,
            (UploadStage::AwaitRename, UploadEvent::Renamed(_)) => true,
            _ => false,
        }
    }

    /// Takes the report `ev` of the last outside work and decides what comes next.
    pub fn advance(&mut self, ev: UploadEvent) -> (a: UploadAction)
        requires
            spec_accepts(old(self).stage(), ev),
        ensures
            (final(self).stage(), a) == spec_upload_step(old(self).facts(), old(self).stage(), ev),
            final(self).facts() == old(self).facts(),
            final(self).final_name_view() == old(self).final_name_view(),
            final(self).upload_name_view() == old(self).upload_name_view(),
            final(self).offset() == old(self).offset(),
            final(self).data() == old(self).data(),
    {
        proof {
            use_type_invariant(&*self);
        }
        let total = self.info.total_file_size;
        let (next, action) = match (self.stage, ev) {
            (UploadStage::Start, UploadEvent::Begin) => if self.final_name.unicode_len() == 0 {
                (UploadStage::Finished, UploadAction::Respond(bad_request("Invalid filename")))
            } else if self.info.chunk_index == 0 {
                (UploadStage::AwaitFinalExists, UploadAction::CheckFinalExists)
            } else {
                (UploadStage::AwaitWrite, UploadAction::WriteChunk)
            },
            (UploadStage::AwaitFinalExists, UploadEvent::FinalExists(e)) => if e {
                (UploadStage::Finished, UploadAction::Respond(bad_request("File already exists")))
            } else {
                (UploadStage::AwaitStaleExists, UploadAction::CheckStaleExists)
            },
            (UploadStage::AwaitStaleExists, UploadEvent::StaleExists(e)) => if e {
                (UploadStage::AwaitStaleRemoval, UploadAction::RemoveStale)
            } else {
                (UploadStage::AwaitFreeSpace, UploadAction::QueryFreeSpace)
            },
            (UploadStage::AwaitStaleRemoval, UploadEvent::StaleRemoved(ok)) => if ok {
                (UploadStage::AwaitFreeSpace, UploadAction::QueryFreeSpace)
            } else {
                (UploadStage::Finished, UploadAction::Respond(disk_write_failed()))
            },
            (UploadStage::AwaitFreeSpace, UploadEvent::FreeSpace(space)) => match space {
                Some(s) => if s < total {
                    (UploadStage::Finished, UploadAction::Respond(bad_request("No Space available")))
                } else {
                    (UploadStage::AwaitWrite, UploadAction::WriteChunk)
                },
                None => (UploadStage::AwaitWrite, UploadAction::WriteChunk),
            },
            (UploadStage::AwaitWrite, UploadEvent::Written(ok)) => {
                let last = if self.info.chunk_index == u64::MAX {
                    self.info.total_chunk_count == 0
                } else {
                    self.info.chunk_index + 1 == self.info.total_chunk_count
                };
                if !ok {
                    (UploadStage::Finished, UploadAction::Respond(disk_write_failed()))
                } else if last {
                    (UploadStage::AwaitSize, UploadAction::StatUpload)
                } else {
                    (UploadStage::Finished, UploadAction::Respond(Reply { status: 200, body: "uploaded Chunk" }))
                }
            },
            (UploadStage::AwaitSize, UploadEvent::Size(size)) => match size {
                None => (UploadStage::Finished, UploadAction::Respond(disk_write_failed())),
                Some(n) => if n != total {
                    (UploadStage::AwaitDiscard, UploadAction::DiscardUpload)
                } else {
                    (UploadStage::AwaitRename, UploadAction::Rename)
                },
            },
            (UploadStage::AwaitDiscard, UploadEvent::Discarded) => (
                UploadStage::Finished,
                UploadAction::Respond(internal("Size mismatch")),
            ),
            (UploadStage::AwaitRename, UploadEvent::Renamed(ok)) => if ok {
                (UploadStage::Finished, UploadAction::Respond(Reply { status: 200, body: "uploaded Chunk" }))
            } else {
                (UploadStage::Finished, UploadAction::Respond(disk_write_failed()))
            },
            _ => (UploadStage::Finished, UploadAction::Respond(disk_write_failed())),
        };
        self.stage = next;
        action
    }

    /// The sanitized name of the final file.
    pub fn final_name(&self) -> (r: &str)
        ensures
            r@ == self.final_name_view(),
    {
        self.final_name.as_str()
    }

    /// The name of the partial upload: `.<final name>.uploading`.
    pub fn upload_name(&self) -> (r: &str)
        ensures
            r@ == self.upload_name_view(),
    {
        self.upload_name.as_str()
    }

    /// Where the chunk lies in the final file.
    pub fn chunk_byte_offset(&self) -> (r: u64)
        ensures
            r == self.offset(),
    {
        self.info.chunk_byte_offset
    }

    /// The chunk's bytes.
    pub fn chunk_data(&self) -> (r: &Bytes)
        ensures
            *r == self.data(),
    {
        &self.info.file_data
    }
}

} // verus!
