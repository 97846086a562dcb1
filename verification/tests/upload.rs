use std::collections::HashMap;

use bytes::Bytes;

use flowcase_upload_server::flow::{UploadAction, UploadEvent, UploadFlow};
use flowcase_upload_server::text::parse_u64;
use flowcase_upload_server::upload::{
    disk_write_failed, field_kind, free_space_bytes, invalid_multipart, sanitize_filename,
    ChunkFields, ChunkInfo, FieldKind, FieldRead, REQUEST_BODY_LIMIT,
};
use flowcase_upload_server::Reply;

/// An upload directory kept in memory: file name to contents.
#[derive(Default)]
struct MemDir {
    files: HashMap<String, Vec<u8>>,
    free: Option<u64>,
    fail_writes: bool,
}

impl MemDir {
    /// Runs one request through the upload decisions, doing the file work in memory.
    fn handle(&mut self, info: ChunkInfo) -> (Reply, Vec<UploadAction>) {
        let mut flow = UploadFlow::new(info);
        let final_name = flow.final_name().to_string();
        let upload_name = flow.upload_name().to_string();
        let mut actions = Vec::new();
        let mut event = UploadEvent::Begin;
        loop {
            assert!(flow.accepts(&event));
            let action = flow.advance(event);
            actions.push(action);
            event = match action {
                UploadAction::CheckFinalExists => UploadEvent::FinalExists(self.files.contains_key(&final_name)),
                UploadAction::CheckStaleExists => UploadEvent::StaleExists(self.files.contains_key(&upload_name)),
                UploadAction::RemoveStale => UploadEvent::StaleRemoved(self.files.remove(&upload_name).is_some()),
                UploadAction::QueryFreeSpace => UploadEvent::FreeSpace(self.free),
                UploadAction::WriteChunk => {
                    if self.fail_writes {
                        UploadEvent::Written(false)
                    } else {
                        let data = flow.chunk_data().clone();
                        self.files.entry(upload_name.clone()).or_default().extend_from_slice(&data);
                        UploadEvent::Written(true)
                    }
                }
                UploadAction::StatUpload => {
                    UploadEvent::Size(self.files.get(&upload_name).map(|f| f.len() as u64))
                }
                UploadAction::DiscardUpload => {
                    self.files.remove(&upload_name);
                    UploadEvent::Discarded
                }
                UploadAction::Rename => match self.files.remove(&upload_name) {
                    Some(f) => {
                        self.files.insert(final_name.clone(), f);
                        UploadEvent::Renamed(true)
                    }
                    None => UploadEvent::Renamed(false),
                },
                UploadAction::Respond(reply) => return (reply, actions),
            };
        }
    }
}

fn chunk(data: &[u8], name: &str, index: u64, offset: u64, total_size: u64, total_chunks: u64) -> ChunkInfo {
    ChunkInfo {
        file_data: Bytes::copy_from_slice(data),
        file_name: name.to_string(),
        chunk_index: index,
        chunk_byte_offset: offset,
        total_file_size: total_size,
        total_chunk_count: total_chunks,
    }
}

#[test]
fn three_chunks_assemble_into_final_file() {
    let mut dir = MemDir::default();
    let payload: &[u8] = b"abcdefghij0123456789ABCDEFGHIJ"; // 30 bytes
    assert_eq!(payload.len(), 30);
    let chunk_size = 10u64;
    let total_size = payload.len() as u64;
    let total_chunks = 3u64;

    for i in 0..total_chunks {
        let start = (i * chunk_size) as usize;
        let end = start + chunk_size as usize;
        let (reply, _) = dir.handle(chunk(&payload[start..end], "hello.txt", i, i * chunk_size, total_size, total_chunks));
        assert_eq!(reply.status, 200, "chunk {i} should be 200");
        assert_eq!(reply.body, "uploaded Chunk");
    }

    assert_eq!(dir.files.get("hello.txt").map(|f| f.as_slice()), Some(payload), "final file should exist");
    assert!(!dir.files.contains_key(".hello.txt.uploading"), ".uploading should be gone after rename");
}

#[test]
fn first_chunk_against_existing_final_returns_409_style_400() {
    let mut dir = MemDir::default();
    dir.files.insert("dup.bin".to_string(), b"existing".to_vec());
    let (reply, actions) = dir.handle(chunk(b"new", "dup.bin", 0, 0, 3, 1));
    assert_eq!(reply.status, 400);
    assert_eq!(reply.body, "File already exists");
    assert_eq!(actions.len(), 2);
    assert_eq!(dir.files.get("dup.bin").unwrap(), b"existing");
}

#[test]
fn size_mismatch_on_last_chunk_returns_500() {
    let mut dir = MemDir::default();
    let (reply, _) = dir.handle(chunk(b"hello", "short.bin", 0, 0, 10, 1));
    assert_eq!(reply.status, 500);
    assert_eq!(reply.body, "Size mismatch");
    assert!(!dir.files.contains_key(".short.bin.uploading"), ".uploading should be cleaned up on size mismatch");
    assert!(!dir.files.contains_key("short.bin"));
}

#[test]
fn filename_is_sanitized() {
    assert_eq!(sanitize_filename("hello world.txt"), "hello world.txt");
    assert_eq!(sanitize_filename("evil/../path.bin"), "evil..path.bin");
    assert_eq!(sanitize_filename("trailing  "), "trailing");
    assert_eq!(sanitize_filename("emoji🚀name.txt"), "emojiname.txt");
    assert_eq!(sanitize_filename("a_b-c.d e"), "a_b-c.d e");
}

#[test]
fn sanitize_keeps_unicode_letters_and_trims_tabs() {
    assert_eq!(sanitize_filename("naïve 日本.txt"), "naïve 日本.txt");
    assert_eq!(sanitize_filename("x\t\n\0/\\:*?\"<>|"), "x");
    assert_eq!(sanitize_filename("  lead"), "  lead");
    assert_eq!(sanitize_filename("   "), "");
    assert_eq!(sanitize_filename(""), "");
    // a no-break space is not kept in file names, so it goes before trimming
    assert_eq!(sanitize_filename("a\u{a0}"), "a");
}

#[test]
fn sanitize_is_idempotent_on_examples() {
    for name in ["evil/../path.bin", "trailing  ", "emoji🚀name.txt", "x y .-_"] {
        let once = sanitize_filename(name);
        assert_eq!(sanitize_filename(&once), once);
    }
}

#[test]
fn missing_file_field_is_400() {
    let mut fields = ChunkFields::new();
    for (name, value) in [
        ("dzchunkindex", "0"),
        ("dzchunkbyteoffset", "0"),
        ("dztotalfilesize", "5"),
        ("dztotalchunkcount", "1"),
    ] {
        let kind = field_kind(Some(name));
        fields.accept_number(kind, Some(value));
    }
    let reply = fields.finish().err().expect("refused");
    assert_eq!(reply.status, 400);
    assert_eq!(reply.body, "Missing file");
}

#[test]
fn missing_fields_are_reported_in_order() {
    let mut fields = ChunkFields::new();
    fields.accept_file(None, Bytes::from_static(b"x"));
    assert_eq!(fields.finish().err().unwrap().body, "Missing filename");

    let mut fields = ChunkFields::new();
    fields.accept_file(Some("a".to_string()), Bytes::from_static(b"x"));
    fields.accept_number(FieldKind::TotalFileSize, Some("1"));
    assert_eq!(fields.finish().err().unwrap().body, "Missing dzchunkindex");

    let mut fields = ChunkFields::new();
    fields.accept_file(Some("a".to_string()), Bytes::from_static(b"x"));
    fields.accept_number(FieldKind::ChunkIndex, Some("0"));
    assert_eq!(fields.finish().err().unwrap().body, "Missing dzchunkbyteoffset");

    let mut fields = ChunkFields::new();
    fields.accept_file(Some("a".to_string()), Bytes::from_static(b"x"));
    fields.accept_number(FieldKind::ChunkIndex, Some("0"));
    fields.accept_number(FieldKind::ChunkByteOffset, Some("0"));
    assert_eq!(fields.finish().err().unwrap().body, "Missing dztotalfilesize");

    let mut fields = ChunkFields::new();
    fields.accept_file(Some("a".to_string()), Bytes::from_static(b"x"));
    fields.accept_number(FieldKind::ChunkIndex, Some("0"));
    fields.accept_number(FieldKind::ChunkByteOffset, Some("0"));
    fields.accept_number(FieldKind::TotalFileSize, Some("1"));
    let reply = fields.finish().err().unwrap();
    assert_eq!(reply, Reply { status: 400, body: "Missing dztotalchunkcount" });
}

#[test]
fn later_fields_replace_earlier_ones() {
    let mut fields = ChunkFields::new();
    fields.accept_file(Some("a".to_string()), Bytes::from_static(b"x"));
    fields.accept_number(FieldKind::ChunkIndex, Some("4"));
    fields.accept_number(FieldKind::ChunkIndex, Some("7"));
    fields.accept_number(FieldKind::ChunkByteOffset, Some("3"));
    fields.accept_number(FieldKind::ChunkByteOffset, Some("not a number"));
    fields.accept_number(FieldKind::TotalFileSize, Some("9"));
    fields.accept_number(FieldKind::TotalChunkCount, None);
    fields.accept_number(FieldKind::TotalChunkCount, Some("2"));
    assert_eq!(fields.chunk_index, Some(7));
    assert_eq!(fields.chunk_byte_offset, None);
    assert_eq!(fields.finish().err().unwrap().body, "Missing dzchunkbyteoffset");
}

#[test]
fn field_names_are_exact() {
    assert_eq!(field_kind(Some("file")), FieldKind::File);
    assert_eq!(field_kind(Some("dzchunkindex")), FieldKind::ChunkIndex);
    assert_eq!(field_kind(Some("dzchunkbyteoffset")), FieldKind::ChunkByteOffset);
    assert_eq!(field_kind(Some("dztotalfilesize")), FieldKind::TotalFileSize);
    assert_eq!(field_kind(Some("dztotalchunkcount")), FieldKind::TotalChunkCount);
    assert_eq!(field_kind(Some("File")), FieldKind::Other);
    assert_eq!(field_kind(Some("dzuuid")), FieldKind::Other);
    assert_eq!(field_kind(None), FieldKind::Other);
}

#[test]
fn numbers_are_read_like_u64_from_str() {
    assert_eq!(parse_u64("0"), Some(0));
    assert_eq!(parse_u64("+42"), Some(42));
    assert_eq!(parse_u64("007"), Some(7));
    assert_eq!(parse_u64("18446744073709551615"), Some(u64::MAX));
    assert_eq!(parse_u64("18446744073709551616"), None);
    assert_eq!(parse_u64("-1"), None);
    assert_eq!(parse_u64("-0"), None);
    assert_eq!(parse_u64(""), None);
    assert_eq!(parse_u64("+"), None);
    assert_eq!(parse_u64(" 1"), None);
    assert_eq!(parse_u64("1 "), None);
    assert_eq!(parse_u64("１"), None);
    for s in ["0", "+42", "007", "18446744073709551616", "-1", "", "+", "1x"] {
        assert_eq!(parse_u64(s), s.parse::<u64>().ok(), "{s:?}");
    }
}

#[test]
fn later_chunks_write_at_once() {
    let mut dir = MemDir::default();
    dir.files.insert("f.bin".to_string(), b"exists".to_vec());
    dir.free = Some(0);
    let (reply, actions) = dir.handle(chunk(b"abc", "f.bin", 1, 3, 9, 3));
    assert_eq!(reply.status, 200);
    assert_eq!(actions[0], UploadAction::WriteChunk);
    assert_eq!(dir.files.get(".f.bin.uploading").unwrap(), b"abc");
}

#[test]
fn no_space_refuses_first_chunk() {
    let mut dir = MemDir { free: Some(9), ..Default::default() };
    let (reply, actions) = dir.handle(chunk(b"abc", "big.bin", 0, 0, 10, 4));
    assert_eq!(reply, Reply { status: 400, body: "No Space available" });
    assert!(!actions.contains(&UploadAction::WriteChunk));
    let mut dir = MemDir { free: Some(10), ..Default::default() };
    let (reply, _) = dir.handle(chunk(b"abc", "big.bin", 0, 0, 10, 4));
    assert_eq!(reply.status, 200);
    let mut dir = MemDir { free: None, ..Default::default() };
    let (reply, _) = dir.handle(chunk(b"abc", "big.bin", 0, 0, 10, 4));
    assert_eq!(reply.status, 200);
}

#[test]
fn stale_partial_upload_is_replaced_on_first_chunk() {
    let mut dir = MemDir::default();
    dir.files.insert(".s.bin.uploading".to_string(), b"old junk".to_vec());
    let (reply, actions) = dir.handle(chunk(b"abcd", "s.bin", 0, 0, 4, 1));
    assert_eq!(reply.status, 200);
    assert!(actions.contains(&UploadAction::RemoveStale));
    assert_eq!(dir.files.get("s.bin").unwrap(), b"abcd");
}

#[test]
fn invalid_filename_and_failed_writes() {
    let mut dir = MemDir::default();
    let (reply, actions) = dir.handle(chunk(b"a", "///", 0, 0, 1, 1));
    assert_eq!(reply, Reply { status: 400, body: "Invalid filename" });
    assert_eq!(actions.len(), 1);
    let mut dir = MemDir { fail_writes: true, ..Default::default() };
    let (reply, _) = dir.handle(chunk(b"a", "w.bin", 0, 0, 1, 1));
    assert_eq!(reply, disk_write_failed());
    assert_eq!(reply.status, 500);
}

#[test]
fn last_chunk_index_wraps_like_release_arithmetic() {
    let mut dir = MemDir::default();
    let (reply, actions) = dir.handle(chunk(b"abc", "m.bin", u64::MAX, 0, 3, 0));
    assert_eq!(reply.status, 200);
    assert!(actions.contains(&UploadAction::Rename));
    assert_eq!(dir.files.get("m.bin").unwrap(), b"abc");
}

#[test]
fn upload_names_follow_the_final_name() {
    let flow = UploadFlow::new(chunk(b"", "my file?.txt", 0, 0, 0, 1));
    assert_eq!(flow.final_name(), "my file.txt");
    assert_eq!(flow.upload_name(), ".my file.txt.uploading");
    assert_eq!(flow.chunk_byte_offset(), 0);
}

#[test]
fn free_space_saturates() {
    assert_eq!(free_space_bytes(4096, 10), 40960);
    assert_eq!(free_space_bytes(0, u64::MAX), 0);
    assert_eq!(free_space_bytes(u64::MAX, 2), u64::MAX);
    assert_eq!(free_space_bytes(1 << 32, 1 << 32), u64::MAX);
}

#[test]
fn fixed_replies() {
    assert_eq!(invalid_multipart(), Reply { status: 400, body: "Invalid multipart" });
    assert_eq!(disk_write_failed(), Reply { status: 500, body: "Couldn't write the file to disk" });
    assert_eq!(REQUEST_BODY_LIMIT, 5 * 1024 * 1024 * 1024);
}

/// Reads a field stream the way the server does, field by field.
fn read_stream(stream: &[(Option<&str>, Option<&str>)]) -> Result<ChunkInfo, Reply> {
    let mut fields = ChunkFields::new();
    for (name, value) in stream {
        let kind = field_kind(*name);
        let read = match kind {
            FieldKind::File => FieldRead::File {
                file_name: value.map(str::to_string),
                data: Bytes::from_static(b"chunk"),
            },
            _ => FieldRead::Text(value.map(str::to_string)),
        };
        fields.accept(kind, read);
    }
    fields.finish()
}

fn summary(r: Result<ChunkInfo, Reply>) -> Result<(String, u64, u64, u64, u64), Reply> {
    r.map(|i| (i.file_name, i.chunk_index, i.chunk_byte_offset, i.total_file_size, i.total_chunk_count))
}

#[test]
fn unknown_fields_change_nothing() {
    let plain = [
        (Some("file"), Some("a.bin")),
        (Some("dzchunkindex"), Some("0")),
        (Some("dzchunkbyteoffset"), Some("0")),
        (Some("dztotalfilesize"), Some("5")),
        (Some("dztotalchunkcount"), Some("1")),
    ];
    let padded = [
        (Some("dzuuid"), Some("7")),
        (Some("file"), Some("a.bin")),
        (None, Some("12")),
        (Some("dzchunkindex"), Some("0")),
        (Some("DZCHUNKINDEX"), Some("9")),
        (Some("dzchunkbyteoffset"), Some("0")),
        (Some("dztotalfilesize"), Some("5")),
        (Some("dzchunksize"), None),
        (Some("dztotalchunkcount"), Some("1")),
        (Some("extra"), Some("x")),
    ];
    let a = summary(read_stream(&plain));
    assert_eq!(a, Ok(("a.bin".to_string(), 0, 0, 5, 1)));
    assert_eq!(summary(read_stream(&padded)), a);

    // the same holds of a refused stream
    let short = [(Some("file"), Some("a.bin")), (Some("dzchunkindex"), Some("0"))];
    let short_padded = [(Some("x"), Some("1")), (Some("file"), Some("a.bin")), (Some("dzchunkindex"), Some("0")), (None, None)];
    assert_eq!(summary(read_stream(&short)), summary(read_stream(&short_padded)));
    assert_eq!(summary(read_stream(&short)).err().unwrap().body, "Missing dzchunkbyteoffset");
}

#[test]
fn a_field_read_in_the_wrong_form_is_ignored() {
    let mut fields = ChunkFields::new();
    fields.accept(FieldKind::File, FieldRead::Text(Some("3".to_string())));
    fields.accept(FieldKind::ChunkIndex, FieldRead::File { file_name: None, data: Bytes::from_static(b"x") });
    assert!(fields.file_data.is_none());
    assert_eq!(fields.chunk_index, None);
    fields.accept(FieldKind::ChunkIndex, FieldRead::Text(Some("3".to_string())));
    assert_eq!(fields.chunk_index, Some(3));
}

#[test]
fn byte_offset_never_changes_the_answer() {
    for offset in [0u64, 3, 999, u64::MAX] {
        let mut dir = MemDir::default();
        let (first, first_actions) = dir.handle(chunk(b"abc", "o.bin", 0, offset, 6, 2));
        let (last, last_actions) = dir.handle(chunk(b"def", "o.bin", 1, offset, 6, 2));
        assert_eq!(first, Reply { status: 200, body: "uploaded Chunk" });
        assert_eq!(last, Reply { status: 200, body: "uploaded Chunk" });
        assert_eq!(first_actions.len(), 5);
        assert_eq!(last_actions.len(), 4);
        assert_eq!(dir.files.get("o.bin").unwrap(), b"abcdef");
    }
}
