use orchestrator::io::{
    zip_directory, ArchiveError, Walked, WriteBuffer, ARCHIVE_PERMISSIONS, WRITE_BUFFER_SIZE,
};

#[test]
fn buffer_hands_out_once_it_is_full() {
    assert_eq!(WRITE_BUFFER_SIZE, 1024 * 1024);
    let mut buffer = WriteBuffer::new();
    assert_eq!(buffer.push(&[1, 2, 3]), None);
    assert_eq!(buffer.pending, vec![1, 2, 3]);
    let chunk = vec![7u8; WRITE_BUFFER_SIZE - 4];
    assert_eq!(buffer.push(&chunk), None);
    assert_eq!(buffer.pending.len(), WRITE_BUFFER_SIZE - 1);
    let out = buffer.push(&[9]).unwrap();
    assert_eq!(out.len(), WRITE_BUFFER_SIZE);
    assert_eq!(&out[..3], &[1, 2, 3]);
    assert_eq!(out[WRITE_BUFFER_SIZE - 1], 9);
    assert!(buffer.pending.is_empty());
    assert_eq!(buffer.finish(), None);
}

#[test]
fn buffer_hands_out_the_rest_at_the_end() {
    let mut buffer = WriteBuffer::new();
    assert_eq!(buffer.push(b"hello this is a test file"), None);
    assert_eq!(buffer.finish(), Some(b"hello this is a test file".to_vec()));
    assert_eq!(WriteBuffer::new().finish(), None);
    let mut buffer = WriteBuffer::new();
    assert_eq!(buffer.push(&[]), None);
    assert_eq!(buffer.finish(), None);
}

#[test]
fn buffer_loses_nothing() {
    let sizes = [0usize, 1, 700_000, 348_575, 1, 1_048_576, 5, 2_000_000, 1_048_575, 3];
    let mut buffer = WriteBuffer::new();
    let mut sent: Vec<u8> = Vec::new();
    let mut written: Vec<u8> = Vec::new();
    let mut next = 0u8;
    for size in sizes {
        let chunk: Vec<u8> = (0..size)
            .map(|_| {
                next = next.wrapping_add(13);
                next
            })
            .collect();
        sent.extend_from_slice(&chunk);
        if let Some(out) = buffer.push(&chunk) {
            assert!(out.len() >= WRITE_BUFFER_SIZE);
            written.extend_from_slice(&out);
        }
        assert!(buffer.pending.len() < WRITE_BUFFER_SIZE);
    }
    if let Some(out) = buffer.finish() {
        written.extend_from_slice(&out);
    }
    assert_eq!(written.len(), sent.len());
    assert!(written == sent);
}

fn walked(path: &str, is_dir: bool) -> Walked {
    Walked { path: path.to_string(), is_dir }
}

#[test]
fn archive_of_a_directory() {
    assert_eq!(ARCHIVE_PERMISSIONS, 0o755);
    let entries = zip_directory(
        "/data/7",
        &vec![
            walked("/data/7", true),
            walked("/data/7/run.sh", false),
            walked("/data/7/out", true),
            walked("/data/7/out/output.txt", false),
        ],
    )
    .unwrap();
    assert_eq!(entries.len(), 3);
    assert_eq!(entries[0].name, "run.sh");
    assert!(!entries[0].is_dir);
    assert_eq!(entries[0].source, "/data/7/run.sh");
    assert_eq!(entries[1].name, "out");
    assert!(entries[1].is_dir);
    assert_eq!(entries[2].name, "out/output.txt");
    assert!(!entries[2].is_dir);
    assert_eq!(entries[2].source, "/data/7/out/output.txt");
}

#[test]
fn archive_of_nothing() {
    assert!(zip_directory("/data/7", &Vec::new()).unwrap().is_empty());
    assert!(zip_directory("/data/7", &vec![walked("/data/7", true)]).unwrap().is_empty());
}

#[test]
fn archive_of_what_lies_elsewhere() {
    let r = zip_directory(
        "/data/7",
        &vec![walked("/data/7/a", false), walked("/data/70/b", false), walked("/data/7/c", false)],
    );
    assert_eq!(r.err(), Some(ArchiveError::PrefixMismatch));
    let r = zip_directory("/data/7", &vec![walked("/etc/passwd", false)]);
    assert_eq!(r.err(), Some(ArchiveError::PrefixMismatch));
}
