use walk_transform::{record_from_read, ByteLineReader, ReadOutcome};

fn lines(data: &[u8]) -> Vec<Vec<u8>> {
    let mut reader = ByteLineReader::new(data.to_vec());
    let mut lines = Vec::new();
    while let Some(line) = reader.next_line() {
        lines.push(line);
    }
    assert_eq!(reader.next_line(), None);
    lines
}

#[test]
fn records_end_with_their_line_feed() {
    assert_eq!(
        lines(b"H\tVN:Z:1.1\nS\t1\tACGT\nW\ta\n"),
        vec![
            b"H\tVN:Z:1.1\n".to_vec(),
            b"S\t1\tACGT\n".to_vec(),
            b"W\ta\n".to_vec()
        ]
    );
}

#[test]
fn last_record_may_lack_the_line_feed() {
    assert_eq!(lines(b"a\nb"), vec![b"a\n".to_vec(), b"b".to_vec()]);
    assert_eq!(lines(b"abc"), vec![b"abc".to_vec()]);
}

#[test]
fn nothing_yields_no_record() {
    assert!(lines(b"").is_empty());
    let mut reader = ByteLineReader::new(Vec::new());
    assert_eq!(reader.next_line(), None);
    assert_eq!(reader.next_line(), None);
}

#[test]
fn blank_lines_are_records() {
    assert_eq!(
        lines(b"\n\nx\n\n"),
        vec![
            b"\n".to_vec(),
            b"\n".to_vec(),
            b"x\n".to_vec(),
            b"\n".to_vec()
        ]
    );
}

#[test]
fn records_put_together_are_the_input() {
    let data: &[u8] = b"one\ntwo\n\nthree\r\nfour";
    let joined: Vec<u8> = lines(data).into_iter().flatten().collect();
    assert_eq!(joined, data.to_vec());
}

#[test]
fn read_without_a_byte_ends_the_stream() {
    assert_eq!(record_from_read(ReadOutcome::Read(0), Vec::new()), None);
}

#[test]
fn read_with_bytes_yields_the_record() {
    assert_eq!(
        record_from_read(ReadOutcome::Read(4), b"S\t1\n".to_vec()),
        Some(b"S\t1\n".to_vec())
    );
    assert_eq!(
        record_from_read(ReadOutcome::Read(1), b"x".to_vec()),
        Some(b"x".to_vec())
    );
}

#[test]
fn failed_read_yields_what_was_read() {
    assert_eq!(
        record_from_read(ReadOutcome::Failed, b"S\t1".to_vec()),
        Some(b"S\t1".to_vec())
    );
    assert_eq!(
        record_from_read(ReadOutcome::Failed, Vec::new()),
        Some(Vec::new())
    );
}
