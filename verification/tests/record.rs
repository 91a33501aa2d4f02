use walk_transform::record::{parse_walk_line, WalkFields};
use walk_transform::{WalkError, WalkField};

#[test]
fn parse_walk_line_finds_the_fields() {
    let line: &[u8] = b"W\tsampleA\t0\tchr1\t5\t100\t>s1<s2\textra\n";
    let fields = parse_walk_line(line).unwrap();
    assert_eq!(fields.sample_id, b"sampleA");
    assert_eq!(fields.haplo_id, b"0");
    assert_eq!(fields.seq_id, b"chr1");
    assert_eq!(fields.seq_start, b"5");
    assert_eq!(fields.seq_end, b"100");
    assert_eq!(fields.walk, b">s1<s2");
}

#[test]
fn parse_walk_line_keeps_the_line_feed_in_the_last_field() {
    let fields = parse_walk_line(b"W\ta\tb\tc\td\te\t>1\n").unwrap();
    assert_eq!(fields.walk, b">1\n");
}

#[test]
fn parse_walk_line_names_the_missing_field() {
    assert_eq!(
        parse_walk_line(b"W\ta\tb\tc").err(),
        Some(WalkError::MissingField(WalkField::SeqStart))
    );
    assert_eq!(
        parse_walk_line(b"").err(),
        Some(WalkError::MissingField(WalkField::SampleId))
    );
}

#[test]
fn names_are_built_from_the_identity_fields() {
    let fields = WalkFields {
        sample_id: b"HG002",
        haplo_id: b"1",
        seq_id: b"chr20",
        seq_start: b"1000",
        seq_end: b"2000",
        walk: b">1",
    };
    assert_eq!(fields.path_name(), b"HG002#1#chr20:1000-2000$gfaffix".to_vec());
    assert_eq!(fields.identity(), b"HG002\t1\tchr20\t1000\t2000".to_vec());
}

#[test]
fn walk_has_no_part_in_the_names() {
    let a = WalkFields {
        sample_id: b"s",
        haplo_id: b"h",
        seq_id: b"q",
        seq_start: b"0",
        seq_end: b"1",
        walk: b">1>2",
    };
    let b = WalkFields { walk: b"<9", ..a };
    assert_eq!(a.path_name(), b.path_name());
    assert_eq!(a.identity(), b.identity());
}

#[test]
fn parse_walk_line_names_each_missing_field() {
    let cases: Vec<(&[u8], WalkField)> = vec![
        (b"W", WalkField::SampleId),
        (b"W\ta", WalkField::HaploId),
        (b"W\ta\tb", WalkField::SeqId),
        (b"W\ta\tb\tc", WalkField::SeqStart),
        (b"W\ta\tb\tc\td", WalkField::SeqEnd),
        (b"W\ta\tb\tc\td\te", WalkField::Walk),
    ];
    for (line, field) in cases {
        assert_eq!(
            parse_walk_line(line).err(),
            Some(WalkError::MissingField(field))
        );
    }
}

#[test]
fn parse_walk_line_takes_empty_fields() {
    let fields = parse_walk_line(b"W\t\t\t\t\t\t").unwrap();
    assert!(fields.sample_id.is_empty());
    assert!(fields.haplo_id.is_empty());
    assert!(fields.seq_id.is_empty());
    assert!(fields.seq_start.is_empty());
    assert!(fields.seq_end.is_empty());
    assert!(fields.walk.is_empty());
    assert_eq!(fields.path_name(), b"##:-$gfaffix".to_vec());
    assert_eq!(fields.identity(), b"\t\t\t\t".to_vec());
}

#[test]
fn every_path_name_ends_with_the_suffix() {
    assert_eq!(&walk_transform::record::NAME_SUFFIX, b"$gfaffix");
    let lines: Vec<&[u8]> = vec![
        b"W\ta\tb\tc\td\te\t>1",
        b"W\t\t\t\t\t\t",
        b"W\tsample\t0\tchr$gfaffix\t1\t2\t<3\n",
    ];
    for line in lines {
        let name = parse_walk_line(line).unwrap().path_name();
        assert!(name.ends_with(b"$gfaffix"));
    }
}
