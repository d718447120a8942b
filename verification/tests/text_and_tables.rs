use session_mapper::table::{line_to_mapping, table_mappings};
use session_mapper::text::{bytes_eq, split_lines, split_tokens};

#[test]
fn tokens_split_on_runs_of_whitespace() {
    assert_eq!(
        split_tokens(b"alpha s1"),
        vec![b"alpha".to_vec(), b"s1".to_vec()]
    );
    assert_eq!(
        split_tokens(b"  alpha \t s1 \r\n"),
        vec![b"alpha".to_vec(), b"s1".to_vec()]
    );
    assert_eq!(split_tokens(b""), Vec::<Vec<u8>>::new());
    assert_eq!(split_tokens(b" \t\n"), Vec::<Vec<u8>>::new());
    assert_eq!(
        split_tokens(b"a b c"),
        vec![b"a".to_vec(), b"b".to_vec(), b"c".to_vec()]
    );
}

#[test]
fn lines_split_on_line_feeds() {
    assert_eq!(
        split_lines(b"a h1\nb h2\n"),
        vec![b"a h1".to_vec(), b"b h2".to_vec()]
    );
    assert_eq!(split_lines(b"a h1"), vec![b"a h1".to_vec()]);
    assert_eq!(split_lines(b""), Vec::<Vec<u8>>::new());
    assert_eq!(split_lines(b"\n"), vec![b"".to_vec()]);
    assert_eq!(
        split_lines(b"a h1\r\nb h2"),
        vec![b"a h1".to_vec(), b"b h2".to_vec()]
    );
}

#[test]
fn byte_string_equality_is_exact() {
    assert!(bytes_eq(b"abc", b"abc"));
    assert!(!bytes_eq(b"abc", b"abd"));
    assert!(!bytes_eq(b"abc", b"ab"));
    assert!(bytes_eq(b"", b""));
}

#[test]
fn record_line_parses_into_a_mapping() {
    let m = line_to_mapping(b"s1 host-a:9001");
    assert_eq!(m.session_id, b"s1".to_vec());
    assert_eq!(m.host, b"host-a:9001".to_vec());
    let m = line_to_mapping(b"s1 host-a:9001 trailing");
    assert_eq!(m.session_id, b"s1".to_vec());
    assert_eq!(m.host, b"host-a:9001".to_vec());
}

#[test]
fn whole_table_parses_into_mappings_in_order() {
    let ms = table_mappings(b"s1 host-a:9001\ns2 host-b:9002\n");
    assert_eq!(ms.len(), 2);
    assert_eq!(ms[0].session_id, b"s1".to_vec());
    assert_eq!(ms[0].host, b"host-a:9001".to_vec());
    assert_eq!(ms[1].session_id, b"s2".to_vec());
    assert_eq!(ms[1].host, b"host-b:9002".to_vec());
}
