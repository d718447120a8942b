use session_mapper::matcher::{find_in_table, match_session_and_get_host};
use session_mapper::query::{check_project_id, make_table_file_name, plan_query, QueryPlan};
use session_mapper::resolve::{find_local_address, not_found_sentinel, output, respond};

const NULL: &[u8] = b"NULL";

#[test]
fn known_session_resolves_to_its_host() {
    let table = b"s1 host-a:9001\n";
    let r = respond(b"alpha s1\n", Some(table));
    assert_eq!(r, b"host-a:9001".to_vec());
}

#[test]
fn absent_table_resolves_to_sentinel() {
    let r = respond(b"alpha s1\n", None);
    assert_eq!(r, NULL.to_vec());
}

#[test]
fn single_token_query_resolves_to_sentinel() {
    let table = b"s1 host-a:9001\n";
    assert_eq!(respond(b"alpha\n", Some(table)), NULL.to_vec());
    assert_eq!(respond(b"alpha\n", None), NULL.to_vec());
}

#[test]
fn three_token_query_resolves_to_sentinel() {
    let table = b"s1 host-a:9001\n";
    assert_eq!(respond(b"alpha s1 extra\n", Some(table)), NULL.to_vec());
}

#[test]
fn empty_query_line_resolves_to_sentinel() {
    assert_eq!(respond(b"\n", None), NULL.to_vec());
    assert_eq!(respond(b"   \n", None), NULL.to_vec());
}

#[test]
fn separator_in_project_id_is_rejected() {
    let table = b"s1 host-a:9001\n";
    assert_eq!(respond(b"al/pha s1\n", Some(table)), NULL.to_vec());
    assert!(matches!(plan_query(b"al/pha s1\n"), QueryPlan::Rejected));
}

#[test]
fn oversized_line_is_rejected_before_any_lookup() {
    let mut line = vec![b'a'; 99];
    line.push(b' ');
    line.push(b's');
    assert_eq!(line.len(), 101);
    assert!(matches!(plan_query(&line), QueryPlan::Rejected));
    assert_eq!(respond(&line, Some(b"s host:1\n")), NULL.to_vec());
}

#[test]
fn line_at_the_ceiling_is_still_served() {
    // 98 bytes of project id, one space, one session byte: exactly 100.
    let project = vec![b'p'; 98];
    let mut line = project.clone();
    line.push(b' ');
    line.push(b's');
    assert_eq!(line.len(), 100);
    let table = b"s host-x:1\n";
    assert_eq!(respond(&line, Some(table)), b"host-x:1".to_vec());
}

#[test]
fn duplicate_session_first_match_wins() {
    let table = b"s1 host-b:9002\ns1 host-c:9003\n";
    assert_eq!(respond(b"beta s1\n", Some(table)), b"host-b:9002".to_vec());
}

#[test]
fn later_record_is_found_after_non_matching_lines() {
    let table = b"s1 host-a:9001\ns2 host-b:9002\ns3 host-c:9003\n";
    assert_eq!(respond(b"p s3\n", Some(table)), b"host-c:9003".to_vec());
}

#[test]
fn unknown_session_resolves_to_sentinel() {
    let table = b"s1 host-a:9001\n";
    assert_eq!(respond(b"alpha s9\n", Some(table)), NULL.to_vec());
}

#[test]
fn malformed_table_line_is_skipped() {
    let table = b"loneword\ns1 host-a:9001\n";
    assert_eq!(respond(b"alpha s1\n", Some(table)), b"host-a:9001".to_vec());
}

#[test]
fn table_with_crlf_endings_matches() {
    let table = b"s1 host-a:9001\r\ns2 host-b:9002\r\n";
    assert_eq!(respond(b"alpha s2\n", Some(table)), b"host-b:9002".to_vec());
}

#[test]
fn session_match_is_exact_and_case_sensitive() {
    let table = b"s1 host-a:9001\n";
    assert_eq!(respond(b"alpha S1\n", Some(table)), NULL.to_vec());
    assert_eq!(respond(b"alpha s\n", Some(table)), NULL.to_vec());
    assert_eq!(respond(b"alpha s12\n", Some(table)), NULL.to_vec());
}

#[test]
fn same_query_twice_gets_the_same_response() {
    let table = b"s1 host-a:9001\n";
    let first = respond(b"alpha s1\n", Some(table));
    let second = respond(b"alpha s1\n", Some(table));
    assert_eq!(first, second);
    let first = respond(b"alpha s9\n", Some(table));
    let second = respond(b"alpha s9\n", Some(table));
    assert_eq!(first, second);
}

#[test]
fn responses_keep_query_order_even_when_some_fail() {
    let table: &[u8] = b"s1 host-a:9001\n";
    let queries: Vec<(&[u8], Option<&[u8]>)> = vec![
        (b"alpha s1\n", Some(table)),
        (b"alpha s9\n", Some(table)),
        (b"alpha s1\n", None),
        (b"bad/id s1\n", Some(table)),
        (b"alpha s1\n", Some(table)),
    ];
    let mut responses: Vec<Vec<u8>> = Vec::new();
    for (line, t) in queries {
        responses.push(respond(line, t));
    }
    assert_eq!(responses.len(), 5);
    assert_eq!(responses[0], b"host-a:9001".to_vec());
    assert_eq!(responses[1], NULL.to_vec());
    assert_eq!(responses[2], NULL.to_vec());
    assert_eq!(responses[3], NULL.to_vec());
    assert_eq!(responses[4], b"host-a:9001".to_vec());
}

#[test]
fn find_local_address_returns_none_on_failures() {
    let table: &[u8] = b"s1 host-a:9001\n";
    assert_eq!(
        find_local_address(b"alpha s1\n", Some(table)),
        Some(b"host-a:9001".to_vec())
    );
    assert_eq!(find_local_address(b"alpha s1\n", None), None);
    assert_eq!(find_local_address(b"alpha s2\n", Some(table)), None);
    assert_eq!(find_local_address(b"alpha\n", Some(table)), None);
}

#[test]
fn match_line_returns_host_only_on_exact_first_token() {
    assert_eq!(
        match_session_and_get_host(b"s1 host-a:9001", b"s1"),
        Some(b"host-a:9001".to_vec())
    );
    assert_eq!(match_session_and_get_host(b"s1 host-a:9001", b"s2"), None);
    assert_eq!(match_session_and_get_host(b"s1", b"s1"), None);
    assert_eq!(match_session_and_get_host(b"", b"s1"), None);
    assert_eq!(
        match_session_and_get_host(b"  s1   host-a:9001  ", b"s1"),
        Some(b"host-a:9001".to_vec())
    );
}

#[test]
fn find_in_table_scans_top_to_bottom() {
    let table = b"a h1\nb h2\na h3\n";
    assert_eq!(find_in_table(table, b"a"), Some(b"h1".to_vec()));
    assert_eq!(find_in_table(table, b"b"), Some(b"h2".to_vec()));
    assert_eq!(find_in_table(table, b"c"), None);
    assert_eq!(find_in_table(b"", b"a"), None);
}

#[test]
fn plan_names_the_project_table_file() {
    match plan_query(b"alpha s1\n") {
        QueryPlan::Lookup { file_name, session } => {
            assert_eq!(file_name, b"alpha.proxy.txt".to_vec());
            assert_eq!(session, b"s1".to_vec());
        }
        QueryPlan::Rejected => panic!("well-formed query was rejected"),
    }
}

#[test]
fn table_file_name_appends_the_fixed_suffix() {
    assert_eq!(make_table_file_name(b"alpha"), b"alpha.proxy.txt".to_vec());
    assert_eq!(make_table_file_name(b""), b".proxy.txt".to_vec());
}

#[test]
fn project_id_check_rejects_only_separators() {
    assert!(check_project_id(b"alpha"));
    assert!(check_project_id(b"a-b_c.9"));
    assert!(!check_project_id(b"al/pha"));
    assert!(!check_project_id(b"/"));
    assert!(check_project_id(b""));
}

#[test]
fn sentinel_and_output_render_protocol_lines() {
    assert_eq!(not_found_sentinel(), NULL.to_vec());
    assert_eq!(output(b"host-a:9001"), b"host-a:9001\n".to_vec());
    assert_eq!(output(NULL), b"NULL\n".to_vec());
}
