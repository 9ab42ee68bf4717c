use manta_ws::error::ApiError;
use manta_ws::query::{
    adjust_get_entries, boot_params_to_map, compute_get_entries, kernel_parameters_reply,
    missing_nodes, query_targets, usize_to_string, vet_get_entries, BootParam,
};

fn entry(k: &str, v: &str) -> (String, String) {
    (String::from(k), String::from(v))
}

#[test]
fn grouping_collects_values_per_key_in_order() {
    let entries = vec![
        entry("dc", "alps"),
        entry("node", "n1"),
        entry("node", "n2"),
        entry("node", "n1"),
    ];
    let m = adjust_get_entries(&entries);
    assert_eq!(m.len(), 2);
    assert_eq!(m[0].0, "dc");
    assert_eq!(m[0].1, vec!["alps"]);
    assert_eq!(m[1].0, "node");
    assert_eq!(m[1].1, vec!["n1", "n2", "n1"]);
}

#[test]
fn grouping_keeps_first_occurrence_order_of_keys() {
    let entries = vec![entry("b", "1"), entry("a", "2"), entry("b", "3")];
    let m = adjust_get_entries(&entries);
    assert_eq!(m.len(), 2);
    assert_eq!(m[0].0, "b");
    assert_eq!(m[0].1, vec!["1", "3"]);
    assert_eq!(m[1].0, "a");
    assert_eq!(m[1].1, vec!["2"]);
}

#[test]
fn vet_accepts_one_dc_and_nodes() {
    let m = adjust_get_entries(&vec![entry("dc", "alps"), entry("node", "n1")]);
    assert!(vet_get_entries(&m).is_ok());
}

#[test]
fn vet_rejects_unknown_keys_by_name() {
    let m = adjust_get_entries(&vec![entry("dc", "alps"), entry("rack", "r7")]);
    assert_eq!(vet_get_entries(&m).unwrap_err(), "Unrecognized key \"rack\"");
}

#[test]
fn vet_rejects_repeated_dc() {
    let m = adjust_get_entries(&vec![
        entry("dc", "alps"),
        entry("dc", "eiger"),
        entry("node", "n1"),
    ]);
    assert_eq!(
        vet_get_entries(&m).unwrap_err(),
        "One and only \"dc\" must be specified!"
    );
}

#[test]
fn vet_requires_dc_and_node() {
    let only_node = adjust_get_entries(&vec![entry("node", "n1")]);
    assert_eq!(
        vet_get_entries(&only_node).unwrap_err(),
        "One and only \"dc\" must be specified!"
    );
    let only_dc = adjust_get_entries(&vec![entry("dc", "alps")]);
    assert_eq!(
        vet_get_entries(&only_dc).unwrap_err(),
        "At least one \"node\" must be specified!"
    );
}

#[test]
fn compute_wraps_the_complaint_in_a_400() {
    let r = compute_get_entries(&vec![entry("cabinet", "x1000")]);
    let e = r.err().expect("an unknown key must be rejected");
    assert_eq!(e.code, 400);
    assert_eq!(e.reason, "Unrecognized key \"cabinet\"");
}

#[test]
fn compute_passes_a_valid_query_through() {
    let m = compute_get_entries(&vec![entry("dc", "alps"), entry("node", "n1")]).unwrap();
    assert_eq!(m.len(), 2);
}

#[test]
fn query_targets_reads_dc_and_nodes() {
    let m = adjust_get_entries(&vec![
        entry("dc", "alps"),
        entry("node", "n1"),
        entry("node", "n2"),
    ]);
    let (dc, nodes) = query_targets(&m).unwrap();
    assert_eq!(dc, "alps");
    assert_eq!(nodes, vec!["n1", "n2"]);
    assert!(query_targets(&adjust_get_entries(&vec![entry("node", "n1")])).is_none());
}

#[test]
fn boot_params_file_under_first_host_last_record_wins() {
    let bps = vec![
        BootParam {
            hosts: vec![String::from("n1"), String::from("n2")],
            params: String::from("console=ttyS0"),
        },
        BootParam {
            hosts: vec![String::from("n3")],
            params: String::from("quiet"),
        },
        BootParam {
            hosts: vec![String::from("n1")],
            params: String::from("console=tty0"),
        },
    ];
    let m = boot_params_to_map(&bps).unwrap();
    assert_eq!(m.len(), 2);
    assert_eq!(m[0].0, "n1");
    assert_eq!(m[0].1, "console=tty0");
    assert_eq!(m[1].0, "n3");
    assert_eq!(m[1].1, "quiet");
}

#[test]
fn boot_params_without_hosts_are_an_internal_error() {
    let bps = vec![BootParam { hosts: Vec::new(), params: String::from("quiet") }];
    match boot_params_to_map(&bps) {
        Err(ApiError::Internal(m)) => assert_eq!(m, "boot parameter record without hosts"),
        _ => panic!("a record without hosts must not be trusted"),
    }
}

#[test]
fn missing_nodes_keeps_request_order() {
    let requested = vec![
        String::from("n1"),
        String::from("n2"),
        String::from("n3"),
        String::from("n2"),
    ];
    let m = vec![(String::from("n2"), String::from("quiet"))];
    let missing = missing_nodes(&requested, &m);
    assert_eq!(missing, vec!["n1", "n3"]);
}

#[test]
fn decimal_rendering() {
    assert_eq!(usize_to_string(0), "0");
    assert_eq!(usize_to_string(7), "7");
    assert_eq!(usize_to_string(42), "42");
    assert_eq!(usize_to_string(1005), "1005");
}

#[test]
fn reply_is_ok_when_every_node_is_answered() {
    let xnames = vec![String::from("n1")];
    let m = vec![(String::from("n1"), String::from("quiet"))];
    assert!(kernel_parameters_reply(&xnames, &m).is_ok());
}

#[test]
fn reply_names_the_missing_nodes() {
    let xnames = vec![String::from("n1"), String::from("n2"), String::from("n3")];
    let m = vec![(String::from("n2"), String::from("quiet"))];
    let e = kernel_parameters_reply(&xnames, &m).unwrap_err();
    assert_eq!(e.code, 404);
    assert_eq!(e.reason, "2 nodes missing: n1,n3");
}

#[test]
fn reply_uses_the_singular_for_one_missing_node() {
    let xnames = vec![String::from("n1"), String::from("n2")];
    let m = vec![(String::from("n2"), String::from("quiet"))];
    let e = kernel_parameters_reply(&xnames, &m).unwrap_err();
    assert_eq!(e.code, 404);
    assert_eq!(e.reason, "1 node missing: n1");
}

#[test]
fn reply_rejects_more_answers_than_nodes() {
    let xnames = vec![String::from("n1")];
    let m = vec![
        (String::from("n1"), String::from("quiet")),
        (String::from("n2"), String::from("quiet")),
    ];
    let e = kernel_parameters_reply(&xnames, &m).unwrap_err();
    assert_eq!(e.code, 500);
}
