use manta_ws::config::{K8sAuth, K8sDetails, SiteEntry};
use manta_ws::dispatcher::BackendTech;
use manta_ws::error::ApiError;
use manta_ws::session::{
    console_session_request, filter_available_group_labels, health_target, log_session_request,
    parse_node_ids, plan_migration, HealthService, MigrationDecision,
};

fn site_with_k8s() -> SiteEntry {
    SiteEntry {
        name: String::from("alps"),
        backend: String::from("csm"),
        shasta_base_url: String::from("https://api.cmn.alps.example"),
        root_cert: vec![48, 130],
        k8s: Some(K8sDetails {
            api_url: String::from("https://k8s.alps.example:6442"),
            authentication: K8sAuth::Vault {
                base_url: String::from("https://vault.example"),
            },
        }),
    }
}

fn site_without_k8s() -> SiteEntry {
    SiteEntry { k8s: None, ..site_with_k8s() }
}

#[test]
fn console_request_succeeds_with_token_and_k8s() {
    let header = String::from("Bearer tok-123");
    let plan = console_session_request(
        &site_with_k8s(),
        Some(&header),
        &String::from("x1000c0s0b0n0"),
    )
    .unwrap();
    assert_eq!(plan.token, "tok-123");
    assert_eq!(plan.tech, BackendTech::Csm);
    assert_eq!(plan.site_name, "alps");
    assert_eq!(plan.node, "x1000c0s0b0n0");
    assert_eq!(plan.k8s.api_url, "https://k8s.alps.example:6442");
}

#[test]
fn console_request_without_k8s_fails_before_upgrade() {
    // `GET /console/x1000c0s0b0n0` with a valid token against a site
    // missing Kubernetes configuration must fail before the WebSocket
    // upgrade, not mid-session.
    let header = String::from("Bearer tok-123");
    let r = console_session_request(
        &site_without_k8s(),
        Some(&header),
        &String::from("x1000c0s0b0n0"),
    );
    match r {
        Err(ApiError::Internal(m)) => {
            assert_eq!(m, "k8s section not found in configuration");
        }
        _ => panic!("a site without k8s details must be rejected before the upgrade"),
    }
}

#[test]
fn console_request_without_token_is_unauthorized() {
    let r = console_session_request(&site_with_k8s(), None, &String::from("n0"));
    assert!(matches!(r, Err(ApiError::Unauthorized)));
}

#[test]
fn console_request_with_unknown_tech_is_invalid() {
    let mut site = site_with_k8s();
    site.backend = String::from("warewulf");
    let header = String::from("Bearer tok");
    let r = console_session_request(&site, Some(&header), &String::from("n0"));
    match r {
        Err(ApiError::InvalidArgument(m)) => {
            assert_eq!(m, "Unknown backend technology 'warewulf'");
        }
        _ => panic!("an unknown technology tag must be rejected"),
    }
}

#[test]
fn log_request_mirrors_console_checks() {
    let header = String::from("Bearer tok-9");
    let plan = log_session_request(&site_with_k8s(), Some(&header), &String::from("job-42"))
        .unwrap();
    assert_eq!(plan.token, "tok-9");
    assert_eq!(plan.session_name, "job-42");
    assert_eq!(plan.site_name, "alps");

    let r = log_session_request(&site_without_k8s(), Some(&header), &String::from("job-42"));
    assert!(matches!(r, Err(ApiError::Internal(_))));
}

#[test]
fn health_target_knows_cfs_and_bos() {
    assert_eq!(health_target(&String::from("cfs")).unwrap(), HealthService::Cfs);
    assert_eq!(health_target(&String::from("bos")).unwrap(), HealthService::Bos);
    match health_target(&String::from("pbs")) {
        Err(ApiError::InvalidArgument(m)) => assert_eq!(m, "Invalid service name"),
        _ => panic!("an unknown service name must be rejected"),
    }
}

#[test]
fn group_filter_keeps_only_available_labels_in_order() {
    let labels = vec![
        String::from("blue"),
        String::from("green"),
        String::from("red"),
        String::from("blue"),
    ];
    let available = vec![String::from("red"), String::from("blue")];
    let filtered = filter_available_group_labels(&labels, &available);
    assert_eq!(filtered, vec!["blue", "red", "blue"]);
}

#[test]
fn group_filter_with_nothing_available_is_empty() {
    let labels = vec![String::from("blue")];
    let filtered = filter_available_group_labels(&labels, &Vec::new());
    assert!(filtered.is_empty());
}

#[test]
fn migration_proceeds_when_target_exists() {
    assert_eq!(plan_migration(true, false), MigrationDecision::Proceed);
    assert_eq!(plan_migration(true, true), MigrationDecision::Proceed);
}

#[test]
fn migration_creates_missing_target_only_on_request() {
    assert_eq!(plan_migration(false, true), MigrationDecision::CreateThenMigrate);
    assert_eq!(plan_migration(false, false), MigrationDecision::Reject);
}

#[test]
fn node_ids_split_on_commas_and_trim() {
    let ids = String::from("x1000c0s0b0n0, x1000c0s0b0n1 ,\tx1000c0s0b1n0");
    let nodes = parse_node_ids(&ids);
    assert_eq!(nodes, vec!["x1000c0s0b0n0", "x1000c0s0b0n1", "x1000c0s0b1n0"]);
}

#[test]
fn node_ids_single_and_empty_segments() {
    assert_eq!(parse_node_ids(&String::from("n1")), vec!["n1"]);
    assert_eq!(parse_node_ids(&String::from("a,,b")), vec!["a", "", "b"]);
    assert_eq!(parse_node_ids(&String::from("")), vec![""]);
}
