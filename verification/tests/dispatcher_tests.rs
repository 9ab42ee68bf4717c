use manta_ws::dispatcher::{parse_backend_tech, BackendDispatcher, BackendTech, Capability};
use manta_ws::error::ApiError;

#[test]
fn known_tags_parse() {
    assert_eq!(parse_backend_tech(&String::from("csm")), Some(BackendTech::Csm));
    assert_eq!(parse_backend_tech(&String::from("ochami")), Some(BackendTech::Ochami));
    assert_eq!(parse_backend_tech(&String::from("slurm")), None);
    assert_eq!(parse_backend_tech(&String::from("CSM")), None);
}

#[test]
fn construction_fixes_the_technology() {
    let d = BackendDispatcher::new(
        &String::from("csm"),
        &String::from("https://api.cmn.alps.example"),
        &vec![1, 2, 3],
    )
    .unwrap();
    assert_eq!(d.tech, BackendTech::Csm);
    assert_eq!(d.base_url, "https://api.cmn.alps.example");
    assert_eq!(d.root_cert, vec![1, 2, 3]);
}

#[test]
fn unknown_tag_fails_before_any_capability_call() {
    let r = BackendDispatcher::new(
        &String::from("foobar"),
        &String::from("https://api.example"),
        &Vec::new(),
    );
    match r {
        Err(ApiError::InvalidArgument(m)) => {
            assert_eq!(m, "Unknown backend technology 'foobar'");
        }
        _ => panic!("an unknown technology tag must fail with InvalidArgument"),
    }
}

#[test]
fn dispatch_is_exclusive_per_site() {
    let csm_site = BackendDispatcher::new(
        &String::from("csm"),
        &String::from("https://csm.example"),
        &Vec::new(),
    )
    .unwrap();
    let ochami_site = BackendDispatcher::new(
        &String::from("ochami"),
        &String::from("https://ochami.example"),
        &Vec::new(),
    )
    .unwrap();

    let token = String::from("tok");
    let nodes = vec![String::from("x1000c0s0b0n0")];
    let c1 = csm_site.plan(Capability::PowerOn, &token, &nodes);
    let c2 = ochami_site.plan(Capability::PowerOn, &token, &nodes);
    assert_eq!(c1.tech, BackendTech::Csm);
    assert_eq!(c2.tech, BackendTech::Ochami);
    assert_ne!(c1.tech, c2.tech);
    // A call planned by the csm-tagged dispatcher is never handed to the
    // ochami client path.
    assert_ne!(c1.tech, BackendTech::Ochami);
}

#[test]
fn plan_carries_call_data_unchanged() {
    let d = BackendDispatcher::new(
        &String::from("ochami"),
        &String::from("https://api.example"),
        &vec![9],
    )
    .unwrap();
    let token = String::from("secret-token");
    let targets = vec![String::from("n1"), String::from("n2")];
    let c = d.plan(Capability::GetBootParameters, &token, &targets);
    assert_eq!(c.capability, Capability::GetBootParameters);
    assert_eq!(c.base_url, "https://api.example");
    assert_eq!(c.token, "secret-token");
    assert_eq!(c.targets, vec!["n1", "n2"]);
}
