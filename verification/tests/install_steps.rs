use dfx_extensions::install::{
    install_nns_start, install_nns_step, local_nns_canister_ids, nns_ids_available,
    nns_test_accounts, replica_type_is_system, InstallAction, InstallEvent, InstallFailure,
    InstallPhase, InstallState, ReplicaSubnetType, ED25519_TEST_ACCOUNT, SECP256K1_TEST_ACCOUNT,
};
use dfx_extensions::nns::{
    canister_url, frontend_rows, get_and_check_provider, nns_report, SubnetTopology,
};

fn pairs(v: &[(&str, &str)]) -> Vec<(String, String)> {
    v.iter().map(|(a, b)| (a.to_string(), b.to_string())).collect()
}

fn start() -> (InstallState, InstallAction) {
    install_nns_start(
        pairs(&[("nns-registry", "r1"), ("nns-governance", "g1")]),
        pairs(&[("ckETH_ledger", "l1")]),
        pairs(&[("internet_identity", "i1"), ("nns-dapp", "d1")]),
    )
}

fn provider() -> dfx_extensions::address::ParsedUrl {
    get_and_check_provider(Some("http://localhost:8080")).unwrap()
}

fn step(s: InstallState, e: InstallEvent) -> (InstallState, InstallAction) {
    install_nns_step(s, e)
}

#[test]
fn test_accounts_come_first() {
    let r = nns_test_accounts(&vec!["abc".to_string(), "def".to_string()]);
    assert_eq!(r, vec![ED25519_TEST_ACCOUNT, SECP256K1_TEST_ACCOUNT, "abc", "def"]);
    assert_eq!(nns_test_accounts(&vec![]), vec![ED25519_TEST_ACCOUNT, SECP256K1_TEST_ACCOUNT]);
}

#[test]
fn replica_type_must_be_system() {
    assert!(replica_type_is_system(Some(ReplicaSubnetType::System)));
    assert!(!replica_type_is_system(Some(ReplicaSubnetType::Application)));
    assert!(!replica_type_is_system(None));
}

#[test]
fn canister_ids_must_be_free() {
    let core = pairs(&[("a", "1"), ("b", "2"), ("c", "3")]);
    assert_eq!(nns_ids_available(&core, &vec![false, false, false]), Ok(()));
    assert_eq!(nns_ids_available(&core, &vec![false, true, true]), Err("b".to_string()));
    assert_eq!(nns_ids_available(&vec![], &vec![]), Ok(()));
}

#[test]
fn local_ids_are_those_listed_in_dfx_json() {
    let core = pairs(&[("a", "1"), ("b", "2"), ("c", "3")]);
    assert_eq!(local_nns_canister_ids(&core, &vec![true, false, true]), pairs(&[("a", "1"), ("c", "3")]));
    assert_eq!(local_nns_canister_ids(&core, &vec![false, false, false]), vec![]);
}

#[test]
fn full_installation_without_topology() {
    let (s, a) = start();
    assert!(matches!(a, InstallAction::FetchTopology));
    let (s, a) = step(s, InstallEvent::Topology(None));
    assert!(matches!(a, InstallAction::CheckReplicaType));
    let (s, a) = step(s, InstallEvent::ReplicaType(Some(ReplicaSubnetType::System)));
    assert!(matches!(a, InstallAction::CheckCanisterIds));
    let (s, a) = step(s, InstallEvent::IdsTaken(vec![false, false]));
    assert!(matches!(a, InstallAction::CheckProvider));
    let (s, a) = step(s, InstallEvent::ProviderUrl(provider()));
    assert!(matches!(a, InstallAction::FetchRootSubnet));
    let (s, a) = step(s, InstallEvent::RootSubnet("root".to_string()));
    assert!(matches!(a, InstallAction::DownloadWasms));
    assert_eq!(s.sns_subnet, "root");
    assert_eq!(s.default_subnet, "root");
    let (s, a) = step(s, InstallEvent::Succeeded);
    match a {
        InstallAction::RunNnsInit { nns_url, sns_subnet } => {
            assert_eq!(nns_url, "http://localhost:8080/");
            assert_eq!(sns_subnet, "root");
        }
        other => panic!("unexpected {other:?}"),
    }
    let (s, a) = step(s, InstallEvent::Succeeded);
    assert!(matches!(a, InstallAction::UploadSnsWasms));
    let (s, a) = step(s, InstallEvent::Succeeded);
    assert!(matches!(a, InstallAction::InstallManual(0)));
    let (s, a) = step(s, InstallEvent::Installed("l1".to_string()));
    assert!(matches!(a, InstallAction::InstallFrontend(0)));
    let (s, a) = step(s, InstallEvent::Installed("i1".to_string()));
    assert!(matches!(a, InstallAction::InstallFrontend(1)));
    let (s, a) = step(s, InstallEvent::Installed("d1".to_string()));
    match a {
        InstallAction::AuthorizeCmcSubnet { nns_url, subnet } => {
            assert_eq!(nns_url, "http://localhost:8080/");
            assert_eq!(subnet, "root");
        }
        other => panic!("unexpected {other:?}"),
    }
    let (s, a) = step(s, InstallEvent::Succeeded);
    match a {
        InstallAction::PrintReport { provider_url: Some(u) } => {
            assert_eq!(u.text(), "http://localhost:8080/")
        }
        other => panic!("unexpected {other:?}"),
    }
    assert!(s.provider.is_none());
    let (s, a) = step(s, InstallEvent::Succeeded);
    assert!(matches!(a, InstallAction::Stop(Ok(()))));
    assert_eq!(s.phase, InstallPhase::Finished);
    let (_, a) = step(s, InstallEvent::Succeeded);
    assert!(matches!(a, InstallAction::Stop(Err(InstallFailure::UnexpectedEvent))));
}

#[test]
fn topology_skips_the_replica_type_and_picks_subnets() {
    let (s, _) = start();
    let topology = SubnetTopology {
        sns: Some("sns".to_string()),
        app_subnets: vec!["app1".to_string(), "app2".to_string()],
        system_subnets: vec!["sys".to_string()],
    };
    let (s, a) = step(s, InstallEvent::Topology(Some(topology)));
    assert!(matches!(a, InstallAction::CheckCanisterIds));
    let (s, _) = step(s, InstallEvent::IdsTaken(vec![false, false]));
    let (s, _) = step(s, InstallEvent::ProviderUrl(provider()));
    let (s, _) = step(s, InstallEvent::RootSubnet("root".to_string()));
    assert_eq!(s.sns_subnet, "sns");
    assert_eq!(s.default_subnet, "app1");
}

#[test]
fn the_first_failure_stops_the_installation() {
    let (s, _) = start();
    let (s, _) = step(s, InstallEvent::Topology(None));
    let (s, a) = step(s, InstallEvent::ReplicaType(Some(ReplicaSubnetType::Application)));
    assert!(matches!(
        a,
        InstallAction::Stop(Err(InstallFailure::ReplicaTypeNotSystem(Some(ReplicaSubnetType::Application))))
    ));
    assert_eq!(s.phase, InstallPhase::Finished);

    let (s, _) = start();
    let (s, _) = step(s, InstallEvent::Topology(None));
    let (s, _) = step(s, InstallEvent::ReplicaType(Some(ReplicaSubnetType::System)));
    let (_, a) = step(s, InstallEvent::IdsTaken(vec![false, true]));
    assert!(matches!(a, InstallAction::Stop(Err(InstallFailure::CanisterIdTaken(ref n))) if n == "nns-governance"));

    let (s, _) = start();
    let (_, a) = step(s, InstallEvent::Failed("no network".to_string()));
    assert!(matches!(a, InstallAction::Stop(Err(InstallFailure::StepFailed(ref m))) if m == "no network"));
}

#[test]
fn a_canister_at_the_wrong_id_stops_the_installation() {
    let (s, _) = start();
    let (s, _) = step(s, InstallEvent::Topology(None));
    let (s, _) = step(s, InstallEvent::ReplicaType(Some(ReplicaSubnetType::System)));
    let (s, _) = step(s, InstallEvent::IdsTaken(vec![false, false]));
    let (s, _) = step(s, InstallEvent::ProviderUrl(provider()));
    let (s, _) = step(s, InstallEvent::RootSubnet("root".to_string()));
    let (s, _) = step(s, InstallEvent::Succeeded);
    let (s, _) = step(s, InstallEvent::Succeeded);
    let (s, _) = step(s, InstallEvent::Succeeded);
    let (_, a) = step(s, InstallEvent::Installed("zz".to_string()));
    match a {
        InstallAction::Stop(Err(InstallFailure::IncorrectCanisterId(e))) => assert_eq!(
            e.message(),
            "Canister 'ckETH_ledger' was installed at an incorrect canister ID.  Expected 'l1' but got 'zz'."
        ),
        other => panic!("unexpected {other:?}"),
    }
}

#[test]
fn canister_urls_are_subdomains_of_localhost() {
    let provider = get_and_check_provider(Some("http://127.0.0.1:8080")).unwrap();
    assert_eq!(
        canister_url(&provider, "qhbym-qaaaa-aaaaa-aaafq-cai"),
        "http://qhbym-qaaaa-aaaaa-aaafq-cai.localhost:8080/"
    );
    let rows = frontend_rows(&provider, &pairs(&[("nns-dapp", "abc")]));
    assert_eq!(rows, pairs(&[("nns-dapp", "http://abc.localhost:8080/")]));
    let report = nns_report(
        &provider,
        &pairs(&[("nns-ledger", "ryjl3-tyaaa-aaaaa-aaaba-cai")]),
        &pairs(&[("nns-dapp", "abc")]),
    );
    assert!(report.contains("nns-ledger            ryjl3-tyaaa-aaaaa-aaaba-cai\n"));
    assert!(report.contains("nns-dapp              http://abc.localhost:8080/\n"));
}
