use dfx_extensions::nns::{
    check_installed_canister_id, check_provider_port, default_subnet_id, get_and_check_provider,
    ic_nns_init_args, last_replica_url, nns_dapp_canister_arguments, nns_details,
    nns_dfx_json_url, report_table, require_local_network, set_cmc_authorized_subnets_args,
    sns_aggregator_config, sns_subnet_id, IcNnsInitOpts, NnsDappCanisterIds, ProviderError,
    ReplicaUrlError, SchemaLabel, SubnetTopology,
};
use dfx_extensions::download::ic_repo_wasm_url;
use dfx_extensions::nns::{backend_init_arg, frontend_init_arg, BackendInitArg, FrontendInitArg};

#[test]
fn nns_dfx_json_location() {
    assert_eq!(
        nns_dfx_json_url(None, "abc"),
        "https://raw.githubusercontent.com/dfinity/ic/abc/rs/nns/dfx.json"
    );
    assert_eq!(nns_dfx_json_url(Some("/src/ic"), "abc"), "/src/ic/rs/nns/dfx.json");
}

#[test]
fn provider_on_port_8080_is_accepted() {
    let u = get_and_check_provider(Some("http://127.0.0.1:8080")).unwrap();
    assert_eq!(u.text(), "http://127.0.0.1:8080/");
    assert_eq!(u.port(), Some(8080));
}

#[test]
fn provider_on_another_port_is_refused() {
    match get_and_check_provider(Some("http://localhost:4943")) {
        Err(e @ ProviderError::UnsupportedPort(_)) => assert_eq!(
            e.message(),
            "dfx nns install supports only port 8080, not http://localhost:4943/. Please set the 'local' network's provider to '127.0.0.1:8080'."
        ),
        other => panic!("unexpected result {:?}", other),
    }
    assert!(matches!(
        get_and_check_provider(Some("http://localhost")),
        Err(ProviderError::UnsupportedPort(_))
    ));
}

#[test]
fn malformed_or_missing_provider_is_refused() {
    let e = get_and_check_provider(Some("127.0.0.1:8080")).unwrap_err();
    assert!(matches!(e, ProviderError::MalformedProviderUrl(_, _)));
    assert_eq!(e.message(), "Malformed provider URL in this environment: 127.0.0.1:8080");
    let e = get_and_check_provider(None).unwrap_err();
    assert!(matches!(e, ProviderError::NoProviders));
    assert_eq!(e.message(), "Environment has no providers");
}

#[test]
fn provider_port_check_on_given_url() {
    let ok = get_and_check_provider(Some("http://localhost:8080/x")).unwrap();
    assert_eq!(check_provider_port(ok).unwrap().text(), "http://localhost:8080/x");
    let bad = ic_repo_wasm_url("abc", "w").unwrap();
    assert!(matches!(
        check_provider_port(bad),
        Err(ProviderError::UnsupportedPort(t)) if t == "https://download.dfinity.systems/ic/abc/canisters/w.gz"
    ));
}

#[test]
fn replica_url_is_the_last_of_the_local_network() {
    assert!(require_local_network("local").is_ok());
    let e = require_local_network("ic").unwrap_err();
    assert_eq!(e, ReplicaUrlError::NotLocalNetwork);
    assert_eq!(e.message(), "dfx nns install can only deploy to the 'local' network.");
    assert_eq!(
        last_replica_url(vec!["http://a/".to_string(), "http://b/".to_string()]).unwrap(),
        "http://b/"
    );
    let e = last_replica_url(vec![]).unwrap_err();
    assert_eq!(e, ReplicaUrlError::NoReplicaUrls);
    assert_eq!(
        e.message(),
        "The list of replica URLs is empty; `dfx start` appears to be unhealthy."
    );
}

#[test]
fn ic_nns_init_arguments() {
    let opts = IcNnsInitOpts {
        nns_url: "http://localhost:8080/".to_string(),
        wasm_dir: "/cache/wasms".to_string(),
        test_accounts: vec!["acc1".to_string(), "acc2".to_string()],
        sns_subnets: Some("subnet".to_string()),
        local_registry_file: Some("/state/registry.proto".to_string()),
    };
    assert_eq!(
        ic_nns_init_args(&opts),
        vec![
            "--pass-specified-id",
            "--url",
            "http://localhost:8080/",
            "--wasm-dir",
            "/cache/wasms",
            "--initial-registry",
            "/state/registry.proto",
            "--initialize-ledger-with-test-accounts",
            "acc1",
            "--initialize-ledger-with-test-accounts",
            "acc2",
            "--sns-subnet",
            "subnet",
        ]
    );
    let bare = IcNnsInitOpts {
        nns_url: "u".to_string(),
        wasm_dir: "w".to_string(),
        test_accounts: vec![],
        sns_subnets: None,
        local_registry_file: None,
    };
    assert_eq!(ic_nns_init_args(&bare), vec!["--pass-specified-id", "--url", "u", "--wasm-dir", "w"]);
}

#[test]
fn cmc_authorized_subnet_arguments() {
    assert_eq!(
        set_cmc_authorized_subnets_args("http://localhost:8080/", "abc-def"),
        vec![
            "--nns-url",
            "http://localhost:8080/",
            "propose-to-set-authorized-subnetworks",
            "--test-neuron-proposer",
            "--proposal-title",
            "Set Cycles Minting Canister Authorized Subnets",
            "--summary",
            "Authorize the Cycles Minting Canister to create canisters in the subnet 'abc-def'.",
            "--subnets",
            "abc-def",
        ]
    );
}

fn topology(sns: Option<&str>, app: &[&str], system: &[&str]) -> Option<SubnetTopology> {
    Some(SubnetTopology {
        sns: sns.map(|s| s.to_string()),
        app_subnets: app.iter().map(|s| s.to_string()).collect(),
        system_subnets: system.iter().map(|s| s.to_string()).collect(),
    })
}

#[test]
fn subnet_choices() {
    let root = "root".to_string();
    assert_eq!(sns_subnet_id(&None, &root), "root");
    assert_eq!(sns_subnet_id(&topology(Some("sns"), &[], &[]), &root), "sns");
    assert_eq!(sns_subnet_id(&topology(None, &["a"], &[]), &root), "root");
    assert_eq!(default_subnet_id(&None, &root), "root");
    assert_eq!(default_subnet_id(&topology(None, &["a1", "a2"], &["s1"]), &root), "a1");
    assert_eq!(default_subnet_id(&topology(None, &[], &["s1", "s2"]), &root), "s1");
    assert_eq!(default_subnet_id(&topology(Some("sns"), &[], &[]), &root), "root");
}

#[test]
fn installed_canister_id_check() {
    let name = "nns-dapp".to_string();
    let expected = "abc".to_string();
    assert!(check_installed_canister_id(&name, &expected, "abc".to_string()).is_ok());
    let e = check_installed_canister_id(&name, &expected, "xyz".to_string()).unwrap_err();
    assert_eq!(
        e.message(),
        "Canister 'nns-dapp' was installed at an incorrect canister ID.  Expected 'abc' but got 'xyz'."
    );
}

#[test]
fn frontend_canister_arguments() {
    let c = sns_aggregator_config();
    assert_eq!((c.update_interval_ms, c.fast_interval_ms), (1_000, 100));
    let ids = NnsDappCanisterIds {
        icrc1_index: "i1".to_string(),
        icrc1_ledger: "l1".to_string(),
        internet_identity: "ii".to_string(),
        icp_index: "ix".to_string(),
        nns_dapp: "nd".to_string(),
        sns_aggregator: "sa".to_string(),
    };
    let a = nns_dapp_canister_arguments(&ids);
    assert_eq!(a.schema, Some(SchemaLabel::AccountsInStableMemory));
    assert_eq!(a.args.len(), 18);
    assert_eq!(a.args[0], ("API_HOST".to_string(), "http://localhost:8080".to_string()));
    assert_eq!(a.args[1], ("CKETH_INDEX_CANISTER_ID".to_string(), "i1".to_string()));
    assert_eq!(
        a.args[9],
        ("IDENTITY_SERVICE_URL".to_string(), "http://ii.localhost:8080".to_string())
    );
    assert_eq!(
        a.args[14],
        ("SNS_AGGREGATOR_URL".to_string(), "http://sa.localhost:8080".to_string())
    );
    assert_eq!(a.args[16], ("TVL_CANISTER_ID".to_string(), "".to_string()));
    assert_eq!(
        a.args[17],
        ("WASM_CANISTER_ID".to_string(), "qaa6y-5yaaa-aaaaa-aaafa-cai".to_string())
    );
}

#[test]
fn report_lines_are_aligned() {
    let rows = vec![
        ("nns-registry".to_string(), "rwlgt-iiaaa-aaaaa-aaaaa-cai".to_string()),
        ("a-name-longer-than-twenty".to_string(), "x".to_string()),
    ];
    assert_eq!(
        report_table(&rows),
        format!("{:20}  {}\n{:20}  {}\n", rows[0].0, rows[0].1, rows[1].0, rows[1].1)
    );
    assert_eq!(report_table(&rows), "nns-registry          rwlgt-iiaaa-aaaaa-aaaaa-cai\na-name-longer-than-twenty  x\n");
}

#[test]
fn nns_details_report() {
    let backend = vec![("nns-root".to_string(), "r7inp-6aaaa-aaaaa-aaabq-cai".to_string())];
    let frontend = vec![("nns-dapp".to_string(), "http://q.localhost:8080/".to_string())];
    let expected = format!(
        r#"

######################################
# NNS CANISTER INSTALLATION COMPLETE #
######################################

Backend canisters:
{}

Frontend canisters:
{}

"#,
        format!("{:20}  {}\n", backend[0].0, backend[0].1),
        format!("{:20}  {}\n", frontend[0].0, frontend[0].1),
    );
    assert_eq!(nns_details(&backend, &frontend), expected);
}

#[test]
fn init_arguments_are_chosen_by_canister_id() {
    assert_eq!(backend_init_arg("l", "l", "i", "x"), BackendInitArg::CkEthLedger);
    assert_eq!(backend_init_arg("i", "l", "i", "x"), BackendInitArg::CkEthIndex);
    assert_eq!(backend_init_arg("x", "l", "i", "x"), BackendInitArg::IcpIndex);
    assert_eq!(backend_init_arg("y", "l", "i", "x"), BackendInitArg::NoArgument);
    assert_eq!(frontend_init_arg("d", "d", "a"), FrontendInitArg::NnsDapp);
    assert_eq!(frontend_init_arg("a", "d", "a"), FrontendInitArg::SnsAggregator);
    assert_eq!(frontend_init_arg("z", "d", "a"), FrontendInitArg::NoArgument);
}
