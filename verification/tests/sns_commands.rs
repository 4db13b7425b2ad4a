use dfx_extensions::sns::{
    create_config_args, sns_canisters, sns_dfx_json_url, validate_config_args,
    validate_config_message, AddNnsRootOpts, NoProposerError, RemoveNnsRootOpts,
    SnsDownloadOpts, SnsProposeOpts, CONFIG_FILE_NAME, NNS_SNS_REPLICA_REV,
};

fn propose(id: Option<u64>, memo: Option<u64>, test: bool) -> Result<Vec<String>, NoProposerError> {
    SnsProposeOpts {
        neuron_id: id,
        neuron_memo: memo,
        test_neuron_proposer: test,
        init_config_file: "sns_init.yaml".to_string(),
    }
    .sns_cli_args()
}

#[test]
fn propose_with_neuron_id() {
    assert_eq!(
        propose(Some(18446744073709551615), None, false).unwrap(),
        vec!["propose", "--neuron-id", "18446744073709551615", "sns_init.yaml"]
    );
}

#[test]
fn propose_with_neuron_memo() {
    assert_eq!(
        propose(None, Some(0), false).unwrap(),
        vec!["propose", "--neuron-memo", "0", "sns_init.yaml"]
    );
}

#[test]
fn propose_with_test_neuron() {
    assert_eq!(
        propose(None, None, true).unwrap(),
        vec!["propose", "--test-neuron-proposer", "sns_init.yaml"]
    );
}

#[test]
fn propose_needs_exactly_one_neuron() {
    for (id, memo, test) in [
        (None, None, false),
        (Some(1), Some(2), false),
        (Some(1), None, true),
        (None, Some(2), true),
        (Some(1), Some(2), true),
    ] {
        let e = propose(id, memo, test).unwrap_err();
        assert_eq!(
            e.message(),
            "one of the arguments '--neuron-id <NEURON_ID>' or '--neuron-memo <NEURON_MEMO>' or --test-neuron-proposer must be used"
        );
    }
}

#[test]
fn nns_root_controller_args() {
    let add = AddNnsRootOpts { canister_ids: vec!["ryjl3-tyaaa-aaaaa-aaaba-cai".to_string()] };
    assert_eq!(
        add.sns_cli_args(),
        vec!["prepare-canisters", "add-nns-root", "ryjl3-tyaaa-aaaaa-aaaba-cai"]
    );
    let add_two = AddNnsRootOpts {
        canister_ids: vec![
            "rkp4c-7iaaa-aaaaa-aaaca-cai".to_string(),
            "6zikg-xaaaa-aaaaa-aabhq-cai".to_string(),
        ],
    };
    assert_eq!(
        add_two.sns_cli_args(),
        vec![
            "prepare-canisters",
            "add-nns-root",
            "rkp4c-7iaaa-aaaaa-aaaca-cai",
            "6zikg-xaaaa-aaaaa-aabhq-cai"
        ]
    );
    let remove = RemoveNnsRootOpts { canister_ids: vec!["a".to_string(), "b".to_string()] };
    assert_eq!(remove.sns_cli_args(), vec!["prepare-canisters", "remove-nns-root", "a", "b"]);
    let none = RemoveNnsRootOpts { canister_ids: vec![] };
    assert_eq!(none.sns_cli_args(), vec!["prepare-canisters", "remove-nns-root"]);
}

#[test]
fn config_file_args() {
    assert_eq!(
        create_config_args("/p/sns.yml"),
        vec!["init-config-file", "--init-config-file-path", "/p/sns.yml", "new"]
    );
    assert_eq!(
        validate_config_args("/p/sns.yml"),
        vec!["init-config-file", "--init-config-file-path", "/p/sns.yml", "validate"]
    );
    assert_eq!(validate_config_message("/p/sns.yml"), "SNS config file is valid: /p/sns.yml");
    assert_eq!(CONFIG_FILE_NAME, "sns.yml");
}

#[test]
fn download_commit_defaults_to_the_pinned_revision() {
    let opts = SnsDownloadOpts { ic_commit: None, wasms_dir: ".".to_string() };
    assert_eq!(opts.ic_commit_or_default(), NNS_SNS_REPLICA_REV);
    assert_eq!(NNS_SNS_REPLICA_REV, "721df73b943e87e2dad1d931819a2051401209a6");
    let opts = SnsDownloadOpts { ic_commit: Some("abc".to_string()), wasms_dir: ".".to_string() };
    assert_eq!(opts.ic_commit_or_default(), "abc");
}

#[test]
fn sns_dfx_json_location() {
    assert_eq!(
        sns_dfx_json_url("abc"),
        "https://raw.githubusercontent.com/dfinity/ic/abc/rs/sns/cli/dfx.json"
    );
}

#[test]
fn sns_canister_list() {
    let names: Vec<(&str, &str, &str)> = sns_canisters()
        .iter()
        .map(|c| (c.canister_name, c.upload_name, c.wasm_name))
        .collect();
    assert_eq!(
        names,
        vec![
            ("sns-root", "root", "sns-root-canister.wasm"),
            ("sns-governance", "governance", "sns-governance-canister.wasm"),
            ("sns-swap", "swap", "sns-swap-canister.wasm"),
            ("sns-ledger", "ledger", "ic-icrc1-ledger.wasm"),
            ("sns-ledger-archive", "archive", "ic-icrc1-archive.wasm"),
            ("sns-index", "index", "ic-icrc1-index.wasm"),
        ]
    );
}
