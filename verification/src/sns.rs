use vstd::prelude::*;

use crate::text::{decimal, decimal_string, string_views};

verus! {

/// The default location of an SNS configuration file.
pub const CONFIG_FILE_NAME: &'static str = "sns.yml";

/// The replica revision of the NNS and SNS canisters, whose versions depend
/// on each other.
pub const NNS_SNS_REPLICA_REV: &'static str = "721df73b943e87e2dad1d931819a2051401209a6";

/// Information required for wasms uploaded to the nns-sns-wasm canister.
#[derive(Debug)]
pub struct SnsCanisterInstallation {
    /// The name of the canister as typically added to dfx.json.
    pub canister_name: &'static str,
    /// The name used when uploading to the nns-sns-wasm canister.
    pub upload_name: &'static str,
    /// The basename of the wasm file.
    pub wasm_name: &'static str,
}

impl SnsCanisterInstallation {
    /// The three names of the installation.
    pub open spec fn names(&self) -> (Seq<char>, Seq<char>, Seq<char>) {
        (self.canister_name@, self.upload_name@, self.wasm_name@)
    }
}

/// The SNS canisters hosted by the nns-sns-wasms canister: root,
/// governance, swap, ledger, ledger archive and index, in that order.
pub fn sns_canisters() -> (r: Vec<SnsCanisterInstallation>)
    ensures
        r@.len() == 6,
        r@[0].names() == ("sns-root"@, "root"@, "sns-root-canister.wasm"@),
        r@[1].names() == ("sns-governance"@, "governance"@, "sns-governance-canister.wasm"@),
        r@[2].names() == ("sns-swap"@, "swap"@, "sns-swap-canister.wasm"@),
        r@[3].names() == ("sns-ledger"@, "ledger"@, "ic-icrc1-ledger.wasm"@),
        r@[4].names() == ("sns-ledger-archive"@, "archive"@, "ic-icrc1-archive.wasm"@),
        r@[5].names() == ("sns-index"@, "index"@, "ic-icrc1-index.wasm"@),
{
    let mut r: Vec<SnsCanisterInstallation> = Vec::new();
    r.push(
        SnsCanisterInstallation {
            canister_name: "sns-root",
            upload_name: "root",
            wasm_name: "sns-root-canister.wasm",
        },
    );
    r.push(
        SnsCanisterInstallation {
            canister_name: "sns-governance",
            upload_name: "governance",
            wasm_name: "sns-governance-canister.wasm",
        },
    );
    r.push(
        SnsCanisterInstallation {
            canister_name: "sns-swap",
            upload_name: "swap",
            wasm_name: "sns-swap-canister.wasm",
        },
    );
    r.push(
        SnsCanisterInstallation {
            canister_name: "sns-ledger",
            upload_name: "ledger",
            wasm_name: "ic-icrc1-ledger.wasm",
        },
    );
    r.push(
        SnsCanisterInstallation {
            canister_name: "sns-ledger-archive",
            upload_name: "archive",
            wasm_name: "ic-icrc1-archive.wasm",
        },
    );
    r.push(
        SnsCanisterInstallation {
            canister_name: "sns-index",
            upload_name: "index",
            wasm_name: "ic-icrc1-index.wasm",
        },
    );
    r
}

/// Options of `dfx sns propose`.
#[derive(Debug)]
pub struct SnsProposeOpts {
    /// The id of the neuron with which to make the proposal.
    pub neuron_id: Option<u64>,
    /// The memo that, with the current identity, identifies the neuron.
    pub neuron_memo: Option<u64>,
    /// Whether to use the test neuron of a local NNS.
    pub test_neuron_proposer: bool,
    /// Path to the configuration file of the SNS to be created.
    pub init_config_file: String,
}

/// `dfx sns propose` was not told which neuron makes the proposal, or was
/// told more than one way.
#[derive(Debug)]
pub struct NoProposerError;

impl NoProposerError {
    /// The message of the error.
    pub fn message(&self) -> (r: String)
        ensures
            r@
                == "one of the arguments '--neuron-id <NEURON_ID>' or '--neuron-memo <NEURON_MEMO>' or --test-neuron-proposer must be used"@,
    {
        "one of the arguments '--neuron-id <NEURON_ID>' or '--neuron-memo <NEURON_MEMO>' or --test-neuron-proposer must be used".to_owned()
    }
}

/// The arguments that select the proposing neuron: exactly one of a neuron
/// id, a neuron memo and the test neuron must be chosen.
pub open spec fn proposer_args(
    neuron_id: Option<u64>,
    neuron_memo: Option<u64>,
    test_neuron_proposer: bool,
) -> Option<Seq<Seq<char>>> {
    match (neuron_id, neuron_memo, test_neuron_proposer) {
        (Some(id), None, false) => Some(seq!["--neuron-id"@, decimal(id as nat)]),
        (None, Some(memo), false) => Some(seq!["--neuron-memo"@, decimal(memo as nat)]),
        (None, None, true) => Some(seq!["--test-neuron-proposer"@]),
        _ => None,
    }
}

impl SnsProposeOpts {
    /// The arguments of `sns-cli` for the proposal: `propose`, the choice
    /// of neuron, and the configuration file.
    pub fn sns_cli_args(&self) -> (r: Result<Vec<String>, NoProposerError>)
        ensures
            match proposer_args(self.neuron_id, self.neuron_memo, self.test_neuron_proposer) {
                Some(p) => r matches Ok(args) && string_views(args@) == seq!["propose"@] + p
                    + seq![self.init_config_file@],
                None => r is Err,
            },
    {
        let mut args: Vec<String> = Vec::new();
        args.push("propose".to_owned());
        match (self.neuron_id, self.neuron_memo, self.test_neuron_proposer) {
            (Some(neuron_id), None, false) => {
                args.push("--neuron-id".to_owned());
                args.push(decimal_string(neuron_id));
            },
            (None, Some(neuron_memo), false) => {
                args.push("--neuron-memo".to_owned());
                args.push(decimal_string(neuron_memo));
            },
            (None, None, true) => {
                args.push("--test-neuron-proposer".to_owned());
            },
            _ => {
                return Err(NoProposerError);
            },
        }
        args.push(self.init_config_file.clone());
        assert(string_views(args@) =~= seq!["propose"@] + proposer_args(
            self.neuron_id,
            self.neuron_memo,
            self.test_neuron_proposer,
        )->0 + seq![self.init_config_file@]);
        Ok(args)
    }
}

/// Options of `dfx sns prepare-canisters add-nns-root`.
#[derive(Debug)]
pub struct AddNnsRootOpts {
    /// The canisters to which NNS root is added as a controller, as text.
    pub canister_ids: Vec<String>,
}

/// `prepare-canisters <subcommand>` followed by the canister ids.
pub open spec fn prepare_canisters_args(subcommand: Seq<char>, ids: Seq<Seq<char>>) -> Seq<Seq<char>> {
    seq!["prepare-canisters"@, subcommand] + ids
}

/// The arguments `prepare-canisters <subcommand> <ids>...` of `sns-cli`.
fn prepare_canisters_cli_args(subcommand: &str, ids: &Vec<String>) -> (r: Vec<String>)
    ensures
        string_views(r@) == prepare_canisters_args(subcommand@, string_views(ids@)),
{
    let mut args: Vec<String> = Vec::new();
    args.push("prepare-canisters".to_owned());
    args.push(subcommand.to_owned());
    let ghost head = seq!["prepare-canisters"@, subcommand@];
    assert(string_views(args@) =~= head);
    let n = ids.len();
    for i in 0..n
        invariant
            n == ids@.len(),
            string_views(args@) =~= head + string_views(ids@.subrange(0, i as int)),
    {
        let ghost before = args@;
        args.push(ids[i].clone());
        assert(string_views(args@) =~= string_views(before).push(ids@[i as int]@));
        assert(ids@.subrange(0, i + 1) == ids@.subrange(0, i as int).push(ids@[i as int]));
        assert(string_views(ids@.subrange(0, i + 1)) =~= string_views(
            ids@.subrange(0, i as int),
        ).push(ids@[i as int]@));
    }
    assert(ids@.subrange(0, n as int) == ids@);
    args
}

impl AddNnsRootOpts {
    /// The arguments of `sns-cli` that add NNS root as a controller of each
    /// canister.
    pub fn sns_cli_args(&self) -> (r: Vec<String>)
        ensures
            string_views(r@) == seq!["prepare-canisters"@, "add-nns-root"@] + string_views(
                self.canister_ids@,
            ),
    {
        prepare_canisters_cli_args("add-nns-root", &self.canister_ids)
    }
}

/// Options of `dfx sns prepare-canisters remove-nns-root`.
#[derive(Debug)]
pub struct RemoveNnsRootOpts {
    /// The canisters from which NNS root is removed as a controller, as text.
    pub canister_ids: Vec<String>,
}

impl RemoveNnsRootOpts {
    /// The arguments of `sns-cli` that remove NNS root as a controller of
    /// each canister.
    pub fn sns_cli_args(&self) -> (r: Vec<String>)
        ensures
            string_views(r@) == seq!["prepare-canisters"@, "remove-nns-root"@] + string_views(
                self.canister_ids@,
            ),
    {
        prepare_canisters_cli_args("remove-nns-root", &self.canister_ids)
    }
}

/// Options of `dfx sns config create`.
#[derive(Debug)]
pub struct CreateOpts {}

/// Options of `dfx sns config validate`.
#[derive(Debug)]
pub struct ValidateOpts {}

/// Options of `dfx sns deploy`.
#[derive(Debug)]
pub struct DeployOpts {}

/// The arguments of the `sns` tool that act on the configuration file at
/// `path`: `init-config-file --init-config-file-path <path> <action>`.
pub open spec fn init_config_file_args(path: Seq<char>, action: Seq<char>) -> Seq<Seq<char>> {
    seq!["init-config-file"@, "--init-config-file-path"@, path, action]
}

fn config_file_args(path: &str, action: &str) -> (r: Vec<String>)
    ensures
        string_views(r@) == init_config_file_args(path@, action@),
{
    let mut args: Vec<String> = Vec::new();
    args.push("init-config-file".to_owned());
    args.push("--init-config-file-path".to_owned());
    args.push(path.to_owned());
    args.push(action.to_owned());
    assert(string_views(args@) =~= init_config_file_args(path@, action@));
    args
}

/// The arguments of the `sns` tool that create a configuration template
/// at `path`.
pub fn create_config_args(path: &str) -> (r: Vec<String>)
    ensures
        string_views(r@) == init_config_file_args(path@, "new"@),
{
    config_file_args(path, "new")
}

/// The arguments of the `sns` tool that check the configuration file at
/// `path`.
pub fn validate_config_args(path: &str) -> (r: Vec<String>)
    ensures
        string_views(r@) == init_config_file_args(path@, "validate"@),
{
    config_file_args(path, "validate")
}

/// The report of a successful check of the configuration file at `path`.
pub fn validate_config_message(path: &str) -> (r: String)
    ensures
        r@ == "SNS config file is valid: "@ + path@,
{
    let mut r = "SNS config file is valid: ".to_owned();
    r.append(path);
    r
}

/// Options of `dfx sns download`.
#[derive(Debug)]
pub struct SnsDownloadOpts {
    /// IC commit of the SNS canister wasms to download.
    pub ic_commit: Option<String>,
    /// Directory in which to store the downloaded wasms.
    pub wasms_dir: String,
}

impl SnsDownloadOpts {
    /// The IC commit to download from: the one given, else
    /// `NNS_SNS_REPLICA_REV`.
    pub fn ic_commit_or_default(&self) -> (r: String)
        ensures
            r@ == (match self.ic_commit {
                Some(c) => c@,
                None => NNS_SNS_REPLICA_REV@,
            }),
    {
        match &self.ic_commit {
            Some(c) => c.clone(),
            None => NNS_SNS_REPLICA_REV.to_owned(),
        }
    }
}

/// Options of `dfx sns import`.
#[derive(Debug)]
pub struct SnsImportOpts {
    /// Networks to import canister ids for, each `<name>` or
    /// `<name here>=<name in the imported project>`.
    pub network_mapping: Vec<String>,
}

/// Where the `dfx.json` of the SNS canisters of an IC commit is found.
pub fn sns_dfx_json_url(ic_commit: &str) -> (r: String)
    ensures
        r@ == "https://raw.githubusercontent.com/dfinity/ic/"@ + ic_commit@
            + "/rs/sns/cli/dfx.json"@,
{
    let mut r = "https://raw.githubusercontent.com/dfinity/ic/".to_owned();
    r.append(ic_commit);
    r.append("/rs/sns/cli/dfx.json");
    r
}

/// Which flag names the proposing neuron depends only on which option is
/// set, never on its value: a neuron id gives `--neuron-id <id>`, a memo
/// gives `--neuron-memo <memo>`, the test neuron gives
/// `--test-neuron-proposer`, and any other combination is refused.
pub proof fn lemma_proposer_flag_by_option(id: u64, memo: u64)
    ensures
        proposer_args(Some(id), None, false) == Some(seq!["--neuron-id"@, decimal(id as nat)]),
        proposer_args(None, Some(memo), false) == Some(
            seq!["--neuron-memo"@, decimal(memo as nat)],
        ),
        proposer_args(None, None, true) == Some(seq!["--test-neuron-proposer"@]),
        proposer_args(None, None, false) is None,
        proposer_args(Some(id), Some(memo), false) is None,
        proposer_args(Some(id), None, true) is None,
        proposer_args(None, Some(memo), true) is None,
{
}

} // verus!
