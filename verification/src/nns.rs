use vstd::prelude::*;

use crate::address::{parse_url, set_url_host, url_parse, url_set_host, ParsedUrl, MAX_URL_CHARS};
use crate::text::string_views;

verus! {

/// Options of `dfx nns import`.
#[derive(Debug)]
pub struct ImportOpts {
    /// Networks to import canister ids for, each `<name>` or
    /// `<name here>=<name in the imported project>`.
    pub network_mapping: Vec<String>,
}

/// Options of `dfx nns install`.
#[derive(Debug)]
pub struct InstallOpts {
    /// Test accounts with which to initialize the ledger canister.
    pub ledger_accounts: Vec<String>,
}

/// Where the `dfx.json` of the NNS canisters is found: under the IC source
/// location given, else under the IC repository at `ic_commit`.
pub fn nns_dfx_json_url(ic_src: Option<&str>, ic_commit: &str) -> (r: String)
    ensures
        r@ == (match ic_src {
            Some(src) => src@,
            None => "https://raw.githubusercontent.com/dfinity/ic/"@ + ic_commit@,
        }) + "/rs/nns/dfx.json"@,
{
    let mut r = match ic_src {
        Some(src) => src.to_owned(),
        None => {
            let mut p = "https://raw.githubusercontent.com/dfinity/ic/".to_owned();
            p.append(ic_commit);
            p
        },
    };
    r.append("/rs/nns/dfx.json");
    r
}

/// Why no usable provider URL was found.
#[derive(Debug)]
pub enum ProviderError {
    /// The network has no providers.
    NoProviders,
    /// The first provider, given as text, is not a URL; the message names
    /// that text.
    MalformedProviderUrl(String, url::ParseError),
    /// The provider does not use port 8080; the serialization of its URL.
    UnsupportedPort(String),
}

impl ProviderError {
    /// The message of the error.
    pub fn message(&self) -> (r: String)
        ensures
            r@ == (match self {
                ProviderError::NoProviders => "Environment has no providers"@,
                ProviderError::MalformedProviderUrl(u, _) =>
                    "Malformed provider URL in this environment: "@ + u@,
                ProviderError::UnsupportedPort(u) => "dfx nns install supports only port 8080, not "@
                    + u@ + ". Please set the 'local' network's provider to '127.0.0.1:8080'."@,
            }),
    {
        match self {
            ProviderError::NoProviders => "Environment has no providers".to_owned(),
            ProviderError::MalformedProviderUrl(u, _) => {
                let mut r = "Malformed provider URL in this environment: ".to_owned();
                r.append(u.as_str());
                r
            },
            ProviderError::UnsupportedPort(u) => {
                let mut r = "dfx nns install supports only port 8080, not ".to_owned();
                r.append(u.as_str());
                r.append(". Please set the 'local' network's provider to '127.0.0.1:8080'.");
                r
            },
        }
    }
}

/// Accepts a parsed provider URL only where its port is 8080, the port that
/// the NNS canister ids are compiled for.
pub fn check_provider_port(url: ParsedUrl) -> (r: Result<ParsedUrl, ProviderError>)
    ensures
        url.port_spec() == Some(8080u16) ==> r == Ok::<ParsedUrl, ProviderError>(url),
        url.port_spec() != Some(8080u16) ==> (r matches Err(ProviderError::UnsupportedPort(u))
            && u@ == url.text_spec()@),
{
    if url.port() == Some(8080u16) {
        Ok(url)
    } else {
        Err(ProviderError::UnsupportedPort(url.into_text()))
    }
}

/// The provider URL of the network, given its first provider: it must be
/// a URL with port 8080.
pub fn get_and_check_provider(first_provider: Option<&str>) -> (r: Result<
    ParsedUrl,
    ProviderError,
>)
    ensures
        match first_provider {
            None => r matches Err(ProviderError::NoProviders),
            Some(p) => match url_parse(p@) {
                None => r matches Err(ProviderError::MalformedProviderUrl(u, _)) && u@ == p@,
                Some((text, port)) => if port == Some(8080u16) {
                    r matches Ok(u) && u.text_spec()@ == text && u.port_spec() == port
                } else {
                    r matches Err(ProviderError::UnsupportedPort(u)) && u@ == text
                },
            },
        },
{
    match first_provider {
        None => Err(ProviderError::NoProviders),
        Some(p) => match parse_url(p) {
            Err(e) => Err(ProviderError::MalformedProviderUrl(p.to_owned(), e)),
            Ok(u) => check_provider_port(u),
        },
    }
}

/// Why no replica URL was found.
#[derive(Debug, PartialEq, Eq, Structural)]
pub enum ReplicaUrlError {
    /// The network is not the local one.
    NotLocalNetwork,
    /// The network lists no replica URLs.
    NoReplicaUrls,
}

impl ReplicaUrlError {
    /// The message of the error.
    pub fn message(&self) -> (r: String)
        ensures
            r@ == (match self {
                ReplicaUrlError::NotLocalNetwork =>
                    "dfx nns install can only deploy to the 'local' network."@,
                ReplicaUrlError::NoReplicaUrls =>
                    "The list of replica URLs is empty; `dfx start` appears to be unhealthy."@,
            }),
    {
        match self {
            ReplicaUrlError::NotLocalNetwork =>
                "dfx nns install can only deploy to the 'local' network.".to_owned(),
            ReplicaUrlError::NoReplicaUrls =>
                "The list of replica URLs is empty; `dfx start` appears to be unhealthy.".to_owned(),
        }
    }
}

/// Accepts only the network named `local`, the one that `dfx nns install`
/// deploys to.
pub fn require_local_network(network_name: &str) -> (r: Result<(), ReplicaUrlError>)
    ensures
        network_name@ == "local"@ ==> r is Ok,
        network_name@ != "local"@ ==> (r matches Err(ReplicaUrlError::NotLocalNetwork)),
{
    if same_text(network_name, "local") {
        Ok(())
    } else {
        Err(ReplicaUrlError::NotLocalNetwork)
    }
}

/// The replica URL to use among those the network lists: the last one.
pub fn last_replica_url(urls: Vec<String>) -> (r: Result<String, ReplicaUrlError>)
    ensures
        urls@.len() == 0 ==> (r matches Err(ReplicaUrlError::NoReplicaUrls)),
        urls@.len() > 0 ==> r == Ok::<String, ReplicaUrlError>(urls@.last()),
{
    let mut urls = urls;
    match urls.pop() {
        Some(u) => Ok(u),
        None => Err(ReplicaUrlError::NoReplicaUrls),
    }
}

/// Arguments for the `ic-nns-init` command line tool.
#[derive(Debug)]
pub struct IcNnsInitOpts {
    /// A URL to access one or more NNS subnet replicas.
    pub nns_url: String,
    /// A directory holding all the wasms that `ic-nns-init` needs.
    pub wasm_dir: String,
    /// Accounts to initialize the ledger with.
    pub test_accounts: Vec<String>,
    /// A subnet for SNS canisters.
    pub sns_subnets: Option<String>,
    /// A file storing the registry content.
    pub local_registry_file: Option<String>,
}

/// The arguments of `ic-nns-init` for the given options: the fixed
/// arguments with the URL and wasm directory, the initial registry where one
/// is given, one `--initialize-ledger-with-test-accounts` pair per account,
/// and the SNS subnet where one is given.
pub open spec fn spec_ic_nns_init_args(opts: IcNnsInitOpts) -> Seq<Seq<char>> {
    seq!["--pass-specified-id"@, "--url"@, opts.nns_url@, "--wasm-dir"@, opts.wasm_dir@] + (
    match opts.local_registry_file {
        Some(f) => seq!["--initial-registry"@, f@],
        None => Seq::empty(),
    }) + test_account_args(string_views(opts.test_accounts@)) + (match opts.sns_subnets {
        Some(s) => seq!["--sns-subnet"@, s@],
        None => Seq::empty(),
    })
}

/// The flag of `ic-nns-init` that funds a test account.
pub open spec fn ledger_account_flag() -> Seq<char> {
    "--initialize-ledger-with-test-accounts"@
}

/// `--initialize-ledger-with-test-accounts <account>` for each account.
pub open spec fn test_account_args(accounts: Seq<Seq<char>>) -> Seq<Seq<char>>
    decreases accounts.len(),
{
    if accounts.len() == 0 {
        Seq::empty()
    } else {
        test_account_args(accounts.drop_last()) + seq![
            ledger_account_flag(),
            accounts.last(),
        ]
    }
}

/// The arguments of `ic-nns-init` for the given options.
pub fn ic_nns_init_args(opts: &IcNnsInitOpts) -> (r: Vec<String>)
    ensures
        string_views(r@) == spec_ic_nns_init_args(*opts),
{
    let mut args: Vec<String> = Vec::new();
    args.push("--pass-specified-id".to_owned());
    args.push("--url".to_owned());
    args.push(opts.nns_url.clone());
    args.push("--wasm-dir".to_owned());
    args.push(opts.wasm_dir.clone());
    let ghost fixed = seq![
        "--pass-specified-id"@,
        "--url"@,
        opts.nns_url@,
        "--wasm-dir"@,
        opts.wasm_dir@,
    ];
    assert(string_views(args@) =~= fixed);
    if let Some(f) = &opts.local_registry_file {
        args.push("--initial-registry".to_owned());
        args.push(f.clone());
    }
    let ghost registry = match &opts.local_registry_file {
        Some(f) => seq!["--initial-registry"@, f@],
        None => Seq::<Seq<char>>::empty(),
    };
    assert(string_views(args@) =~= fixed + registry);
    let ghost head = string_views(args@);
    let n = opts.test_accounts.len();
    for i in 0..n
        invariant
            n == opts.test_accounts@.len(),
            string_views(args@) =~= head + test_account_args(
                string_views(opts.test_accounts@.subrange(0, i as int)),
            ),
    {
        let ghost before = args@;
        args.push("--initialize-ledger-with-test-accounts".to_owned());
        args.push(opts.test_accounts[i].clone());
        proof {
            let accs = string_views(opts.test_accounts@.subrange(0, i + 1));
            assert(accs.drop_last() =~= string_views(opts.test_accounts@.subrange(0, i as int)));
            assert(accs.last() == opts.test_accounts@[i as int]@);
            assert(string_views(args@) =~= string_views(before) + seq![
                ledger_account_flag(),
                opts.test_accounts@[i as int]@,
            ]);
        }
    }
    assert(opts.test_accounts@.subrange(0, n as int) == opts.test_accounts@);
    let ghost middle = string_views(args@);
    if let Some(s) = &opts.sns_subnets {
        args.push("--sns-subnet".to_owned());
        args.push(s.clone());
    }
    assert(string_views(args@) =~= middle + match &opts.sns_subnets {
        Some(s) => seq!["--sns-subnet"@, s@],
        None => Seq::<Seq<char>>::empty(),
    });
    args
}

/// The arguments of `ic-admin` that authorize the cycles minting canister
/// to create canisters in `subnet`.
pub open spec fn spec_cmc_authorized_subnets_args(nns_url: Seq<char>, subnet: Seq<char>) -> Seq<
    Seq<char>,
> {
    seq![
        "--nns-url"@,
        nns_url,
        "propose-to-set-authorized-subnetworks"@,
        "--test-neuron-proposer"@,
        "--proposal-title"@,
        "Set Cycles Minting Canister Authorized Subnets"@,
        "--summary"@,
        "Authorize the Cycles Minting Canister to create canisters in the subnet '"@ + subnet
            + "'."@,
        "--subnets"@,
        subnet,
    ]
}

/// The arguments of `ic-admin` that authorize the cycles minting canister
/// to create canisters in `subnet`.
pub fn set_cmc_authorized_subnets_args(nns_url: &str, subnet: &str) -> (r: Vec<String>)
    ensures
        string_views(r@) == spec_cmc_authorized_subnets_args(nns_url@, subnet@),
{
    let mut summary = "Authorize the Cycles Minting Canister to create canisters in the subnet '".to_owned();
    summary.append(subnet);
    summary.append("'.");
    let mut args: Vec<String> = Vec::new();
    args.push("--nns-url".to_owned());
    args.push(nns_url.to_owned());
    args.push("propose-to-set-authorized-subnetworks".to_owned());
    args.push("--test-neuron-proposer".to_owned());
    args.push("--proposal-title".to_owned());
    args.push("Set Cycles Minting Canister Authorized Subnets".to_owned());
    args.push("--summary".to_owned());
    args.push(summary);
    args.push("--subnets".to_owned());
    args.push(subnet.to_owned());
    assert(string_views(args@) =~= spec_cmc_authorized_subnets_args(nns_url@, subnet@));
    args
}

/// The subnets of a PocketIC instance, as far as the installation reads
/// them.
#[derive(Debug)]
pub struct SubnetTopology {
    /// The SNS subnet, where there is one.
    pub sns: Option<String>,
    /// The application subnets.
    pub app_subnets: Vec<String>,
    /// The system subnets.
    pub system_subnets: Vec<String>,
}

/// The subnet for SNS canisters: the topology's SNS subnet, else the root
/// subnet.
pub open spec fn spec_sns_subnet(topology: Option<SubnetTopology>, root_subnet_id: String) -> String {
    match topology {
        Some(t) => match t.sns {
            Some(s) => s,
            None => root_subnet_id,
        },
        None => root_subnet_id,
    }
}

/// The subnet in which the cycles minting canister may create canisters:
/// the topology's first application subnet, else its first system subnet,
/// else the root subnet.
pub open spec fn spec_default_subnet(topology: Option<SubnetTopology>, root_subnet_id: String) -> String {
    match topology {
        Some(t) => if t.app_subnets@.len() > 0 {
            t.app_subnets@[0]
        } else if t.system_subnets@.len() > 0 {
            t.system_subnets@[0]
        } else {
            root_subnet_id
        },
        None => root_subnet_id,
    }
}

/// The subnet for SNS canisters: the topology's SNS subnet, else the root
/// subnet.
pub fn sns_subnet_id(topology: &Option<SubnetTopology>, root_subnet_id: &String) -> (r: String)
    ensures
        r == spec_sns_subnet(*topology, *root_subnet_id),
{
    match topology {
        Some(t) => match &t.sns {
            Some(s) => s.clone(),
            None => root_subnet_id.clone(),
        },
        None => root_subnet_id.clone(),
    }
}

/// The subnet in which the cycles minting canister may create canisters:
/// the topology's first application subnet, else its first system subnet,
/// else the root subnet.
pub fn default_subnet_id(topology: &Option<SubnetTopology>, root_subnet_id: &String) -> (r:
    String)
    ensures
        r == spec_default_subnet(*topology, *root_subnet_id),
{
    match topology {
        Some(t) => {
            if t.app_subnets.len() > 0 {
                t.app_subnets[0].clone()
            } else if t.system_subnets.len() > 0 {
                t.system_subnets[0].clone()
            } else {
                root_subnet_id.clone()
            }
        },
        None => root_subnet_id.clone(),
    }
}

/// A canister was installed at another id than the one it must have.
#[derive(Debug)]
pub struct IncorrectCanisterId {
    pub canister_name: String,
    pub expected: String,
    pub installed: String,
}

impl IncorrectCanisterId {
    /// The message of the error.
    pub fn message(&self) -> (r: String)
        ensures
            r@ == "Canister '"@ + self.canister_name@
                + "' was installed at an incorrect canister ID.  Expected '"@ + self.expected@
                + "' but got '"@ + self.installed@ + "'."@,
    {
        let mut r = "Canister '".to_owned();
        r.append(self.canister_name.as_str());
        r.append("' was installed at an incorrect canister ID.  Expected '");
        r.append(self.expected.as_str());
        r.append("' but got '");
        r.append(self.installed.as_str());
        r.append("'.");
        r
    }
}

/// The outcome of checking that canister `canister_name` was installed at
/// `expected`, the id it must have, when it was installed at `installed`.
pub open spec fn spec_check_installed_canister_id(
    canister_name: String,
    expected: String,
    installed: String,
) -> Result<(), IncorrectCanisterId> {
    if installed@ == expected@ {
        Ok(())
    } else {
        Err(IncorrectCanisterId { canister_name, expected, installed })
    }
}

/// Checks that a canister was installed at the id it must have.
pub fn check_installed_canister_id(canister_name: &String, expected: &String, installed: String) -> (r:
    Result<(), IncorrectCanisterId>)
    ensures
        r == spec_check_installed_canister_id(*canister_name, *expected, installed),
{
    if installed == *expected {
        Ok(())
    } else {
        Err(
            IncorrectCanisterId {
                canister_name: canister_name.clone(),
                expected: expected.clone(),
                installed,
            },
        )
    }
}

fn same_text(a: &str, b: &str) -> (r: bool)
    ensures
        r == (a@ == b@),
{
    a.to_owned() == b.to_owned()
}

/// Which init argument a backend canister installed outside `ic-nns-init`
/// gets.
#[derive(Debug, PartialEq, Eq, Structural)]
pub enum BackendInitArg {
    /// The ckETH ledger's init arguments.
    CkEthLedger,
    /// The ckETH index's init arguments, pointing at the ckETH ledger.
    CkEthIndex,
    /// The ICP index's init arguments, pointing at the ICP ledger.
    IcpIndex,
    /// No init argument.
    NoArgument,
}

/// The init argument of the backend canister `canister_id`: the ckETH
/// ledger's, else the ckETH index's, else the ICP index's, by its id.
pub fn backend_init_arg(
    canister_id: &str,
    icrc1_ledger_id: &str,
    icrc1_index_id: &str,
    icp_index_id: &str,
) -> (r: BackendInitArg)
    ensures
        r == (if canister_id@ == icrc1_ledger_id@ {
            BackendInitArg::CkEthLedger
        } else if canister_id@ == icrc1_index_id@ {
            BackendInitArg::CkEthIndex
        } else if canister_id@ == icp_index_id@ {
            BackendInitArg::IcpIndex
        } else {
            BackendInitArg::NoArgument
        }),
{
    if same_text(canister_id, icrc1_ledger_id) {
        BackendInitArg::CkEthLedger
    } else if same_text(canister_id, icrc1_index_id) {
        BackendInitArg::CkEthIndex
    } else if same_text(canister_id, icp_index_id) {
        BackendInitArg::IcpIndex
    } else {
        BackendInitArg::NoArgument
    }
}

/// Which init argument a frontend canister gets.
#[derive(Debug, PartialEq, Eq, Structural)]
pub enum FrontendInitArg {
    /// The NNS frontend dapp's settings.
    NnsDapp,
    /// The SNS aggregator's update intervals.
    SnsAggregator,
    /// No init argument.
    NoArgument,
}

/// The init argument of the frontend canister `canister_id`: the NNS
/// dapp's, else the SNS aggregator's, by its id.
pub fn frontend_init_arg(canister_id: &str, nns_dapp_id: &str, sns_aggregator_id: &str) -> (r:
    FrontendInitArg)
    ensures
        r == (if canister_id@ == nns_dapp_id@ {
            FrontendInitArg::NnsDapp
        } else if canister_id@ == sns_aggregator_id@ {
            FrontendInitArg::SnsAggregator
        } else {
            FrontendInitArg::NoArgument
        }),
{
    if same_text(canister_id, nns_dapp_id) {
        FrontendInitArg::NnsDapp
    } else if same_text(canister_id, sns_aggregator_id) {
        FrontendInitArg::SnsAggregator
    } else {
        FrontendInitArg::NoArgument
    }
}

/// The schema label of the NNS frontend dapp's init arguments.
#[derive(Debug, PartialEq, Eq, Structural)]
pub enum SchemaLabel {
    AccountsInStableMemory,
}

/// Init and post-upgrade arguments of the NNS frontend dapp.
#[derive(Debug)]
pub struct CanisterArguments {
    pub args: Vec<(String, String)>,
    pub schema: Option<SchemaLabel>,
}

/// Init and post-upgrade arguments of the SNS aggregator.
#[derive(Debug)]
pub struct Config {
    pub update_interval_ms: u64,
    pub fast_interval_ms: u64,
}

/// The arguments with which the SNS aggregator is installed: an update
/// every second and a fast update every 100 milliseconds.
pub fn sns_aggregator_config() -> (r: Config)
    ensures
        r.update_interval_ms == 1000,
        r.fast_interval_ms == 100,
{
    Config { update_interval_ms: 1_000, fast_interval_ms: 100 }
}

/// The ids of the canisters that the NNS frontend dapp is told about.
#[derive(Debug)]
pub struct NnsDappCanisterIds {
    pub icrc1_index: String,
    pub icrc1_ledger: String,
    pub internet_identity: String,
    pub icp_index: String,
    pub nns_dapp: String,
    pub sns_aggregator: String,
}

/// The texts of a sequence of pairs of strings.
pub open spec fn pair_views(v: Seq<(String, String)>) -> Seq<(Seq<char>, Seq<char>)> {
    v.map_values(|p: (String, String)| (p.0@, p.1@))
}

/// `http://<canister id>.localhost:8080`.
pub open spec fn local_canister_url(canister_id: Seq<char>) -> Seq<char> {
    "http://"@ + canister_id + ".localhost:8080"@
}

/// The settings of the NNS frontend dapp for a local NNS, in order.
pub open spec fn spec_nns_dapp_settings(ids: NnsDappCanisterIds) -> Seq<(Seq<char>, Seq<char>)> {
    seq![
        ("API_HOST"@, "http://localhost:8080"@),
        ("CKETH_INDEX_CANISTER_ID"@, ids.icrc1_index@),
        ("CKETH_LEDGER_CANISTER_ID"@, ids.icrc1_ledger@),
        ("CYCLES_MINTING_CANISTER_ID"@, "rkp4c-7iaaa-aaaaa-aaaca-cai"@),
        ("DFX_NETWORK"@, "local"@),
        ("FEATURE_FLAGS"@, "{\"ENABLE_CKBTC\":false,\"ENABLE_CKTESTBTC\":false,\"ENABLE_HIDE_ZERO_BALANCE\":true,\"ENABLE_VOTING_INDICATION\":true}"@),
        ("FETCH_ROOT_KEY"@, "true"@),
        ("GOVERNANCE_CANISTER_ID"@, "rrkah-fqaaa-aaaaa-aaaaq-cai"@),
        ("HOST"@, "http://localhost:8080"@),
        ("IDENTITY_SERVICE_URL"@, local_canister_url(ids.internet_identity@)),
        ("INDEX_CANISTER_ID"@, ids.icp_index@),
        ("LEDGER_CANISTER_ID"@, "ryjl3-tyaaa-aaaaa-aaaba-cai"@),
        ("OWN_CANISTER_ID"@, ids.nns_dapp@),
        ("ROBOTS"@, "<meta name=\"robots\" content=\"noindex, nofollow\" />"@),
        ("SNS_AGGREGATOR_URL"@, local_canister_url(ids.sns_aggregator@)),
        ("STATIC_HOST"@, "http://localhost:8080"@),
        ("TVL_CANISTER_ID"@, ""@),
        ("WASM_CANISTER_ID"@, "qaa6y-5yaaa-aaaaa-aaafa-cai"@),
    ]
}

fn local_url_of(canister_id: &String) -> (r: String)
    ensures
        r@ == local_canister_url(canister_id@),
{
    let mut r = "http://".to_owned();
    r.append(canister_id.as_str());
    r.append(".localhost:8080");
    r
}

fn setting(key: &str, value: String) -> (r: (String, String))
    ensures
        r.0@ == key@,
        r.1@ == value@,
{
    (key.to_owned(), value)
}

/// The init arguments of the NNS frontend dapp for a local NNS.
pub fn nns_dapp_canister_arguments(ids: &NnsDappCanisterIds) -> (r: CanisterArguments)
    ensures
        pair_views(r.args@) == spec_nns_dapp_settings(*ids),
        r.schema == Some(SchemaLabel::AccountsInStableMemory),
{
    let mut a: Vec<(String, String)> = Vec::new();
    a.push(setting("API_HOST", "http://localhost:8080".to_owned()));
    a.push(setting("CKETH_INDEX_CANISTER_ID", ids.icrc1_index.clone()));
    a.push(setting("CKETH_LEDGER_CANISTER_ID", ids.icrc1_ledger.clone()));
    a.push(setting("CYCLES_MINTING_CANISTER_ID", "rkp4c-7iaaa-aaaaa-aaaca-cai".to_owned()));
    a.push(setting("DFX_NETWORK", "local".to_owned()));
    a.push(setting("FEATURE_FLAGS", "{\"ENABLE_CKBTC\":false,\"ENABLE_CKTESTBTC\":false,\"ENABLE_HIDE_ZERO_BALANCE\":true,\"ENABLE_VOTING_INDICATION\":true}".to_owned()));
    a.push(setting("FETCH_ROOT_KEY", "true".to_owned()));
    a.push(setting("GOVERNANCE_CANISTER_ID", "rrkah-fqaaa-aaaaa-aaaaq-cai".to_owned()));
    a.push(setting("HOST", "http://localhost:8080".to_owned()));
    a.push(setting("IDENTITY_SERVICE_URL", local_url_of(&ids.internet_identity)));
    a.push(setting("INDEX_CANISTER_ID", ids.icp_index.clone()));
    a.push(setting("LEDGER_CANISTER_ID", "ryjl3-tyaaa-aaaaa-aaaba-cai".to_owned()));
    a.push(setting("OWN_CANISTER_ID", ids.nns_dapp.clone()));
    a.push(setting("ROBOTS", "<meta name=\"robots\" content=\"noindex, nofollow\" />".to_owned()));
    a.push(setting("SNS_AGGREGATOR_URL", local_url_of(&ids.sns_aggregator)));
    a.push(setting("STATIC_HOST", "http://localhost:8080".to_owned()));
    a.push(setting("TVL_CANISTER_ID", "".to_owned()));
    a.push(setting("WASM_CANISTER_ID", "qaa6y-5yaaa-aaaaa-aaafa-cai".to_owned()));
    assert(pair_views(a@) =~= spec_nns_dapp_settings(*ids));
    CanisterArguments { args: a, schema: Some(SchemaLabel::AccountsInStableMemory) }
}

/// `s` padded with spaces on the right to at least `width` characters, as
/// `format!("{:width$}", s)` writes it.
pub open spec fn pad_right(s: Seq<char>, width: nat) -> Seq<char> {
    if s.len() < width {
        s + Seq::new((width - s.len()) as nat, |i: int| ' ')
    } else {
        s
    }
}

/// One line of the installation report: the name padded to 20 characters,
/// two spaces, the value and a newline.
pub open spec fn report_line(row: (Seq<char>, Seq<char>)) -> Seq<char> {
    pad_right(row.0, 20) + "  "@ + row.1 + "\n"@
}

/// The lines of the installation report for `rows`, in order.
pub open spec fn report_lines(rows: Seq<(Seq<char>, Seq<char>)>) -> Seq<char>
    decreases rows.len(),
{
    if rows.len() == 0 {
        Seq::empty()
    } else {
        report_lines(rows.drop_last()) + report_line(rows.last())
    }
}

/// In a report line, the value starts at column 22 whatever the length of
/// a name of at most 20 characters, so that the values line up.
pub proof fn lemma_report_line_columns(name: Seq<char>, value: Seq<char>)
    requires
        name.len() <= 20,
    ensures
        report_line((name, value)).len() == 23 + value.len(),
        report_line((name, value)).subrange(22, (22 + value.len()) as int) == value,
        report_line((name, value)).subrange(0, name.len() as int) == name,
{
    reveal_strlit("  ");
    reveal_strlit("\n");
    let line = report_line((name, value));
    let padded = pad_right(name, 20);
    assert(padded.len() == 20);
    assert(line =~= padded + "  "@ + value + "\n"@);
    assert(line.subrange(22, (22 + value.len()) as int) =~= value);
    assert(line.subrange(0, name.len() as int) =~= name);
}

/// The lines of the installation report for `rows`, one per row.
pub fn report_table(rows: &Vec<(String, String)>) -> (r: String)
    ensures
        r@ == report_lines(pair_views(rows@)),
{
    let mut r = String::new();
    let n = rows.len();
    for i in 0..n
        invariant
            n == rows@.len(),
            r@ == report_lines(pair_views(rows@.subrange(0, i as int))),
    {
        let ghost before = r@;
        let (name, value) = &rows[i];
        r.append(name.as_str());
        let len = name.as_str().unicode_len();
        let mut k = len;
        while k < 20
            invariant
                len == name@.len(),
                len <= k <= 20 || (k == len && len >= 20),
                r@ == before + name@ + Seq::new((k - len) as nat, |j: int| ' '),
            decreases 20 - k,
        {
            r.append(" ");
            proof {
                reveal_strlit(" ");
            }
            assert(Seq::new((k + 1 - len) as nat, |j: int| ' ') =~= Seq::new(
                (k - len) as nat,
                |j: int| ' ',
            ).push(' '));
            k = k + 1;
        }
        assert(name@ + Seq::new((k - len) as nat, |j: int| ' ') =~= pad_right(name@, 20));
        r.append("  ");
        r.append(value.as_str());
        r.append("\n");
        proof {
            let rs = pair_views(rows@.subrange(0, i + 1));
            assert(rs.drop_last() =~= pair_views(rows@.subrange(0, i as int)));
            assert(rs.last() == (name@, value@));
        }
    }
    assert(rows@.subrange(0, n as int) == rows@);
    r
}

/// The host under which canister `canister_id` is served locally.
pub open spec fn canister_host(canister_id: Seq<char>) -> Seq<char> {
    canister_id + ".localhost"@
}

/// The URL of canister `canister_id`: the provider URL with the host
/// `<canister id>.localhost`, or the empty text where that host is refused.
pub open spec fn spec_canister_url(provider_url: Seq<char>, canister_id: Seq<char>) -> Seq<char> {
    match url_set_host(provider_url, canister_host(canister_id)) {
        Some(u) => u,
        None => Seq::empty(),
    }
}

/// The URL of canister `canister_id` under the provider URL.
pub fn canister_url(provider_url: &ParsedUrl, canister_id: &str) -> (r: String)
    requires
        provider_url.text_spec()@.len() + canister_id@.len() + 10 <= MAX_URL_CHARS,
    ensures
        r@ == spec_canister_url(provider_url.text_spec()@, canister_id@),
{
    let mut host = canister_id.to_owned();
    host.append(".localhost");
    proof {
        reveal_strlit(".localhost");
    }
    match set_url_host(provider_url, host.as_str()) {
        Some(u) => u,
        None => String::new(),
    }
}

/// The URL of each canister `(name, id)` of `rows` under the provider URL
/// fits the bound of `set_url_host`.
pub open spec fn canister_urls_fit(provider_url: &ParsedUrl, rows: Seq<(String, String)>) -> bool {
    forall|i: int|
        0 <= i < rows.len() ==> provider_url.text_spec()@.len() + (#[trigger] rows[i]).1@.len()
            + 10 <= MAX_URL_CHARS
}

/// The rows of the frontend canisters in the report: each name with the URL
/// of its canister.
pub open spec fn frontend_url_rows(
    provider_url: Seq<char>,
    rows: Seq<(Seq<char>, Seq<char>)>,
) -> Seq<(Seq<char>, Seq<char>)> {
    rows.map_values(|p: (Seq<char>, Seq<char>)| (p.0, spec_canister_url(provider_url, p.1)))
}

/// The report rows of the frontend canisters `(name, id)`: each name with
/// the URL of its canister under the provider URL.
pub fn frontend_rows(provider_url: &ParsedUrl, frontend: &Vec<(String, String)>) -> (r: Vec<
    (String, String),
>)
    requires
        canister_urls_fit(provider_url, frontend@),
    ensures
        pair_views(r@) == frontend_url_rows(provider_url.text_spec()@, pair_views(frontend@)),
{
    let mut r: Vec<(String, String)> = Vec::new();
    let n = frontend.len();
    for i in 0..n
        invariant
            n == frontend@.len(),
            canister_urls_fit(provider_url, frontend@),
            pair_views(r@) =~= frontend_url_rows(
                provider_url.text_spec()@,
                pair_views(frontend@.subrange(0, i as int)),
            ),
    {
        let ghost before = r@;
        let (name, id) = &frontend[i];
        let url = canister_url(provider_url, id.as_str());
        r.push((name.clone(), url));
        assert(pair_views(r@) =~= pair_views(before).push((name@, url@)));
        assert(frontend@.subrange(0, i + 1) =~= frontend@.subrange(0, i as int).push(
            frontend@[i as int],
        ));
        assert(pair_views(frontend@.subrange(0, i + 1)) =~= pair_views(
            frontend@.subrange(0, i as int),
        ).push((name@, id@)));
        assert(frontend_url_rows(provider_url.text_spec()@, pair_views(frontend@.subrange(0, i + 1)))
            =~= frontend_url_rows(
            provider_url.text_spec()@,
            pair_views(frontend@.subrange(0, i as int)),
        ).push((name@, spec_canister_url(provider_url.text_spec()@, id@))));
    }
    assert(frontend@.subrange(0, n as int) == frontend@);
    r
}

/// The report printed once the NNS is installed: each backend canister
/// `(name, id)` with its id and each frontend canister `(name, id)` with its
/// URL under the provider URL.
pub fn nns_report(
    provider_url: &ParsedUrl,
    backend: &Vec<(String, String)>,
    frontend: &Vec<(String, String)>,
) -> (r: String)
    requires
        canister_urls_fit(provider_url, frontend@),
    ensures
        r@ == spec_nns_details(
            pair_views(backend@),
            frontend_url_rows(provider_url.text_spec()@, pair_views(frontend@)),
        ),
{
    let rows = frontend_rows(provider_url, frontend);
    nns_details(backend, &rows)
}

/// The report printed once the NNS is installed, with the lines of the
/// backend and frontend canisters.
pub open spec fn spec_nns_details(
    backend: Seq<(Seq<char>, Seq<char>)>,
    frontend: Seq<(Seq<char>, Seq<char>)>,
) -> Seq<char> {
    "\n\n######################################\n# NNS CANISTER INSTALLATION COMPLETE #\n######################################\n\nBackend canisters:\n"@
        + report_lines(backend) + "\n\nFrontend canisters:\n"@ + report_lines(frontend)
        + "\n\n"@
}

/// The report printed once the NNS is installed: each backend canister with
/// its id and each frontend canister with its URL.
pub fn nns_details(backend: &Vec<(String, String)>, frontend: &Vec<(String, String)>) -> (r:
    String)
    ensures
        r@ == spec_nns_details(pair_views(backend@), pair_views(frontend@)),
{
    let mut r = "\n\n######################################\n# NNS CANISTER INSTALLATION COMPLETE #\n######################################\n\nBackend canisters:\n".to_owned();
    let b = report_table(backend);
    r.append(b.as_str());
    r.append("\n\nFrontend canisters:\n");
    let f = report_table(frontend);
    r.append(f.as_str());
    r.append("\n\n");
    r
}

/// The test-account arguments hold, for each account in order, the flag
/// `--initialize-ledger-with-test-accounts` followed by the account.
pub proof fn lemma_test_account_args_pairs(accounts: Seq<Seq<char>>)
    ensures
        test_account_args(accounts).len() == 2 * accounts.len(),
        forall|i: int|
            #![trigger accounts[i]]
            0 <= i < accounts.len() ==> test_account_args(accounts).subrange(2 * i, 2 * i + 2)
                == seq![ledger_account_flag(), accounts[i]],
    decreases accounts.len(),
{
    reveal_strlit("--initialize-ledger-with-test-accounts");
    if accounts.len() > 0 {
        let prev = accounts.drop_last();
        lemma_test_account_args_pairs(prev);
        assert(test_account_args(accounts) =~= test_account_args(prev) + seq![
            ledger_account_flag(),
            accounts.last(),
        ]);
        assert forall|i: int|
            #![trigger accounts[i]]
            0 <= i < accounts.len() implies test_account_args(accounts).subrange(2 * i, 2 * i + 2)
                == seq![ledger_account_flag(), accounts[i]] by {
            if i < prev.len() {
                assert(prev[i] == accounts[i]);
                assert(test_account_args(prev).subrange(2 * i, 2 * i + 2) == seq![
                    ledger_account_flag(),
                    prev[i],
                ]);
                assert(test_account_args(accounts).subrange(2 * i, 2 * i + 2) =~= test_account_args(
                    prev,
                ).subrange(2 * i, 2 * i + 2));
            } else {
                assert(test_account_args(accounts).subrange(2 * i, 2 * i + 2) =~= seq![
                    ledger_account_flag(),
                    accounts[i],
                ]);
            }
        }
    }
}

/// The arguments of `ic-nns-init` are the five fixed ones, the initial
/// registry where one is given, then one pair
/// `--initialize-ledger-with-test-accounts <account>` for every test account
/// in order, then the SNS subnet where one is given.
pub proof fn lemma_ic_nns_init_args_layout(opts: IcNnsInitOpts)
    ensures
        ({
            let args = spec_ic_nns_init_args(opts);
            let n = opts.test_accounts@.len();
            let reg: int = if opts.local_registry_file is Some {
                2
            } else {
                0
            };
            let sns: int = if opts.sns_subnets is Some {
                2
            } else {
                0
            };
            &&& args.len() == 5 + 2 * n + reg + sns
            &&& args[0] == "--pass-specified-id"@
            &&& args[1] == "--url"@
            &&& args[2] == opts.nns_url@
            &&& args[3] == "--wasm-dir"@
            &&& args[4] == opts.wasm_dir@
            &&& (opts.local_registry_file matches Some(f) ==> args[5] == "--initial-registry"@
                && args[6] == f@)
            &&& forall|i: int|
                #![trigger opts.test_accounts@[i]]
                0 <= i < n ==> args.subrange(5 + reg + 2 * i, 5 + reg + 2 * i + 2) == seq![
                    ledger_account_flag(),
                    opts.test_accounts@[i]@,
                ]
            &&& (opts.sns_subnets matches Some(s) ==> args[5 + reg + 2 * n] == "--sns-subnet"@
                && args[5 + reg + 2 * n + 1] == s@)
        }),
{
    reveal_strlit("--initialize-ledger-with-test-accounts");
    let accounts = string_views(opts.test_accounts@);
    lemma_test_account_args_pairs(accounts);
    let args = spec_ic_nns_init_args(opts);
    let n = opts.test_accounts@.len();
    let fixed = seq![
        "--pass-specified-id"@,
        "--url"@,
        opts.nns_url@,
        "--wasm-dir"@,
        opts.wasm_dir@,
    ];
    let registry = match opts.local_registry_file {
        Some(f) => seq!["--initial-registry"@, f@],
        None => Seq::<Seq<char>>::empty(),
    };
    let tail = match opts.sns_subnets {
        Some(s) => seq!["--sns-subnet"@, s@],
        None => Seq::<Seq<char>>::empty(),
    };
    let t = test_account_args(accounts);
    let reg: int = if opts.local_registry_file is Some {
        2
    } else {
        0
    };
    assert(args =~= fixed + registry + t + tail);
    assert forall|i: int|
        #![trigger opts.test_accounts@[i]]
        0 <= i < n implies args.subrange(5 + reg + 2 * i, 5 + reg + 2 * i + 2) == seq![
            ledger_account_flag(),
            opts.test_accounts@[i]@,
        ] by {
        assert(accounts[i] == opts.test_accounts@[i]@);
        assert(t.subrange(2 * i, 2 * i + 2) == seq![ledger_account_flag(), accounts[i]]);
        assert(args[5 + reg + 2 * i] == t.subrange(2 * i, 2 * i + 2)[0]);
        assert(args[5 + reg + 2 * i + 1] == t.subrange(2 * i, 2 * i + 2)[1]);
        assert(args.subrange(5 + reg + 2 * i, 5 + reg + 2 * i + 2) =~= seq![
            ledger_account_flag(),
            opts.test_accounts@[i]@,
        ]);
    }
}

/// There is one report row per frontend canister, in order: its name with
/// the URL of its canister under the provider URL.
pub proof fn lemma_frontend_url_rows(provider_url: Seq<char>, rows: Seq<(Seq<char>, Seq<char>)>)
    ensures
        frontend_url_rows(provider_url, rows).len() == rows.len(),
        forall|i: int|
            0 <= i < rows.len() ==> #[trigger] frontend_url_rows(provider_url, rows)[i] == (
                rows[i].0,
                spec_canister_url(provider_url, rows[i].1),
            ),
{
}

/// The report lines hold the line of every row, in order: the line of row
/// `i` starts where the lines of the rows before it end.
pub proof fn lemma_report_lines_hold_each_row(rows: Seq<(Seq<char>, Seq<char>)>, i: int)
    requires
        0 <= i < rows.len(),
    ensures
        ({
            let before = report_lines(rows.subrange(0, i));
            let line = report_line(rows[i]);
            report_lines(rows).len() >= before.len() + line.len()
                && report_lines(rows).subrange(before.len() as int, (before.len() + line.len()) as int)
                == line
        }),
    decreases rows.len(),
{
    let last = rows.len() - 1;
    assert(rows.drop_last() =~= rows.subrange(0, last));
    if i == last {
        assert(report_lines(rows) =~= report_lines(rows.subrange(0, i)) + report_line(rows[i]));
        assert(report_lines(rows).subrange(
            report_lines(rows.subrange(0, i)).len() as int,
            (report_lines(rows.subrange(0, i)).len() + report_line(rows[i]).len()) as int,
        ) =~= report_line(rows[i]));
    } else {
        let prev = rows.drop_last();
        lemma_report_lines_hold_each_row(prev, i);
        assert(prev.subrange(0, i) =~= rows.subrange(0, i));
        assert(prev[i] == rows[i]);
        let before = report_lines(rows.subrange(0, i));
        let line = report_line(rows[i]);
        assert(report_lines(rows) =~= report_lines(prev) + report_line(rows.last()));
        assert(report_lines(rows).subrange(before.len() as int, (before.len() + line.len()) as int)
            =~= report_lines(prev).subrange(before.len() as int, (before.len() + line.len()) as int));
    }
}

} // verus!
