use vstd::prelude::*;

use crate::nns::{
    check_installed_canister_id, default_subnet_id, sns_subnet_id, spec_check_installed_canister_id,
    spec_default_subnet, spec_sns_subnet, IncorrectCanisterId, SubnetTopology,
};
use crate::address::ParsedUrl;
use crate::text::string_views;

verus! {

/// The test account with well-known ED25519 keys, with which the ledger is
/// always initialized.
pub const ED25519_TEST_ACCOUNT: &'static str =
    "5b315d2f6702cb3a27d826161797d7b2c2e131cd312aece51d4d5574d1247087";

/// The test account with well-known SECP256K1 keys, with which the ledger is
/// always initialized.
pub const SECP256K1_TEST_ACCOUNT: &'static str =
    "2b8fbde99de881f695f279d2a892b1137bfe81a42d7694e064b1be58701e1138";

/// The accounts with which the ledger is initialized: the two well-known
/// test accounts, then the accounts the user asked for, in order.
pub fn nns_test_accounts(ledger_accounts: &Vec<String>) -> (r: Vec<String>)
    ensures
        string_views(r@) == seq![ED25519_TEST_ACCOUNT@, SECP256K1_TEST_ACCOUNT@] + string_views(
            ledger_accounts@,
        ),
{
    let mut r: Vec<String> = Vec::new();
    r.push(ED25519_TEST_ACCOUNT.to_owned());
    r.push(SECP256K1_TEST_ACCOUNT.to_owned());
    let ghost head = seq![ED25519_TEST_ACCOUNT@, SECP256K1_TEST_ACCOUNT@];
    assert(string_views(r@) =~= head);
    let n = ledger_accounts.len();
    for i in 0..n
        invariant
            n == ledger_accounts@.len(),
            string_views(r@) =~= head + string_views(ledger_accounts@.subrange(0, i as int)),
    {
        let ghost before = r@;
        r.push(ledger_accounts[i].clone());
        assert(string_views(r@) =~= string_views(before).push(ledger_accounts@[i as int]@));
        assert(ledger_accounts@.subrange(0, i + 1) =~= ledger_accounts@.subrange(0, i as int).push(
            ledger_accounts@[i as int],
        ));
        assert(string_views(ledger_accounts@.subrange(0, i + 1)) =~= string_views(
            ledger_accounts@.subrange(0, i as int),
        ).push(ledger_accounts@[i as int]@));
    }
    assert(ledger_accounts@.subrange(0, n as int) == ledger_accounts@);
    r
}

/// The subnet type of the local replica, as the network settings give it.
#[derive(Debug, Clone, Copy, PartialEq, Eq, Structural)]
pub enum ReplicaSubnetType {
    System,
    Application,
    VerifiedApplication,
}

/// Whether the local replica runs as a system subnet, which the NNS
/// canisters need; `None` stands for a type that could not be determined.
pub fn replica_type_is_system(replica_type: Option<ReplicaSubnetType>) -> (r: bool)
    ensures
        r == (replica_type == Some(ReplicaSubnetType::System)),
{
    match replica_type {
        Some(ReplicaSubnetType::System) => true,
        _ => false,
    }
}

/// `i` is the first index at which `taken` holds.
pub open spec fn is_first_taken(taken: Seq<bool>, i: int) -> bool {
    &&& 0 <= i < taken.len()
    &&& taken[i]
    &&& forall|j: int| 0 <= j < i ==> !taken[j]
}

/// The first index at which `taken` holds, if any.
pub open spec fn first_taken(taken: Seq<bool>) -> Option<int> {
    if exists|i: int| is_first_taken(taken, i) {
        Some(choose|i: int| is_first_taken(taken, i))
    } else {
        None
    }
}

/// Checks that none of the canister ids that the NNS needs is taken; for
/// the canisters `(name, id)`, `taken` tells which ids the network already
/// uses. The error names the first canister whose id is taken.
pub fn nns_ids_available(canisters: &Vec<(String, String)>, taken: &Vec<bool>) -> (r: Result<
    (),
    String,
>)
    requires
        canisters@.len() == taken@.len(),
    ensures
        r == (match first_taken(taken@) {
            None => Ok::<(), String>(()),
            Some(i) => Err::<(), String>(canisters@[i].0),
        }),
        r is Ok <==> forall|i: int| 0 <= i < taken@.len() ==> !taken@[i],
        r matches Err(n) ==> exists|i: int|
            0 <= i < taken@.len() && taken@[i] && n@ == canisters@[i].0@,
{
    let n = taken.len();
    for i in 0..n
        invariant
            n == taken@.len(),
            n == canisters@.len(),
            forall|j: int| 0 <= j < i ==> !taken@[j],
    {
        if taken[i] {
            proof {
                assert(is_first_taken(taken@, i as int));
                assert forall|k: int| is_first_taken(taken@, k) implies k == i by {
                    if k < i {
                        assert(!taken@[k]);
                    } else if k > i {
                        assert(!taken@[i as int]);
                    }
                }
            }
            return Err(canisters[i].0.clone());
        }
    }
    proof {
        assert forall|k: int| !is_first_taken(taken@, k) by {
            if 0 <= k < n {
                assert(!taken@[k]);
            }
        }
    }
    Ok(())
}

/// The pairs of `core` among its first `k` whose flag in `present` is set,
/// in order.
pub open spec fn present_prefix(
    core: Seq<(String, String)>,
    present: Seq<bool>,
    k: nat,
) -> Seq<(String, String)>
    decreases k,
{
    if k == 0 {
        Seq::empty()
    } else {
        present_prefix(core, present, (k - 1) as nat) + if present[k - 1] {
            seq![core[k - 1]]
        } else {
            Seq::empty()
        }
    }
}

/// The local canister ids to record: the `(name, id)` pairs of `core` that
/// `dfx.json` lists (`in_dfx_json`), in order.
pub fn local_nns_canister_ids(core: &Vec<(String, String)>, in_dfx_json: &Vec<bool>) -> (r: Vec<
    (String, String),
>)
    requires
        core@.len() == in_dfx_json@.len(),
    ensures
        r@ == present_prefix(core@, in_dfx_json@, core@.len()),
{
    let mut r: Vec<(String, String)> = Vec::new();
    let n = core.len();
    for i in 0..n
        invariant
            n == core@.len(),
            n == in_dfx_json@.len(),
            r@ == present_prefix(core@, in_dfx_json@, i as nat),
    {
        if in_dfx_json[i] {
            let (name, id) = &core[i];
            r.push((name.clone(), id.clone()));
        }
        assert(r@ =~= present_prefix(core@, in_dfx_json@, (i + 1) as nat));
    }
    r
}

/// Where an installation of the NNS stands: which outcome it waits for.
#[derive(Debug, Clone, Copy, PartialEq, Eq, Structural)]
pub enum InstallPhase {
    /// Waits for the topology of the local PocketIC instance.
    AwaitTopology,
    /// Waits for the subnet type of the local replica.
    AwaitReplicaType,
    /// Waits for which NNS canister ids are taken.
    AwaitIdCheck,
    /// Waits for the checked provider URL.
    AwaitProvider,
    /// Waits for the root subnet id.
    AwaitRootSubnet,
    /// Waits for the NNS wasms to be downloaded.
    AwaitWasms,
    /// Waits for `ic-nns-init` to finish.
    AwaitNnsInit,
    /// Waits for the SNS wasms to be uploaded.
    AwaitSnsUpload,
    /// Waits for the installation of the backend canister at this index.
    InstallingManual(usize),
    /// Waits for the installation of the frontend canister at this index.
    InstallingFrontend(usize),
    /// Waits for the cycles minting canister to be authorized on a subnet.
    AwaitCmc,
    /// Waits for the report to be printed.
    AwaitReport,
    /// The installation has ended.
    Finished,
}

/// The state of an installation of the NNS.
#[derive(Debug)]
pub struct InstallState {
    /// The phase.
    pub phase: InstallPhase,
    /// The core NNS canisters `(name, id)`, whose ids must be free.
    pub core: Vec<(String, String)>,
    /// The backend canisters `(name, id)` installed one by one.
    pub manual: Vec<(String, String)>,
    /// The frontend canisters `(name, id)` installed one by one.
    pub frontend: Vec<(String, String)>,
    /// The topology of the local PocketIC instance, where there is one.
    pub topology: Option<SubnetTopology>,
    /// The serialization of the checked provider URL.
    pub provider_url: String,
    /// The checked provider URL, until the report takes it.
    pub provider: Option<ParsedUrl>,
    /// The subnet of SNS canisters.
    pub sns_subnet: String,
    /// The subnet in which the cycles minting canister creates canisters.
    pub default_subnet: String,
}

/// The outcome of the last action.
#[derive(Debug)]
pub enum InstallEvent {
    /// The topology was fetched; `None` where the server has none.
    Topology(Option<SubnetTopology>),
    /// The subnet type of the local replica; `None` where it is unknown.
    ReplicaType(Option<ReplicaSubnetType>),
    /// For each core canister, whether its id is taken.
    IdsTaken(Vec<bool>),
    /// The checked provider URL.
    ProviderUrl(ParsedUrl),
    /// The id of the root subnet.
    RootSubnet(String),
    /// The canister was installed at this id.
    Installed(String),
    /// The action succeeded.
    Succeeded,
    /// The action failed, with this message.
    Failed(String),
}

/// Why an installation stopped.
#[derive(Debug)]
pub enum InstallFailure {
    /// The local replica is not a system subnet.
    ReplicaTypeNotSystem(Option<ReplicaSubnetType>),
    /// The id of this core canister is taken.
    CanisterIdTaken(String),
    /// A canister was installed at another id than its own.
    IncorrectCanisterId(IncorrectCanisterId),
    /// An action failed, with this message.
    StepFailed(String),
    /// The outcome does not answer the action asked for.
    UnexpectedEvent,
}

/// What to do next.
#[derive(Debug)]
pub enum InstallAction {
    /// Fetch the topology of the local PocketIC instance.
    FetchTopology,
    /// Read the subnet type of the local replica.
    CheckReplicaType,
    /// Find which ids of the core canisters are taken.
    CheckCanisterIds,
    /// Get and check the provider URL.
    CheckProvider,
    /// Fetch the root subnet id.
    FetchRootSubnet,
    /// Download the NNS wasms.
    DownloadWasms,
    /// Run `ic-nns-init` against this URL with this SNS subnet.
    RunNnsInit { nns_url: String, sns_subnet: String },
    /// Upload the SNS wasms to the SNS wasm canister.
    UploadSnsWasms,
    /// Install the backend canister at this index.
    InstallManual(usize),
    /// Download and install the frontend canister at this index.
    InstallFrontend(usize),
    /// Authorize the cycles minting canister to create canisters in this
    /// subnet, through this URL.
    AuthorizeCmcSubnet { nns_url: String, subnet: String },
    /// Print the report of the installation for this provider URL.
    PrintReport { provider_url: Option<ParsedUrl> },
    /// Stop, with this result.
    Stop(Result<(), InstallFailure>),
}

/// `s` in phase `p`.
pub open spec fn with_phase(s: InstallState, p: InstallPhase) -> InstallState {
    InstallState {
        phase: p,
        core: s.core,
        manual: s.manual,
        frontend: s.frontend,
        topology: s.topology,
        provider_url: s.provider_url,
        provider: s.provider,
        sns_subnet: s.sns_subnet,
        default_subnet: s.default_subnet,
    }
}

/// Stop with failure `f`.
pub open spec fn stop_with(s: InstallState, f: InstallFailure) -> (InstallState, InstallAction) {
    (with_phase(s, InstallPhase::Finished), InstallAction::Stop(Err(f)))
}

/// Go on with the frontend canisters from index `i`, then the cycles
/// minting canister.
pub open spec fn install_frontend_from(s: InstallState, i: int) -> (InstallState, InstallAction) {
    if 0 <= i < s.frontend@.len() {
        (
            with_phase(s, InstallPhase::InstallingFrontend(i as usize)),
            InstallAction::InstallFrontend(i as usize),
        )
    } else {
        (
            with_phase(s, InstallPhase::AwaitCmc),
            InstallAction::AuthorizeCmcSubnet { nns_url: s.provider_url, subnet: s.default_subnet },
        )
    }
}

/// Go on with the backend canisters from index `i`, then the frontend
/// canisters.
pub open spec fn install_manual_from(s: InstallState, i: int) -> (InstallState, InstallAction) {
    if 0 <= i < s.manual@.len() {
        (
            with_phase(s, InstallPhase::InstallingManual(i as usize)),
            InstallAction::InstallManual(i as usize),
        )
    } else {
        install_frontend_from(s, 0)
    }
}

/// After canister `(name, id)` was reported installed at `installed`: go on
/// with `next` where the id check passes, else stop with its error.
pub open spec fn after_install(
    s: InstallState,
    canister: (String, String),
    installed: String,
    next: (InstallState, InstallAction),
) -> (InstallState, InstallAction) {
    match spec_check_installed_canister_id(canister.0, canister.1, installed) {
        Ok(()) => next,
        Err(e) => stop_with(s, InstallFailure::IncorrectCanisterId(e)),
    }
}

/// One step of the installation of the NNS: given the state and the outcome
/// of the last action, the next state and action.
///
/// The installation reads the topology, checks the replica type only where
/// there is no topology, checks that the core canister ids are free, gets
/// the provider URL and the root subnet (from which, with the topology, the
/// SNS and default subnets follow), downloads the wasms, runs
/// `ic-nns-init`, uploads the SNS wasms, installs the backend and then the
/// frontend canisters one by one, checking the id of each, authorizes the
/// cycles minting canister on the default subnet and prints the report.
/// Each action comes only after the previous one succeeded; the first
/// failure stops the installation with an error.
pub open spec fn spec_install_step(s: InstallState, e: InstallEvent) -> (InstallState, InstallAction) {
    let unexpected = stop_with(s, InstallFailure::UnexpectedEvent);
    match s.phase {
        InstallPhase::Finished => unexpected,
        _ => match e {
            InstallEvent::Failed(m) => stop_with(s, InstallFailure::StepFailed(m)),
            _ => match s.phase {
                InstallPhase::AwaitTopology => match e {
                    InstallEvent::Topology(t) => {
                        let s2 = InstallState { topology: t, ..s };
                        if t is None {
                            (
                                with_phase(s2, InstallPhase::AwaitReplicaType),
                                InstallAction::CheckReplicaType,
                            )
                        } else {
                            (
                                with_phase(s2, InstallPhase::AwaitIdCheck),
                                InstallAction::CheckCanisterIds,
                            )
                        }
                    },
                    _ => unexpected,
                },
                InstallPhase::AwaitReplicaType => match e {
                    InstallEvent::ReplicaType(t) => if t == Some(ReplicaSubnetType::System) {
                        (with_phase(s, InstallPhase::AwaitIdCheck), InstallAction::CheckCanisterIds)
                    } else {
                        stop_with(s, InstallFailure::ReplicaTypeNotSystem(t))
                    },
                    _ => unexpected,
                },
                InstallPhase::AwaitIdCheck => match e {
                    InstallEvent::IdsTaken(taken) => if taken@.len() == s.core@.len() {
                        match first_taken(taken@) {
                            None => (
                                with_phase(s, InstallPhase::AwaitProvider),
                                InstallAction::CheckProvider,
                            ),
                            Some(i) => stop_with(s, InstallFailure::CanisterIdTaken(s.core@[i].0)),
                        }
                    } else {
                        unexpected
                    },
                    _ => unexpected,
                },
                InstallPhase::AwaitProvider => match e {
                    InstallEvent::ProviderUrl(u) => (
                        InstallState {
                            phase: InstallPhase::AwaitRootSubnet,
                            provider_url: u.text_spec(),
                            provider: Some(u),
                            ..s
                        },
                        InstallAction::FetchRootSubnet,
                    ),
                    _ => unexpected,
                },
                InstallPhase::AwaitRootSubnet => match e {
                    InstallEvent::RootSubnet(root) => (
                        InstallState {
                            phase: InstallPhase::AwaitWasms,
                            sns_subnet: spec_sns_subnet(s.topology, root),
                            default_subnet: spec_default_subnet(s.topology, root),
                            ..s
                        },
                        InstallAction::DownloadWasms,
                    ),
                    _ => unexpected,
                },
                InstallPhase::AwaitWasms => match e {
                    InstallEvent::Succeeded => (
                        with_phase(s, InstallPhase::AwaitNnsInit),
                        InstallAction::RunNnsInit { nns_url: s.provider_url, sns_subnet: s.sns_subnet },
                    ),
                    _ => unexpected,
                },
                InstallPhase::AwaitNnsInit => match e {
                    InstallEvent::Succeeded => (
                        with_phase(s, InstallPhase::AwaitSnsUpload),
                        InstallAction::UploadSnsWasms,
                    ),
                    _ => unexpected,
                },
                InstallPhase::AwaitSnsUpload => match e {
                    InstallEvent::Succeeded => install_manual_from(s, 0),
                    _ => unexpected,
                },
                InstallPhase::InstallingManual(i) => match e {
                    InstallEvent::Installed(id) => if i < s.manual@.len() {
                        after_install(s, s.manual@[i as int], id, install_manual_from(s, i + 1))
                    } else {
                        unexpected
                    },
                    _ => unexpected,
                },
                InstallPhase::InstallingFrontend(i) => match e {
                    InstallEvent::Installed(id) => if i < s.frontend@.len() {
                        after_install(s, s.frontend@[i as int], id, install_frontend_from(s, i + 1))
                    } else {
                        unexpected
                    },
                    _ => unexpected,
                },
                InstallPhase::AwaitCmc => match e {
                    InstallEvent::Succeeded => (
                        InstallState { phase: InstallPhase::AwaitReport, provider: None, ..s },
                        InstallAction::PrintReport { provider_url: s.provider },
                    ),
                    _ => unexpected,
                },
                InstallPhase::AwaitReport => match e {
                    InstallEvent::Succeeded => (
                        with_phase(s, InstallPhase::Finished),
                        InstallAction::Stop(Ok(())),
                    ),
                    _ => unexpected,
                },
                InstallPhase::Finished => unexpected,
            },
        },
    }
}

/// The start of an installation of the NNS with the given core, backend and
/// frontend canisters `(name, id)`: it first fetches the topology.
pub fn install_nns_start(
    core: Vec<(String, String)>,
    manual: Vec<(String, String)>,
    frontend: Vec<(String, String)>,
) -> (r: (InstallState, InstallAction))
    ensures
        r.0.phase == InstallPhase::AwaitTopology,
        r.0.core == core,
        r.0.manual == manual,
        r.0.frontend == frontend,
        r.0.topology is None,
        r.0.provider_url@ == Seq::<char>::empty(),
        r.0.provider is None,
        r.0.sns_subnet@ == Seq::<char>::empty(),
        r.0.default_subnet@ == Seq::<char>::empty(),
        r.1 is FetchTopology,
{
    (
        InstallState {
            phase: InstallPhase::AwaitTopology,
            core,
            manual,
            frontend,
            topology: None,
            provider_url: String::new(),
            provider: None,
            sns_subnet: String::new(),
            default_subnet: String::new(),
        },
        InstallAction::FetchTopology,
    )
}

fn stop_exec(s: InstallState, f: InstallFailure) -> (r: (InstallState, InstallAction))
    ensures
        r == stop_with(s, f),
{
    let mut s = s;
    s.phase = InstallPhase::Finished;
    (s, InstallAction::Stop(Err(f)))
}

fn install_frontend_exec(s: InstallState, i: usize) -> (r: (InstallState, InstallAction))
    ensures
        r == install_frontend_from(s, i as int),
{
    let mut s = s;
    if i < s.frontend.len() {
        s.phase = InstallPhase::InstallingFrontend(i);
        (s, InstallAction::InstallFrontend(i))
    } else {
        s.phase = InstallPhase::AwaitCmc;
        let nns_url = s.provider_url.clone();
        let subnet = s.default_subnet.clone();
        (s, InstallAction::AuthorizeCmcSubnet { nns_url, subnet })
    }
}

fn install_manual_exec(s: InstallState, i: usize) -> (r: (InstallState, InstallAction))
    ensures
        r == install_manual_from(s, i as int),
{
    let mut s = s;
    if i < s.manual.len() {
        s.phase = InstallPhase::InstallingManual(i);
        (s, InstallAction::InstallManual(i))
    } else {
        install_frontend_exec(s, 0)
    }
}

/// One step of the installation of the NNS: given the state and the outcome
/// of the last action, the next state and action (see `spec_install_step`).
pub fn install_nns_step(state: InstallState, event: InstallEvent) -> (r: (
    InstallState,
    InstallAction,
))
    ensures
        r == spec_install_step(state, event),
{
    let mut s = state;
    if let InstallPhase::Finished = s.phase {
        return stop_exec(s, InstallFailure::UnexpectedEvent);
    }
    match event {
        InstallEvent::Failed(m) => stop_exec(s, InstallFailure::StepFailed(m)),
        InstallEvent::Topology(t) => {
            if let InstallPhase::AwaitTopology = s.phase {
                let none = t.is_none();
                s.topology = t;
                if none {
                    s.phase = InstallPhase::AwaitReplicaType;
                    (s, InstallAction::CheckReplicaType)
                } else {
                    s.phase = InstallPhase::AwaitIdCheck;
                    (s, InstallAction::CheckCanisterIds)
                }
            } else {
                stop_exec(s, InstallFailure::UnexpectedEvent)
            }
        },
        InstallEvent::ReplicaType(t) => {
            if let InstallPhase::AwaitReplicaType = s.phase {
                if replica_type_is_system(t) {
                    s.phase = InstallPhase::AwaitIdCheck;
                    (s, InstallAction::CheckCanisterIds)
                } else {
                    stop_exec(s, InstallFailure::ReplicaTypeNotSystem(t))
                }
            } else {
                stop_exec(s, InstallFailure::UnexpectedEvent)
            }
        },
        InstallEvent::IdsTaken(taken) => {
            if let InstallPhase::AwaitIdCheck = s.phase {
                if taken.len() == s.core.len() {
                    match nns_ids_available(&s.core, &taken) {
                        Ok(()) => {
                            s.phase = InstallPhase::AwaitProvider;
                            (s, InstallAction::CheckProvider)
                        },
                        Err(name) => stop_exec(s, InstallFailure::CanisterIdTaken(name)),
                    }
                } else {
                    stop_exec(s, InstallFailure::UnexpectedEvent)
                }
            } else {
                stop_exec(s, InstallFailure::UnexpectedEvent)
            }
        },
        InstallEvent::ProviderUrl(u) => {
            if let InstallPhase::AwaitProvider = s.phase {
                s.phase = InstallPhase::AwaitRootSubnet;
                s.provider_url = u.text_string();
                s.provider = Some(u);
                (s, InstallAction::FetchRootSubnet)
            } else {
                stop_exec(s, InstallFailure::UnexpectedEvent)
            }
        },
        InstallEvent::RootSubnet(root) => {
            if let InstallPhase::AwaitRootSubnet = s.phase {
                let sns = sns_subnet_id(&s.topology, &root);
                let default = default_subnet_id(&s.topology, &root);
                s.phase = InstallPhase::AwaitWasms;
                s.sns_subnet = sns;
                s.default_subnet = default;
                (s, InstallAction::DownloadWasms)
            } else {
                stop_exec(s, InstallFailure::UnexpectedEvent)
            }
        },
        InstallEvent::Succeeded => {
            match s.phase {
                InstallPhase::AwaitWasms => {
                    s.phase = InstallPhase::AwaitNnsInit;
                    let nns_url = s.provider_url.clone();
                    let sns_subnet = s.sns_subnet.clone();
                    (s, InstallAction::RunNnsInit { nns_url, sns_subnet })
                },
                InstallPhase::AwaitNnsInit => {
                    s.phase = InstallPhase::AwaitSnsUpload;
                    (s, InstallAction::UploadSnsWasms)
                },
                InstallPhase::AwaitSnsUpload => install_manual_exec(s, 0),
                InstallPhase::AwaitCmc => {
                    s.phase = InstallPhase::AwaitReport;
                    let provider_url = s.provider.take();
                    (s, InstallAction::PrintReport { provider_url })
                },
                InstallPhase::AwaitReport => {
                    s.phase = InstallPhase::Finished;
                    (s, InstallAction::Stop(Ok(())))
                },
                _ => stop_exec(s, InstallFailure::UnexpectedEvent),
            }
        },
        InstallEvent::Installed(id) => {
            match s.phase {
                InstallPhase::InstallingManual(i) => {
                    if i < s.manual.len() {
                        match check_installed_canister_id(&s.manual[i].0, &s.manual[i].1, id) {
                            Ok(()) => install_manual_exec(s, i + 1),
                            Err(e) => stop_exec(s, InstallFailure::IncorrectCanisterId(e)),
                        }
                    } else {
                        stop_exec(s, InstallFailure::UnexpectedEvent)
                    }
                },
                InstallPhase::InstallingFrontend(i) => {
                    if i < s.frontend.len() {
                        match check_installed_canister_id(&s.frontend[i].0, &s.frontend[i].1, id) {
                            Ok(()) => install_frontend_exec(s, i + 1),
                            Err(e) => stop_exec(s, InstallFailure::IncorrectCanisterId(e)),
                        }
                    } else {
                        stop_exec(s, InstallFailure::UnexpectedEvent)
                    }
                },
                _ => stop_exec(s, InstallFailure::UnexpectedEvent),
            }
        },
    }
}

/// Once an installation has ended, it takes no further action: every
/// outcome is answered by stopping.
pub proof fn lemma_finished_installation_stops(s: InstallState, e: InstallEvent)
    requires
        s.phase == InstallPhase::Finished,
    ensures
        spec_install_step(s, e).0.phase == InstallPhase::Finished,
        spec_install_step(s, e).1 is Stop,
{
}

/// A failed action stops the installation with that failure, whatever the
/// phase: no later action is taken.
pub proof fn lemma_failure_stops(s: InstallState, m: String)
    requires
        s.phase != InstallPhase::Finished,
    ensures
        spec_install_step(s, InstallEvent::Failed(m)) == stop_with(
            s,
            InstallFailure::StepFailed(m),
        ),
{
}

/// Whenever the installation authorizes the cycles minting canister, it
/// does so on the default subnet chosen when the root subnet became known,
/// through the provider URL.
pub proof fn lemma_cmc_authorized_on_default_subnet(s: InstallState, e: InstallEvent)
    ensures
        ({
            let a = spec_install_step(s, e).1;
            a is AuthorizeCmcSubnet ==> a->AuthorizeCmcSubnet_subnet == s.default_subnet
                && a->AuthorizeCmcSubnet_nns_url == s.provider_url
        }),
{
}

/// When the root subnet becomes known, the default subnet is the first
/// application subnet of the topology, else its first system subnet, else
/// the root subnet; the SNS subnet plays no part.
pub proof fn lemma_default_subnet_choice(s: InstallState, root: String)
    requires
        s.phase == InstallPhase::AwaitRootSubnet,
    ensures
        ({
            let d = spec_install_step(s, InstallEvent::RootSubnet(root)).0.default_subnet;
            match s.topology {
                Some(t) => if t.app_subnets@.len() > 0 {
                    d == t.app_subnets@[0]
                } else if t.system_subnets@.len() > 0 {
                    d == t.system_subnets@[0]
                } else {
                    d == root
                },
                None => d == root,
            }
        }),
{
}

/// No other step changes the default subnet.
pub proof fn lemma_default_subnet_kept(s: InstallState, e: InstallEvent)
    requires
        !(s.phase == InstallPhase::AwaitRootSubnet && e is RootSubnet),
    ensures
        spec_install_step(s, e).0.default_subnet == s.default_subnet,
{
}

} // verus!
