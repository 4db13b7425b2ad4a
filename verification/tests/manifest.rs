use dfx_extensions::manifest::{
    arg_number_of_values, generate_args, generate_extension_manifest, generate_subcommands,
    ArgInfo, ArgNumberOfValues, CommandInfo,
};

fn arg(id: &str, num_args: Option<(usize, usize)>, takes_values: bool) -> ArgInfo {
    ArgInfo {
        id: id.to_string(),
        help: Some(format!("help of {}", id)),
        long: Some(id.to_string()),
        short: None,
        num_args,
        takes_values,
    }
}

fn command(name: &str, args: Vec<ArgInfo>, subcommands: Vec<CommandInfo>) -> CommandInfo {
    CommandInfo {
        name: name.to_string(),
        about: Some(format!("about {}", name)),
        long_about: None,
        args,
        subcommands,
    }
}

#[test]
fn values_without_bounds_follow_the_action() {
    assert_eq!(arg_number_of_values(None, true), ArgNumberOfValues::Number(1));
    assert_eq!(arg_number_of_values(None, false), ArgNumberOfValues::Number(0));
}

#[test]
fn values_with_bounds() {
    assert_eq!(arg_number_of_values(Some((0, usize::MAX)), true), ArgNumberOfValues::Unlimited);
    assert_eq!(arg_number_of_values(Some((2, 2)), true), ArgNumberOfValues::Number(2));
    assert_eq!(arg_number_of_values(Some((0, 3)), false), ArgNumberOfValues::Range(0, 4));
    assert_eq!(
        arg_number_of_values(Some((1, usize::MAX)), true),
        ArgNumberOfValues::Range(1, usize::MAX)
    );
}

#[test]
fn args_are_described_by_id() {
    let cmd = command(
        "install",
        vec![arg("ledger_accounts", Some((0, usize::MAX)), true), arg("verbose", None, false)],
        vec![],
    );
    let args = generate_args(&cmd);
    assert_eq!(args.len(), 2);
    assert_eq!(args[0].0, "ledger_accounts");
    assert_eq!(args[0].1.about.as_deref(), Some("help of ledger_accounts"));
    assert_eq!(args[0].1.long.as_deref(), Some("ledger_accounts"));
    assert!(!args[0].1.multiple);
    assert_eq!(args[0].1.values, ArgNumberOfValues::Unlimited);
    assert_eq!(args[1].0, "verbose");
    assert_eq!(args[1].1.values, ArgNumberOfValues::Number(0));
}

#[test]
fn nested_subcommands_are_described() {
    let add = command("add-nns-root", vec![arg("canister_id", None, true)], vec![]);
    let remove = command("remove-nns-root", vec![arg("canister_ids", Some((0, usize::MAX)), true)], vec![]);
    let prepare = command("prepare-canisters", vec![], vec![add, remove]);
    let download = command("download", vec![arg("ic_commit", None, true)], vec![]);
    let root = command("sns", vec![], vec![prepare, download]);
    let subs = generate_subcommands(&root).0;
    assert_eq!(subs.len(), 2);
    assert_eq!(subs[0].0, "download");
    assert!(subs[0].1.subcommands.is_none());
    assert_eq!(subs[1].0, "prepare-canisters");
    assert_eq!(subs[1].1.about.as_deref(), Some("about prepare-canisters"));
    assert_eq!(subs[1].1.args.as_ref().unwrap().len(), 0);
    let nested = &subs[1].1.subcommands.as_ref().unwrap().0;
    assert_eq!(nested.len(), 2);
    assert_eq!(nested[0].0, "add-nns-root");
    assert_eq!(nested[0].1.args.as_ref().unwrap()[0].1.values, ArgNumberOfValues::Number(1));
    assert!(nested[0].1.subcommands.is_none());
    assert_eq!(nested[1].0, "remove-nns-root");
}

#[test]
fn entries_are_keyed_in_ascending_order_and_the_last_of_an_id_wins() {
    let cmd = command(
        "x",
        vec![
            arg("zeta", None, true),
            arg("alpha", None, false),
            arg("zeta", Some((2, 2)), true),
            arg("Beta", None, true),
        ],
        vec![],
    );
    let args = generate_args(&cmd);
    let ids: Vec<&str> = args.iter().map(|(id, _)| id.as_str()).collect();
    assert_eq!(ids, vec!["Beta", "alpha", "zeta"]);
    assert_eq!(args[2].1.values, ArgNumberOfValues::Number(2));
    let root = command(
        "r",
        vec![],
        vec![command("b", vec![], vec![]), command("a", vec![arg("one", None, true)], vec![]), command("a", vec![], vec![])],
    );
    let subs = generate_subcommands(&root).0;
    assert_eq!(subs.len(), 2);
    assert_eq!(subs[0].0, "a");
    assert_eq!(subs[0].1.args.as_ref().unwrap().len(), 0);
    assert_eq!(subs[1].0, "b");
}

#[test]
fn manifest_header_comes_from_the_command() {
    let mut root = command("nns", vec![], vec![command("import", vec![], vec![])]);
    root.about = None;
    root.long_about = Some("long".to_string());
    let m = generate_extension_manifest(&root);
    assert_eq!(m.name, "nns");
    assert_eq!(m.summary, "");
    assert_eq!(m.description.as_deref(), Some("long"));
    assert_eq!(m.subcommands.0.len(), 1);
    assert_eq!(m.subcommands.0[0].0, "import");
}
