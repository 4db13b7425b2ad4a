use vstd::prelude::*;

use crate::sorted::{
    insert_sorted, keyed_by_last, keys_ascending, last_index, lemma_keyed_by_last_empty,
    lemma_keyed_by_last_step,
};

verus! {

/// What the manifest needs to know of one argument of a command.
#[derive(Debug)]
pub struct ArgInfo {
    /// The argument's id.
    pub id: String,
    /// Its help text.
    pub help: Option<String>,
    /// Its long flag.
    pub long: Option<String>,
    /// Its short flag.
    pub short: Option<char>,
    /// The least and greatest number of values it takes, where it is set.
    pub num_args: Option<(usize, usize)>,
    /// Whether its action takes values.
    pub takes_values: bool,
}

/// What the manifest needs to know of a command and its subcommands.
#[derive(Debug)]
pub struct CommandInfo {
    pub name: String,
    pub about: Option<String>,
    pub long_about: Option<String>,
    pub args: Vec<ArgInfo>,
    pub subcommands: Vec<CommandInfo>,
}

/// How many values an argument takes, as the extension manifest records it.
#[derive(Debug, PartialEq, Eq, Structural)]
pub enum ArgNumberOfValues {
    /// Exactly this many.
    Number(usize),
    /// At least the first and fewer than the second.
    Range(usize, usize),
    /// Any number.
    Unlimited,
}

/// The manifest entry of one argument.
#[derive(Debug)]
pub struct ExtensionSubcommandArgOpts {
    pub about: Option<String>,
    pub long: Option<String>,
    pub short: Option<char>,
    pub multiple: bool,
    pub values: ArgNumberOfValues,
}

/// The manifest entry of one subcommand.
#[derive(Debug)]
pub struct ExtensionSubcommandOpts {
    pub about: Option<String>,
    pub args: Option<Vec<(String, ExtensionSubcommandArgOpts)>>,
    pub subcommands: Option<ExtensionSubcommandsOpts>,
}

/// The manifest entries of the subcommands of a command, each under its
/// name, in ascending order of name.
#[derive(Debug)]
pub struct ExtensionSubcommandsOpts(pub Vec<(String, ExtensionSubcommandOpts)>);

/// The parts of an extension manifest that are generated from the command.
#[derive(Debug)]
pub struct ExtensionManifestUpdate {
    pub name: String,
    pub summary: String,
    pub description: Option<String>,
    pub subcommands: ExtensionSubcommandsOpts,
}

/// The number of values that an argument with the given bounds takes:
/// without bounds, one if its action takes values and none otherwise; with
/// bounds `min..=max`, any number where they are `0..=usize::MAX`, exactly
/// `min` where they are equal, and otherwise the half-open range from `min`
/// to `max + 1` (saturating).
pub open spec fn spec_arg_number_of_values(
    num_args: Option<(usize, usize)>,
    takes_values: bool,
) -> ArgNumberOfValues {
    match num_args {
        None => ArgNumberOfValues::Number(
            if takes_values {
                1
            } else {
                0
            },
        ),
        Some((min, max)) => if min == 0 && max == usize::MAX {
            ArgNumberOfValues::Unlimited
        } else if min == max {
            ArgNumberOfValues::Number(min)
        } else {
            ArgNumberOfValues::Range(
                min,
                if max == usize::MAX {
                    max
                } else {
                    (max + 1) as usize
                },
            )
        },
    }
}

/// Whether `n` values are allowed by `v`.
pub open spec fn allows_count(v: ArgNumberOfValues, n: usize) -> bool {
    match v {
        ArgNumberOfValues::Number(k) => n == k,
        ArgNumberOfValues::Range(a, b) => a <= n < b,
        ArgNumberOfValues::Unlimited => true,
    }
}

/// The manifest records exactly the counts of values that an argument
/// takes: for bounds `min..=max`, the counts from `min` to `max`; without
/// bounds, one value where the action takes values and none otherwise.
/// (With `min > 0` and `max == usize::MAX` the recorded range, whose end
/// saturates, leaves out `usize::MAX` itself.)
pub proof fn lemma_arg_values_allow_bounds(
    num_args: Option<(usize, usize)>,
    takes_values: bool,
    n: usize,
)
    requires
        num_args matches Some((min, max)) ==> min <= max && (max < usize::MAX || min == 0),
    ensures
        allows_count(spec_arg_number_of_values(num_args, takes_values), n) <==> match num_args {
            Some((min, max)) => min <= n <= max,
            None => n == (if takes_values {
                1usize
            } else {
                0usize
            }),
        },
{
}

/// The number of values that an argument takes.
pub fn arg_number_of_values(num_args: Option<(usize, usize)>, takes_values: bool) -> (r:
    ArgNumberOfValues)
    ensures
        r == spec_arg_number_of_values(num_args, takes_values),
{
    match num_args {
        None => ArgNumberOfValues::Number(
            if takes_values {
                1
            } else {
                0
            },
        ),
        Some((min, max)) => {
            if min == 0 && max == usize::MAX {
                ArgNumberOfValues::Unlimited
            } else if min == max {
                ArgNumberOfValues::Number(min)
            } else {
                ArgNumberOfValues::Range(min, max.saturating_add(1))
            }
        },
    }
}

/// The manifest entry `e` describes the argument `a`.
pub open spec fn arg_entry_of(e: (String, ExtensionSubcommandArgOpts), a: ArgInfo) -> bool {
    &&& e.0@ == a.id@
    &&& e.1.about == a.help
    &&& e.1.long == a.long
    &&& e.1.short == a.short
    &&& !e.1.multiple
    &&& e.1.values == spec_arg_number_of_values(a.num_args, a.takes_values)
}

/// The ids of the arguments `args`, in order.
pub open spec fn arg_ids(args: Seq<ArgInfo>) -> Seq<Seq<char>> {
    args.map_values(|a: ArgInfo| a.id@)
}

/// The manifest entries `es` are what a map from argument id to entry holds
/// once the arguments `args` were inserted in order: the ids in ascending
/// order, each once, with the entry of the last argument of that id.
pub open spec fn arg_entries_of(
    es: Seq<(String, ExtensionSubcommandArgOpts)>,
    args: Seq<ArgInfo>,
) -> bool {
    keyed_by_last(
        es,
        args,
        arg_ids(args),
        |e: (String, ExtensionSubcommandArgOpts), a: ArgInfo| arg_entry_of(e, a),
    )
}

fn clone_option(s: &Option<String>) -> (r: Option<String>)
    ensures
        r == *s,
{
    match s {
        Some(t) => Some(t.clone()),
        None => None,
    }
}

/// The manifest entries of the arguments of `cmd`, keyed by id in ascending
/// order, the last argument of an id giving its entry.
pub fn generate_args(cmd: &CommandInfo) -> (r: Vec<(String, ExtensionSubcommandArgOpts)>)
    ensures
        arg_entries_of(r@, cmd.args@),
{
    let ghost desc = |e: (String, ExtensionSubcommandArgOpts), a: ArgInfo| arg_entry_of(e, a);
    let mut r: Vec<(String, ExtensionSubcommandArgOpts)> = Vec::new();
    let n = cmd.args.len();
    proof {
        lemma_keyed_by_last_empty(cmd.args@, arg_ids(cmd.args@.subrange(0, 0)), desc);
    }
    for i in 0..n
        invariant
            n == cmd.args@.len(),
            keyed_by_last(r@, cmd.args@, arg_ids(cmd.args@.subrange(0, i as int)), desc),
            desc == (|e: (String, ExtensionSubcommandArgOpts), a: ArgInfo| arg_entry_of(e, a)),
    {
        let arg = &cmd.args[i];
        let entry = ExtensionSubcommandArgOpts {
            about: clone_option(&arg.help),
            long: clone_option(&arg.long),
            short: arg.short,
            multiple: false,
            values: arg_number_of_values(arg.num_args, arg.takes_values),
        };
        let ghost es = r@;
        let (p, replaced) = insert_sorted(&mut r, arg.id.clone(), entry);
        proof {
            let ids = arg_ids(cmd.args@.subrange(0, i + 1));
            assert(ids.drop_last() =~= arg_ids(cmd.args@.subrange(0, i as int)));
            assert(r@[p as int].0@ == arg.id@);
            let e2 = r@[p as int];
            assert(desc(e2, cmd.args@[i as int]));
            lemma_keyed_by_last_step(es, r@, cmd.args@, ids, desc, e2, p as int, replaced);
        }
    }
    assert(cmd.args@.subrange(0, n as int) =~= cmd.args@);
    r
}

/// The names of the commands `subs`, in order.
pub open spec fn command_names(subs: Seq<CommandInfo>) -> Seq<Seq<char>> {
    subs.map_values(|c: CommandInfo| c.name@)
}

/// The manifest entries `out` are what a map from name to entry holds once
/// the subcommands of `cmd` were inserted in order: the names in ascending
/// order, each once, with the entry of the last subcommand of that name.
pub open spec fn subcommand_entries_of(out: ExtensionSubcommandsOpts, cmd: CommandInfo) -> bool
    decreases cmd, 0int,
{
    &&& keys_ascending(out.0@)
    &&& forall|i: int|
        #![trigger out.0@[i]]
        0 <= i < out.0@.len() ==> 0 <= last_index(command_names(cmd.subcommands@), out.0@[i].0@)
            < cmd.subcommands@.len() && subcommand_entry_of(
            out.0@[i],
            cmd.subcommands@[last_index(command_names(cmd.subcommands@), out.0@[i].0@)],
        )
    &&& forall|k: int|
        #![trigger cmd.subcommands@[k]]
        0 <= k < cmd.subcommands@.len() ==> exists|i: int|
            0 <= i < out.0@.len() && #[trigger] out.0@[i].0@ == cmd.subcommands@[k].name@
}

/// The manifest entry `e` describes the subcommand `sub`.
pub open spec fn subcommand_entry_of(e: (String, ExtensionSubcommandOpts), sub: CommandInfo) -> bool
    decreases sub, 1int,
{
    &&& e.0@ == sub.name@
    &&& e.1.about == sub.about
    &&& e.1.args matches Some(a) && arg_entries_of(a@, sub.args@)
    &&& if sub.subcommands@.len() > 0 {
        e.1.subcommands matches Some(o) && subcommand_entries_of(o, sub)
    } else {
        e.1.subcommands is None
    }
}

proof fn lemma_last_index_below(ids: Seq<Seq<char>>, key: Seq<char>)
    ensures
        last_index(ids, key) < ids.len(),
    decreases ids.len(),
{
    if ids.len() > 0 && ids.last() != key {
        lemma_last_index_below(ids.drop_last(), key);
    }
}

/// The manifest entries of the subcommands of `cmd`, keyed by name in
/// ascending order, the last subcommand of a name giving its entry, each
/// with its arguments and, recursively, its own subcommands.
pub fn generate_subcommands(cmd: &CommandInfo) -> (r: ExtensionSubcommandsOpts)
    ensures
        subcommand_entries_of(r, *cmd),
    decreases cmd,
{
    let ghost desc = |e: (String, ExtensionSubcommandOpts), c: CommandInfo| subcommand_entry_of(e, c);
    let mut entries: Vec<(String, ExtensionSubcommandOpts)> = Vec::new();
    let n = cmd.subcommands.len();
    proof {
        lemma_keyed_by_last_empty(cmd.subcommands@, command_names(cmd.subcommands@.subrange(0, 0)), desc);
    }
    for i in 0..n
        invariant
            n == cmd.subcommands@.len(),
            keyed_by_last(
                entries@,
                cmd.subcommands@,
                command_names(cmd.subcommands@.subrange(0, i as int)),
                desc,
            ),
            desc == (|e: (String, ExtensionSubcommandOpts), c: CommandInfo| subcommand_entry_of(e, c)),
    {
        let sub = &cmd.subcommands[i];
        let nested = if sub.subcommands.len() > 0 {
            Some(generate_subcommands(sub))
        } else {
            None
        };
        let entry = ExtensionSubcommandOpts {
            about: clone_option(&sub.about),
            args: Some(generate_args(sub)),
            subcommands: nested,
        };
        let ghost es = entries@;
        let (p, replaced) = insert_sorted(&mut entries, sub.name.clone(), entry);
        proof {
            let ids = command_names(cmd.subcommands@.subrange(0, i + 1));
            assert(ids.drop_last() =~= command_names(cmd.subcommands@.subrange(0, i as int)));
            let e2 = entries@[p as int];
            assert(desc(e2, cmd.subcommands@[i as int]));
            lemma_keyed_by_last_step(es, entries@, cmd.subcommands@, ids, desc, e2, p as int, replaced);
        }
    }
    assert(cmd.subcommands@.subrange(0, n as int) =~= cmd.subcommands@);
    let r = ExtensionSubcommandsOpts(entries);
    proof {
        let names = command_names(cmd.subcommands@);
        assert(command_names(cmd.subcommands@.subrange(0, n as int)) == names);
        assert forall|i: int| #![trigger r.0@[i]] 0 <= i < r.0@.len() implies 0 <= last_index(
            names,
            r.0@[i].0@,
        ) < cmd.subcommands@.len() && subcommand_entry_of(
            r.0@[i],
            cmd.subcommands@[last_index(names, r.0@[i].0@)],
        ) by {
            lemma_last_index_below(names, r.0@[i].0@);
            assert(desc(r.0@[i], cmd.subcommands@[last_index(names, r.0@[i].0@)]));
        }
        assert forall|k: int|
            #![trigger cmd.subcommands@[k]]
            0 <= k < cmd.subcommands@.len() implies exists|i: int|
                0 <= i < r.0@.len() && #[trigger] r.0@[i].0@ == cmd.subcommands@[k].name@ by {
            assert(names[k] == cmd.subcommands@[k].name@);
            assert(exists|i: int| 0 <= i < entries@.len() && #[trigger] entries@[i].0@ == names[k]);
            let i = choose|i: int| 0 <= i < entries@.len() && #[trigger] entries@[i].0@ == names[k];
            assert(r.0@[i].0@ == cmd.subcommands@[k].name@);
        }
    }
    r
}

/// The generated parts of the manifest of the extension whose command is
/// `cmd`: its name, its about text as summary (empty where it has none),
/// its long about text as description, and the entries of its subcommands.
pub fn generate_extension_manifest(cmd: &CommandInfo) -> (r: ExtensionManifestUpdate)
    ensures
        r.name@ == cmd.name@,
        r.summary@ == (match cmd.about {
            Some(a) => a@,
            None => Seq::empty(),
        }),
        r.description == cmd.long_about,
        subcommand_entries_of(r.subcommands, *cmd),
{
    let summary = match &cmd.about {
        Some(a) => a.clone(),
        None => String::new(),
    };
    ExtensionManifestUpdate {
        name: cmd.name.clone(),
        summary,
        description: clone_option(&cmd.long_about),
        subcommands: generate_subcommands(cmd),
    }
}

} // verus!
