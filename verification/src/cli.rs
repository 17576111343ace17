//! The command line: which command an invocation asks for.
//!
//! The arguments are parsed elsewhere. What arrives here is the parse's
//! result in plain values: whether the version was asked for, the path of
//! subcommand names, and the values of the innermost subcommand's arguments.

use vstd::prelude::*;
use crate::text::same_text;

verus! {

/// A parsed command line.
#[derive(Clone, Debug, PartialEq, Eq)]
pub struct Invocation {
    /// Whether `--version` or `-V` was given.
    pub version: bool,
    /// The subcommand names, outermost first.
    pub command: Vec<String>,
    /// The argument values of the innermost subcommand, each under its
    /// argument's name.
    pub values: Vec<(String, String)>,
}

/// What the program is asked to do.
#[derive(Clone, Debug, PartialEq, Eq)]
pub enum CliAction {
    /// Print the version.
    ShowVersion,
    /// List the items of the configuration file at this path.
    ConfigList(String),
    /// Create a configuration file at this path.
    ConfigNew(String),
    /// Change the configuration file at this path.
    ConfigChange(String),
    /// Run the daemon on the configuration file at this path.
    Run(String),
    /// Ask the daemon behind this socket to reload.
    Reload(String),
    /// Ask the daemon behind this socket to stop.
    Stop(String),
    /// Show the log of the daemon behind this socket, of one log or of all.
    Log(String, Option<String>),
    /// The command line asks for nothing that is known.
    Unknown,
}

/// The value given under `name`: the first of that name.
pub open spec fn value_of(values: Seq<(String, String)>, name: Seq<char>) -> Option<String>
    decreases values.len(),
{
    if values.len() == 0 {
        None
    } else if values[0].0@ == name {
        Some(values[0].1)
    } else {
        value_of(values.drop_first(), name)
    }
}

/// Whether the subcommand path is the one name `a`.
pub open spec fn names(command: Seq<String>, a: &str) -> bool {
    command.len() == 1 && command[0]@ == a@
}

/// Whether the subcommand path is `a` followed by `b`.
pub open spec fn names_both(command: Seq<String>, a: &str, b: &str) -> bool {
    command.len() == 2 && command[0]@ == a@ && command[1]@ == b@
}

/// The action on a value that must be there: unknown without it.
pub open spec fn with_value(v: Option<String>, action: spec_fn(String) -> CliAction)
    -> CliAction {
    match v {
        Some(s) => action(s),
        None => CliAction::Unknown,
    }
}

/// What an invocation asks for. The version flag goes before any command.
/// A command without the value it needs asks for nothing known.
pub open spec fn action_of(inv: Invocation) -> CliAction {
    let path = value_of(inv.values@, "path"@);
    let socket = value_of(inv.values@, "socket"@);
    if inv.version {
        CliAction::ShowVersion
    } else if names_both(inv.command@, "config", "list") {
        with_value(path, |p: String| CliAction::ConfigList(p))
    } else if names_both(inv.command@, "config", "new") {
        with_value(path, |p: String| CliAction::ConfigNew(p))
    } else if names_both(inv.command@, "config", "change") {
        with_value(path, |p: String| CliAction::ConfigChange(p))
    } else if names(inv.command@, "run") {
        with_value(path, |p: String| CliAction::Run(p))
    } else if names(inv.command@, "reload") {
        with_value(socket, |s: String| CliAction::Reload(s))
    } else if names(inv.command@, "stop") {
        with_value(socket, |s: String| CliAction::Stop(s))
    } else if names(inv.command@, "log") {
        with_value(socket, |s: String| CliAction::Log(s, value_of(inv.values@, "id"@)))
    } else {
        CliAction::Unknown
    }
}

/// Looks up the value given under `name`.
pub fn value(values: &Vec<(String, String)>, name: &str) -> (r: Option<String>)
    ensures
        r == value_of(values@, name@),
{
    let mut i: usize = 0;
    proof {
        assert(values@.subrange(0, values@.len() as int) =~= values@);
    }
    while i < values.len()
        invariant
            i <= values@.len(),
            value_of(values@, name@) == value_of(
                values@.subrange(i as int, values@.len() as int),
                name@,
            ),
        decreases values@.len() - i,
    {
        let ghost rest = values@.subrange(i as int, values@.len() as int);
        proof {
            assert(rest[0] == values@[i as int]);
            assert(rest.drop_first() =~= values@.subrange(i + 1, values@.len() as int));
        }
        if same_text(values[i].0.as_str(), name) {
            return Some(values[i].1.clone());
        }
        i = i + 1;
    }
    None
}

fn is_path(command: &Vec<String>, a: &str) -> (r: bool)
    ensures
        r == names(command@, a),
{
    command.len() == 1 && same_text(command[0].as_str(), a)
}

fn is_path_of_two(command: &Vec<String>, a: &str, b: &str) -> (r: bool)
    ensures
        r == names_both(command@, a, b),
{
    command.len() == 2 && same_text(command[0].as_str(), a) && same_text(command[1].as_str(), b)
}

/// Decides what a command line asks for.
pub fn handle_cli(inv: &Invocation) -> (action: CliAction)
    ensures
        action == action_of(*inv),
{
    if inv.version {
        return CliAction::ShowVersion;
    }
    let command = &inv.command;
    if is_path_of_two(command, "config", "list") {
        match value(&inv.values, "path") {
            Some(p) => CliAction::ConfigList(p),
            None => CliAction::Unknown,
        }
    } else if is_path_of_two(command, "config", "new") {
        match value(&inv.values, "path") {
            Some(p) => CliAction::ConfigNew(p),
            None => CliAction::Unknown,
        }
    } else if is_path_of_two(command, "config", "change") {
        match value(&inv.values, "path") {
            Some(p) => CliAction::ConfigChange(p),
            None => CliAction::Unknown,
        }
    } else if is_path(command, "run") {
        match value(&inv.values, "path") {
            Some(p) => CliAction::Run(p),
            None => CliAction::Unknown,
        }
    } else if is_path(command, "reload") {
        match value(&inv.values, "socket") {
            Some(s) => CliAction::Reload(s),
            None => CliAction::Unknown,
        }
    } else if is_path(command, "stop") {
        match value(&inv.values, "socket") {
            Some(s) => CliAction::Stop(s),
            None => CliAction::Unknown,
        }
    } else if is_path(command, "log") {
        match value(&inv.values, "socket") {
            Some(s) => CliAction::Log(s, value(&inv.values, "id")),
            None => CliAction::Unknown,
        }
    } else {
        CliAction::Unknown
    }
}

/// One argument of a command.
#[derive(Clone, Debug, PartialEq, Eq)]
pub struct ArgSpec {
    /// The name under which the argument's value is found after parsing.
    pub name: String,
    /// How the value is called in the usage line.
    pub value_name: String,
    pub help: String,
    pub required: bool,
}

/// One command of the command line: the path of subcommand names that
/// leads to it, and its arguments in their order.
#[derive(Clone, Debug, PartialEq, Eq)]
pub struct CommandForm {
    pub path: Vec<String>,
    pub about: String,
    pub args: Vec<ArgSpec>,
}

/// The command line's grammar.
#[derive(Clone, Debug, PartialEq, Eq)]
pub struct CliSpec {
    pub name: String,
    pub about: String,
    /// Shown after the help of every command.
    pub after_help: String,
    /// The subcommands that only group others, each with what it is about.
    pub groups: Vec<(String, String)>,
    /// The commands.
    pub forms: Vec<CommandForm>,
}

/// An argument with its texts as sequences.
pub struct ArgView {
    pub name: Seq<char>,
    pub value_name: Seq<char>,
    pub help: Seq<char>,
    pub required: bool,
}

/// A command with its texts as sequences.
pub struct FormView {
    pub path: Seq<Seq<char>>,
    pub about: Seq<char>,
    pub args: Seq<ArgView>,
}

/// A grammar with its texts as sequences.
pub struct CliView {
    pub name: Seq<char>,
    pub about: Seq<char>,
    pub after_help: Seq<char>,
    pub groups: Seq<(Seq<char>, Seq<char>)>,
    pub forms: Seq<FormView>,
}

impl View for ArgSpec {
    type V = ArgView;

    open spec fn view(&self) -> ArgView {
        ArgView {
            name: self.name@,
            value_name: self.value_name@,
            help: self.help@,
            required: self.required,
        }
    }
}

/// The characters of each name.
pub open spec fn path_view(path: Seq<String>) -> Seq<Seq<char>> {
    Seq::new(path.len(), |i: int| path[i]@)
}

impl View for CommandForm {
    type V = FormView;

    open spec fn view(&self) -> FormView {
        FormView {
            path: path_view(self.path@),
            about: self.about@,
            args: Seq::new(self.args@.len(), |i: int| self.args@[i]@),
        }
    }
}

impl View for CliSpec {
    type V = CliView;

    open spec fn view(&self) -> CliView {
        CliView {
            name: self.name@,
            about: self.about@,
            after_help: self.after_help@,
            groups: Seq::new(
                self.groups@.len(),
                |i: int| (self.groups@[i].0@, self.groups@[i].1@),
            ),
            forms: Seq::new(self.forms@.len(), |i: int| self.forms@[i]@),
        }
    }
}

/// An argument whose value is needed.
pub open spec fn needed(name: &str, value_name: &str, help: &str) -> ArgView {
    ArgView { name: name@, value_name: value_name@, help: help@, required: true }
}

/// The argument that names a configuration file.
pub open spec fn config_path() -> Seq<ArgView> {
    seq![needed("path", "PATH", "Path to the configuration file")]
}

/// The commands of the program: three on a configuration file, one that
/// runs the daemon, and three that talk to a running daemon through its
/// socket, the last of them with a log's name that may be left out.
pub open spec fn cli_forms() -> Seq<FormView> {
    seq![
        FormView {
            path: seq!["config"@, "list"@],
            about: "List all available configuration items"@,
            args: config_path(),
        },
        FormView {
            path: seq!["config"@, "new"@],
            about: "Create a new configuration file"@,
            args: config_path(),
        },
        FormView {
            path: seq!["config"@, "change"@],
            about: "Modify an existing configuration file"@,
            args: config_path(),
        },
        FormView {
            path: seq!["run"@],
            about: "Run the program"@,
            args: seq![needed("path", "PATH", "Configuration file currently in use at runtime")],
        },
        FormView {
            path: seq!["reload"@],
            about: "Reload the configuration for a running process"@,
            args: seq![
                needed(
                    "socket",
                    "SOCKET",
                    "Path to the Unix socket used to communicate with the running process",
                ),
            ],
        },
        FormView {
            path: seq!["stop"@],
            about: "Stop a running process"@,
            args: seq![
                needed("socket", "SOCKET", "Path to the Unix socket used to stop the running process"),
            ],
        },
        FormView {
            path: seq!["log"@],
            about: "View the log files of a running process"@,
            args: seq![
                needed("socket", "SOCKET", "Path to the Unix socket used to retrieve log output"),
                ArgView {
                    name: "id"@,
                    value_name: "ID"@,
                    help: "Log ID to display"@,
                    required: false,
                },
            ],
        },
    ]
}

/// The grammar of the program.
pub open spec fn cli_spec() -> CliView {
    CliView {
        name: "Arcme"@,
        about: "This is an ACME client for automated certificate management."@,
        after_help: "Author: Arc Asumity <arcasumity@hotmail.com>\n\nLicense:\n  Copyright (c) 2025 Arc Asumity\n  Licensed under the GPLv3 or later License."@,
        groups: seq![("config"@, "Manage configuration files and options"@)],
        forms: cli_forms(),
    }
}

fn argument(name: &str, value_name: &str, help: &str, required: bool) -> (a: ArgSpec)
    ensures
        a@ == (ArgView { name: name@, value_name: value_name@, help: help@, required: required }),
{
    ArgSpec {
        name: name.to_owned(),
        value_name: value_name.to_owned(),
        help: help.to_owned(),
        required: required,
    }
}

fn form(first: &str, second: Option<&str>, about: &str, arg: ArgSpec, more: Option<ArgSpec>) -> (f:
    CommandForm)
    ensures
        f@ == (FormView {
            path: match second {
                Some(s) => seq![first@, s@],
                None => seq![first@],
            },
            about: about@,
            args: match more {
                Some(a) => seq![arg@, a@],
                None => seq![arg@],
            },
        }),
{
    let mut path: Vec<String> = Vec::new();
    path.push(first.to_owned());
    match second {
        Some(s) => {
            path.push(s.to_owned());
        },
        None => {},
    }
    let ghost first_arg = arg@;
    let ghost second_arg = more;
    let mut args: Vec<ArgSpec> = Vec::new();
    args.push(arg);
    match more {
        Some(a) => {
            args.push(a);
        },
        None => {},
    }
    let f = CommandForm { path: path, about: about.to_owned(), args: args };
    proof {
        assert(f@.path =~= match second {
            Some(s) => seq![first@, s@],
            None => seq![first@],
        });
        assert(f@.args =~= match second_arg {
            Some(a) => seq![first_arg, a@],
            None => seq![first_arg],
        });
    }
    f
}

/// Builds the grammar of the command line.
pub fn build_cli() -> (cli: CliSpec)
    ensures
        cli@ == cli_spec(),
{
    let mut groups: Vec<(String, String)> = Vec::new();
    groups.push(("config".to_owned(), "Manage configuration files and options".to_owned()));
    let mut forms: Vec<CommandForm> = Vec::new();
    forms.push(
        form(
            "config",
            Some("list"),
            "List all available configuration items",
            argument("path", "PATH", "Path to the configuration file", true),
            None,
        ),
    );
    forms.push(
        form(
            "config",
            Some("new"),
            "Create a new configuration file",
            argument("path", "PATH", "Path to the configuration file", true),
            None,
        ),
    );
    forms.push(
        form(
            "config",
            Some("change"),
            "Modify an existing configuration file",
            argument("path", "PATH", "Path to the configuration file", true),
            None,
        ),
    );
    forms.push(
        form(
            "run",
            None,
            "Run the program",
            argument("path", "PATH", "Configuration file currently in use at runtime", true),
            None,
        ),
    );
    forms.push(
        form(
            "reload",
            None,
            "Reload the configuration for a running process",
            argument(
                "socket",
                "SOCKET",
                "Path to the Unix socket used to communicate with the running process",
                true,
            ),
            None,
        ),
    );
    forms.push(
        form(
            "stop",
            None,
            "Stop a running process",
            argument(
                "socket",
                "SOCKET",
                "Path to the Unix socket used to stop the running process",
                true,
            ),
            None,
        ),
    );
    forms.push(
        form(
            "log",
            None,
            "View the log files of a running process",
            argument(
                "socket",
                "SOCKET",
                "Path to the Unix socket used to retrieve log output",
                true,
            ),
            Some(argument("id", "ID", "Log ID to display", false)),
        ),
    );
    let cli = CliSpec {
        name: "Arcme".to_owned(),
        about: "This is an ACME client for automated certificate management.".to_owned(),
        after_help: "Author: Arc Asumity <arcasumity@hotmail.com>\n\nLicense:\n  Copyright (c) 2025 Arc Asumity\n  Licensed under the GPLv3 or later License.".to_owned(),
        groups: groups,
        forms: forms,
    };
    proof {
        assert(cli@.forms =~= cli_forms());
        assert(cli@.groups =~= seq![("config"@, "Manage configuration files and options"@)]);
    }
    cli
}

/// Whether an invocation gives a value for every argument that is needed.
pub open spec fn gives_needed(values: Seq<(String, String)>, args: Seq<ArgView>) -> bool {
    forall|i: int|
        0 <= i < args.len() && (#[trigger] args[i]).required ==> value_of(values, args[i].name)
            is Some
}

/// Grammar and dispatch agree: an invocation of any command of the grammar,
/// with a value for each argument that the command needs, asks for
/// something that is known.
pub proof fn law_every_command_is_known(inv: Invocation, k: int)
    requires
        0 <= k < cli_forms().len(),
        path_view(inv.command@) == cli_forms()[k].path,
        gives_needed(inv.values@, cli_forms()[k].args),
    ensures
        !(action_of(inv) is Unknown),
{
    reveal_strlit("config");
    reveal_strlit("list");
    reveal_strlit("new");
    reveal_strlit("change");
    reveal_strlit("run");
    reveal_strlit("reload");
    reveal_strlit("stop");
    reveal_strlit("log");
    let path = path_view(inv.command@);
    let command = inv.command@;
    let forms = cli_forms();
    assert("run"@.len() == 3 && "reload"@.len() == 6 && "stop"@.len() == 4 && "log"@.len() == 3);
    assert("run"@[0] == 'r' && "log"@[0] == 'l');
    assert(path.len() == command.len());
    assert(path[0] == command[0]@);
    if k <= 2 {
        assert(path[1] == command[1]@);
        assert(forms[k].args[0].required);
        assert(value_of(inv.values@, "path"@) is Some);
        assert(names_both(command, "config", "list") || names_both(command, "config", "new")
            || names_both(command, "config", "change"));
    } else if k == 3 {
        assert(forms[3].args[0].required);
        assert(value_of(inv.values@, "path"@) is Some);
        assert(names(command, "run"));
    } else if k == 4 {
        assert(forms[4].args[0].required);
        assert(value_of(inv.values@, "socket"@) is Some);
        assert(names(command, "reload"));
        assert(!names(command, "run"));
    } else if k == 5 {
        assert(forms[5].args[0].required);
        assert(value_of(inv.values@, "socket"@) is Some);
        assert(names(command, "stop"));
        assert(!names(command, "run"));
        assert(!names(command, "reload"));
    } else {
        assert(forms[6].args[0].required);
        assert(value_of(inv.values@, "socket"@) is Some);
        assert(names(command, "log"));
        assert(!names(command, "run"));
        assert(!names(command, "reload"));
        assert(!names(command, "stop"));
    }
}

} // verus!
