//! The command line of the management commands.
use vstd::prelude::*;

use crate::json::{empty_object, parsed_json, Json, JsonView};
use crate::text::{
    concat, concat3, has_prefix, same_text, strip_prefix, texts, trim_start_of, trimmed_start_of,
};

verus! {

/// The commands there are.
pub open spec fn command_names() -> Seq<Seq<char>> {
    seq![
        "help"@,
        "status"@,
        "settings-get"@,
        "settings-set"@,
        "providers-list"@,
        "provider-get"@,
        "provider-update"@,
        "model-routes-list"@,
        "model-route-set"@,
        "provider-switch"@,
        "providers-reorder"@,
        "aggregate-get"@,
        "aggregate-update"@,
        "aggregate-switch"@,
        "manager-open"@,
        "codex-start"@,
        "codex-restart"@,
    ]
}

pub open spec fn views(list: Seq<&'static str>) -> Seq<Seq<char>> {
    Seq::new(list.len(), |i: int| list[i]@)
}

pub fn commands() -> (r: Vec<&'static str>)
    ensures
        views(r@) == command_names(),
{
    let r: Vec<&'static str> = vec![
        "help",
        "status",
        "settings-get",
        "settings-set",
        "providers-list",
        "provider-get",
        "provider-update",
        "model-routes-list",
        "model-route-set",
        "provider-switch",
        "providers-reorder",
        "aggregate-get",
        "aggregate-update",
        "aggregate-switch",
        "manager-open",
        "codex-start",
        "codex-restart",
    ];
    assert(views(r@) =~= command_names());
    r
}

pub fn is_command(command: &str) -> (r: bool)
    ensures
        r == command_names().contains(command@),
{
    let list = commands();
    for i in 0..list.len()
        invariant
            views(list@) == command_names(),
            forall|j: int| 0 <= j < i ==> (#[trigger] command_names()[j]) != command@,
    {
        assert(views(list@)[i as int] == list@[i as int]@);
        if same_text(list[i], command) {
            assert(command_names()[i as int] == command@);
            return true;
        }
    }
    assert(views(list@).len() == command_names().len());
    false
}

/// Where the input of a command comes from.
#[derive(Clone, Debug, PartialEq, Eq)]
pub enum InputSource {
    Stdin,
    File(String),
    Literal(String),
}

pub enum InputSourceView {
    Stdin,
    File(Seq<char>),
    Literal(Seq<char>),
}

impl View for InputSource {
    type V = InputSourceView;

    open spec fn view(&self) -> InputSourceView {
        match *self {
            InputSource::Stdin => InputSourceView::Stdin,
            InputSource::File(path) => InputSourceView::File(path@),
            InputSource::Literal(text) => InputSourceView::Literal(text@),
        }
    }
}

/// A dash is the standard input, and what follows an at sign a file.
pub open spec fn source_of(value: Seq<char>) -> InputSourceView {
    if value == "-"@ {
        InputSourceView::Stdin
    } else if has_prefix(value, "@"@) {
        InputSourceView::File(value.skip(1))
    } else {
        InputSourceView::Literal(value)
    }
}

fn input_source(value: &str) -> (r: InputSource)
    ensures
        r@ == source_of(value@),
{
    proof {
        reveal_strlit("@");
    }
    if same_text(value, "-") {
        InputSource::Stdin
    } else {
        match strip_prefix(value, "@") {
            Some(path) => InputSource::File(path.to_owned()),
            None => InputSource::Literal(value.to_owned()),
        }
    }
}

#[derive(Clone, Debug, PartialEq, Eq)]
pub struct Arguments {
    pub command: String,
    pub input: Option<InputSource>,
    pub state_dir: Option<String>,
    pub codex_home: Option<String>,
    pub include_secrets: bool,
    pub dry_run: bool,
}

pub struct ArgumentsView {
    pub command: Seq<char>,
    pub input: Option<InputSourceView>,
    pub state_dir: Option<Seq<char>>,
    pub codex_home: Option<Seq<char>>,
    pub include_secrets: bool,
    pub dry_run: bool,
}

impl View for Arguments {
    type V = ArgumentsView;

    open spec fn view(&self) -> ArgumentsView {
        ArgumentsView {
            command: self.command@,
            input: match self.input {
                Some(source) => Some(source@),
                None => None,
            },
            state_dir: crate::text::option_text(self.state_dir),
            codex_home: crate::text::option_text(self.codex_home),
            include_secrets: self.include_secrets,
            dry_run: self.dry_run,
        }
    }
}

/// The options from one on, read into what was read before.
pub open spec fn options_from(args: Seq<Seq<char>>, from: int, read: ArgumentsView) -> Result<
    ArgumentsView,
    Seq<char>,
>
    decreases args.len() - from,
{
    if from >= args.len() {
        Ok(read)
    } else if args[from] == "--input"@ {
        if read.input is Some {
            Err("Only one --input is allowed"@)
        } else if from + 1 >= args.len() {
            Err("--input requires JSON, @file or -"@)
        } else {
            options_from(
                args,
                from + 2,
                ArgumentsView { input: Some(source_of(args[from + 1])), ..read },
            )
        }
    } else if args[from] == "--state-dir"@ {
        if from + 1 >= args.len() {
            Err("Missing state directory"@)
        } else {
            options_from(
                args,
                from + 2,
                ArgumentsView { state_dir: Some(args[from + 1]), ..read },
            )
        }
    } else if args[from] == "--codex-home"@ {
        if from + 1 >= args.len() {
            Err("Missing Codex home"@)
        } else {
            options_from(
                args,
                from + 2,
                ArgumentsView { codex_home: Some(args[from + 1]), ..read },
            )
        }
    } else if args[from] == "--include-secrets"@ {
        options_from(args, from + 1, ArgumentsView { include_secrets: true, ..read })
    } else if args[from] == "--dry-run"@ {
        options_from(args, from + 1, ArgumentsView { dry_run: true, ..read })
    } else {
        Err("Unknown CLI option: "@ + args[from])
    }
}

pub open spec fn bare_command(command: Seq<char>) -> ArgumentsView {
    ArgumentsView {
        command,
        input: None,
        state_dir: None,
        codex_home: None,
        include_secrets: false,
        dry_run: false,
    }
}

/// What a command line says: a command, which is `help` if there is none, and its options.
pub open spec fn parsed_arguments(args: Seq<Seq<char>>) -> Result<ArgumentsView, Seq<char>> {
    let command = if args.len() > 0 {
        args[0]
    } else {
        "help"@
    };
    match options_from(args, 1, bare_command(command)) {
        Err(message) => Err(message),
        Ok(read) => if !command_names().contains(read.command) {
            Err("Unknown command: "@ + read.command + "; use --cli help"@)
        } else if read.state_dir is Some != read.codex_home is Some {
            Err("Use --state-dir and --codex-home together"@)
        } else {
            Ok(read)
        },
    }
}

/// Reads a command line, the program's own arguments aside.
pub fn parse_arguments(args: &Vec<String>) -> (r: Result<Arguments, String>)
    ensures
        match r {
            Ok(read) => parsed_arguments(texts(args@)) == Ok::<ArgumentsView, Seq<char>>(read@),
            Err(message) => parsed_arguments(texts(args@)) == Err::<ArgumentsView, Seq<char>>(
                message@,
            ),
        },
{
    let ghost all = texts(args@);
    let command = if args.len() > 0 {
        assert(all[0] == args@[0]@);
        args[0].clone()
    } else {
        "help".to_owned()
    };
    let mut read = Arguments {
        command,
        input: None,
        state_dir: None,
        codex_home: None,
        include_secrets: false,
        dry_run: false,
    };
    let ghost start = read@;
    let mut i: usize = 1;
    while i < args.len()
        invariant
            all == texts(args@),
            1 <= i,
            options_from(all, 1, start) == options_from(all, i as int, read@),
            start.command == (if all.len() > 0 {
                all[0]
            } else {
                "help"@
            }),
            start == bare_command(start.command),
        decreases args@.len() - i,
    {
        assert(all[i as int] == args@[i as int]@);
        let option = args[i].as_str();
        let has_value = i < args.len() - 1;
        proof {
            if has_value {
                assert(all[i + 1] == args@[i + 1]@);
            }
        }
        if same_text(option, "--input") {
            if read.input.is_some() {
                return Err("Only one --input is allowed".to_owned());
            }
            if !has_value {
                return Err("--input requires JSON, @file or -".to_owned());
            }
            read.input = Some(input_source(args[i + 1].as_str()));
            i = i + 2;
        } else if same_text(option, "--state-dir") {
            if !has_value {
                return Err("Missing state directory".to_owned());
            }
            read.state_dir = Some(args[i + 1].clone());
            i = i + 2;
        } else if same_text(option, "--codex-home") {
            if !has_value {
                return Err("Missing Codex home".to_owned());
            }
            read.codex_home = Some(args[i + 1].clone());
            i = i + 2;
        } else if same_text(option, "--include-secrets") {
            read.include_secrets = true;
            i = i + 1;
        } else if same_text(option, "--dry-run") {
            read.dry_run = true;
            i = i + 1;
        } else {
            return Err(concat("Unknown CLI option: ", option));
        }
    }
    if !is_command(read.command.as_str()) {
        return Err(concat3("Unknown command: ", read.command.as_str(), "; use --cli help"));
    }
    if read.state_dir.is_some() != read.codex_home.is_some() {
        return Err("Use --state-dir and --codex-home together".to_owned());
    }
    Ok(read)
}

/// The input that is to be read: that of the first `--input`, where no option before it is refused.
pub open spec fn input_from(args: Seq<Seq<char>>, from: int) -> Option<InputSourceView>
    decreases args.len() - from,
{
    if from >= args.len() {
        None
    } else if args[from] == "--input"@ {
        if from + 1 < args.len() {
            Some(source_of(args[from + 1]))
        } else {
            None
        }
    } else if args[from] == "--state-dir"@ || args[from] == "--codex-home"@ {
        if from + 1 < args.len() {
            input_from(args, from + 2)
        } else {
            None
        }
    } else if args[from] == "--include-secrets"@ || args[from] == "--dry-run"@ {
        input_from(args, from + 1)
    } else {
        None
    }
}

/// Finds the input that is to be read. It is read before the options after it are looked at.
pub fn input_to_read(args: &Vec<String>) -> (r: Option<InputSource>)
    ensures
        (match r {
            Some(source) => Some(source@),
            None => None,
        }) == input_from(texts(args@), 1),
{
    let ghost all = texts(args@);
    let mut i: usize = 1;
    while i < args.len()
        invariant
            all == texts(args@),
            1 <= i,
            input_from(all, 1) == input_from(all, i as int),
        decreases args@.len() - i,
    {
        assert(all[i as int] == args@[i as int]@);
        let option = args[i].as_str();
        let has_value = i < args.len() - 1;
        if same_text(option, "--input") {
            if has_value {
                assert(all[i + 1] == args@[i + 1]@);
                return Some(input_source(args[i + 1].as_str()));
            }
            return None;
        } else if same_text(option, "--state-dir") || same_text(option, "--codex-home") {
            if !has_value {
                return None;
            }
            i = i + 2;
        } else if same_text(option, "--include-secrets") || same_text(option, "--dry-run") {
            i = i + 1;
        } else {
            return None;
        }
    }
    None
}

proof fn lemma_input_of_options(args: Seq<Seq<char>>, from: int, read: ArgumentsView)
    requires
        options_from(args, from, read) is Ok,
    ensures
        options_from(args, from, read)->Ok_0.input == (if read.input is Some {
            read.input
        } else {
            input_from(args, from)
        }),
    decreases args.len() - from,
{
    if from < args.len() {
        if args[from] == "--input"@ {
            lemma_input_of_options(
                args,
                from + 2,
                ArgumentsView { input: Some(source_of(args[from + 1])), ..read },
            );
        } else if args[from] == "--state-dir"@ {
            lemma_input_of_options(
                args,
                from + 2,
                ArgumentsView { state_dir: Some(args[from + 1]), ..read },
            );
        } else if args[from] == "--codex-home"@ {
            lemma_input_of_options(
                args,
                from + 2,
                ArgumentsView { codex_home: Some(args[from + 1]), ..read },
            );
        } else if args[from] == "--include-secrets"@ {
            lemma_input_of_options(
                args,
                from + 1,
                ArgumentsView { include_secrets: true, ..read },
            );
        } else if args[from] == "--dry-run"@ {
            lemma_input_of_options(args, from + 1, ArgumentsView { dry_run: true, ..read });
        }
    }
}

/// The input that is read is the one that a command line names.
pub proof fn named_input_is_read(args: Seq<Seq<char>>)
    requires
        parsed_arguments(args) is Ok,
    ensures
        parsed_arguments(args)->Ok_0.input == input_from(args, 1),
{
    let command = if args.len() > 0 {
        args[0]
    } else {
        "help"@
    };
    lemma_input_of_options(args, 1, bare_command(command));
}

/// The input of a command: a JSON object, empty if none was given.
pub open spec fn parsed_input(text: Option<Seq<char>>) -> Result<JsonView, Seq<char>> {
    match text {
        None => Ok(empty_object()),
        Some(text) => match parsed_json(trimmed_start_of(text, '\u{feff}')) {
            Err(_) => Err("Invalid input JSON"@),
            Ok(value) => if value is Object {
                Ok(value)
            } else {
                Err("Input must be a JSON object"@)
            },
        },
    }
}

pub fn parse_input(text: Option<&str>) -> (r: Result<Json, String>)
    ensures
        match r {
            Ok(value) => parsed_input(crate::json::text_view(text)) == Ok::<JsonView, Seq<char>>(
                value@,
            ),
            Err(message) => parsed_input(crate::json::text_view(text)) == Err::<
                JsonView,
                Seq<char>,
            >(message@),
        },
{
    let text = match text {
        Some(text) => text,
        None => {
            return Ok(Json::object());
        },
    };
    match Json::parse(trim_start_of(text, '\u{feff}')) {
        Err(_) => Err("Invalid input JSON".to_owned()),
        Ok(value) => if value.is_object() {
            Ok(value)
        } else {
            Err("Input must be a JSON object".to_owned())
        },
    }
}

} // verus!
