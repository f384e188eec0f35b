//! The command line: a pure function from the argument list to what to run.
//!
//! Nothing here touches the file system, the environment or the network, so
//! the whole flag matrix can be tested without starting the program. Defaults
//! that need any of those are resolved by whoever runs the result.

use crate::lint_args::{
    content_type_value, lint_args, needs_feature, opt_ref_text, parse_lint, path_value, read_value,
    required, validated_content_type, verify_needs_feature, LintArgs, LintView,
};
use crate::text::{
    arg_at, arg_of, contains_text, fail, fail_about, fail_with, opt_text, pushed, same, starts_with,
    string_from, texts, CliError,
};
use vstd::prelude::*;
use vstd::slice::slice_subrange;

verus! {

/// A gate failed: too many errors or warnings. The input was linted; the answer
/// is no.
pub const EXIT_GATE: i32 = 1;

/// The tool could not do its job: bad arguments, unreadable configuration, a
/// file it could not process.
pub const EXIT_FAILURE: i32 = 2;

/// Flags accepted after the `convert` subcommand.
#[derive(Debug)]
pub struct ConvertArgs {
    pub files: Vec<String>,
    pub content_type: Option<String>,
    pub verify: bool,
}

/// What a `ConvertArgs` holds.
pub ghost struct ConvertView {
    pub files: Seq<Seq<char>>,
    pub content_type: Option<Seq<char>>,
    pub verify: bool,
}

impl View for ConvertArgs {
    type V = ConvertView;

    open spec fn view(&self) -> ConvertView {
        ConvertView {
            files: texts(self.files@),
            content_type: opt_text(self.content_type),
            verify: self.verify,
        }
    }
}

/// The arguments after the `tm` subcommand.
#[derive(Debug)]
pub struct TmArgs {
    pub cmd: String,
    pub arg: Option<String>,
    pub found: Option<String>,
    pub suggested: Option<String>,
    pub chose: Option<String>,
    pub context: Option<String>,
}

/// What a `TmArgs` holds.
pub ghost struct TmView {
    pub cmd: Seq<char>,
    pub arg: Option<Seq<char>>,
    pub found: Option<Seq<char>>,
    pub suggested: Option<Seq<char>>,
    pub chose: Option<Seq<char>>,
    pub context: Option<Seq<char>>,
}

impl View for TmArgs {
    type V = TmView;

    open spec fn view(&self) -> TmView {
        TmView {
            cmd: self.cmd@,
            arg: opt_text(self.arg),
            found: opt_text(self.found),
            suggested: opt_text(self.suggested),
            chose: opt_text(self.chose),
            context: opt_text(self.context),
        }
    }
}

/// The subcommand to run. None means the MCP server over stdio.
#[derive(Debug)]
pub enum Command {
    Server,
    Lint(Box<LintArgs>),
    Convert(ConvertArgs),
    Setup(String),
    Pack { cmd: String, arg: Option<String> },
    Tm(TmArgs),
    CacheClear,
}

/// What a `Command` holds.
pub ghost enum CommandView {
    Server,
    Lint(LintView),
    Convert(ConvertView),
    Setup(Seq<char>),
    Pack { cmd: Seq<char>, arg: Option<Seq<char>> },
    Tm(TmView),
    CacheClear,
}

impl View for Command {
    type V = CommandView;

    open spec fn view(&self) -> CommandView {
        match *self {
            Command::Server => CommandView::Server,
            Command::Lint(lint) => CommandView::Lint((*lint)@),
            Command::Convert(convert) => CommandView::Convert(convert@),
            Command::Setup(host) => CommandView::Setup(host@),
            Command::Pack { cmd, arg } => CommandView::Pack { cmd: cmd@, arg: opt_text(arg) },
            Command::Tm(tm) => CommandView::Tm(tm@),
            Command::CacheClear => CommandView::CacheClear,
        }
    }
}

/// A parsed command line: global flags and the selected subcommand.
#[derive(Debug)]
pub struct Cli {
    pub overrides_path: Option<String>,
    pub suppressions_path: Option<String>,
    pub packs_dir: Option<String>,
    pub active_packs: Vec<String>,
    pub config_path: Option<String>,
    pub command: Command,
}

/// What a `Cli` holds.
pub ghost struct CliView {
    pub overrides_path: Option<Seq<char>>,
    pub suppressions_path: Option<Seq<char>>,
    pub packs_dir: Option<Seq<char>>,
    pub active_packs: Seq<Seq<char>>,
    pub config_path: Option<Seq<char>>,
    pub command: CommandView,
}

impl View for Cli {
    type V = CliView;

    open spec fn view(&self) -> CliView {
        CliView {
            overrides_path: opt_text(self.overrides_path),
            suppressions_path: opt_text(self.suppressions_path),
            packs_dir: opt_text(self.packs_dir),
            active_packs: texts(self.active_packs@),
            config_path: opt_text(self.config_path),
            command: self.command@,
        }
    }
}

/// A command line without arguments: the server, with nothing configured.
pub open spec fn bare_cli() -> CliView {
    CliView {
        overrides_path: None,
        suppressions_path: None,
        packs_dir: None,
        active_packs: seq![],
        config_path: None,
        command: CommandView::Server,
    }
}

// The arguments after `convert`.

/// What `convert` starts from.
pub open spec fn convert_defaults() -> ConvertView {
    ConvertView { files: seq![], content_type: None, verify: false }
}

impl Default for ConvertArgs {
    fn default() -> (r: Self)
        ensures
            r@ == convert_defaults(),
    {
        let r = ConvertArgs { files: Vec::new(), content_type: None, verify: false };
        assert(r@.files =~= seq![]);
        r
    }
}

/// The flags after reading the arguments of `convert` from position `i` on.
pub open spec fn convert_from(
    rest: Seq<Seq<char>>,
    i: int,
    a: ConvertView,
    translate: bool,
) -> Result<ConvertView, Seq<char>>
    decreases (if i < rest.len() { rest.len() - i } else { 0 }),
{
    if i < 0 || i >= rest.len() {
        Ok(a)
    } else if rest[i] == "--content-type"@ {
        match content_type_value(arg_at(rest, i + 1)) {
            Ok(ct) => convert_from(
                rest,
                i + 2,
                ConvertView { content_type: Some(ct), ..a },
                translate,
            ),
            Err(e) => Err(e),
        }
    } else if rest[i] == "--verify"@ {
        if translate {
            convert_from(rest, i + 1, ConvertView { verify: true, ..a }, translate)
        } else {
            Err(verify_needs_feature())
        }
    } else if rest[i] != "--"@ && "-"@.is_prefix_of(rest[i]) {
        Err("unknown convert flag: "@ + rest[i])
    } else {
        convert_from(rest, i + 1, ConvertView { files: a.files.push(rest[i]), ..a }, translate)
    }
}

/// What the arguments after `convert` ask for. No file means standard input.
pub open spec fn convert_args(rest: Seq<Seq<char>>, translate: bool) -> Result<
    ConvertView,
    Seq<char>,
> {
    match convert_from(rest, 0, convert_defaults(), translate) {
        Ok(a) => if a.files.len() == 0 {
            Ok(ConvertView { files: seq!["--"@], ..a })
        } else {
            Ok(a)
        },
        Err(e) => Err(e),
    }
}

/// Parses the arguments after `convert`, which takes the rest of the command
/// line, and says how many it used.
pub fn parse_convert(rest: &[String], translate: bool) -> (r: Result<(ConvertArgs, usize), CliError>)
    ensures
        match r {
            Ok((convert, used)) => {
                &&& convert_args(texts(rest@), translate) == Ok::<ConvertView, Seq<char>>(convert@)
                &&& used == rest.len()
            },
            Err(e) => convert_args(texts(rest@), translate) == Err::<ConvertView, Seq<char>>(
                e.message@,
            ),
        },
{
    let mut convert = ConvertArgs::default();
    let mut i: usize = 0;
    while i < rest.len()
        invariant
            i <= rest.len(),
            convert_from(texts(rest@), 0, convert_defaults(), translate) == convert_from(
                texts(rest@),
                i as int,
                convert@,
                translate,
            ),
        decreases rest.len() - i,
    {
        let arg = rest[i].as_str();
        assert(arg@ == texts(rest@)[i as int]);
        if same(arg, "--content-type") {
            let next = arg_of(rest, i + 1);
            assert(opt_ref_text(next) == arg_at(texts(rest@), i + 1));
            match validated_content_type(next) {
                Ok(ct) => {
                    convert = ConvertArgs { content_type: Some(ct), ..convert };
                },
                Err(e) => {
                    return Err(e);
                },
            }
            i += 2;
        } else if same(arg, "--verify") {
            if !translate {
                return Err(needs_feature());
            }
            convert = ConvertArgs { verify: true, ..convert };
            i += 1;
        } else if !same(arg, "--") && starts_with(arg, "-") {
            return Err(fail_about("unknown convert flag: ", arg));
        } else {
            let files = pushed(convert.files, rest[i].clone());
            convert = ConvertArgs { files, ..convert };
            i += 1;
        }
    }
    if convert.files.len() == 0 {
        let files = pushed(convert.files, string_from("--"));
        convert = ConvertArgs { files, ..convert };
        assert(convert@.files =~= seq!["--"@]);
    }
    Ok((convert, i))
}

// The arguments after `tm`.

/// The record flags by name: where a value goes.
pub open spec fn with_record_flag(a: TmView, flag: Seq<char>, value: Seq<char>) -> TmView {
    if flag == "--found"@ {
        TmView { found: Some(value), ..a }
    } else if flag == "--suggested"@ {
        TmView { suggested: Some(value), ..a }
    } else if flag == "--chose"@ {
        TmView { chose: Some(value), ..a }
    } else {
        TmView { context: Some(value), ..a }
    }
}

/// Whether a flag belongs to `tm record`.
pub open spec fn is_record_flag(flag: Seq<char>) -> bool {
    flag == "--found"@ || flag == "--suggested"@ || flag == "--chose"@ || flag == "--context"@
}

/// The flags of `tm record` from position `i` on, and where they end: at the
/// first argument that does not begin with two dashes.
pub open spec fn record_from(rest: Seq<Seq<char>>, i: int, a: TmView) -> Result<
    (TmView, int),
    Seq<char>,
>
    decreases (if i < rest.len() { rest.len() - i } else { 0 }),
{
    if i < 0 || i >= rest.len() || !"--"@.is_prefix_of(rest[i]) {
        Ok((a, i))
    } else if !is_record_flag(rest[i]) {
        Err("unknown tm record flag: "@ + rest[i])
    } else {
        match arg_at(rest, i + 1) {
            None => Err(rest[i] + " requires a value"@),
            Some(value) => record_from(rest, i + 2, with_record_flag(a, rest[i], value)),
        }
    }
}

/// A translation-memory subcommand with nothing after it.
pub open spec fn bare_tm(cmd: Seq<char>) -> TmView {
    TmView { cmd, arg: None, found: None, suggested: None, chose: None, context: None }
}

/// What the arguments after `tm` ask for, and how many of them are used. Only
/// `export`, `import` and `record` take anything beyond the subcommand's name.
pub open spec fn tm_args(rest: Seq<Seq<char>>) -> Result<(TmView, int), Seq<char>> {
    if rest.len() == 0 {
        Err("tm requires a subcommand (list|export|import|clear|record)"@)
    } else if rest[0] == "export"@ || rest[0] == "import"@ {
        match arg_at(rest, 1) {
            None => Err("tm "@ + rest[0] + " requires a file path"@),
            Some(path) => Ok((TmView { arg: Some(path), ..bare_tm(rest[0]) }, 2)),
        }
    } else if rest[0] == "record"@ {
        record_from(rest, 1, bare_tm(rest[0]))
    } else {
        Ok((bare_tm(rest[0]), 1))
    }
}

/// The value after the record flag at `i`, or the error for it.
fn record_value(rest: &[String], i: usize) -> (r: Result<String, CliError>)
    requires
        i < rest.len(),
    ensures
        match r {
            Ok(value) => is_record_flag(rest@[i as int]@) && arg_at(texts(rest@), i + 1) == Some(
                value@,
            ),
            Err(e) => if is_record_flag(rest@[i as int]@) {
                &&& arg_at(texts(rest@), i + 1) is None
                &&& e.message@ == rest@[i as int]@ + " requires a value"@
            } else {
                e.message@ == "unknown tm record flag: "@ + rest@[i as int]@
            },
        },
{
    let flag = rest[i].as_str();
    if !(same(flag, "--found") || same(flag, "--suggested") || same(flag, "--chose") || same(
        flag,
        "--context",
    )) {
        return Err(fail_about("unknown tm record flag: ", flag));
    }
    match arg_of(rest, i + 1) {
        Some(value) => Ok(value.clone()),
        None => Err(fail_about(flag, " requires a value")),
    }
}

/// Parses the arguments after `tm`. An unknown subcommand is passed through, so
/// that whoever runs it reports it.
pub fn parse_tm(rest: &[String]) -> (r: Result<(TmArgs, usize), CliError>)
    ensures
        match r {
            Ok((tm, used)) => {
                &&& tm_args(texts(rest@)) == Ok::<(TmView, int), Seq<char>>((tm@, used as int))
                &&& used <= rest.len()
            },
            Err(e) => tm_args(texts(rest@)) == Err::<(TmView, int), Seq<char>>(e.message@),
        },
{
    if rest.len() == 0 {
        return Err(fail("tm requires a subcommand (list|export|import|clear|record)"));
    }
    let cmd = rest[0].as_str();
    assert(cmd@ == texts(rest@)[0]);
    let mut tm = TmArgs {
        cmd: rest[0].clone(),
        arg: None,
        found: None,
        suggested: None,
        chose: None,
        context: None,
    };
    if same(cmd, "export") || same(cmd, "import") {
        return match arg_of(rest, 1) {
            Some(path) => Ok((TmArgs { arg: Some(path.clone()), ..tm }, 2)),
            None => Err(fail_with("tm ", cmd, " requires a file path")),
        };
    }
    let mut i: usize = 1;
    if same(cmd, "record") {
        while i < rest.len() && starts_with(rest[i].as_str(), "--")
            invariant
                1 <= i <= rest.len(),
                texts(rest@)[0] == "record"@,
                "record"@ != "export"@ && "record"@ != "import"@,
                tm_args(texts(rest@)) == record_from(texts(rest@), i as int, tm@),
            decreases rest.len() - i,
        {
            assert(rest@[i as int]@ == texts(rest@)[i as int]);
            match record_value(rest, i) {
                Ok(value) => {
                    let flag = rest[i].as_str();
                    if same(flag, "--found") {
                        tm = TmArgs { found: Some(value), ..tm };
                    } else if same(flag, "--suggested") {
                        tm = TmArgs { suggested: Some(value), ..tm };
                    } else if same(flag, "--chose") {
                        tm = TmArgs { chose: Some(value), ..tm };
                    } else {
                        tm = TmArgs { context: Some(value), ..tm };
                    }
                    i += 2;
                },
                Err(e) => {
                    return Err(e);
                },
            }
        }
        if i < rest.len() {
            assert(rest@[i as int]@ == texts(rest@)[i as int]);
        }
    }
    Ok((tm, i))
}

// The arguments after `pack` and `cache`.

/// What the arguments after `pack` ask for: the subcommand and its argument.
/// Only `import`, `export` and `validate` take one.
pub open spec fn pack_args(rest: Seq<Seq<char>>) -> Result<
    (Seq<char>, Option<Seq<char>>),
    Seq<char>,
> {
    if rest.len() == 0 {
        Err("pack requires a subcommand (import|export|validate|list)"@)
    } else if rest[0] == "import"@ || rest[0] == "export"@ || rest[0] == "validate"@ {
        match arg_at(rest, 1) {
            None => Err("pack "@ + rest[0] + " requires an argument"@),
            Some(arg) => Ok((rest[0], Some(arg))),
        }
    } else {
        Ok((rest[0], None))
    }
}

/// Parses the arguments after `pack`. An unknown subcommand is passed through,
/// so that whoever runs it reports it.
pub fn parse_pack(rest: &[String]) -> (r: Result<(String, Option<String>, usize), CliError>)
    ensures
        match r {
            Ok((cmd, arg, used)) => {
                &&& pack_args(texts(rest@)) == Ok::<(Seq<char>, Option<Seq<char>>), Seq<char>>(
                    (cmd@, opt_text(arg)),
                )
                &&& used == if arg is Some {
                    2int
                } else {
                    1
                }
                &&& used <= rest.len()
            },
            Err(e) => pack_args(texts(rest@)) == Err::<
                (Seq<char>, Option<Seq<char>>),
                Seq<char>,
            >(e.message@),
        },
{
    if rest.len() == 0 {
        return Err(fail("pack requires a subcommand (import|export|validate|list)"));
    }
    let cmd = rest[0].as_str();
    assert(cmd@ == texts(rest@)[0]);
    if same(cmd, "import") || same(cmd, "export") || same(cmd, "validate") {
        match arg_of(rest, 1) {
            Some(arg) => Ok((rest[0].clone(), Some(arg.clone()), 2)),
            None => Err(fail_with("pack ", cmd, " requires an argument")),
        }
    } else {
        Ok((rest[0].clone(), None, 1))
    }
}

/// Why the arguments after `cache` are refused, if they are. `clear` is the
/// only subcommand and it takes nothing.
pub open spec fn cache_refusal(rest: Seq<Seq<char>>) -> Option<Seq<char>> {
    if rest.len() == 0 {
        Some("cache requires a subcommand (clear)"@)
    } else if rest[0] != "clear"@ {
        Some("unknown cache subcommand: "@ + rest[0] + " (expected 'clear')"@)
    } else if rest.len() > 1 {
        Some("cache clear does not accept additional arguments: "@ + rest[1])
    } else {
        None
    }
}

/// Parses the arguments after `cache`.
pub fn parse_cache(rest: &[String]) -> (r: Result<usize, CliError>)
    ensures
        match r {
            Ok(used) => cache_refusal(texts(rest@)) is None && used == 1 && used <= rest.len(),
            Err(e) => cache_refusal(texts(rest@)) == Some(e.message@),
        },
{
    if rest.len() == 0 {
        return Err(fail("cache requires a subcommand (clear)"));
    }
    let cmd = rest[0].as_str();
    assert(cmd@ == texts(rest@)[0]);
    if !same(cmd, "clear") {
        return Err(fail_with("unknown cache subcommand: ", cmd, " (expected 'clear')"));
    }
    if rest.len() > 1 {
        assert(rest@[1]@ == texts(rest@)[1]);
        return Err(
            fail_about("cache clear does not accept additional arguments: ", rest[1].as_str()),
        );
    }
    Ok(1)
}

// The whole command line.

/// The subcommands by name.
pub open spec fn is_subcommand(s: Seq<char>) -> bool {
    s == "lint"@ || s == "setup"@ || s == "convert"@ || s == "tm"@ || s == "pack"@ || s == "cache"@
}

/// The subcommand of that name with the arguments after it, and how many of
/// those it uses.
pub open spec fn subcommand(name: Seq<char>, rest: Seq<Seq<char>>, translate: bool) -> Result<
    (CommandView, int),
    Seq<char>,
> {
    if name == "lint"@ {
        match lint_args(rest, translate) {
            Ok(lint) => Ok((CommandView::Lint(lint), rest.len() as int)),
            Err(e) => Err(e),
        }
    } else if name == "setup"@ {
        match arg_at(rest, 0) {
            Some(host) => Ok((CommandView::Setup(host), 1)),
            None => Err("setup requires a host name"@),
        }
    } else if name == "convert"@ {
        match convert_args(rest, translate) {
            Ok(convert) => Ok((CommandView::Convert(convert), rest.len() as int)),
            Err(e) => Err(e),
        }
    } else if name == "tm"@ {
        match tm_args(rest) {
            Ok((tm, used)) => Ok((CommandView::Tm(tm), used)),
            Err(e) => Err(e),
        }
    } else if name == "pack"@ {
        match pack_args(rest) {
            Ok((cmd, arg)) => Ok(
                (CommandView::Pack { cmd, arg }, if arg is Some { 2 } else { 1 }),
            ),
            Err(e) => Err(e),
        }
    } else {
        match cache_refusal(rest) {
            None => Ok((CommandView::CacheClear, 1)),
            Some(e) => Err(e),
        }
    }
}

/// A global flag with the argument after it: what it sets, and how many
/// arguments it takes up.
pub open spec fn global_flag(c: CliView, arg: Seq<char>, next: Option<Seq<char>>) -> Result<
    (CliView, int),
    Seq<char>,
> {
    if arg == "--overrides"@ || arg == "--db"@ {
        match required(next, "--overrides requires a path"@) {
            Ok(s) => Ok((CliView { overrides_path: Some(s), ..c }, 2)),
            Err(e) => Err(e),
        }
    } else if arg == "--pack"@ {
        match required(next, "--pack requires a name"@) {
            Ok(s) => Ok((CliView { active_packs: c.active_packs.push(s), ..c }, 2)),
            Err(e) => Err(e),
        }
    } else if arg == "--packs-dir"@ {
        match required(next, "--packs-dir requires a path"@) {
            Ok(s) => Ok((CliView { packs_dir: Some(s), ..c }, 2)),
            Err(e) => Err(e),
        }
    } else if arg == "--suppressions"@ {
        match required(next, "--suppressions requires a path"@) {
            Ok(s) => Ok((CliView { suppressions_path: Some(s), ..c }, 2)),
            Err(e) => Err(e),
        }
    } else if arg == "--config"@ {
        match required(next, "--config requires a path"@) {
            Ok(s) => Ok((CliView { config_path: Some(s), ..c }, 2)),
            Err(e) => Err(e),
        }
    } else if arg == "--verbose"@ || arg == "--debug"@ {
        Ok((c, 1))
    } else {
        Err("unknown argument: "@ + arg)
    }
}

/// What the argument at `i` does, with those it takes after it.
pub open spec fn cli_step(args: Seq<Seq<char>>, i: int, c: CliView, translate: bool) -> Result<
    (CliView, int),
    Seq<char>,
> {
    if is_subcommand(args[i]) {
        if c.command is Server {
            match subcommand(args[i], args.skip(i + 1), translate) {
                Ok((command, used)) => Ok((CliView { command, ..c }, 1 + used)),
                Err(e) => Err(e),
            }
        } else {
            Err("only one subcommand is allowed, found a second: "@ + args[i])
        }
    } else {
        global_flag(c, args[i], arg_at(args, i + 1))
    }
}

/// The command line read from position `i` on.
pub open spec fn cli_from(args: Seq<Seq<char>>, i: int, c: CliView, translate: bool) -> Result<
    CliView,
    Seq<char>,
>
    decreases (if i < args.len() { args.len() - i } else { 0 }),
{
    if i < 0 || i >= args.len() {
        Ok(c)
    } else {
        match cli_step(args, i, c, translate) {
            Err(e) => Err(e),
            Ok((next, used)) => if used >= 1 {
                cli_from(args, i + used, next, translate)
            } else {
                Ok(next)
            },
        }
    }
}

/// What a command line asks for. The first argument is the program's name.
pub open spec fn parsed_cli(args: Seq<Seq<char>>, translate: bool) -> Result<CliView, Seq<char>> {
    cli_from(args, 1, bare_cli(), translate)
}

/// Rejects a second subcommand, rather than letting one win.
pub fn claim(current: &Command, name: &str) -> (r: Result<(), CliError>)
    ensures
        match r {
            Ok(_) => current@ is Server,
            Err(e) => {
                &&& !(current@ is Server)
                &&& e.message@ == "only one subcommand is allowed, found a second: "@ + name@
            },
        },
{
    match current {
        Command::Server => Ok(()),
        _ => Err(fail_about("only one subcommand is allowed, found a second: ", name)),
    }
}

fn read_subcommand(name: &str, rest: &[String], translate: bool) -> (r: Result<
    (Command, usize),
    CliError,
>)
    requires
        is_subcommand(name@),
    ensures
        match r {
            Ok((command, used)) => {
                &&& subcommand(name@, texts(rest@), translate) == Ok::<
                    (CommandView, int),
                    Seq<char>,
                >((command@, used as int))
                &&& used <= rest.len()
            },
            Err(e) => subcommand(name@, texts(rest@), translate) == Err::<
                (CommandView, int),
                Seq<char>,
            >(e.message@),
        },
{
    if same(name, "lint") {
        match parse_lint(rest, translate) {
            Ok((lint, used)) => Ok((Command::Lint(Box::new(lint)), used)),
            Err(e) => Err(e),
        }
    } else if same(name, "setup") {
        match arg_of(rest, 0) {
            Some(host) => Ok((Command::Setup(host.clone()), 1)),
            None => Err(fail("setup requires a host name")),
        }
    } else if same(name, "convert") {
        match parse_convert(rest, translate) {
            Ok((convert, used)) => Ok((Command::Convert(convert), used)),
            Err(e) => Err(e),
        }
    } else if same(name, "tm") {
        match parse_tm(rest) {
            Ok((tm, used)) => Ok((Command::Tm(tm), used)),
            Err(e) => Err(e),
        }
    } else if same(name, "pack") {
        match parse_pack(rest) {
            Ok((cmd, arg, used)) => Ok((Command::Pack { cmd, arg }, used)),
            Err(e) => Err(e),
        }
    } else {
        match parse_cache(rest) {
            Ok(used) => Ok((Command::CacheClear, used)),
            Err(e) => Err(e),
        }
    }
}

fn read_global_flag(cli: Cli, arg: &str, next: Option<&String>) -> (r: Result<
    (Cli, usize),
    CliError,
>)
    ensures
        match r {
            Ok((c, used)) => {
                &&& global_flag(cli@, arg@, opt_ref_text(next)) == Ok::<(CliView, int), Seq<char>>(
                    (c@, used as int),
                )
                &&& 1 <= used <= 2
                &&& used == 2 ==> next is Some
            },
            Err(e) => global_flag(cli@, arg@, opt_ref_text(next)) == Err::<
                (CliView, int),
                Seq<char>,
            >(e.message@),
        },
{
    if same(arg, "--overrides") || same(arg, "--db") {
        match path_value(next, "--overrides requires a path") {
            Ok(s) => Ok((Cli { overrides_path: Some(s), ..cli }, 2)),
            Err(e) => Err(e),
        }
    } else if same(arg, "--pack") {
        match read_value(next, "--pack requires a name") {
            Ok(s) => {
                let active_packs = pushed(cli.active_packs, s);
                Ok((Cli { active_packs, ..cli }, 2))
            },
            Err(e) => Err(e),
        }
    } else if same(arg, "--packs-dir") {
        match path_value(next, "--packs-dir requires a path") {
            Ok(s) => Ok((Cli { packs_dir: Some(s), ..cli }, 2)),
            Err(e) => Err(e),
        }
    } else if same(arg, "--suppressions") {
        match path_value(next, "--suppressions requires a path") {
            Ok(s) => Ok((Cli { suppressions_path: Some(s), ..cli }, 2)),
            Err(e) => Err(e),
        }
    } else if same(arg, "--config") {
        match path_value(next, "--config requires a path") {
            Ok(s) => Ok((Cli { config_path: Some(s), ..cli }, 2)),
            Err(e) => Err(e),
        }
    } else if same(arg, "--verbose") || same(arg, "--debug") {
        Ok((cli, 1))
    } else {
        Err(fail_about("unknown argument: ", arg))
    }
}

/// Parses the argument list, the program's name first, into a `Cli`.
///
/// Usage:
///
/// - `zhtw-mcp` runs the MCP server with the default paths;
/// - `--overrides <path>`, `--suppressions <path>`, `--packs-dir <path>`,
///   `--config <path>` and `--pack <name>` (repeatable) come before the
///   subcommand;
/// - `lint <file|--> [flags]` lints files or standard input;
/// - `convert [file|--]` converts to Traditional Chinese;
/// - `setup <host>`, `pack <cmd> [arg]`, `tm <cmd> [args]` and `cache clear`
///   manage what the tool keeps.
pub fn parse_args(args: &[String], translate: bool) -> (r: Result<Cli, CliError>)
    ensures
        match r {
            Ok(cli) => parsed_cli(texts(args@), translate) == Ok::<CliView, Seq<char>>(cli@),
            Err(e) => parsed_cli(texts(args@), translate) == Err::<CliView, Seq<char>>(e.message@),
        },
{
    let mut cli = Cli {
        overrides_path: None,
        suppressions_path: None,
        packs_dir: None,
        active_packs: Vec::new(),
        config_path: None,
        command: Command::Server,
    };
    assert(cli@.active_packs =~= seq![]);
    let mut i: usize = 1;
    while i < args.len()
        invariant
            1 <= i,
            parsed_cli(texts(args@), translate) == cli_from(
                texts(args@),
                i as int,
                cli@,
                translate,
            ),
        decreases args.len() - i,
    {
        let arg = args[i].as_str();
        assert(arg@ == texts(args@)[i as int]);
        if same(arg, "lint") || same(arg, "setup") || same(arg, "convert") || same(arg, "tm")
            || same(arg, "pack") || same(arg, "cache") {
            match claim(&cli.command, arg) {
                Ok(_) => {},
                Err(e) => {
                    return Err(e);
                },
            }
            let rest = slice_subrange(args, i + 1, args.len());
            assert(texts(rest@) =~= texts(args@).skip(i + 1));
            match read_subcommand(arg, rest, translate) {
                Ok((command, used)) => {
                    cli = Cli { command, ..cli };
                    i += 1 + used;
                },
                Err(e) => {
                    return Err(e);
                },
            }
        } else {
            let next = arg_of(args, i + 1);
            assert(opt_ref_text(next) == arg_at(texts(args@), i + 1));
            match read_global_flag(cli, arg, next) {
                Ok((c, used)) => {
                    cli = c;
                    i += used;
                },
                Err(e) => {
                    return Err(e);
                },
            }
        }
    }
    Ok(cli)
}

/// The log level before anything is configured.
pub open spec fn log_level(args: Seq<Seq<char>>) -> Seq<char> {
    if args.contains("--debug"@) {
        "debug"@
    } else if args.contains("--verbose"@) {
        "info"@
    } else {
        "warn"@
    }
}

/// The log level that the whole argument list asks for, wherever the flag
/// stands: `--debug` over `--verbose` over the default.
pub fn default_log(args: &Vec<String>) -> (r: &'static str)
    ensures
        r@ == log_level(texts(args@)),
{
    if contains_text(args, "--debug") {
        "debug"
    } else if contains_text(args, "--verbose") {
        "info"
    } else {
        "warn"
    }
}

/// A second subcommand is always rejected, whichever came first and whatever
/// follows.
pub proof fn law_second_subcommand_is_rejected(
    args: Seq<Seq<char>>,
    i: int,
    c: CliView,
    translate: bool,
)
    requires
        0 <= i < args.len(),
        is_subcommand(args[i]),
        !(c.command is Server),
    ensures
        cli_from(args, i, c, translate) == Err::<CliView, Seq<char>>(
            "only one subcommand is allowed, found a second: "@ + args[i],
        ),
{
}

/// `lint` takes the rest of the command line: nothing after it is read as a
/// global flag or as a second subcommand.
pub proof fn law_lint_ends_the_command_line(
    args: Seq<Seq<char>>,
    i: int,
    c: CliView,
    translate: bool,
)
    requires
        0 <= i < args.len(),
        args[i] == "lint"@,
        c.command is Server,
    ensures
        cli_from(args, i, c, translate) == match lint_args(args.skip(i + 1), translate) {
            Ok(lint) => Ok::<CliView, Seq<char>>(
                CliView { command: CommandView::Lint(lint), ..c },
            ),
            Err(e) => Err(e),
        },
{
    reveal_with_fuel(cli_from, 2);
}

/// The log flags are accepted anywhere before the subcommand and change nothing
/// in what is parsed.
pub proof fn law_log_flags_change_nothing(
    args: Seq<Seq<char>>,
    i: int,
    c: CliView,
    translate: bool,
)
    requires
        0 <= i < args.len(),
        args[i] == "--verbose"@ || args[i] == "--debug"@,
    ensures
        cli_from(args, i, c, translate) == cli_from(args, i + 1, c, translate),
{
    reveal_strlit("--verbose");
    reveal_strlit("--debug");
    reveal_strlit("lint");
    reveal_strlit("setup");
    reveal_strlit("convert");
    reveal_strlit("tm");
    reveal_strlit("pack");
    reveal_strlit("cache");
    reveal_strlit("--overrides");
    reveal_strlit("--db");
    reveal_strlit("--pack");
    reveal_strlit("--packs-dir");
    reveal_strlit("--suppressions");
    reveal_strlit("--config");
    assert(args[i][2] == 'v' || args[i][2] == 'd');
    assert(args[i][2] == 'd' ==> args[i][3] == 'e');
}

/// `convert` always has something to read: with no file it reads standard
/// input.
pub proof fn law_convert_has_an_input(rest: Seq<Seq<char>>, translate: bool)
    requires
        convert_args(rest, translate) is Ok,
    ensures
        convert_args(rest, translate)->Ok_0.files.len() > 0,
{
}

proof fn lemma_words_apart()
    ensures
        "lint"@.len() == 4 && "lint"@[0] == 'l',
        "setup"@.len() == 5 && "setup"@[0] == 's',
        "convert"@.len() == 7 && "convert"@[0] == 'c',
        "tm"@.len() == 2 && "tm"@[0] == 't',
        "pack"@.len() == 4 && "pack"@[0] == 'p',
        "cache"@.len() == 5 && "cache"@[0] == 'c',
        "--overrides"@.len() == 11 && "--overrides"@[0] == '-' && "--overrides"@[2] == 'o',
        "--db"@.len() == 4 && "--db"@[0] == '-',
        "--pack"@.len() == 6 && "--pack"@[0] == '-',
        "--packs-dir"@.len() == 11 && "--packs-dir"@[0] == '-' && "--packs-dir"@[2] == 'p',
        "--suppressions"@.len() == 14 && "--suppressions"@[0] == '-',
        "--config"@.len() == 8 && "--config"@[0] == '-',
        "--verbose"@.len() == 9 && "--verbose"@[0] == '-',
        "--debug"@.len() == 7 && "--debug"@[0] == '-',
{
    reveal_strlit("lint");
    reveal_strlit("setup");
    reveal_strlit("convert");
    reveal_strlit("tm");
    reveal_strlit("pack");
    reveal_strlit("cache");
    reveal_strlit("--overrides");
    reveal_strlit("--db");
    reveal_strlit("--pack");
    reveal_strlit("--packs-dir");
    reveal_strlit("--suppressions");
    reveal_strlit("--config");
    reveal_strlit("--verbose");
    reveal_strlit("--debug");
}

/// A flag before the command takes the argument after it, and sets what it is
/// named for and nothing else; packs add up, and of the others the last stands.
pub proof fn law_global_flags(c: CliView, s: Seq<char>)
    ensures
        ({
            let sets = |flag: Seq<char>, next: CliView|
                global_flag(c, flag, Some(s)) == Ok::<(CliView, int), Seq<char>>((next, 2));
            let refuses = |flag: Seq<char>, why: Seq<char>|
                global_flag(c, flag, None) == Err::<(CliView, int), Seq<char>>(why);
            &&& sets("--overrides"@, CliView { overrides_path: Some(s), ..c })
            &&& sets("--db"@, CliView { overrides_path: Some(s), ..c })
            &&& sets("--pack"@, CliView { active_packs: c.active_packs.push(s), ..c })
            &&& sets("--packs-dir"@, CliView { packs_dir: Some(s), ..c })
            &&& sets("--suppressions"@, CliView { suppressions_path: Some(s), ..c })
            &&& sets("--config"@, CliView { config_path: Some(s), ..c })
            &&& refuses("--overrides"@, "--overrides requires a path"@)
            &&& refuses("--db"@, "--overrides requires a path"@)
            &&& refuses("--pack"@, "--pack requires a name"@)
            &&& refuses("--packs-dir"@, "--packs-dir requires a path"@)
            &&& refuses("--suppressions"@, "--suppressions requires a path"@)
            &&& refuses("--config"@, "--config requires a path"@)
        }),
{
    lemma_words_apart();
}

/// What is neither a flag nor a command is refused by its name.
pub proof fn law_unknown_arguments_are_refused(
    c: CliView,
    arg: Seq<char>,
    next: Option<Seq<char>>,
)
    requires
        arg != "--overrides"@ && arg != "--db"@ && arg != "--pack"@ && arg != "--packs-dir"@ && arg
            != "--suppressions"@ && arg != "--config"@ && arg != "--verbose"@ && arg != "--debug"@,
    ensures
        global_flag(c, arg, next) == Err::<(CliView, int), Seq<char>>("unknown argument: "@ + arg),
{
}

/// Each command reads what follows it by its own rules.
pub proof fn law_each_command_reads_its_arguments(rest: Seq<Seq<char>>, translate: bool)
    ensures
        ({
            let read = |name: Seq<char>| subcommand(name, rest, translate);
            let all = rest.len() as int;
            &&& match lint_args(rest, translate) {
                Ok(lint) => read("lint"@) == Ok::<(CommandView, int), Seq<char>>(
                    (CommandView::Lint(lint), all),
                ),
                Err(e) => read("lint"@) == Err::<(CommandView, int), Seq<char>>(e),
            }
            &&& match convert_args(rest, translate) {
                Ok(convert) => read("convert"@) == Ok::<(CommandView, int), Seq<char>>(
                    (CommandView::Convert(convert), all),
                ),
                Err(e) => read("convert"@) == Err::<(CommandView, int), Seq<char>>(e),
            }
            &&& match tm_args(rest) {
                Ok((tm, used)) => read("tm"@) == Ok::<(CommandView, int), Seq<char>>(
                    (CommandView::Tm(tm), used),
                ),
                Err(e) => read("tm"@) == Err::<(CommandView, int), Seq<char>>(e),
            }
            &&& match pack_args(rest) {
                Ok((cmd, arg)) => read("pack"@) == Ok::<(CommandView, int), Seq<char>>(
                    (CommandView::Pack { cmd, arg }, if arg is Some { 2 } else { 1 }),
                ),
                Err(e) => read("pack"@) == Err::<(CommandView, int), Seq<char>>(e),
            }
            &&& rest.len() > 0 ==> read("setup"@) == Ok::<(CommandView, int), Seq<char>>(
                (CommandView::Setup(rest[0]), 1),
            )
            &&& rest.len() == 0 ==> read("setup"@) == Err::<(CommandView, int), Seq<char>>(
                "setup requires a host name"@,
            )
            &&& match cache_refusal(rest) {
                None => read("cache"@) == Ok::<(CommandView, int), Seq<char>>(
                    (CommandView::CacheClear, 1),
                ),
                Some(e) => read("cache"@) == Err::<(CommandView, int), Seq<char>>(e),
            }
        }),
{
    lemma_words_apart();
}

/// The command line is read from left to right: a command with what belongs to
/// it where none was read before, and a flag with its value. What comes first
/// and is refused ends the reading. No argument at all asks for the server.
pub proof fn law_the_command_line_is_read_in_order(
    args: Seq<Seq<char>>,
    i: int,
    c: CliView,
    translate: bool,
)
    requires
        1 <= i < args.len(),
    ensures
        ({
            let commands = args[i] == "lint"@ || args[i] == "setup"@ || args[i] == "convert"@
                || args[i] == "tm"@ || args[i] == "pack"@ || args[i] == "cache"@;
            let read = subcommand(args[i], args.skip(i + 1), translate);
            let set = global_flag(
                c,
                args[i],
                if i + 1 < args.len() {
                    Some(args[i + 1])
                } else {
                    None
                },
            );
            let whole = cli_from(args, i, c, translate);
            &&& commands && c.command is Server ==> match read {
                Ok((command, used)) => used >= 0 ==> whole == cli_from(
                    args,
                    i + 1 + used,
                    CliView { command, ..c },
                    translate,
                ),
                Err(e) => whole == Err::<CliView, Seq<char>>(e),
            }
            &&& !commands ==> match set {
                Ok((next, used)) => used >= 1 ==> whole == cli_from(
                    args,
                    i + used,
                    next,
                    translate,
                ),
                Err(e) => whole == Err::<CliView, Seq<char>>(e),
            }
        }),
        cli_from(args, args.len() as int, c, translate) == Ok::<CliView, Seq<char>>(c),
        parsed_cli(args, translate) == cli_from(args, 1, bare_cli(), translate),
        bare_cli().command is Server,
        bare_cli().overrides_path is None && bare_cli().suppressions_path is None
            && bare_cli().packs_dir is None && bare_cli().config_path is None,
        bare_cli().active_packs.len() == 0,
{
}

/// `convert` reads its arguments from left to right: two flags, and files, of
/// which standard input may be one. Any other flag is refused by its name.
pub proof fn law_how_convert_reads_its_arguments(
    rest: Seq<Seq<char>>,
    i: int,
    a: ConvertView,
    translate: bool,
)
    requires
        0 <= i < rest.len(),
    ensures
        ({
            let r = convert_from(rest, i, a, translate);
            let arg = rest[i];
            let flag = arg == "--content-type"@ || arg == "--verify"@;
            let dashed = arg.len() > 0 && arg[0] == '-' && arg != "--"@;
            &&& arg == "--content-type"@ ==> match content_type_value(arg_at(rest, i + 1)) {
                Ok(ct) => r == convert_from(
                    rest,
                    i + 2,
                    ConvertView { content_type: Some(ct), ..a },
                    translate,
                ),
                Err(e) => r == Err::<ConvertView, Seq<char>>(e),
            }
            &&& arg == "--verify"@ && translate ==> r == convert_from(
                rest,
                i + 1,
                ConvertView { verify: true, ..a },
                translate,
            )
            &&& arg == "--verify"@ && !translate ==> r == Err::<ConvertView, Seq<char>>(
                "--verify requires the 'translate' feature; rebuild with --features translate"@,
            )
            &&& !flag && dashed ==> r == Err::<ConvertView, Seq<char>>(
                "unknown convert flag: "@ + arg,
            )
            &&& !flag && !dashed ==> r == convert_from(
                rest,
                i + 1,
                ConvertView { files: a.files.push(arg), ..a },
                translate,
            )
        }),
        convert_from(rest, rest.len() as int, a, translate) == Ok::<ConvertView, Seq<char>>(a),
{
    reveal_strlit("-");
    reveal_strlit("--content-type");
    reveal_strlit("--verify");
    assert("--content-type"@.len() == 14 && "--verify"@.len() == 8);
    if rest[i].len() > 0 && rest[i][0] == '-' {
        assert(rest[i].subrange(0, 1) =~= "-"@);
    }
    if "-"@.is_prefix_of(rest[i]) {
        assert(rest[i].subrange(0, 1)[0] == '-');
    }
}

/// `convert` starts from nothing asked for, and reads standard input where no
/// file is named.
pub proof fn law_what_convert_reads(rest: Seq<Seq<char>>, translate: bool)
    ensures
        ({
            let nothing = ConvertView { files: seq![], content_type: None, verify: false };
            let read = convert_from(rest, 0, nothing, translate);
            let r = convert_args(rest, translate);
            &&& read is Err ==> r == read
            &&& read is Ok && read->Ok_0.files.len() > 0 ==> r == read
            &&& read is Ok && read->Ok_0.files.len() == 0 ==> r == Ok::<ConvertView, Seq<char>>(
                ConvertView { files: seq!["--"@], ..read->Ok_0 },
            )
        }),
{
}

/// A recorded choice is read flag by flag, each with the argument after it, up
/// to the first argument that is no flag. A flag that is not one of the four, or
/// that lacks its value, is refused by its name.
pub proof fn law_how_a_record_is_read(rest: Seq<Seq<char>>, i: int, a: TmView)
    requires
        0 <= i < rest.len(),
    ensures
        ({
            let r = record_from(rest, i, a);
            let flag = rest[i];
            let dashed = flag.len() >= 2 && flag[0] == '-' && flag[1] == '-';
            let known = flag == "--found"@ || flag == "--suggested"@ || flag == "--chose"@ || flag
                == "--context"@;
            let value = rest[i + 1];
            &&& !dashed ==> r == Ok::<(TmView, int), Seq<char>>((a, i))
            &&& dashed && !known ==> r == Err::<(TmView, int), Seq<char>>(
                "unknown tm record flag: "@ + flag,
            )
            &&& known && i + 1 == rest.len() ==> r == Err::<(TmView, int), Seq<char>>(
                flag + " requires a value"@,
            )
            &&& known && i + 1 < rest.len() ==> {
                &&& flag == "--found"@ ==> r == record_from(
                    rest,
                    i + 2,
                    TmView { found: Some(value), ..a },
                )
                &&& flag == "--suggested"@ ==> r == record_from(
                    rest,
                    i + 2,
                    TmView { suggested: Some(value), ..a },
                )
                &&& flag == "--chose"@ ==> r == record_from(
                    rest,
                    i + 2,
                    TmView { chose: Some(value), ..a },
                )
                &&& flag == "--context"@ ==> r == record_from(
                    rest,
                    i + 2,
                    TmView { context: Some(value), ..a },
                )
            }
        }),
        record_from(rest, rest.len() as int, a) == Ok::<(TmView, int), Seq<char>>(
            (a, rest.len() as int),
        ),
{
    reveal_strlit("--");
    reveal_strlit("--found");
    reveal_strlit("--suggested");
    reveal_strlit("--chose");
    reveal_strlit("--context");
    assert("--found"@.len() == 7 && "--found"@[2] == 'f');
    assert("--suggested"@.len() == 11 && "--suggested"@[2] == 's');
    assert("--chose"@.len() == 7 && "--chose"@[2] == 'c');
    assert("--context"@.len() == 9 && "--context"@[2] == 'c');
    let flag = rest[i];
    if flag.len() >= 2 && flag[0] == '-' && flag[1] == '-' {
        assert(flag.subrange(0, 2) =~= "--"@);
    }
    if "--"@.is_prefix_of(flag) {
        assert(flag.subrange(0, 2)[0] == '-' && flag.subrange(0, 2)[1] == '-');
    }
}

/// The commands of the translation memory with what each needs: two of them a
/// path, one the record's flags, the others nothing.
pub proof fn law_how_tm_reads_its_arguments(rest: Seq<Seq<char>>)
    ensures
        ({
            let r = tm_args(rest);
            let bare = TmView {
                cmd: rest[0],
                arg: None,
                found: None,
                suggested: None,
                chose: None,
                context: None,
            };
            let moves = rest.len() > 0 && (rest[0] == "export"@ || rest[0] == "import"@);
            &&& rest.len() == 0 ==> r == Err::<(TmView, int), Seq<char>>(
                "tm requires a subcommand (list|export|import|clear|record)"@,
            )
            &&& moves && rest.len() > 1 ==> r == Ok::<(TmView, int), Seq<char>>(
                (TmView { arg: Some(rest[1]), ..bare }, 2),
            )
            &&& moves && rest.len() == 1 ==> r == Err::<(TmView, int), Seq<char>>(
                "tm "@ + rest[0] + " requires a file path"@,
            )
            &&& rest.len() > 0 && rest[0] == "record"@ ==> r == record_from(rest, 1, bare)
            &&& rest.len() > 0 && !moves && rest[0] != "record"@ ==> r == Ok::<
                (TmView, int),
                Seq<char>,
            >((bare, 1))
        }),
{
    reveal_strlit("export");
    reveal_strlit("import");
    reveal_strlit("record");
    assert("export"@[0] == 'e' && "import"@[0] == 'i' && "record"@[0] == 'r');
}

/// The commands of the packs: three of them need an argument, any other takes
/// none.
pub proof fn law_how_pack_reads_its_arguments(rest: Seq<Seq<char>>)
    ensures
        ({
            let r = pack_args(rest);
            let needs = rest.len() > 0 && (rest[0] == "import"@ || rest[0] == "export"@ || rest[0]
                == "validate"@);
            &&& rest.len() == 0 ==> r == Err::<(Seq<char>, Option<Seq<char>>), Seq<char>>(
                "pack requires a subcommand (import|export|validate|list)"@,
            )
            &&& needs && rest.len() > 1 ==> r == Ok::<(Seq<char>, Option<Seq<char>>), Seq<char>>(
                (rest[0], Some(rest[1])),
            )
            &&& needs && rest.len() == 1 ==> r == Err::<(Seq<char>, Option<Seq<char>>), Seq<char>>(
                "pack "@ + rest[0] + " requires an argument"@,
            )
            &&& rest.len() > 0 && !needs ==> r == Ok::<(Seq<char>, Option<Seq<char>>), Seq<char>>(
                (rest[0], None),
            )
        }),
{
}

/// The cache has one command, which takes nothing more.
pub proof fn law_how_cache_reads_its_arguments(rest: Seq<Seq<char>>)
    ensures
        cache_refusal(rest) is None <==> rest.len() == 1 && rest[0] == "clear"@,
        rest.len() == 0 ==> cache_refusal(rest) == Some("cache requires a subcommand (clear)"@),
        rest.len() > 0 && rest[0] != "clear"@ ==> cache_refusal(rest) == Some(
            "unknown cache subcommand: "@ + rest[0] + " (expected 'clear')"@,
        ),
        rest.len() > 1 && rest[0] == "clear"@ ==> cache_refusal(rest) == Some(
            "cache clear does not accept additional arguments: "@ + rest[1],
        ),
{
}

/// The log level that the command line asks for: the more talkative flag wins,
/// wherever either stands.
pub proof fn law_log_levels(args: Seq<Seq<char>>)
    ensures
        args.contains("--debug"@) ==> log_level(args) == "debug"@,
        !args.contains("--debug"@) && args.contains("--verbose"@) ==> log_level(args) == "info"@,
        !args.contains("--debug"@) && !args.contains("--verbose"@) ==> log_level(args) == "warn"@,
{
}

/// What is parsed of the command line is what its arguments say: a run is set up
/// exactly where every argument was understood.
pub proof fn law_what_is_parsed(args: &[String], translate: bool, r: Result<Cli, CliError>)
    requires
        call_ensures(parse_args, (args, translate), r),
    ensures
        ({
            let all = Seq::new(args@.len(), |i: int| args@[i]@);
            let read = cli_from(all, 1, bare_cli(), translate);
            &&& r is Ok <==> read is Ok
            &&& r is Ok ==> r->Ok_0@ == read->Ok_0
            &&& r is Err ==> r->Err_0.message@ == read->Err_0
        }),
{
    assert(texts(args@) =~= Seq::new(args@.len(), |i: int| args@[i]@));
}

/// Each command's own parser takes all that belongs to it: `lint` and `convert`
/// everything that follows, the others what they need.
pub proof fn law_what_each_parser_takes(
    rest: &[String],
    translate: bool,
    lint: Result<(crate::lint_args::LintArgs, usize), CliError>,
    convert: Result<(ConvertArgs, usize), CliError>,
    tm: Result<(TmArgs, usize), CliError>,
    pack: Result<(String, Option<String>, usize), CliError>,
    cache: Result<usize, CliError>,
)
    requires
        call_ensures(crate::lint_args::parse_lint, (rest, translate), lint),
        call_ensures(parse_convert, (rest, translate), convert),
        call_ensures(parse_tm, (rest,), tm),
        call_ensures(parse_pack, (rest,), pack),
        call_ensures(parse_cache, (rest,), cache),
    ensures
        lint is Ok ==> lint->Ok_0.1 == rest@.len() && lint->Ok_0.0@.files.len() > 0,
        convert is Ok ==> convert->Ok_0.1 == rest@.len() && convert->Ok_0.0@.files.len() > 0,
        tm is Ok ==> tm->Ok_0.1 <= rest@.len() && rest@.len() > 0 && tm->Ok_0.0@.cmd == rest@[0]@,
        pack is Ok ==> pack->Ok_0.2 <= rest@.len() && rest@.len() > 0 && pack->Ok_0.0@
            == rest@[0]@ && (pack->Ok_0.1 is Some <==> pack->Ok_0.2 == 2),
        pack is Ok && pack->Ok_0.1 is Some ==> pack->Ok_0.1->Some_0@ == rest@[1]@,
        cache is Ok <==> rest@.len() == 1 && rest@[0]@ == "clear"@,
{
    let all = texts(rest@);
    if lint is Ok {
        crate::lint_args::law_accepted_lint_is_complete(all, translate);
    }
    if convert is Ok {
        law_convert_has_an_input(all, translate);
    }
    if tm is Ok && all.len() > 0 && all[0] == "record"@ {
        lemma_record_keeps_the_command(all, 1, bare_tm(all[0]));
    }
}

proof fn lemma_record_keeps_the_command(rest: Seq<Seq<char>>, i: int, a: TmView)
    ensures
        record_from(rest, i, a) is Ok ==> record_from(rest, i, a)->Ok_0.0.cmd == a.cmd,
    decreases (if i < rest.len() { rest.len() - i } else { 0 }),
{
    if 0 <= i < rest.len() && "--"@.is_prefix_of(rest[i]) && is_record_flag(rest[i]) && i + 1
        < rest.len() {
        lemma_record_keeps_the_command(rest, i + 2, with_record_flag(a, rest[i], rest[i + 1]));
    }
}

/// A second command is refused by its name, whatever the first one was; the
/// first one never is.
pub proof fn law_one_command_only(current: &Command, name: &str, r: Result<(), CliError>)
    requires
        call_ensures(claim, (current, name), r),
    ensures
        r is Ok <==> current@ is Server,
        r is Err ==> r->Err_0.message@ == "only one subcommand is allowed, found a second: "@
            + name@,
{
}

} // verus!
