//! The management commands: what their arguments ask of the stores, and what is
//! said of the outcome.
//!
//! The stores themselves are the caller's part.

use crate::cli::{pack_args, tm_args, TmArgs, TmView};
use crate::text::{
    append2, append3, dec, decimal, fail, fail_with, join, joined, opt_text, outcome, pushed, same,
    string_from, texts, CliError,
};
use vstd::prelude::*;

verus! {

// Setup and the judgment cache.

/// Refuses a host that is not known, naming those that are.
pub fn check_host(host: &str, known: bool, available: &Vec<String>) -> (r: Result<(), CliError>)
    ensures
        match r {
            Ok(_) => known,
            Err(e) => !known && e.message@ == "unknown host: '"@ + host@ + "'. Available: "@
                + joined(texts(available@), ", "@),
        },
{
    if known {
        return Ok(());
    }
    let mut s = "unknown host: '".to_owned();
    s.append(host);
    s.append("'. Available: ");
    s.append(join(available, ", ").as_str());
    Err(CliError { message: s })
}

/// What is said of a judgment cache that was cleared.
pub fn cache_cleared(count: usize) -> (r: String)
    ensures
        r@ == "judgment cache cleared ("@ + dec(count as nat) + " entries removed)"@,
{
    append3("judgment cache cleared (", decimal(count).as_str(), " entries removed)")
}

// The translation memory.

/// What is asked of the translation memory.
#[derive(Debug)]
pub enum TmAction {
    List,
    Export(String),
    Import(String),
    Clear,
    Record { found: String, suggested: String, chose: String, context: Option<String> },
}

/// What a `TmAction` holds.
pub ghost enum TmActionView {
    List,
    Export(Seq<char>),
    Import(Seq<char>),
    Clear,
    Record {
        found: Seq<char>,
        suggested: Seq<char>,
        chose: Seq<char>,
        context: Option<Seq<char>>,
    },
}

impl View for TmAction {
    type V = TmActionView;

    open spec fn view(&self) -> TmActionView {
        match *self {
            TmAction::List => TmActionView::List,
            TmAction::Export(path) => TmActionView::Export(path@),
            TmAction::Import(path) => TmActionView::Import(path@),
            TmAction::Clear => TmActionView::Clear,
            TmAction::Record { found, suggested, chose, context } => TmActionView::Record {
                found: found@,
                suggested: suggested@,
                chose: chose@,
                context: opt_text(context),
            },
        }
    }
}

/// What the arguments of `tm` ask of the translation memory.
pub open spec fn tm_asked(tm: TmView) -> Result<TmActionView, Seq<char>> {
    if tm.cmd == "list"@ {
        Ok(TmActionView::List)
    } else if tm.cmd == "export"@ {
        match tm.arg {
            Some(path) => Ok(TmActionView::Export(path)),
            None => Err("tm export requires a file path"@),
        }
    } else if tm.cmd == "import"@ {
        match tm.arg {
            Some(path) => Ok(TmActionView::Import(path)),
            None => Err("tm import requires a file path"@),
        }
    } else if tm.cmd == "clear"@ {
        Ok(TmActionView::Clear)
    } else if tm.cmd == "record"@ {
        match (tm.found, tm.suggested, tm.chose) {
            (None, _, _) => Err("tm record requires --found"@),
            (_, None, _) => Err("tm record requires --suggested"@),
            (_, _, None) => Err("tm record requires --chose"@),
            (Some(found), Some(suggested), Some(chose)) => Ok(
                TmActionView::Record { found, suggested, chose, context: tm.context },
            ),
        }
    } else {
        Err(
            "unknown tm subcommand: '"@ + tm.cmd
                + "' (expected list|export|import|clear|record)"@,
        )
    }
}

/// Decides what the arguments of `tm` ask of the translation memory.
pub fn run_tm_cmd(tm: TmArgs) -> (r: Result<TmAction, CliError>)
    ensures
        outcome(r) == tm_asked(tm@),
{
    let cmd = tm.cmd.as_str();
    if same(cmd, "list") {
        Ok(TmAction::List)
    } else if same(cmd, "export") {
        match tm.arg {
            Some(path) => Ok(TmAction::Export(path)),
            None => Err(fail("tm export requires a file path")),
        }
    } else if same(cmd, "import") {
        match tm.arg {
            Some(path) => Ok(TmAction::Import(path)),
            None => Err(fail("tm import requires a file path")),
        }
    } else if same(cmd, "clear") {
        Ok(TmAction::Clear)
    } else if same(cmd, "record") {
        let found = match tm.found {
            Some(s) => s,
            None => {
                return Err(fail("tm record requires --found"));
            },
        };
        let suggested = match tm.suggested {
            Some(s) => s,
            None => {
                return Err(fail("tm record requires --suggested"));
            },
        };
        let chose = match tm.chose {
            Some(s) => s,
            None => {
                return Err(fail("tm record requires --chose"));
            },
        };
        Ok(TmAction::Record { found, suggested, chose, context: tm.context })
    } else {
        Err(
            fail_with(
                "unknown tm subcommand: '",
                cmd,
                "' (expected list|export|import|clear|record)",
            ),
        )
    }
}

/// What is said of an export.
pub fn tm_exported(entries: usize, dest: &str) -> (r: String)
    ensures
        r@ == "Exported TM ("@ + dec(entries as nat) + " entries) to "@ + dest@,
{
    let mut s = "Exported TM (".to_owned();
    s.append(decimal(entries).as_str());
    s.append(" entries) to ");
    s.append(dest);
    s
}

/// What is said of an import.
pub fn tm_imported(added: usize, updated: usize, total: usize) -> (r: String)
    ensures
        r@ == "Imported "@ + dec(added as nat) + " new, "@ + dec(updated as nat) + " updated ("@
            + dec(total as nat) + " total)"@,
{
    let mut s = "Imported ".to_owned();
    s.append(decimal(added).as_str());
    s.append(" new, ");
    s.append(decimal(updated).as_str());
    s.append(" updated (");
    s.append(decimal(total).as_str());
    s.append(" total)");
    s
}

/// What is said of a decision that was recorded.
pub fn tm_recorded(found: &str, chose: &str) -> (r: String)
    ensures
        r@ == "Recorded: '"@ + found@ + "' -> chose '"@ + chose@ + "'"@,
{
    let mut s = "Recorded: '".to_owned();
    s.append(found);
    s.append("' -> chose '");
    s.append(chose);
    s.append("'");
    s
}

// Packs.

/// The file name of a path without its extension, where the path has one.
pub uninterp spec fn path_stem(path: Seq<char>) -> Option<Seq<char>>;

/// `Path::file_stem`: a function of the path, read by the rules of the platform
/// that the program is built for.
#[verifier::external_body]
fn file_stem(path: &str) -> (r: Option<String>)
    ensures
        opt_text(r) == path_stem(path@),
{
    std::path::Path::new(path).file_stem().map(|stem| stem.to_string_lossy().into_owned())
}

/// What is asked of the packs.
#[derive(Debug)]
pub enum PackAction {
    List,
    Import { name: String, source: String },
    Export { name: String, dest: String },
    Validate(String),
}

/// What a `PackAction` holds.
pub ghost enum PackActionView {
    List,
    Import { name: Seq<char>, source: Seq<char> },
    Export { name: Seq<char>, dest: Seq<char> },
    Validate(Seq<char>),
}

impl View for PackAction {
    type V = PackActionView;

    open spec fn view(&self) -> PackActionView {
        match *self {
            PackAction::List => PackActionView::List,
            PackAction::Import { name, source } => PackActionView::Import {
                name: name@,
                source: source@,
            },
            PackAction::Export { name, dest } => PackActionView::Export {
                name: name@,
                dest: dest@,
            },
            PackAction::Validate(file) => PackActionView::Validate(file@),
        }
    }
}

/// What the arguments of `pack` ask of the packs. A pack is installed under its
/// file's name, `stem`, and exported to a file of its own name.
pub open spec fn pack_asked(
    cmd: Seq<char>,
    arg: Option<Seq<char>>,
    stem: Option<Seq<char>>,
) -> Result<PackActionView, Seq<char>> {
    if cmd == "list"@ {
        Ok(PackActionView::List)
    } else if cmd == "import"@ {
        match (arg, stem) {
            (None, _) => Err("pack import requires a file path"@),
            (_, None) => Err("cannot determine pack name from file path"@),
            (Some(source), Some(name)) => Ok(PackActionView::Import { name, source }),
        }
    } else if cmd == "export"@ {
        match arg {
            Some(name) => Ok(PackActionView::Export { name, dest: name + ".json"@ }),
            None => Err("pack export requires a pack name"@),
        }
    } else if cmd == "validate"@ {
        match arg {
            Some(file) => Ok(PackActionView::Validate(file)),
            None => Err("pack validate requires a file path"@),
        }
    } else {
        Err(
            "unknown pack subcommand: '"@ + cmd + "' (expected import|export|validate|list)"@,
        )
    }
}

/// The stem of an optional path.
pub open spec fn stem_of(arg: Option<Seq<char>>) -> Option<Seq<char>> {
    match arg {
        Some(path) => path_stem(path),
        None => None,
    }
}

/// Decides what the arguments of `pack` ask of the packs.
pub fn run_pack_cmd(cmd: &str, arg: Option<String>) -> (r: Result<PackAction, CliError>)
    ensures
        outcome(r) == pack_asked(cmd@, opt_text(arg), stem_of(opt_text(arg))),
{
    let stem = match &arg {
        Some(path) => file_stem(path.as_str()),
        None => None,
    };
    pack_action(cmd, arg, stem)
}

/// As `run_pack_cmd`, where the stem of the argument is known.
pub fn pack_action(cmd: &str, arg: Option<String>, stem: Option<String>) -> (r: Result<
    PackAction,
    CliError,
>)
    ensures
        outcome(r) == pack_asked(cmd@, opt_text(arg), opt_text(stem)),
{
    if same(cmd, "list") {
        Ok(PackAction::List)
    } else if same(cmd, "import") {
        let source = match arg {
            Some(s) => s,
            None => {
                return Err(fail("pack import requires a file path"));
            },
        };
        match stem {
            Some(name) => Ok(PackAction::Import { name, source }),
            None => Err(fail("cannot determine pack name from file path")),
        }
    } else if same(cmd, "export") {
        match arg {
            Some(name) => {
                let dest = append2(name.as_str(), ".json");
                Ok(PackAction::Export { name, dest })
            },
            None => Err(fail("pack export requires a pack name")),
        }
    } else if same(cmd, "validate") {
        match arg {
            Some(file) => Ok(PackAction::Validate(file)),
            None => Err(fail("pack validate requires a file path")),
        }
    } else {
        Err(
            fail_with(
                "unknown pack subcommand: '",
                cmd,
                "' (expected import|export|validate|list)",
            ),
        )
    }
}

/// One installed pack.
#[derive(Debug)]
pub struct PackInfo {
    pub name: String,
    pub spelling_count: usize,
    pub case_count: usize,
    /// Empty where the pack has none.
    pub description: String,
}

/// One installed pack's line.
pub open spec fn pack_line(p: PackInfo) -> Seq<char> {
    "  "@ + p.name@ + " ("@ + dec(p.spelling_count as nat) + " spelling, "@ + dec(
        p.case_count as nat,
    ) + " case)"@ + (if p.description@.len() == 0 {
        ""@
    } else {
        " \u{2014} "@ + p.description@
    })
}

fn pack_line_of(p: &PackInfo) -> (r: String)
    ensures
        r@ == pack_line(*p),
{
    let tail = if p.description.as_str().unicode_len() == 0 {
        string_from("")
    } else {
        append2(" \u{2014} ", p.description.as_str())
    };
    let mut s = "  ".to_owned();
    s.append(p.name.as_str());
    s.append(" (");
    s.append(decimal(p.spelling_count).as_str());
    s.append(" spelling, ");
    s.append(decimal(p.case_count).as_str());
    s.append(" case)");
    s.append(tail.as_str());
    s
}

/// What is said of the installed packs.
pub fn pack_list(packs: &Vec<PackInfo>, packs_dir: &str) -> (r: Vec<String>)
    ensures
        texts(r@) == if packs.len() == 0 {
            seq!["No packs installed in "@ + packs_dir@]
        } else {
            packs@.map_values(|p: PackInfo| pack_line(p))
        },
{
    let mut out: Vec<String> = Vec::new();
    assert(texts(out@) =~= seq![]);
    if packs.len() == 0 {
        let out = pushed(out, append2("No packs installed in ", packs_dir));
        assert(texts(out@) =~= seq!["No packs installed in "@ + packs_dir@]);
        return out;
    }
    let mut i: usize = 0;
    while i < packs.len()
        invariant
            i <= packs.len(),
            out.len() == i,
            forall|k: int| 0 <= k < i ==> (#[trigger] out@[k])@ == pack_line(packs@[k]),
        decreases packs.len() - i,
    {
        out.push(pack_line_of(&packs[i]));
        i += 1;
    }
    assert(texts(out@) =~= packs@.map_values(|p: PackInfo| pack_line(p)));
    out
}

/// What is said of a pack that was installed or exported.
pub fn pack_moved(verb: &str, name: &str, place: &str) -> (r: String)
    ensures
        r@ == verb@ + " pack '"@ + name@ + "' to "@ + place@,
{
    let mut s = verb.to_owned();
    s.append(" pack '");
    s.append(name);
    s.append("' to ");
    s.append(place);
    s
}

/// What is said of a pack that was validated.
pub open spec fn validation(warnings: Seq<Seq<char>>) -> Seq<Seq<char>> {
    if warnings.len() == 0 {
        seq!["Pack is valid."@]
    } else {
        warnings.map_values(|w: Seq<char>| "  warning: "@ + w).push(
            dec(warnings.len()) + " warning(s)."@,
        )
    }
}

/// What is said of a pack that was validated.
pub fn pack_validated(warnings: &Vec<String>) -> (r: Vec<String>)
    ensures
        texts(r@) == validation(texts(warnings@)),
{
    let mut out: Vec<String> = Vec::new();
    assert(texts(out@) =~= seq![]);
    assert(texts(warnings@).len() == warnings.len());
    if warnings.len() == 0 {
        let out = pushed(out, string_from("Pack is valid."));
        assert(texts(out@) =~= seq!["Pack is valid."@]);
        return out;
    }
    let mut i: usize = 0;
    while i < warnings.len()
        invariant
            i <= warnings.len(),
            out.len() == i,
            forall|k: int|
                0 <= k < i ==> (#[trigger] out@[k])@ == "  warning: "@ + texts(warnings@)[k],
        decreases warnings.len() - i,
    {
        out.push(append2("  warning: ", warnings[i].as_str()));
        i += 1;
    }
    assert(texts(out@) =~= texts(warnings@).map_values(|w: Seq<char>| "  warning: "@ + w));
    pushed(out, append2(decimal(warnings.len()).as_str(), " warning(s)."))
}

/// What the command line accepts for `tm export` and `tm import` is never
/// refused for want of a path.
pub proof fn law_accepted_tm_paths_are_there(rest: Seq<Seq<char>>)
    requires
        tm_args(rest) is Ok,
        rest[0] == "export"@ || rest[0] == "import"@,
    ensures
        tm_asked(tm_args(rest)->Ok_0.0) is Ok,
{
}

/// What the command line accepts for `pack export` and `pack validate` is never
/// refused for want of an argument.
pub proof fn law_accepted_pack_arguments_are_there(rest: Seq<Seq<char>>, stem: Option<Seq<char>>)
    requires
        pack_args(rest) is Ok,
        rest[0] == "export"@ || rest[0] == "validate"@,
    ensures
        pack_asked(pack_args(rest)->Ok_0.0, pack_args(rest)->Ok_0.1, stem) is Ok,
{
    reveal_strlit("export");
    reveal_strlit("validate");
    reveal_strlit("list");
    reveal_strlit("import");
    assert("export"@.len() == 6 && "validate"@.len() == 8 && "list"@.len() == 4);
    assert("export"@[0] != "import"@[0]);
}

proof fn lemma_commands_apart()
    ensures
        "list"@[0] == 'l' && "export"@[0] == 'e' && "import"@[0] == 'i' && "clear"@[0] == 'c'
            && "record"@[0] == 'r' && "validate"@[0] == 'v',
{
    reveal_strlit("list");
    reveal_strlit("export");
    reveal_strlit("import");
    reveal_strlit("clear");
    reveal_strlit("record");
    reveal_strlit("validate");
}

/// What the translation memory is asked to do is what its command says, with the
/// arguments that the command needs; one that lacks them is refused by what is
/// missing, and an unknown one by its name.
pub proof fn law_what_the_memory_is_asked(tm: TmView)
    ensures
        ({
            let r = tm_asked(tm);
            let fails = |why: Seq<char>| r == Err::<TmActionView, Seq<char>>(why);
            let does = |what: TmActionView| r == Ok::<TmActionView, Seq<char>>(what);
            let record = tm.cmd == "record"@;
            &&& tm.cmd == "list"@ ==> does(TmActionView::List)
            &&& tm.cmd == "clear"@ ==> does(TmActionView::Clear)
            &&& tm.cmd == "export"@ && tm.arg is Some ==> does(
                TmActionView::Export(tm.arg->Some_0),
            )
            &&& tm.cmd == "export"@ && tm.arg is None ==> fails("tm export requires a file path"@)
            &&& tm.cmd == "import"@ && tm.arg is Some ==> does(
                TmActionView::Import(tm.arg->Some_0),
            )
            &&& tm.cmd == "import"@ && tm.arg is None ==> fails("tm import requires a file path"@)
            &&& record && tm.found is None ==> fails("tm record requires --found"@)
            &&& record && tm.found is Some && tm.suggested is None ==> fails(
                "tm record requires --suggested"@,
            )
            &&& record && tm.found is Some && tm.suggested is Some && tm.chose is None ==> fails(
                "tm record requires --chose"@,
            )
            &&& record && tm.found is Some && tm.suggested is Some && tm.chose is Some ==> does(
                TmActionView::Record {
                    found: tm.found->Some_0,
                    suggested: tm.suggested->Some_0,
                    chose: tm.chose->Some_0,
                    context: tm.context,
                },
            )
            &&& tm.cmd != "list"@ && tm.cmd != "clear"@ && tm.cmd != "export"@ && tm.cmd
                != "import"@ && !record ==> fails(
                "unknown tm subcommand: '"@ + tm.cmd
                    + "' (expected list|export|import|clear|record)"@,
            )
        }),
{
    lemma_commands_apart();
}

/// What the packs are asked to do is what the command says. A pack is imported
/// under the name of its file, and exported to a file of its name.
pub proof fn law_what_the_packs_are_asked(
    cmd: Seq<char>,
    arg: Option<Seq<char>>,
    stem: Option<Seq<char>>,
)
    ensures
        ({
            let r = pack_asked(cmd, arg, stem);
            let fails = |why: Seq<char>| r == Err::<PackActionView, Seq<char>>(why);
            let does = |what: PackActionView| r == Ok::<PackActionView, Seq<char>>(what);
            &&& cmd == "list"@ ==> does(PackActionView::List)
            &&& cmd == "import"@ && arg is None ==> fails("pack import requires a file path"@)
            &&& cmd == "import"@ && arg is Some && stem is None ==> fails(
                "cannot determine pack name from file path"@,
            )
            &&& cmd == "import"@ && arg is Some && stem is Some ==> does(
                PackActionView::Import { name: stem->Some_0, source: arg->Some_0 },
            )
            &&& cmd == "export"@ && arg is None ==> fails("pack export requires a pack name"@)
            &&& cmd == "export"@ && arg is Some ==> does(
                PackActionView::Export { name: arg->Some_0, dest: arg->Some_0 + ".json"@ },
            )
            &&& cmd == "validate"@ && arg is None ==> fails("pack validate requires a file path"@)
            &&& cmd == "validate"@ && arg is Some ==> does(PackActionView::Validate(arg->Some_0))
            &&& cmd != "list"@ && cmd != "import"@ && cmd != "export"@ && cmd != "validate"@
                ==> fails(
                "unknown pack subcommand: '"@ + cmd + "' (expected import|export|validate|list)"@,
            )
        }),
        stem_of(None) is None,
        arg is Some ==> stem_of(arg) == path_stem(arg->Some_0),
{
    lemma_commands_apart();
}

/// A validation lists every warning, in order, and then how many there were; and
/// it calls a pack valid exactly where there was none.
pub proof fn law_what_a_validation_says(warnings: Seq<Seq<char>>, i: int)
    requires
        0 <= i <= warnings.len(),
    ensures
        ({
            let lines = validation(warnings);
            let n = warnings.len();
            &&& lines.len() == n + 1
            &&& n == 0 ==> lines[0] == "Pack is valid."@
            &&& n > 0 ==> lines[n as int] == dec(n) + " warning(s)."@
            &&& i < n ==> lines[i] == "  warning: "@ + warnings[i]
        }),
{
}

/// A pack's line names it and counts its rules, and describes it where it has a
/// description.
pub proof fn law_what_is_listed_of_a_pack(p: PackInfo)
    ensures
        ({
            let line = "  "@ + p.name@ + " ("@ + dec(p.spelling_count as nat) + " spelling, "@ + dec(
                p.case_count as nat,
            ) + " case)"@;
            &&& p.description@.len() == 0 ==> pack_line(p) == line
            &&& p.description@.len() > 0 ==> pack_line(p) == line + (" \u{2014} "@
                + p.description@)
        }),
{
    reveal_strlit("");
    let line = "  "@ + p.name@ + " ("@ + dec(p.spelling_count as nat) + " spelling, "@ + dec(
        p.case_count as nat,
    ) + " case)"@;
    assert(line + ""@ =~= line);
}

/// A host that is not known is refused with those that are.
pub proof fn law_unknown_hosts_are_refused(
    host: &str,
    known: bool,
    available: &Vec<String>,
    r: Result<(), CliError>,
)
    requires
        call_ensures(check_host, (host, known, available), r),
    ensures
        r is Ok <==> known,
        r is Err ==> r->Err_0.message@ == "unknown host: '"@ + host@ + "'. Available: "@ + joined(
            texts(available@),
            ", "@,
        ),
{
}

/// What is said once something was done names what was done and to how much.
pub proof fn law_what_is_said_of_what_was_done(
    n: usize,
    updated: usize,
    total: usize,
    a: &str,
    b: &str,
    c: &str,
    r: String,
)
    ensures
        call_ensures(cache_cleared, (n,), r) ==> r@ == "judgment cache cleared ("@ + dec(n as nat)
            + " entries removed)"@,
        call_ensures(tm_exported, (n, a), r) ==> r@ == "Exported TM ("@ + dec(n as nat)
            + " entries) to "@ + a@,
        call_ensures(tm_imported, (n, updated, total), r) ==> r@ == "Imported "@ + dec(n as nat)
            + " new, "@ + dec(updated as nat) + " updated ("@ + dec(total as nat) + " total)"@,
        call_ensures(tm_recorded, (a, b), r) ==> r@ == "Recorded: '"@ + a@ + "' -> chose '"@ + b@
            + "'"@,
        call_ensures(pack_moved, (a, b, c), r) ==> r@ == a@ + " pack '"@ + b@ + "' to "@ + c@,
{
}

/// The list of packs has a line for each, in order, and says so where there is
/// none.
pub proof fn law_the_list_of_packs(packs: &Vec<PackInfo>, dir: &str, r: Vec<String>, i: int)
    requires
        call_ensures(pack_list, (packs, dir), r),
        0 <= i,
    ensures
        packs@.len() == 0 ==> r@.len() == 1 && r@[0]@ == "No packs installed in "@ + dir@,
        packs@.len() > 0 ==> r@.len() == packs@.len(),
        i < packs@.len() ==> r@[i]@ == pack_line(packs@[i]),
{
    let lines = texts(r@);
    if packs@.len() == 0 {
        assert(lines.len() == 1);
        assert(lines[0] == "No packs installed in "@ + dir@);
    } else {
        assert(lines.len() == packs@.len());
        if i < packs@.len() {
            assert(lines[i] == pack_line(packs@[i]));
        }
    }
}

} // verus!
