//! The `convert` command: how the text is read, when the fixing rounds end, and
//! what is said about what remains.
//!
//! The conversion, the scanner and the fixer are the caller's part.

use crate::json::{bool_text, json_bool};
use crate::lint::{Colors, FixResult, FixView};
use crate::lint_args::content_type_value;
use crate::rules::ruleset::{issues_view, Issue, IssueView};
use crate::scan::{content_type_of, file_type, named_type, type_named, type_of_file, ContentType};
use crate::text::{dec, decimal, lowered, opt_text, same, texts};
use vstd::prelude::*;

verus! {

/// How many fixing rounds there are at most.
pub const MAX_ROUNDS: usize = 3;

/// The first of a list of files that is not standard input.
pub open spec fn first_file(files: Seq<Seq<char>>) -> Option<Seq<char>>
    decreases files.len(),
{
    if files.len() == 0 {
        None
    } else if files[0] != "--"@ {
        Some(files[0])
    } else {
        first_file(files.skip(1))
    }
}

/// The content type that `convert` reads its input as: the one asked for, by
/// its name or its abbreviation, else the one that the first file's name stands
/// for, as in `lint`. Standard input alone is plain text.
pub open spec fn convert_type(asked: Option<Seq<char>>, files: Seq<Seq<char>>) -> ContentType {
    let by_name = match first_file(files) {
        Some(file) => type_of_file(file),
        None => ContentType::Plain,
    };
    match asked {
        Some(s) => if s == "md"@ {
            ContentType::Markdown
        } else if s == "yml"@ {
            ContentType::Yaml
        } else {
            match type_named(s) {
                Some(t) => t,
                None => by_name,
            }
        },
        None => by_name,
    }
}

fn type_by_name(files: &Vec<String>) -> (r: ContentType)
    ensures
        r == match first_file(texts(files@)) {
            Some(file) => type_of_file(file),
            None => ContentType::Plain,
        },
{
    let ghost all = texts(files@);
    let mut i: usize = 0;
    assert(all.skip(0) =~= all);
    while i < files.len()
        invariant
            i <= files.len(),
            all == texts(files@),
            first_file(all) == first_file(all.skip(i as int)),
        decreases files.len() - i,
    {
        assert(all.skip(i as int)[0] == files@[i as int]@);
        if !same(files[i].as_str(), "--") {
            return file_type(files[i].as_str());
        }
        assert(all.skip(i as int).skip(1) =~= all.skip(i + 1));
        i += 1;
    }
    ContentType::Plain
}

/// The content type that `convert` reads its input as.
pub fn convert_content_type(asked: &Option<String>, files: &Vec<String>) -> (r: ContentType)
    ensures
        r == convert_type(opt_text(*asked), texts(files@)),
{
    if let Some(s) = asked {
        if same(s.as_str(), "md") {
            return ContentType::Markdown;
        }
        if same(s.as_str(), "yml") {
            return ContentType::Yaml;
        }
        if let Some(t) = named_type(s.as_str()) {
            return t;
        }
    }
    type_by_name(files)
}

/// The text between fixing rounds.
#[derive(Debug)]
pub struct Rounds {
    text: String,
    round: usize,
    done: bool,
}

/// What a `Rounds` holds.
pub ghost struct RoundsView {
    pub text: Seq<char>,
    /// How many rounds applied something.
    pub round: nat,
    /// Nothing is left to fix, or nothing can be fixed.
    pub done: bool,
}

impl View for Rounds {
    type V = RoundsView;

    closed spec fn view(&self) -> RoundsView {
        RoundsView { text: self.text@, round: self.round as nat, done: self.done }
    }
}

/// What is said of a round that applied something.
pub open spec fn round_line(round: nat, issues: usize, applied: usize) -> Seq<char> {
    "convert: round "@ + dec(round) + " \u{2014} "@ + dec(issues as nat) + " issues, "@ + dec(
        applied as nat,
    ) + " fixes applied"@
}

/// The text is to be scanned once more.
pub open spec fn wants_round(v: RoundsView) -> bool {
    !v.done && v.round < MAX_ROUNDS
}

/// The state after a scan: without issues there is nothing left to fix.
pub open spec fn after_scan(v: RoundsView, issues: usize) -> RoundsView {
    RoundsView { done: v.done || issues == 0, ..v }
}

/// The state after the fixer ran: where it applied nothing, nothing can be
/// fixed; else its text is the text.
pub open spec fn after_fix(v: RoundsView, fix: FixView) -> RoundsView {
    if fix.applied == 0 {
        RoundsView { done: true, ..v }
    } else {
        RoundsView { text: fix.text, round: v.round + 1, ..v }
    }
}

/// How many rounds there can be yet.
pub open spec fn rounds_left(v: RoundsView) -> int {
    if v.done {
        0
    } else {
        MAX_ROUNDS - v.round
    }
}

impl Rounds {
    /// There are no more rounds than the limit.
    pub open spec fn wf(&self) -> bool {
        self@.round <= MAX_ROUNDS
    }

    /// The converted text, before any round.
    pub fn new(text: String) -> (r: Self)
        ensures
            r.wf(),
            r@ == (RoundsView { text: text@, round: 0, done: false }),
    {
        Rounds { text, round: 0, done: false }
    }

    /// The text as it stands.
    pub fn text(&self) -> (r: &str)
        ensures
            r@ == self@.text,
    {
        self.text.as_str()
    }

    /// Whether the text is to be scanned once more.
    pub fn wants_scan(&self) -> (r: bool)
        ensures
            r == wants_round(self@),
    {
        !self.done && self.round < MAX_ROUNDS
    }

    /// Takes the number of issues that a scan found. The answer is whether they
    /// are to be fixed.
    pub fn scanned(&mut self, issues: usize) -> (fix: bool)
        requires
            old(self).wf(),
        ensures
            final(self).wf(),
            fix == (issues > 0),
            final(self)@ == after_scan(old(self)@, issues),
    {
        if issues == 0 {
            self.done = true;
            false
        } else {
            true
        }
    }

    /// Takes what the fixer made of the issues of a scan. The answer is what is
    /// said of the round, if it applied anything.
    pub fn fixed(&mut self, issues: usize, fix: FixResult) -> (line: Option<String>)
        requires
            old(self).wf(),
            old(self)@.round < MAX_ROUNDS,
        ensures
            final(self).wf(),
            final(self)@ == after_fix(old(self)@, fix@),
            opt_text(line) == if fix.applied > 0 {
                Some(round_line(old(self)@.round + 1, issues, fix.applied))
            } else {
                None
            },
    {
        if fix.applied == 0 {
            self.done = true;
            return None;
        }
        let mut s = "convert: round ".to_owned();
        s.append(decimal(self.round + 1).as_str());
        s.append(" \u{2014} ");
        s.append(decimal(issues).as_str());
        s.append(" issues, ");
        s.append(decimal(fix.applied).as_str());
        s.append(" fixes applied");
        self.text = fix.text;
        self.round = self.round + 1;
        Some(s)
    }
}

// Verification.

/// What asking the translation anchor came to.
#[derive(Clone, Copy, Debug, PartialEq, Eq, Structural)]
pub struct Calibration {
    pub matched: usize,
    pub unmatched: usize,
    pub no_english: usize,
    pub api_ok: bool,
}

/// A calibration's counts.
pub open spec fn calibration_text(c: Calibration) -> Seq<char> {
    dec(c.matched as nat) + " matched, "@ + dec(c.unmatched as nat) + " unmatched, "@ + dec(
        c.no_english as nat,
    ) + " no_english, api_ok="@ + json_bool(c.api_ok)
}

fn calibration_counts(c: &Calibration) -> (r: String)
    ensures
        r@ == calibration_text(*c),
{
    let mut s = decimal(c.matched);
    s.append(" matched, ");
    s.append(decimal(c.unmatched).as_str());
    s.append(" unmatched, ");
    s.append(decimal(c.no_english).as_str());
    s.append(" no_english, api_ok=");
    s.append(bool_text(c.api_ok));
    s
}

/// What `lint` says of a calibration.
pub fn lint_verify_line(cal: &Calibration, c: &Colors) -> (r: String)
    ensures
        r@ == c.dim@ + "  verify: "@ + calibration_text(*cal) + c.reset@,
{
    let mut s = c.dim.to_owned();
    s.append("  verify: ");
    s.append(calibration_counts(cal).as_str());
    s.append(c.reset);
    s
}

/// What `convert` says of a calibration.
pub fn convert_verify_line(cal: &Calibration) -> (r: String)
    ensures
        r@ == "convert: verify \u{2014} "@ + calibration_text(*cal),
{
    let mut s = "convert: verify \u{2014} ".to_owned();
    s.append(calibration_counts(cal).as_str());
    s
}

/// How many issues the anchor did not confirm.
pub open spec fn unconfirmed(issues: Seq<IssueView>) -> nat
    decreases issues.len(),
{
    if issues.len() == 0 {
        0
    } else {
        unconfirmed(issues.drop_last()) + if issues.last().anchor_match == Some(false) {
            1nat
        } else {
            0
        }
    }
}

/// How many issues the anchor could have judged and did not.
pub open spec fn unjudged(issues: Seq<IssueView>) -> nat
    decreases issues.len(),
{
    if issues.len() == 0 {
        0
    } else {
        unjudged(issues.drop_last()) + if issues.last().anchor_match is None
            && issues.last().english is Some {
            1nat
        } else {
            0
        }
    }
}

/// What is said of the issues that remain unconfirmed, if there are any.
pub open spec fn residual(issues: Seq<IssueView>) -> Option<Seq<char>> {
    let rejected = unconfirmed(issues);
    let silent = unjudged(issues);
    if rejected + silent > 0 {
        Some(
            "convert: "@ + dec(rejected + silent) + " residual issues ("@ + dec(rejected)
                + " unconfirmed, "@ + dec(silent) + " no signal)"@,
        )
    } else {
        None
    }
}

/// What verifying a converted text asks for next.
#[derive(Clone, Copy, Debug, PartialEq, Eq, Structural)]
pub enum VerifyStep {
    /// Scan the text once more.
    Scan,
    /// Calibrate the issues that remain, and report on them.
    Calibrate,
    Done,
}

/// The next step, by whether the text is verified at all and by how many issues
/// its last scan found, once it has been scanned.
pub fn verify_step(verify: bool, remaining: Option<usize>) -> (r: VerifyStep)
    ensures
        r == if !verify || remaining == Some(0usize) {
            VerifyStep::Done
        } else if remaining is None {
            VerifyStep::Scan
        } else {
            VerifyStep::Calibrate
        },
{
    if !verify {
        return VerifyStep::Done;
    }
    match remaining {
        None => VerifyStep::Scan,
        Some(0) => VerifyStep::Done,
        Some(_) => VerifyStep::Calibrate,
    }
}

/// What is said of the issues that remain unconfirmed.
pub fn residual_line(issues: &Vec<Issue>) -> (r: Option<String>)
    ensures
        opt_text(r) == residual(issues_view(issues@)),
{
    let ghost all = issues_view(issues@);
    let mut rejected: usize = 0;
    let mut silent: usize = 0;
    let mut i: usize = 0;
    assert(all.take(0) =~= seq![]);
    while i < issues.len()
        invariant
            i <= issues.len(),
            all == issues_view(issues@),
            rejected == unconfirmed(all.take(i as int)),
            silent == unjudged(all.take(i as int)),
            rejected + silent <= i,
        decreases issues.len() - i,
    {
        assert(all.take(i + 1).drop_last() =~= all.take(i as int));
        assert(all.take(i + 1).last() == issues@[i as int]@);
        match issues[i].anchor_match {
            Some(b) => {
                if !b {
                    rejected += 1;
                }
            },
            None => {
                if issues[i].english.is_some() {
                    silent += 1;
                }
            },
        }
        i += 1;
    }
    assert(all.take(i as int) =~= all);
    if rejected + silent > 0 {
        let mut s = "convert: ".to_owned();
        s.append(decimal(rejected + silent).as_str());
        s.append(" residual issues (");
        s.append(decimal(rejected).as_str());
        s.append(" unconfirmed, ");
        s.append(decimal(silent).as_str());
        s.append(" no signal)");
        Some(s)
    } else {
        None
    }
}

/// Fixing ends: every round that is wanted leaves fewer rounds, whatever the
/// scan finds and the fixer does, and no round follows a scan without issues or
/// a fixer that applied nothing.
pub proof fn law_fixing_ends(v: RoundsView, issues: usize, fix: FixView)
    requires
        wants_round(v),
    ensures
        issues == 0 ==> !wants_round(after_scan(v, issues)),
        fix.applied == 0 ==> !wants_round(after_fix(v, fix)),
        0 <= rounds_left(after_fix(after_scan(v, issues), fix)) < rounds_left(v),
{
}

/// A text that the fixer leaves alone comes out as it was converted.
pub proof fn law_what_is_not_fixed_is_not_changed(v: RoundsView, issues: usize, fix: FixView)
    requires
        fix.applied == 0,
    ensures
        after_fix(after_scan(v, issues), fix).text == v.text,
{
}

/// A file name means the same to `convert` as to `lint`.
pub proof fn law_file_names_mean_what_they_mean_to_lint(
    asked: Option<Seq<char>>,
    file: Seq<char>,
    rest: Seq<Seq<char>>,
)
    requires
        file != "--"@,
        asked != Some("md"@),
        asked != Some("yml"@),
    ensures
        convert_type(asked, seq![file] + rest) == content_type_of(asked, file),
{
    assert((seq![file] + rest)[0] == file);
}

/// A content type that the command line accepts is never guessed from a file
/// name.
pub proof fn law_an_accepted_content_type_is_used(
    value: Option<Seq<char>>,
    files: Seq<Seq<char>>,
    other: Seq<Seq<char>>,
)
    requires
        content_type_value(value) is Ok,
    ensures
        ({
            let ct = content_type_value(value)->Ok_0;
            convert_type(Some(ct), files) == convert_type(Some(ct), other)
        }),
{
}

/// A round that fixes something leaves the text that the fixer produced, and
/// counts; a round that fixes nothing leaves the text as it was, and is the last
/// one. A scan alone never touches the text.
pub proof fn law_a_round_keeps_what_the_fixer_made(v: RoundsView, issues: usize, fix: FixView)
    ensures
        ({
            let next = after_fix(v, fix);
            &&& fix.applied > 0 ==> next.text == fix.text && next.round == v.round + 1 && next.done
                == v.done
            &&& fix.applied == 0 ==> next.text == v.text && next.round == v.round && next.done
        }),
        ({
            let next = after_scan(v, issues);
            &&& next.text == v.text
            &&& next.round == v.round
            &&& next.done <==> v.done || issues == 0
        }),
{
}

/// The text after a list of rounds, each with what its scan found and what its
/// fixer made.
pub open spec fn after_rounds(v: RoundsView, rounds: Seq<(usize, FixView)>) -> RoundsView
    decreases rounds.len(),
{
    if rounds.len() == 0 {
        v
    } else {
        let before = after_rounds(v, rounds.drop_last());
        after_fix(after_scan(before, rounds.last().0), rounds.last().1)
    }
}

/// However many rounds there were, the text is what the last fixer that applied
/// something produced, and the input where none did; and the rounds that count
/// are those in which something was applied.
pub proof fn law_the_last_fix_stands(v: RoundsView, rounds: Seq<(usize, FixView)>, k: int)
    requires
        -1 <= k < rounds.len(),
        k >= 0 ==> rounds[k].1.applied > 0,
        forall|i: int| k < i < rounds.len() ==> (#[trigger] rounds[i]).1.applied == 0,
    ensures
        k >= 0 ==> after_rounds(v, rounds).text == rounds[k].1.text,
        k == -1 ==> after_rounds(v, rounds).text == v.text,
        after_rounds(v, rounds).round == v.round + rounds.filter(
            |r: (usize, FixView)| r.1.applied > 0,
        ).len(),
    decreases rounds.len(),
{
    reveal(Seq::filter);
    if rounds.len() > 0 {
        let front = rounds.drop_last();
        if k < front.len() {
            law_the_last_fix_stands(v, front, k);
        } else {
            lemma_rounds_counted(v, front);
        }
    }
}

proof fn lemma_rounds_counted(v: RoundsView, rounds: Seq<(usize, FixView)>)
    ensures
        after_rounds(v, rounds).round == v.round + rounds.filter(
            |r: (usize, FixView)| r.1.applied > 0,
        ).len(),
    decreases rounds.len(),
{
    reveal(Seq::filter);
    if rounds.len() > 0 {
        lemma_rounds_counted(v, rounds.drop_last());
    }
}

/// Another round is wanted exactly while something may be left to fix and fewer
/// than three rounds applied something.
pub proof fn law_when_another_round_is_wanted(v: RoundsView)
    ensures
        wants_round(v) <==> !v.done && v.round < 3,
{
}

/// A round is reported by its number, by what its scan found and by what its
/// fixer applied.
pub proof fn law_the_round_line(round: nat, issues: usize, applied: usize)
    ensures
        "convert: round "@.is_prefix_of(round_line(round, issues, applied)),
        round_line(round, issues, applied) == "convert: round "@ + (dec(round) + (" \u{2014} "@ + (
        dec(issues as nat) + (" issues, "@ + (dec(applied as nat) + " fixes applied"@))))),
{
    let line = round_line(round, issues, applied);
    let told = "convert: round "@ + (dec(round) + (" \u{2014} "@ + (dec(issues as nat) + (
    " issues, "@ + (dec(applied as nat) + " fixes applied"@)))));
    assert(line =~= told);
}

/// What remains after verification is counted over all the issues: those that
/// the anchor rejected, and those with an English term on which it said nothing.
pub proof fn law_what_remains_is_counted(issues: Seq<IssueView>)
    ensures
        unconfirmed(issues) == issues.filter(
            |i: IssueView| i.anchor_match == Some(false),
        ).len(),
        unjudged(issues) == issues.filter(
            |i: IssueView| i.anchor_match is None && i.english is Some,
        ).len(),
    decreases issues.len(),
{
    reveal(Seq::filter);
    if issues.len() > 0 {
        law_what_remains_is_counted(issues.drop_last());
    }
}

/// What remains is reported exactly where some issue was not confirmed, and the
/// total that is named is that of the two counts behind it.
pub proof fn law_what_remains_is_reported(issues: Seq<IssueView>)
    ensures
        residual(issues) is None <==> forall|k: int|
            0 <= k < issues.len() ==> !((#[trigger] issues[k]).anchor_match == Some(false)) && !(
            issues[k].anchor_match is None && issues[k].english is Some),
        residual(issues) is Some ==> ({
            let rejected = issues.filter(|i: IssueView| i.anchor_match == Some(false)).len();
            let silent = issues.filter(
                |i: IssueView| i.anchor_match is None && i.english is Some,
            ).len();
            residual(issues)->Some_0 == "convert: "@ + dec(rejected + silent)
                + " residual issues ("@ + dec(rejected) + " unconfirmed, "@ + dec(silent)
                + " no signal)"@
        }),
{
    law_what_remains_is_counted(issues);
    lemma_nothing_counted(issues);
}

proof fn lemma_nothing_counted(issues: Seq<IssueView>)
    ensures
        unconfirmed(issues) + unjudged(issues) == 0 <==> forall|k: int|
            0 <= k < issues.len() ==> !((#[trigger] issues[k]).anchor_match == Some(false)) && !(
            issues[k].anchor_match is None && issues[k].english is Some),
    decreases issues.len(),
{
    if issues.len() > 0 {
        let front = issues.drop_last();
        lemma_nothing_counted(front);
        assert(issues[issues.len() - 1] == issues.last());
        assert forall|k: int| 0 <= k < front.len() implies front[k] == issues[k] by {}
        if unconfirmed(issues) + unjudged(issues) == 0 {
            assert forall|k: int| 0 <= k < issues.len() implies !((
            #[trigger] issues[k]).anchor_match == Some(false)) && !(issues[k].anchor_match is None
                && issues[k].english is Some) by {
                if k < front.len() {
                    assert(front[k] == issues[k]);
                }
            }
        }
    }
}

/// The content type that is asked for is used, whatever the files are called.
/// Where none is, the first file that is not standard input decides by the end
/// of its name, in any case of letters; standard input alone is plain text.
pub proof fn law_what_convert_reads_its_input_as(
    files: Seq<Seq<char>>,
    k: int,
)
    requires
        0 <= k <= files.len(),
        forall|i: int| 0 <= i < k ==> #[trigger] files[i] == "--"@,
        k < files.len() ==> files[k] != "--"@,
    ensures
        convert_type(Some("md"@), files) == ContentType::Markdown,
        convert_type(Some("markdown"@), files) == ContentType::Markdown,
        convert_type(Some("markdown-scan-code"@), files) == ContentType::MarkdownScanCode,
        convert_type(Some("yml"@), files) == ContentType::Yaml,
        convert_type(Some("yaml"@), files) == ContentType::Yaml,
        convert_type(Some("plain"@), files) == ContentType::Plain,
        k == files.len() ==> convert_type(None, files) == ContentType::Plain,
        k < files.len() ==> ({
            let name = lowered(files[k]);
            &&& convert_type(None, files) == ContentType::Markdown <==> ".md"@.is_suffix_of(name)
                || ".markdown"@.is_suffix_of(name)
            &&& ".yml"@.is_suffix_of(name) || ".yaml"@.is_suffix_of(name) ==> convert_type(
                None,
                files,
            ) == ContentType::Yaml
            &&& convert_type(None, files) == ContentType::Plain <==> !".md"@.is_suffix_of(name)
                && !".markdown"@.is_suffix_of(name) && !".yml"@.is_suffix_of(name)
                && !".yaml"@.is_suffix_of(name)
        }),
{
    reveal_strlit("md");
    reveal_strlit("markdown");
    reveal_strlit("markdown-scan-code");
    reveal_strlit("yml");
    reveal_strlit("yaml");
    reveal_strlit("plain");
    assert("md"@.len() == 2 && "yml"@.len() == 3 && "yaml"@.len() == 4 && "plain"@.len() == 5);
    assert("markdown"@.len() == 8 && "markdown-scan-code"@.len() == 18);
    lemma_first_file(files, k);
    if k < files.len() {
        lemma_one_ending(lowered(files[k]));
    }
}

proof fn lemma_first_file(files: Seq<Seq<char>>, k: int)
    requires
        0 <= k <= files.len(),
        forall|i: int| 0 <= i < k ==> #[trigger] files[i] == "--"@,
        k < files.len() ==> files[k] != "--"@,
    ensures
        first_file(files) == if k < files.len() {
            Some(files[k])
        } else {
            None
        },
    decreases files.len(),
{
    if k > 0 {
        assert(files[0] == "--"@);
        let rest = files.skip(1);
        assert forall|i: int| 0 <= i < k - 1 implies #[trigger] rest[i] == "--"@ by {
            assert(rest[i] == files[i + 1]);
        }
        lemma_first_file(rest, k - 1);
    }
}

/// A name ends with one extension only.
proof fn lemma_one_ending(name: Seq<char>)
    ensures
        ".yml"@.is_suffix_of(name) || ".yaml"@.is_suffix_of(name) ==> !".md"@.is_suffix_of(name)
            && !".markdown"@.is_suffix_of(name),
{
    reveal_strlit(".md");
    reveal_strlit(".markdown");
    reveal_strlit(".yml");
    reveal_strlit(".yaml");
    let n = name.len() as int;
    if ".yml"@.is_suffix_of(name) {
        assert(name[n - 1] == ".yml"@[3]);
    }
    if ".yaml"@.is_suffix_of(name) {
        assert(name[n - 1] == ".yaml"@[4]);
    }
    if ".md"@.is_suffix_of(name) {
        assert(name[n - 1] == ".md"@[2]);
    }
    if ".markdown"@.is_suffix_of(name) {
        assert(name[n - 1] == ".markdown"@[8]);
    }
}

/// A converted text is verified only where that was asked for: by one more scan,
/// and then, exactly where that found something, by the anchor.
pub proof fn law_when_a_text_is_verified(verify: bool, remaining: Option<usize>, r: VerifyStep)
    requires
        call_ensures(verify_step, (verify, remaining), r),
    ensures
        r == VerifyStep::Scan <==> verify && remaining is None,
        r == VerifyStep::Calibrate <==> verify && remaining is Some && remaining->Some_0 > 0,
{
}

/// After a round in which the fixer applied something, the text is the fixer's,
/// and the round is reported with what was found and what was applied.
pub proof fn law_a_fixed_text_is_kept(
    rounds: &mut Rounds,
    issues: usize,
    fix: FixResult,
    line: Option<String>,
)
    requires
        call_ensures(Rounds::fixed, (rounds, issues, fix), line),
    ensures
        fix.applied > 0 ==> {
            &&& final(rounds)@.text == fix.text@
            &&& final(rounds)@.round == old(rounds)@.round + 1
            &&& line is Some
            &&& line->Some_0@ == round_line(old(rounds)@.round + 1, issues, fix.applied)
        },
        fix.applied == 0 ==> {
            &&& final(rounds)@.text == old(rounds)@.text
            &&& final(rounds)@.done
            &&& line is None
        },
{
}

/// The fixer is called exactly where the scan found something, and the scan
/// itself leaves the text alone.
pub proof fn law_when_the_fixer_is_called(rounds: &mut Rounds, issues: usize, fix: bool)
    requires
        call_ensures(Rounds::scanned, (rounds, issues), fix),
    ensures
        fix <==> issues > 0,
        final(rounds)@.text == old(rounds)@.text,
        final(rounds)@.round == old(rounds)@.round,
        final(rounds)@.done <==> old(rounds)@.done || issues == 0,
{
}

/// The first text is the input, and what is printed is the text as it stands.
pub proof fn law_the_text_in_and_out(input: String, rounds: Rounds, wants: bool, text: &str)
    ensures
        call_ensures(Rounds::new, (input,), rounds) ==> rounds@.text == input@ && rounds@.round == 0
            && !rounds@.done,
        call_ensures(Rounds::text, (&rounds,), text) ==> text@ == rounds@.text,
        call_ensures(Rounds::wants_scan, (&rounds,), wants) ==> (wants <==> !rounds@.done
            && rounds@.round < 3),
{
}

/// What the anchor's counts are told as, by `lint` and by `convert`.
pub proof fn law_what_is_told_of_a_calibration(
    cal: &Calibration,
    c: &Colors,
    by_lint: String,
    by_convert: String,
)
    requires
        call_ensures(lint_verify_line, (cal, c), by_lint),
        call_ensures(convert_verify_line, (cal,), by_convert),
    ensures
        ({
            let ok = if cal.api_ok { "true"@ } else { "false"@ };
            let told = dec(cal.matched as nat) + " matched, "@ + dec(cal.unmatched as nat)
                + " unmatched, "@ + dec(cal.no_english as nat) + " no_english, api_ok="@ + ok;
            &&& by_lint@ == c.dim@ + "  verify: "@ + told + c.reset@
            &&& by_convert@ == "convert: verify \u{2014} "@ + told
        }),
{
}

/// What remains is told of exactly where some issue was not confirmed.
pub proof fn law_when_what_remains_is_told(issues: &Vec<Issue>, r: Option<String>)
    requires
        call_ensures(residual_line, (issues,), r),
    ensures
        r is Some <==> exists|k: int|
            0 <= k < issues@.len() && ((#[trigger] issues@[k]).anchor_match == Some(false) || (
            issues@[k].anchor_match is None && issues@[k].english is Some)),
{
    let all = issues_view(issues@);
    law_what_remains_is_reported(all);
    assert forall|k: int| 0 <= k < all.len() implies #[trigger] all[k] == issues@[k]@ by {}
    if exists|k: int|
        0 <= k < issues@.len() && ((#[trigger] issues@[k]).anchor_match == Some(false) || (
        issues@[k].anchor_match is None && issues@[k].english is Some)) {
        let k = choose|k: int|
            0 <= k < issues@.len() && ((#[trigger] issues@[k]).anchor_match == Some(false) || (
            issues@[k].anchor_match is None && issues@[k].english is Some));
        assert(all[k] == issues@[k]@);
    }
}

} // verus!
