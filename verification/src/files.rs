//! Which files a batch reads: what directories contribute, what patterns
//! exclude, and what a git range names.
//!
//! Looking at the file system and running git are the caller's part.

use crate::text::{
    after_last, append2, append3, chars_of, contains, ends_with, fail, fail_about, in_order,
    insert_in_order, law_after_last, law_lines, lines, lines_of, lowered, occurs, occurs_at, pushed,
    same, starts_with, string_from, text_after_last, texts, to_lower, CliError,
};
use vstd::prelude::*;

verus! {

/// An extension that directory discovery picks up.
pub open spec fn supported_extension(ext: Seq<char>) -> bool {
    ext == "md"@ || ext == "markdown"@ || ext == "yml"@ || ext == "yaml"@ || ext == "txt"@
}

/// A file name with a supported extension, whatever the case of its letters.
pub open spec fn supported_name(name: Seq<char>) -> bool {
    match after_last(lowered(name), '.') {
        Some(ext) => supported_extension(ext),
        None => false,
    }
}

/// Whether a file name has a supported extension.
pub fn is_supported(name: &str) -> (r: bool)
    ensures
        r == supported_name(name@),
{
    match text_after_last(to_lower(name).as_str(), '.') {
        Some(ext) => {
            let e = ext.as_str();
            same(e, "md") || same(e, "markdown") || same(e, "yml") || same(e, "yaml") || same(
                e,
                "txt",
            )
        },
        None => false,
    }
}

/// A path matches one exclude pattern:
///
/// - `*.ext`: the path ends with the extension;
/// - `dir/**`: the path lies under a component of that name, the first one of a
///   relative path included, or ends with one that is not its first;
/// - anything else: some component, or run of components, equals the pattern.
pub open spec fn matches_pattern(path: Seq<char>, pat: Seq<char>) -> bool {
    if "*."@.is_prefix_of(pat) {
        pat.skip(1).is_suffix_of(path)
    } else if "/**"@.is_suffix_of(pat) {
        let dir = pat.take(pat.len() - 3);
        has_later_component(path, dir) || (dir.len() > 0 && (dir + "/"@).is_prefix_of(path))
    } else {
        has_later_component(path, pat) || (pat + "/"@).is_prefix_of(path) || path == pat
    }
}

/// A component of a path that a slash precedes, or a run of such components,
/// equals `name`.
pub open spec fn has_later_component(path: Seq<char>, name: Seq<char>) -> bool {
    occurs(path, "/"@ + name + "/"@) || ("/"@ + name).is_suffix_of(path)
}

/// A path matches some exclude pattern.
pub open spec fn excluded(path: Seq<char>, patterns: Seq<Seq<char>>) -> bool {
    exists|i: int| 0 <= i < patterns.len() && matches_pattern(path, #[trigger] patterns[i])
}

fn matches(path: &str, pat: &str) -> (r: bool)
    ensures
        r == matches_pattern(path@, pat@),
{
    proof {
        reveal_strlit("*.");
        reveal_strlit("/**");
    }
    let n = pat.unicode_len();
    if starts_with(pat, "*.") {
        let ext = pat.substring_char(1, n);
        assert(ext@ =~= pat@.skip(1));
        ends_with(path, ext)
    } else if ends_with(pat, "/**") {
        let dir = pat.substring_char(0, n - 3);
        assert(dir@ =~= pat@.take(pat@.len() - 3));
        later_component(path, dir) || (dir.unicode_len() > 0 && starts_with(
            path,
            append2(dir, "/").as_str(),
        ))
    } else {
        later_component(path, pat) || starts_with(path, append2(pat, "/").as_str()) || same(
            path,
            pat,
        )
    }
}

fn later_component(path: &str, name: &str) -> (r: bool)
    ensures
        r == has_later_component(path@, name@),
{
    contains(path, append3("/", name, "/").as_str()) || ends_with(
        path,
        append2("/", name).as_str(),
    )
}

/// Whether a path matches any exclude pattern.
pub fn is_excluded(path: &str, patterns: &Vec<String>) -> (r: bool)
    ensures
        r == excluded(path@, texts(patterns@)),
{
    let mut i: usize = 0;
    while i < patterns.len()
        invariant
            i <= patterns.len(),
            forall|k: int|
                0 <= k < i ==> !matches_pattern(path@, #[trigger] texts(patterns@)[k]),
        decreases patterns.len() - i,
    {
        if matches(path, patterns[i].as_str()) {
            assert(matches_pattern(path@, texts(patterns@)[i as int]));
            return true;
        }
        i += 1;
    }
    false
}

/// What a directory entry is.
#[derive(Clone, Copy, Debug, PartialEq, Eq, Structural)]
pub enum EntryKind {
    Symlink,
    Directory,
    File,
    Other,
}

/// What the walk does with a directory entry.
#[derive(Clone, Copy, Debug, PartialEq, Eq, Structural)]
pub enum WalkStep {
    Skip,
    Descend,
    Take,
}

/// What the walk does with a directory entry: symbolic links and hidden entries
/// are skipped, directories are entered, and files are taken by extension.
pub open spec fn walk_decision(name: Seq<char>, kind: EntryKind) -> WalkStep {
    if kind == EntryKind::Symlink || "."@.is_prefix_of(name) {
        WalkStep::Skip
    } else if kind == EntryKind::Directory {
        WalkStep::Descend
    } else if kind == EntryKind::File && supported_name(name) {
        WalkStep::Take
    } else {
        WalkStep::Skip
    }
}

/// Decides what the walk does with a directory entry.
pub fn walk_entry(name: &str, kind: EntryKind) -> (r: WalkStep)
    ensures
        r == walk_decision(name@, kind),
{
    if kind == EntryKind::Symlink {
        return WalkStep::Skip;
    }
    if starts_with(name, ".") {
        return WalkStep::Skip;
    }
    if kind == EntryKind::Directory {
        return WalkStep::Descend;
    }
    if kind == EntryKind::File && is_supported(name) {
        WalkStep::Take
    } else {
        WalkStep::Skip
    }
}

/// What a path argument turned out to be.
#[derive(Debug)]
pub enum FoundPath {
    /// Standard input.
    Stdin,
    /// A path that does not exist, as it was given.
    Missing(String),
    /// A file, given by name or found in a directory, as its normalized path.
    File(String),
    /// Neither a file nor a directory.
    Other,
}

/// What a `FoundPath` holds.
pub ghost enum FoundView {
    Stdin,
    Missing(Seq<char>),
    File(Seq<char>),
    Other,
}

impl View for FoundPath {
    type V = FoundView;

    open spec fn view(&self) -> FoundView {
        match *self {
            FoundPath::Stdin => FoundView::Stdin,
            FoundPath::Missing(arg) => FoundView::Missing(arg@),
            FoundPath::File(path) => FoundView::File(path@),
            FoundPath::Other => FoundView::Other,
        }
    }
}

/// What each path of a list holds.
pub open spec fn found_view(list: Seq<FoundPath>) -> Seq<FoundView> {
    Seq::new(list.len(), |i: int| list[i]@)
}

/// The files that a list of paths stands for: standard input, and every file
/// that no pattern excludes.
pub open spec fn file_set(list: Seq<FoundView>, exclude: Seq<Seq<char>>) -> Set<Seq<char>> {
    Set::new(
        |s: Seq<char>|
            (s == "--"@ && list.contains(FoundView::Stdin)) || (list.contains(FoundView::File(s))
                && !excluded(s, exclude)),
    )
}

/// The first path that does not exist, if there is one.
pub open spec fn first_missing(list: Seq<FoundView>) -> Option<Seq<char>>
    decreases list.len(),
{
    if list.len() == 0 {
        None
    } else {
        match first_missing(list.drop_last()) {
            Some(arg) => Some(arg),
            None => match list.last() {
                FoundView::Missing(arg) => Some(arg),
                _ => None,
            },
        }
    }
}

proof fn lemma_file_set_push(list: Seq<FoundView>, f: FoundView, exclude: Seq<Seq<char>>)
    ensures
        file_set(list.push(f), exclude) == match f {
            FoundView::Stdin => file_set(list, exclude).insert("--"@),
            FoundView::File(s) => if excluded(s, exclude) {
                file_set(list, exclude)
            } else {
                file_set(list, exclude).insert(s)
            },
            _ => file_set(list, exclude),
        },
{
    let after = list.push(f);
    assert forall|x: FoundView| #[trigger] after.contains(x) <==> list.contains(x) || x == f by {
        if list.contains(x) {
            let k = choose|k: int| 0 <= k < list.len() && list[k] == x;
            assert(after[k] == x);
        }
        if x == f {
            assert(after[list.len() as int] == x);
        }
        if after.contains(x) {
            let k = choose|k: int| 0 <= k < after.len() && after[k] == x;
            if k < list.len() {
                assert(list[k] == x);
            }
        }
    }
    match f {
        FoundView::Stdin => {
            assert(file_set(after, exclude) =~= file_set(list, exclude).insert("--"@));
        },
        FoundView::File(s) => {
            if excluded(s, exclude) {
                assert(file_set(after, exclude) =~= file_set(list, exclude));
            } else {
                assert(file_set(after, exclude) =~= file_set(list, exclude).insert(s));
            }
        },
        _ => {
            assert(file_set(after, exclude) =~= file_set(list, exclude));
        },
    }
}

proof fn lemma_first_missing_stays(list: Seq<FoundView>, n: int)
    requires
        0 <= n <= list.len(),
        first_missing(list.take(n)) is Some,
    ensures
        first_missing(list) == first_missing(list.take(n)),
    decreases list.len() - n,
{
    if n < list.len() {
        assert(list.take(n + 1).drop_last() =~= list.take(n));
        lemma_first_missing_stays(list, n + 1);
    } else {
        assert(list.take(n) =~= list);
    }
}

/// Resolves the paths of a batch, each looked at already and directories
/// replaced by what the walk took from them, into a list of files: in order,
/// each once.
pub fn resolve_file_args(found: &Vec<FoundPath>, exclude: &Vec<String>) -> (r: Result<
    Vec<String>,
    CliError,
>)
    ensures
        match r {
            Ok(files) => {
                &&& first_missing(found_view(found@)) is None
                &&& in_order(texts(files@))
                &&& texts(files@).to_set() == file_set(found_view(found@), texts(exclude@))
                &&& files.len() > 0
            },
            Err(e) => match first_missing(found_view(found@)) {
                Some(arg) => e.message@ == "path does not exist: "@ + arg,
                None => {
                    &&& file_set(found_view(found@), texts(exclude@)) == Set::<Seq<char>>::empty()
                    &&& e.message@ == "no supported files found in the given paths"@
                },
            },
        },
{
    let ghost all = found_view(found@);
    let ghost pats = texts(exclude@);
    let mut files: Vec<String> = Vec::new();
    let mut i: usize = 0;
    assert(texts(files@) =~= seq![]);
    assert(texts(files@).to_set() =~= file_set(all.take(0), pats));
    while i < found.len()
        invariant
            i <= found.len(),
            all == found_view(found@),
            pats == texts(exclude@),
            first_missing(all.take(i as int)) is None,
            in_order(texts(files@)),
            texts(files@).to_set() == file_set(all.take(i as int), pats),
        decreases found.len() - i,
    {
        proof {
            assert(all.take(i + 1) =~= all.take(i as int).push(all[i as int]));
            assert(all.take(i + 1).drop_last() =~= all.take(i as int));
            assert(all.take(i + 1).last() == found@[i as int]@);
            lemma_file_set_push(all.take(i as int), all[i as int], pats);
        }
        match &found[i] {
            FoundPath::Stdin => {
                files = insert_in_order(files, string_from("--"));
            },
            FoundPath::Missing(arg) => {
                proof {
                    lemma_first_missing_stays(all, i + 1);
                }
                return Err(fail_about("path does not exist: ", arg.as_str()));
            },
            FoundPath::File(path) => {
                if !is_excluded(path.as_str(), exclude) {
                    files = insert_in_order(files, path.clone());
                }
            },
            FoundPath::Other => {},
        }
        i += 1;
    }
    assert(all.take(i as int) =~= all);
    if files.len() == 0 {
        assert(texts(files@).to_set() =~= Set::empty());
        return Err(fail("no supported files found in the given paths"));
    }
    Ok(files)
}

// Git ranges.

/// A character that a git reference may hold.
pub open spec fn ref_char(c: char) -> bool {
    ||| 'a' <= c <= 'z'
    ||| 'A' <= c <= 'Z'
    ||| '0' <= c <= '9'
    ||| c == '_'
    ||| c == '.'
    ||| c == '/'
    ||| c == '-'
    ||| c == '~'
    ||| c == '^'
    ||| c == '@'
    ||| c == '{'
    ||| c == '}'
}

fn is_ref_char(c: char) -> (r: bool)
    ensures
        r == ref_char(c),
{
    ('a' <= c && c <= 'z') || ('A' <= c && c <= 'Z') || ('0' <= c && c <= '9') || c == '_' || c
        == '.' || c == '/' || c == '-' || c == '~' || c == '^' || c == '@' || c == '{' || c == '}'
}

/// Why a git reference is refused, if it is. One that begins with a dash would
/// be read as a flag.
pub open spec fn ref_refusal(git_ref: Seq<char>) -> Option<Seq<char>> {
    if "-"@.is_prefix_of(git_ref) {
        Some("--diff-from ref must not start with '-'"@)
    } else if exists|i: int| 0 <= i < git_ref.len() && !ref_char(#[trigger] git_ref[i]) {
        Some("--diff-from ref contains invalid characters"@)
    } else {
        None
    }
}

/// The range that git is asked for, where the reference is acceptable.
pub fn diff_range(git_ref: &str) -> (r: Result<String, CliError>)
    ensures
        match r {
            Ok(range) => ref_refusal(git_ref@) is None && range@ == git_ref@ + "...HEAD"@,
            Err(e) => ref_refusal(git_ref@) == Some(e.message@),
        },
{
    if starts_with(git_ref, "-") {
        return Err(fail("--diff-from ref must not start with '-'"));
    }
    let chars = chars_of(git_ref);
    let mut i: usize = 0;
    while i < chars.len()
        invariant
            i <= chars.len(),
            chars@ == git_ref@,
            !"-"@.is_prefix_of(git_ref@),
            forall|k: int| 0 <= k < i ==> ref_char(#[trigger] git_ref@[k]),
        decreases chars.len() - i,
    {
        if !is_ref_char(chars[i]) {
            assert(!ref_char(git_ref@[i as int]));
            return Err(fail("--diff-from ref contains invalid characters"));
        }
        i += 1;
    }
    Ok(append2(git_ref, "...HEAD"))
}

/// The supported names of a list, in order.
pub open spec fn supported_names(list: Seq<Seq<char>>) -> Seq<Seq<char>>
    decreases list.len(),
{
    if list.len() == 0 {
        seq![]
    } else if supported_name(list.last()) {
        supported_names(list.drop_last()).push(list.last())
    } else {
        supported_names(list.drop_last())
    }
}

/// What git said of a range.
#[derive(Debug)]
pub enum DiffOutput {
    /// It failed, and this is what it wrote to standard error.
    Failed(String),
    /// The names of the changed files, one per line.
    Names(String),
}

/// The changed files that are linted: those with a supported extension.
pub fn resolve_diff_files(output: &DiffOutput) -> (r: Result<Vec<String>, CliError>)
    ensures
        match (*output, r) {
            (DiffOutput::Names(names), Ok(files)) => texts(files@) == supported_names(
                lines_of(names@),
            ),
            (DiffOutput::Failed(stderr), Err(e)) => e.message@ == "git diff failed: "@ + stderr@,
            _ => false,
        },
{
    let names = match output {
        DiffOutput::Failed(stderr) => {
            return Err(fail_about("git diff failed: ", stderr.as_str()));
        },
        DiffOutput::Names(names) => lines(names.as_str()),
    };
    let ghost all = texts(names@);
    let mut files: Vec<String> = Vec::new();
    let mut i: usize = 0;
    assert(all.take(0) =~= seq![]);
    assert(texts(files@) =~= seq![]);
    while i < names.len()
        invariant
            i <= names.len(),
            all == texts(names@),
            texts(files@) == supported_names(all.take(i as int)),
        decreases names.len() - i,
    {
        assert(all.take(i + 1).drop_last() =~= all.take(i as int));
        assert(all.take(i + 1).last() == names@[i as int]@);
        if is_supported(names[i].as_str()) {
            files = pushed(files, names[i].clone());
        }
        i += 1;
    }
    assert(all.take(i as int) =~= all);
    Ok(files)
}

/// A reference that is accepted never reads as a flag, nor does its range.
pub proof fn law_accepted_refs_are_no_flags(git_ref: Seq<char>)
    requires
        ref_refusal(git_ref) is None,
    ensures
        !"-"@.is_prefix_of(git_ref + "...HEAD"@),
{
    reveal_strlit("-");
    reveal_strlit("...HEAD");
    let range = git_ref + "...HEAD"@;
    if "-"@.is_prefix_of(range) {
        assert(range.subrange(0, 1)[0] == '-');
        assert(range[0] == '-');
        if git_ref.len() > 0 {
            assert(git_ref.subrange(0, 1) =~= "-"@);
        } else {
            assert(range[0] == "...HEAD"@[0]);
        }
    }
}

/// What a batch reads does not depend on the order of its arguments, nor on how
/// often one is given: two lists of the same paths stand for the same files.
pub proof fn law_the_order_of_paths_does_not_matter(
    a: Seq<FoundView>,
    b: Seq<FoundView>,
    exclude: Seq<Seq<char>>,
)
    requires
        a.to_set() == b.to_set(),
    ensures
        file_set(a, exclude) == file_set(b, exclude),
{
    assert forall|x: FoundView| #[trigger] a.contains(x) == b.contains(x) by {
        if a.contains(x) {
            assert(a.to_set().contains(x));
            assert(b.to_set().contains(x));
        }
        if b.contains(x) {
            assert(b.to_set().contains(x));
            assert(a.to_set().contains(x));
        }
    }
    assert(file_set(a, exclude) =~= file_set(b, exclude));
}

/// `dir/**` matches anything under the given directory component, wherever in
/// the path it stands: as the first component of a relative path, or after
/// others. A name that begins with `*.` makes the pattern one for extensions.
pub proof fn law_everything_under_a_directory_matches(
    before: Seq<char>,
    dir: Seq<char>,
    below: Seq<char>,
)
    requires
        !"*."@.is_prefix_of(dir + "/**"@),
    ensures
        dir.len() > 0 ==> matches_pattern(dir + "/"@ + below, dir + "/**"@),
        matches_pattern(before + ("/"@ + dir + "/"@) + below, dir + "/**"@),
        matches_pattern(before + ("/"@ + dir), dir + "/**"@),
{
    reveal_strlit("/**");
    let pat = dir + "/**"@;
    assert(pat.subrange(pat.len() - 3, pat.len() as int) =~= "/**"@);
    assert(pat.take(pat.len() - 3) =~= dir);
    assert((dir + "/"@ + below).subrange(0, (dir + "/"@).len() as int) =~= dir + "/"@);
    let inner = "/"@ + dir + "/"@;
    let path = before + inner + below;
    assert(path.subrange(before.len() as int, (before.len() + inner.len()) as int) =~= inner);
    assert(occurs_at(path, inner, before.len() as int));
    let end = before + ("/"@ + dir);
    assert(end.subrange(before.len() as int, end.len() as int) =~= "/"@ + dir);
}

/// An excluded file is never read, unless it is standard input.
pub proof fn law_excluded_files_are_not_read(
    list: Seq<FoundView>,
    exclude: Seq<Seq<char>>,
    path: Seq<char>,
)
    requires
        excluded(path, exclude),
        path != "--"@,
    ensures
        !file_set(list, exclude).contains(path),
{
}

/// A name is supported exactly where it ends with one of five extensions, in any
/// case of letters: the rest of the name, and the directories in it, do not
/// matter.
pub proof fn law_a_name_is_supported_by_its_ending(name: Seq<char>)
    ensures
        supported_name(name) <==> {
            let lower = lowered(name);
            ||| ".md"@.is_suffix_of(lower)
            ||| ".markdown"@.is_suffix_of(lower)
            ||| ".yml"@.is_suffix_of(lower)
            ||| ".yaml"@.is_suffix_of(lower)
            ||| ".txt"@.is_suffix_of(lower)
        },
{
    reveal_strlit("md");
    reveal_strlit("markdown");
    reveal_strlit("yml");
    reveal_strlit("yaml");
    reveal_strlit("txt");
    reveal_strlit(".md");
    reveal_strlit(".markdown");
    reveal_strlit(".yml");
    reveal_strlit(".yaml");
    reveal_strlit(".txt");
    assert(seq!['.'] + "md"@ =~= ".md"@);
    assert(seq!['.'] + "markdown"@ =~= ".markdown"@);
    assert(seq!['.'] + "yml"@ =~= ".yml"@);
    assert(seq!['.'] + "yaml"@ =~= ".yaml"@);
    assert(seq!['.'] + "txt"@ =~= ".txt"@);
    lemma_ending(lowered(name), "md"@);
    lemma_ending(lowered(name), "markdown"@);
    lemma_ending(lowered(name), "yml"@);
    lemma_ending(lowered(name), "yaml"@);
    lemma_ending(lowered(name), "txt"@);
}

proof fn lemma_ending(s: Seq<char>, ext: Seq<char>)
    requires
        !ext.contains('.'),
    ensures
        after_last(s, '.') == Some(ext) <==> (seq!['.'] + ext).is_suffix_of(s),
{
    law_after_last(s, '.');
    let dotted = seq!['.'] + ext;
    let n = s.len() as int;
    let m = ext.len() as int;
    if after_last(s, '.') == Some(ext) {
        assert(s.skip(n - m - 1) == dotted);
        assert(s.subrange(n - m - 1, n) =~= s.skip(n - m - 1));
    }
    if dotted.is_suffix_of(s) {
        assert(s.subrange(n - m - 1, n) =~= dotted);
        assert(s.subrange(n - m - 1, n)[0] == '.');
        assert(s[n - m - 1] == '.');
        assert(s.contains('.'));
        let tail = after_last(s, '.')->Some_0;
        let t = tail.len() as int;
        assert(s.skip(n - t - 1) == seq!['.'] + tail);
        assert(s.skip(n - t - 1)[0] == '.');
        assert(s[n - t - 1] == '.');
        if t < m {
            assert(dotted[m - t] == s.subrange(n - m - 1, n)[m - t]);
            assert(ext[m - t - 1] == '.');
            assert(ext.contains('.'));
        } else if t > m {
            assert((seq!['.'] + tail)[t - m] == s.skip(n - t - 1)[t - m]);
            assert(tail[t - m - 1] == '.');
            assert(tail.contains('.'));
        } else {
            assert(tail =~= ext) by {
                assert(seq!['.'] + tail =~= dotted) by {
                    assert(s.skip(n - t - 1) =~= s.subrange(n - m - 1, n));
                }
                assert forall|i: int| 0 <= i < t implies tail[i] == ext[i] by {
                    assert((seq!['.'] + tail)[i + 1] == dotted[i + 1]);
                }
            }
        }
    }
}

/// Of the changed files, those with a supported extension are linted, in the
/// order in which they are named, whatever directory they lie in.
pub proof fn law_changed_files_are_linted(list: Seq<Seq<char>>)
    ensures
        supported_names(list) == list.filter(
            |name: Seq<char>|
                {
                    let lower = lowered(name);
                    ||| ".md"@.is_suffix_of(lower)
                    ||| ".markdown"@.is_suffix_of(lower)
                    ||| ".yml"@.is_suffix_of(lower)
                    ||| ".yaml"@.is_suffix_of(lower)
                    ||| ".txt"@.is_suffix_of(lower)
                },
        ),
    decreases list.len(),
{
    reveal(Seq::filter);
    if list.len() > 0 {
        law_changed_files_are_linted(list.drop_last());
        law_a_name_is_supported_by_its_ending(list.last());
    }
}

/// A line of git's output adds the file that it names to those of the lines
/// after it, exactly where the name has a supported extension.
pub proof fn law_each_line_names_a_changed_file(name: Seq<char>, rest: Seq<char>)
    requires
        !name.contains('\n'),
        name.len() > 0 ==> name.last() != '\r',
    ensures
        ({
            let lower = lowered(name);
            let ending = ".md"@.is_suffix_of(lower) || ".markdown"@.is_suffix_of(lower)
                || ".yml"@.is_suffix_of(lower) || ".yaml"@.is_suffix_of(lower)
                || ".txt"@.is_suffix_of(lower);
            let files = supported_names(lines_of(name.push('\n') + rest));
            &&& ending ==> files == seq![name] + supported_names(lines_of(rest))
            &&& !ending ==> files == supported_names(lines_of(rest))
        }),
{
    law_lines(name, rest);
    law_a_name_is_supported_by_its_ending(name);
    lemma_supported_front(name, lines_of(rest));
}

proof fn lemma_supported_front(first: Seq<char>, rest: Seq<Seq<char>>)
    ensures
        supported_names(seq![first] + rest) == if supported_name(first) {
            seq![first] + supported_names(rest)
        } else {
            supported_names(rest)
        },
    decreases rest.len(),
{
    let all = seq![first] + rest;
    if rest.len() == 0 {
        assert(all.drop_last() =~= seq![]);
        assert(all.last() == first);
        assert(supported_names(all.drop_last()) =~= seq![]);
        assert(supported_names(rest) =~= seq![]);
        assert(supported_names(all) =~= if supported_name(first) {
            seq![first] + supported_names(rest)
        } else {
            supported_names(rest)
        });
    } else {
        assert(all.drop_last() =~= seq![first] + rest.drop_last());
        lemma_supported_front(first, rest.drop_last());
        assert(supported_names(all) =~= if supported_name(first) {
            seq![first] + supported_names(rest)
        } else {
            supported_names(rest)
        });
    }
}

/// A pattern for an extension matches the paths that end with it. Any other
/// pattern matches where its components stand in the path one after the other,
/// as whole components; with `/**` behind them, the path itself must be more
/// than they are.
pub proof fn law_a_pattern_matches_whole_components(path: Seq<char>, pat: Seq<char>)
    ensures
        matches_pattern(path, "*"@ + "."@ + pat) <==> ("."@ + pat).is_suffix_of(path),
        !"*."@.is_prefix_of(pat) && !"/**"@.is_suffix_of(pat) ==> (matches_pattern(path, pat)
            <==> occurs("/"@ + path + "/"@, "/"@ + pat + "/"@)),
        pat.len() > 0 && !"*."@.is_prefix_of(pat + "/**"@) ==> (matches_pattern(
            path,
            pat + "/**"@,
        ) <==> path != pat && occurs("/"@ + path + "/"@, "/"@ + pat + "/"@)),
{
    reveal_strlit("*");
    reveal_strlit(".");
    reveal_strlit("*.");
    reveal_strlit("/");
    reveal_strlit("/**");
    let by_ext = "*"@ + "."@ + pat;
    assert(by_ext.subrange(0, 2) =~= "*."@);
    assert(by_ext.skip(1) =~= "."@ + pat);
    let under = pat + "/**"@;
    assert(under.subrange(under.len() - 3, under.len() as int) =~= "/**"@);
    assert(under.take(under.len() - 3) =~= pat);
    lemma_components(path, pat);
    if path == pat {
        assert(!has_later_component(path, pat)) by {
            if occurs(path, "/"@ + pat + "/"@) {
                let i = choose|i: int| occurs_at(path, "/"@ + pat + "/"@, i);
                assert(false);
            }
        }
    }
}

proof fn lemma_components(path: Seq<char>, pat: Seq<char>)
    ensures
        occurs("/"@ + path + "/"@, "/"@ + pat + "/"@) <==> has_later_component(path, pat) || (pat
            + "/"@).is_prefix_of(path) || path == pat,
{
    reveal_strlit("/");
    let whole = "/"@ + path + "/"@;
    let inner = "/"@ + pat + "/"@;
    let n = path.len() as int;
    let m = pat.len() as int;
    if occurs(whole, inner) {
        let i = choose|i: int| occurs_at(whole, inner, i);
        assert forall|k: int| 0 <= k < m + 2 implies whole[i + k] == inner[k] by {
            assert(whole.subrange(i, i + inner.len())[k] == whole[i + k]);
        }
        assert forall|k: int| 0 <= k < m implies pat[k] == inner[k + 1] by {}
        assert forall|k: int| 0 <= k < n implies path[k] == whole[k + 1] by {}
        if i == 0 && m == n {
            assert(path =~= pat);
        } else if i == 0 {
            assert forall|k: int| 0 <= k < m + 1 implies path[k] == (pat + "/"@)[k] by {
                assert(path[k] == whole[k + 1]);
                assert(whole[0 + (k + 1)] == inner[k + 1]);
            }
            assert(path.subrange(0, m + 1) =~= pat + "/"@);
        } else if i + m + 2 == n + 2 {
            assert forall|k: int| 0 <= k < m + 1 implies path[n - m - 1 + k] == ("/"@ + pat)[k] by {
                assert(path[n - m - 1 + k] == whole[i + k]);
                assert(whole[i + k] == inner[k]);
            }
            assert(path.subrange(n - m - 1, n) =~= "/"@ + pat);
        } else {
            assert(path.subrange(i - 1, i - 1 + inner.len()) =~= inner);
            assert(occurs_at(path, inner, i - 1));
        }
    }
    if path == pat {
        assert(whole.subrange(0, inner.len() as int) =~= inner);
        assert(occurs_at(whole, inner, 0));
    }
    if (pat + "/"@).is_prefix_of(path) {
        assert(path.subrange(0, m + 1) =~= pat + "/"@);
        assert forall|k: int| 0 <= k < m + 1 implies path[k] == (pat + "/"@)[k] by {
            assert(path.subrange(0, m + 1)[k] == path[k]);
        }
        assert(whole.subrange(0, inner.len() as int) =~= inner);
        assert(occurs_at(whole, inner, 0));
    }
    if ("/"@ + pat).is_suffix_of(path) {
        assert(path.subrange(n - m - 1, n) =~= "/"@ + pat);
        assert forall|k: int| 0 <= k < m + 1 implies path[n - m - 1 + k] == ("/"@ + pat)[k] by {
            assert(path.subrange(n - m - 1, n)[k] == path[n - m - 1 + k]);
        }
        assert(whole.subrange(n - m, n - m + inner.len()) =~= inner);
        assert(occurs_at(whole, inner, n - m));
    }
    if occurs(path, inner) {
        let i = choose|i: int| occurs_at(path, inner, i);
        assert(whole.subrange(i + 1, i + 1 + inner.len()) =~= path.subrange(i, i + inner.len()));
        assert(occurs_at(whole, inner, i + 1));
    }
}

/// Each pattern excludes what it matches, and all of them together exclude what
/// any of them does.
pub proof fn law_patterns_add_up(path: Seq<char>, patterns: Seq<Seq<char>>, pat: Seq<char>)
    ensures
        !excluded(path, seq![]),
        excluded(path, patterns.push(pat)) <==> excluded(path, patterns) || matches_pattern(
            path,
            pat,
        ),
{
    let all = patterns.push(pat);
    assert(all[patterns.len() as int] == pat);
    if excluded(path, patterns) {
        let i = choose|i: int|
            0 <= i < patterns.len() && matches_pattern(path, #[trigger] patterns[i]);
        assert(all[i] == patterns[i]);
    }
    if excluded(path, all) {
        let i = choose|i: int| 0 <= i < all.len() && matches_pattern(path, #[trigger] all[i]);
        if i < patterns.len() {
            assert(all[i] == patterns[i]);
        }
    }
}

/// A walk enters every directory and takes every supported file, but for what is
/// hidden and what is a link.
pub proof fn law_what_a_walk_takes(name: Seq<char>, kind: EntryKind)
    ensures
        ({
            let shown = kind != EntryKind::Symlink && !(name.len() > 0 && name[0] == '.');
            &&& walk_decision(name, kind) == WalkStep::Descend <==> shown && kind
                == EntryKind::Directory
            &&& walk_decision(name, kind) == WalkStep::Take <==> shown && kind == EntryKind::File
                && supported_name(name)
        }),
{
    reveal_strlit(".");
    if name.len() > 0 && name[0] == '.' {
        assert(name.subrange(0, 1) =~= "."@);
    }
    if "."@.is_prefix_of(name) {
        assert(name.subrange(0, 1)[0] == '.');
    }
}

/// A batch reads standard input where it was given, and every file that was
/// found and that no pattern excludes; and nothing else.
pub proof fn law_what_a_batch_reads(
    list: Seq<FoundView>,
    exclude: Seq<Seq<char>>,
    file: Seq<char>,
)
    ensures
        file != "--"@ ==> (file_set(list, exclude).contains(file) <==> list.contains(
            FoundView::File(file),
        ) && !excluded(file, exclude)),
        list.contains(FoundView::Stdin) ==> file_set(list, exclude).contains("--"@),
        file_set(list, exclude).contains("--"@) ==> list.contains(FoundView::Stdin)
            || list.contains(FoundView::File("--"@)),
{
}

/// The path that is complained about is the first of those that do not exist.
pub proof fn law_the_first_missing_path_is_named(list: Seq<FoundView>, k: int)
    requires
        0 <= k <= list.len(),
        forall|i: int| 0 <= i < k ==> !(#[trigger] list[i] is Missing),
        k < list.len() ==> list[k] is Missing,
    ensures
        k < list.len() ==> first_missing(list) == Some(list[k]->Missing_0),
        k == list.len() ==> first_missing(list) is None,
    decreases list.len(),
{
    if list.len() > 0 {
        let front = list.drop_last();
        if k < front.len() {
            law_the_first_missing_path_is_named(front, k);
        } else {
            law_the_first_missing_path_is_named(front, front.len() as int);
        }
    }
}

/// A reference is refused exactly where it reads as a flag or holds a character
/// that is neither a letter or digit of ASCII nor one of those that git's
/// notation for revisions needs.
pub proof fn law_which_refs_are_refused(git_ref: Seq<char>)
    ensures
        ({
            let flag = git_ref.len() > 0 && git_ref[0] == '-';
            let plain = forall|i: int|
                0 <= i < git_ref.len() ==> ({
                    let c = #[trigger] git_ref[i];
                    'a' <= c <= 'z' || 'A' <= c <= 'Z' || '0' <= c <= '9' || "_./-~^@{}"@.contains(
                        c,
                    )
                });
            &&& ref_refusal(git_ref) is None <==> !flag && plain
            &&& flag ==> ref_refusal(git_ref) == Some("--diff-from ref must not start with '-'"@)
            &&& !flag && !plain ==> ref_refusal(git_ref) == Some(
                "--diff-from ref contains invalid characters"@,
            )
        }),
{
    reveal_strlit("-");
    reveal_strlit("_./-~^@{}");
    if git_ref.len() > 0 && git_ref[0] == '-' {
        assert(git_ref.subrange(0, 1) =~= "-"@);
    }
    if "-"@.is_prefix_of(git_ref) {
        assert(git_ref.subrange(0, 1)[0] == '-');
    }
    assert forall|c: char| #[trigger] ref_char(c) <==> 'a' <= c <= 'z' || 'A' <= c <= 'Z' || '0' <= c
        <= '9' || "_./-~^@{}"@.contains(c) by {
        let extra = "_./-~^@{}"@;
        assert(extra[0] == '_' && extra[1] == '.' && extra[2] == '/' && extra[3] == '-' && extra[4]
            == '~' && extra[5] == '^' && extra[6] == '@' && extra[7] == '{' && extra[8] == '}');
        assert(extra.len() == 9);
        if extra.contains(c) {
            let i = choose|i: int| 0 <= i < extra.len() && extra[i] == c;
            assert(ref_char(c));
        }
    }
}

/// What git names is what is linted: each line of its output whose name has a
/// supported extension, in order, and a failure of git is a failure.
pub proof fn law_a_diff_names_the_files(
    output: &DiffOutput,
    r: Result<Vec<String>, CliError>,
)
    requires
        call_ensures(resolve_diff_files, (output,), r),
    ensures
        r is Ok <==> *output is Names,
        *output is Names ==> texts(r->Ok_0@) == lines_of((*output)->Names_0@).filter(
            |name: Seq<char>|
                {
                    let lower = lowered(name);
                    ||| ".md"@.is_suffix_of(lower)
                    ||| ".markdown"@.is_suffix_of(lower)
                    ||| ".yml"@.is_suffix_of(lower)
                    ||| ".yaml"@.is_suffix_of(lower)
                    ||| ".txt"@.is_suffix_of(lower)
                },
        ),
        *output is Failed ==> r->Err_0.message@ == "git diff failed: "@ + (*output)->Failed_0@,
{
    if *output is Names {
        law_changed_files_are_linted(lines_of((*output)->Names_0@));
    }
}

/// A file is in the batch exactly where it was found and no pattern excludes it,
/// once and in order; a path that does not exist ends the batch.
pub proof fn law_what_is_in_a_batch(
    found: &Vec<FoundPath>,
    exclude: &Vec<String>,
    r: Result<Vec<String>, CliError>,
    file: Seq<char>,
)
    requires
        call_ensures(resolve_file_args, (found, exclude), r),
        file != "--"@,
    ensures
        r is Ok ==> {
            &&& texts(r->Ok_0@).contains(file) <==> found_view(found@).contains(
                FoundView::File(file),
            ) && !excluded(file, texts(exclude@))
            &&& found_view(found@).contains(FoundView::Stdin) ==> texts(r->Ok_0@).contains("--"@)
            &&& in_order(texts(r->Ok_0@))
            &&& r->Ok_0@.len() > 0
        },
        first_missing(found_view(found@)) is Some ==> r is Err && r->Err_0.message@
            == "path does not exist: "@ + first_missing(found_view(found@))->Some_0,
        r is Err && first_missing(found_view(found@)) is None ==> !(found_view(found@).contains(
            FoundView::File(file),
        ) && !excluded(file, texts(exclude@))),
{
    let set = file_set(found_view(found@), texts(exclude@));
    if r is Ok {
        let files = texts(r->Ok_0@);
        assert(files.to_set().contains(file) <==> set.contains(file));
        assert(files.to_set().contains("--"@) <==> set.contains("--"@));
    } else if first_missing(found_view(found@)) is None {
        assert(!set.contains(file));
    }
}

/// What is compared is what the branch holds since it left the reference.
pub proof fn law_the_range_that_is_compared(git_ref: &str, r: Result<String, CliError>)
    requires
        call_ensures(diff_range, (git_ref,), r),
    ensures
        r is Ok <==> ref_refusal(git_ref@) is None,
        r is Ok ==> r->Ok_0@ == git_ref@ + "...HEAD"@,
        r is Err ==> Some(r->Err_0.message@) == ref_refusal(git_ref@),
{
}

/// The tests of a name: whether it is supported, whether it is excluded, and
/// what a walk does with it.
pub proof fn law_tests_of_a_name(
    name: &str,
    patterns: &Vec<String>,
    kind: EntryKind,
    b: bool,
    step: WalkStep,
)
    ensures
        call_ensures(is_supported, (name,), b) ==> (b <==> {
            let lower = lowered(name@);
            ||| ".md"@.is_suffix_of(lower)
            ||| ".markdown"@.is_suffix_of(lower)
            ||| ".yml"@.is_suffix_of(lower)
            ||| ".yaml"@.is_suffix_of(lower)
            ||| ".txt"@.is_suffix_of(lower)
        }),
        call_ensures(is_excluded, (name, patterns), b) ==> (b <==> exists|i: int|
            0 <= i < patterns@.len() && matches_pattern(name@, (#[trigger] patterns@[i])@)),
        call_ensures(walk_entry, (name, kind), step) ==> step == walk_decision(name@, kind),
{
    law_a_name_is_supported_by_its_ending(name@);
    let all = texts(patterns@);
    if excluded(name@, all) {
        let i = choose|i: int| 0 <= i < all.len() && matches_pattern(name@, #[trigger] all[i]);
        assert(all[i] == patterns@[i]@);
    }
    if exists|i: int| 0 <= i < patterns@.len() && matches_pattern(name@, (#[trigger] patterns@[i])@)
    {
        let i = choose|i: int|
            0 <= i < patterns@.len() && matches_pattern(name@, (#[trigger] patterns@[i])@);
        assert(all[i] == patterns@[i]@);
    }
}

/// `/**` alone matches where a path has an empty component after its first, and
/// where it ends with a slash.
pub proof fn law_the_pattern_without_a_name(path: Seq<char>)
    ensures
        matches_pattern(path, "/**"@) <==> occurs(path, "//"@) || "/"@.is_suffix_of(path),
{
    reveal_strlit("*.");
    reveal_strlit("/");
    reveal_strlit("//");
    reveal_strlit("/**");
    let pat = "/**"@;
    if "*."@.is_prefix_of(pat) {
        assert(pat.subrange(0, 2)[0] == '*');
        assert(pat[0] == '/');
    }
    assert(pat.subrange(pat.len() - 3, pat.len() as int) =~= pat);
    let dir = pat.take(pat.len() - 3);
    assert(dir =~= seq![]);
    assert("/"@ + dir + "/"@ =~= "//"@);
    assert("/"@ + dir =~= "/"@);
}

} // verus!
