//! Deleting a repository: which directory goes, and the script that removes it.
use vstd::prelude::*;
use crate::create::{
    clean, clean_path, created, law_clean_path, law_repository_name_is_one_component, repo_name,
    script_outcome,
};
use crate::error::{outcome, Error, Fault};
use crate::quote::{shq, single_quoted};
use crate::shell::{
    arguments, changed_only_by, holds, is_grouped, lemma_refusal_run, lemma_refusal_text,
    lemma_test_run, lemma_test_text, phrase, probe, refusal, run, start, succeeded, test_words,
    text, variable, Command, Flow, Machine, Stage, Word,
};
use crate::text::{
    begins, begins_char, chars_of, ends, ends_with, fields, is_white_space, lemma_fields_concat,
    lemma_fields_single, lemma_trimmed_already, lemma_trimmed_ends, pieces, push_text, same, repeated, split, starts_with,
    starts_with_char, text_of, texts, trim_end_matches, trimmed, without_suffixes,
};
use vstd::slice::slice_subrange;

verus! {

/// Some component of `path` is `.` or `..`.
pub open spec fn has_dots(path: Seq<char>) -> bool {
    exists|i: int|
        0 <= i < fields(path, '/').len() && is_dots(#[trigger] fields(path, '/')[i])
}

/// `component` is `.` or `..`.
pub open spec fn is_dots(component: Seq<char>) -> bool {
    component == ".."@ || component == "."@
}

/// `target` sits strictly inside `root`: it is below `root`, and not `root`
/// itself with more slashes behind it.
pub open spec fn is_inside(target: Seq<char>, root: Seq<char>) -> bool {
    let r = clean_path(root);
    &&& starts_with_char(r, '/')
    &&& starts_with(target, r + seq!['/'])
    &&& without_suffixes(target, seq!['/']) != r
}

/// `target` sits strictly inside one of `roots`.
pub open spec fn is_inside_any(target: Seq<char>, roots: Seq<Seq<char>>) -> bool {
    exists|i: int| 0 <= i < roots.len() && is_inside(target, #[trigger] roots[i])
}

/// The directory that goes when the repository `path` is deleted, or why it may
/// not be.
pub open spec fn deletion(path: Seq<char>, roots: Seq<Seq<char>>, whole_tree: bool) -> Result<
    Seq<char>,
    Fault,
> {
    let p = clean_path(path);
    let target = if whole_tree {
        p.take(p.len() - "/.git"@.len())
    } else {
        p
    };
    if !starts_with_char(p, '/') {
        Err(Fault::PathNotAbsolute)
    } else if has_dots(p) {
        Err(Fault::PathDots)
    } else if whole_tree && !ends_with(p, "/.git"@) {
        Err(Fault::NoWorkingTree)
    } else if target.len() == 0 || target == "/"@ {
        Err(Fault::FilesystemRoot)
    } else if !is_inside_any(target, roots) {
        Err(Fault::OutsideRoots(target))
    } else {
        Ok(target)
    }
}

fn dotted(path: &[char]) -> (r: bool)
    ensures
        r == has_dots(path@),
{
    let parts = split(path, '/');
    let two = chars_of("..");
    let one = chars_of(".");
    let n: usize = parts.len();
    for i in 0..n
        invariant
            n == parts@.len(),
            pieces(parts@) == fields(path@, '/'),
            two@ == ".."@,
            one@ == "."@,
            forall|j: int| 0 <= j < i ==> !is_dots(#[trigger] fields(path@, '/')[j]),
    {
        assert(fields(path@, '/')[i as int] == parts@[i as int]@);
        if same(parts[i], two.as_slice()) || same(parts[i], one.as_slice()) {
            return true;
        }
    }
    false
}

fn inside(target: &[char], root: &[char]) -> (r: bool)
    ensures
        r == is_inside(target@, root@),
{
    let top = clean(root);
    let slash: Vec<char> = vec!['/'];
    assert(slash@ == seq!['/']);
    let mut below: Vec<char> = chars_of(text_of(top).as_str());
    below.push('/');
    assert(below@ == top@ + seq!['/']);
    let stripped = trim_end_matches(target, slash.as_slice());
    begins_char(top, '/') && begins(target, below.as_slice()) && !same(stripped, top)
}

fn inside_any(target: &[char], roots: &[String]) -> (r: bool)
    ensures
        r == is_inside_any(target@, texts(roots@)),
{
    let n: usize = roots.len();
    for i in 0..n
        invariant
            n == roots@.len(),
            forall|j: int| 0 <= j < i ==> !is_inside(target@, #[trigger] texts(roots@)[j]),
    {
        assert(texts(roots@)[i as int] == roots@[i as int]@);
        if inside(target, chars_of(roots[i].as_str()).as_slice()) {
            return true;
        }
    }
    false
}

/// Works out what a delete actually removes, and checks the target is a
/// repository directory that lives under one of the configured roots.
///
/// `path` is the directory the scan reported: a bare repository, or the `.git`
/// of a working copy. With `whole_tree` the working copy's project directory is
/// removed instead of only its `.git`.
pub fn delete_target(path: &str, roots: &[String], whole_tree: bool) -> (r: Result<String, Error>)
    ensures
        outcome(r) == deletion(path@, texts(roots@), whole_tree),
{
    let path_chars = chars_of(path);
    let p = clean(path_chars.as_slice());
    if !begins_char(p, '/') {
        return Err(Error::PathNotAbsolute);
    }
    if dotted(p) {
        return Err(Error::PathDots);
    }
    let suffix = chars_of("/.git");
    let target: &[char] = if whole_tree {
        if !ends(p, suffix.as_slice()) {
            return Err(Error::NoWorkingTree);
        }
        slice_subrange(p, 0, p.len() - suffix.len())
    } else {
        p
    };
    assert(whole_tree ==> target@ == p@.take(p@.len() - "/.git"@.len()));
    if target.len() == 0 || same(target, chars_of("/").as_slice()) {
        return Err(Error::FilesystemRoot);
    }
    if !inside_any(target, roots) {
        return Err(Error::OutsideRoots(text_of(target)));
    }
    Ok(text_of(target))
}

/// The check that the directory holds what the listing said it holds.
pub open spec fn deletion_check(whole_tree: bool) -> Seq<char> {
    if whole_tree {
        "[ -d \"$d/.git\" ] || { echo 'not a working copy (no .git directory); refusing to delete'; exit 6; }\n"@
    } else {
        "{ [ -f \"$d/HEAD\" ] && [ -d \"$d/objects\" ] && [ -d \"$d/refs\" ]; } || { echo 'not a git repository; refusing to delete'; exit 6; }\n"@
    }
}

/// The script that removes the directory `target`.
pub open spec fn removal(target: Seq<char>, whole_tree: bool) -> Seq<char> {
    "d="@ + single_quoted(target)
        + "\n[ -d \"$d\" ] || { echo 'the directory no longer exists'; exit 5; }\n"@
        + deletion_check(whole_tree)
        + "rm -rf -- \"$d\" || { echo 'could not delete (permissions?)'; exit 7; }\n[ -e \"$d\" ] && { echo 'the directory is still there after rm'; exit 8; }\necho \"$d\"\n"@
}

/// Builds the shell script that removes `target`, plus the path it removes.
///
/// The script re-checks on the server that the directory is really a git
/// repository (or, for a whole working copy, holds one), so a stale listing
/// cannot make it delete an unrelated directory.
pub fn delete_script(path: &str, roots: &[String], whole_tree: bool) -> (r: Result<
    (String, String),
    Error,
>)
    ensures
        script_outcome(r) == match deletion(path@, texts(roots@), whole_tree) {
            Ok(target) => Ok::<(Seq<char>, Seq<char>), Fault>(
                (target, removal(target, whole_tree)),
            ),
            Err(e) => Err(e),
        },
{
    match delete_target(path, roots, whole_tree) {
        Err(e) => Err(e),
        Ok(target) => {
            let mut script = "d=".to_string();
            push_text(&mut script, shq(target.as_str()).as_str());
            push_text(
                &mut script,
                "\n[ -d \"$d\" ] || { echo 'the directory no longer exists'; exit 5; }\n",
            );
            push_text(
                &mut script,
                if whole_tree {
                    "[ -d \"$d/.git\" ] || { echo 'not a working copy (no .git directory); refusing to delete'; exit 6; }\n"
                } else {
                    "{ [ -f \"$d/HEAD\" ] && [ -d \"$d/objects\" ] && [ -d \"$d/refs\" ]; } || { echo 'not a git repository; refusing to delete'; exit 6; }\n"
                },
            );
            push_text(
                &mut script,
                "rm -rf -- \"$d\" || { echo 'could not delete (permissions?)'; exit 7; }\n[ -e \"$d\" ] && { echo 'the directory is still there after rm'; exit 8; }\necho \"$d\"\n",
            );
            Ok((target, script))
        },
    }
}

/// Whatever is asked, what is deleted is an absolute path with no `.` or `..` in
/// it, strictly inside one of the configured roots; and it is the repository that
/// was named, or the directory whose `.git` that is.
pub proof fn law_delete_stays_inside_a_root(
    path: Seq<char>,
    roots: Seq<Seq<char>>,
    whole_tree: bool,
)
    ensures
        deletion(path, roots, whole_tree) matches Ok(target) ==> {
            &&& starts_with_char(target, '/')
            &&& !has_dots(target)
            &&& is_inside_any(target, roots)
            &&& clean_path(path) == if whole_tree {
                target + "/.git"@
            } else {
                target
            }
        },
{
    let p = clean_path(path);
    if let Ok(target) = deletion(path, roots, whole_tree) {
        if whole_tree {
            reveal_strlit("/.git");
            let tail = "/.git"@.skip(1);
            assert(p == target + "/.git"@);
            assert("/.git"@ == seq!['/'] + tail);
            assert(p == target + seq!['/'] + tail);
            lemma_fields_concat(target, '/', tail);
            assert forall|i: int| 0 <= i < fields(target, '/').len() implies !is_dots(
                #[trigger] fields(target, '/')[i],
            ) by {
                assert(fields(p, '/')[i] == fields(target, '/')[i]);
            }
        }
    }
}

/// A repository that was created below a root can be deleted again: its path is
/// what goes. (A root with `.` or `..` among its components names directories
/// that a delete refuses.)
pub proof fn law_created_repository_can_be_deleted(
    root: Seq<char>,
    name: Seq<char>,
    description: Seq<char>,
    shared: bool,
    roots: Seq<Seq<char>>,
)
    requires
        created(root, name, description, shared) is Ok,
        !has_dots(clean_path(root)),
        roots.contains(root),
    ensures
        ({
            let path = created(root, name, description, shared)->Ok_0.0;
            deletion(path, roots, false) == Ok::<Seq<char>, Fault>(path)
        }),
{
    let r = clean_path(root);
    let dir = repo_name(name)->Ok_0;
    let path = created(root, name, description, shared)->Ok_0.0;
    law_repository_name_is_one_component(name);
    reveal_strlit("/");
    reveal_strlit(".");
    reveal_strlit("..");
    reveal_strlit(".git");
    assert("/"@ == seq!['/']);
    assert(path == r + seq!['/'] + dir);
    assert(path.last() == 't') by {
        assert(dir.skip(dir.len() - ".git"@.len()) == ".git"@);
        assert(dir.last() == ".git"@[3]);
    }
    lemma_trimmed_already(path);
    assert(!ends_with(path, seq!['/'])) by {
        assert(path.skip(path.len() - 1)[0] == path.last());
    }
    lemma_fields_concat(r, '/', dir);
    lemma_fields_single(dir, '/');
    assert forall|i: int| 0 <= i < fields(path, '/').len() implies !is_dots(
        #[trigger] fields(path, '/')[i],
    ) by {
        if i < fields(r, '/').len() {
            assert(fields(path, '/')[i] == fields(r, '/')[i]);
        } else {
            assert(fields(path, '/')[i] == dir);
        }
    }
    assert(path.take((r + seq!['/']).len() as int) == r + seq!['/']);
    assert(path.len() > r.len());
    let at = choose|i: int| 0 <= i < roots.len() && roots[i] == root;
    assert(is_inside(path, roots[at]));
}

/// What the script that removes `target` says, as a program of the shell.
pub open spec fn removal_program(target: Seq<char>, whole_tree: bool) -> Command {
    Command::Lines(
        Box::new(Command::Assign("d"@, Word::Single(target))),
        Box::new(
            Command::Lines(
                Box::new(
                    Command::Or(
                        Box::new(probe("-d"@, ""@)),
                        Box::new(refusal("the directory no longer exists"@, 5)),
                    ),
                ),
                Box::new(
                    Command::Lines(
                        Box::new(check_program(whole_tree)),
                        Box::new(rest_program()),
                        ""@,
                    ),
                ),
                ""@,
            ),
        ),
        ""@,
    )
}

/// The line of the program that makes sure of what is there.
pub open spec fn check_program(whole_tree: bool) -> Command {
    if whole_tree {
        Command::Or(
            Box::new(probe("-d"@, "/.git"@)),
            Box::new(
                refusal("not a working copy (no .git directory); refusing to delete"@, 6),
            ),
        )
    } else {
        Command::Or(
            Box::new(
                Command::Group(
                    Box::new(
                        Command::And(
                            Box::new(
                                Command::And(
                                    Box::new(probe("-f"@, "/HEAD"@)),
                                    Box::new(probe("-d"@, "/objects"@)),
                                ),
                            ),
                            Box::new(probe("-d"@, "/refs"@)),
                        ),
                    ),
                ),
            ),
            Box::new(refusal("not a git repository; refusing to delete"@, 6)),
        )
    }
}

/// The lines of the program that remove the directory, and look whether it is gone.
pub open spec fn rest_program() -> Command {
    Command::Lines(
        Box::new(
            Command::Or(
                Box::new(
                    Command::Run(
                        seq![
                            Word::Bare("rm"@),
                            Word::Bare("-rf"@),
                            Word::Bare("--"@),
                            Word::Double("d"@, ""@),
                        ],
                    ),
                ),
                Box::new(refusal("could not delete (permissions?)"@, 7)),
            ),
        ),
        Box::new(
            Command::Lines(
                Box::new(
                    Command::And(
                        Box::new(probe("-e"@, ""@)),
                        Box::new(refusal("the directory is still there after rm"@, 8)),
                    ),
                ),
                Box::new(Command::Run(seq![Word::Bare("echo"@), Word::Double("d"@, ""@)])),
                ""@,
            ),
        ),
        ""@,
    )
}

#[verifier::rlimit(50)]
proof fn lemma_check_text(whole_tree: bool)
    ensures
        text(check_program(whole_tree)) + "\n"@ == deletion_check(whole_tree),
        is_grouped(check_program(whole_tree)),
{
    lemma_test_text("-d"@, "/.git"@);
    lemma_test_text("-f"@, "/HEAD"@);
    lemma_test_text("-d"@, "/objects"@);
    lemma_test_text("-d"@, "/refs"@);
    reveal_strlit("\n");
    reveal_strlit(" && ");
    reveal_strlit(" || ");
    reveal_strlit("{ ");
    reveal_strlit("; }");
    reveal_strlit("[ ");
    reveal_strlit("-d");
    reveal_strlit("-f");
    reveal_strlit(" \"$d");
    reveal_strlit("\" ]");
    reveal_strlit("{ echo '");
    reveal_strlit("'; exit ");
    reveal_with_fuel(text, 5);
    reveal_with_fuel(is_grouped, 5);
    if whole_tree {
        reveal_strlit("not a working copy (no .git directory); refusing to delete");
        reveal_strlit("/.git");
        reveal_strlit(
            "[ -d \"$d/.git\" ] || { echo 'not a working copy (no .git directory); refusing to delete'; exit 6; }\n",
        );
        lemma_refusal_text("not a working copy (no .git directory); refusing to delete"@, 6);
    } else {
        reveal_strlit("not a git repository; refusing to delete");
        reveal_strlit("/HEAD");
        reveal_strlit("/objects");
        reveal_strlit("/refs");
        reveal_strlit(
            "{ [ -f \"$d/HEAD\" ] && [ -d \"$d/objects\" ] && [ -d \"$d/refs\" ]; } || { echo 'not a git repository; refusing to delete'; exit 6; }\n",
        );
        lemma_refusal_text("not a git repository; refusing to delete"@, 6);
    }
    assert(text(check_program(whole_tree)) + "\n"@ =~= deletion_check(whole_tree));
}

#[verifier::rlimit(50)]
proof fn lemma_rest_text()
    ensures
        text(rest_program()) + "\n"@
            == "rm -rf -- \"$d\" || { echo 'could not delete (permissions?)'; exit 7; }\n[ -e \"$d\" ] && { echo 'the directory is still there after rm'; exit 8; }\necho \"$d\"\n"@,
        is_grouped(rest_program()),
{
    lemma_test_text("-e"@, ""@);
    reveal_strlit("\n");
    reveal_strlit(" && ");
    reveal_strlit(" || ");
    reveal_strlit("{ ");
    reveal_strlit("; }");
    reveal_strlit("[ ");
    reveal_strlit("-e");
    reveal_strlit("");
    reveal_strlit(" ");
    reveal_strlit("d");
    reveal_strlit("\"$");
    reveal_strlit("\"");
    reveal_strlit("rm");
    reveal_strlit("-rf");
    reveal_strlit("--");
    reveal_strlit("echo");
    reveal_strlit(" \"$d");
    reveal_strlit("\" ]");
    reveal_strlit("{ echo '");
    reveal_strlit("'; exit ");
    reveal_strlit("could not delete (permissions?)");
    reveal_strlit("the directory is still there after rm");
    reveal_strlit("rm -rf -- \"$d\" || { echo 'could not delete (permissions?)'; exit 7; }\n[ -e \"$d\" ] && { echo 'the directory is still there after rm'; exit 8; }\necho \"$d\"\n");
    lemma_refusal_text("could not delete (permissions?)"@, 7);
    lemma_refusal_text("the directory is still there after rm"@, 8);
    reveal_with_fuel(text, 5);
    reveal_with_fuel(phrase, 5);
    reveal_with_fuel(is_grouped, 5);
    assert(text(rest_program()) + "\n"@
        =~= "rm -rf -- \"$d\" || { echo 'could not delete (permissions?)'; exit 7; }\n[ -e \"$d\" ] && { echo 'the directory is still there after rm'; exit 8; }\necho \"$d\"\n"@);
}

/// What has to be in the directory `target` of `machine` before it is deleted: a
/// bare repository, or with `whole_tree` a working copy.
pub open spec fn is_deletable(machine: Machine, target: Seq<char>, whole_tree: bool) -> bool {
    &&& holds(machine, "-d"@, target)
    &&& if whole_tree {
        holds(machine, "-d"@, target + "/.git"@)
    } else {
        &&& holds(machine, "-f"@, target + "/HEAD"@)
        &&& holds(machine, "-d"@, target + "/objects"@)
        &&& holds(machine, "-d"@, target + "/refs"@)
    }
}

/// The removal itself, as the machine sees it.
pub open spec fn removal_words(target: Seq<char>) -> Seq<Seq<char>> {
    seq!["rm"@, "-rf"@, "--"@, target]
}

/// No program but tests, messages and the removal of `target`.
pub open spec fn is_harmless(ran: Seq<Seq<Seq<char>>>, target: Seq<char>) -> bool {
    forall|i: int|
        0 <= i < ran.len() ==> (#[trigger] ran[i] == removal_words(target) || ran[i][0] == "["@
            || ran[i][0] == "echo"@)
}

/// Nothing was removed so far.
pub open spec fn is_untouched(ran: Seq<Seq<Seq<char>>>) -> bool {
    forall|i: int| 0 <= i < ran.len() ==> (#[trigger] ran[i])[0] == "["@ || ran[i][0] == "echo"@
}

proof fn lemma_untouched(ran: Seq<Seq<Seq<char>>>, target: Seq<char>)
    requires
        is_untouched(ran),
    ensures
        !ran.contains(removal_words(target)),
{
    reveal_strlit("rm");
    reveal_strlit("[");
    reveal_strlit("echo");
    if ran.contains(removal_words(target)) {
        let i = choose|i: int| 0 <= i < ran.len() && ran[i] == removal_words(target);
        assert(ran[i][0] == "rm"@);
        assert("rm"@.len() == 2);
        assert("["@.len() == 1);
        assert("echo"@.len() == 4);
    }
}

/// What the check line does: it goes on, with nothing removed, if what it asks for
/// is there, and ends the script if it is not.
proof fn lemma_check_run(machine: Machine, target: Seq<char>, whole_tree: bool, stage: Stage)
    requires
        changed_only_by(machine, removal_words(target)),
        holds(machine, "-d"@, target),
        stage.flow is On,
        stage.ran.len() == 1,
        is_untouched(stage.ran),
        variable(stage, "d"@) == target,
        stage.vars == start().vars.insert("d"@, target),
    ensures
        ({
            let end = run(machine, check_program(whole_tree), Seq::empty(), stage);
            &&& is_untouched(end.ran)
            &&& end.vars == stage.vars
            &&& is_deletable(machine, target, whole_tree) ==> end.flow is On && end.ran.len()
                == if whole_tree {
                2int
            } else {
                4int
            }
            &&& !is_deletable(machine, target, whole_tree) ==> end.flow == Flow::Ended(6)
        }),
{
    reveal_strlit("?");
    reveal_strlit("d");
    assert("d"@[0] != "?"@[0]);
    let none = Seq::<char>::empty();
    let end = run(machine, check_program(whole_tree), none, stage);
    if whole_tree {
        let a = probe("-d"@, "/.git"@);
        let b = refusal("not a working copy (no .git directory); refusing to delete"@, 6);
        lemma_untouched(stage.ran, target);
        lemma_test_run(machine, "-d"@, "/.git"@, target + "/.git"@, none, stage);
        let s1 = run(machine, a, none, stage);
        if !s1.ok {
            lemma_refusal_run(
                machine,
                "not a working copy (no .git directory); refusing to delete"@,
                6,
                none,
                s1,
            );
            assert(end == run(machine, b, none, s1));
        } else {
            assert(end == s1);
        }
    } else {
        let a = probe("-f"@, "/HEAD"@);
        let b = probe("-d"@, "/objects"@);
        let c = probe("-d"@, "/refs"@);
        let ab = Command::And(Box::new(a), Box::new(b));
        let abc = Command::And(Box::new(ab), Box::new(c));
        let group = Command::Group(Box::new(abc));
        let no = refusal("not a git repository; refusing to delete"@, 6);
        lemma_untouched(stage.ran, target);
        lemma_test_run(machine, "-f"@, "/HEAD"@, target + "/HEAD"@, none, stage);
        let s1 = run(machine, a, none, stage);
        assert(is_untouched(s1.ran));
        lemma_untouched(s1.ran, target);
        lemma_test_run(machine, "-d"@, "/objects"@, target + "/objects"@, none, s1);
        let s2 = run(machine, b, none, s1);
        assert(is_untouched(s2.ran));
        lemma_untouched(s2.ran, target);
        lemma_test_run(machine, "-d"@, "/refs"@, target + "/refs"@, none, s2);
        let s3 = run(machine, c, none, s2);
        assert(is_untouched(s3.ran));
        let sab = run(machine, ab, none, stage);
        let sabc = run(machine, abc, none, stage);
        assert(sab == if s1.ok {
            s2
        } else {
            s1
        });
        assert(sabc == if sab.ok {
            s3
        } else {
            sab
        });
        assert(run(machine, group, none, stage) == sabc);
        if !sabc.ok {
            lemma_refusal_run(machine, "not a git repository; refusing to delete"@, 6, none, sabc);
            assert(end == run(machine, no, none, sabc));
        } else {
            assert(end == sabc);
        }
    }
}

/// What the last lines do: they remove the directory, and say whether it is gone.
proof fn lemma_rest_run(machine: Machine, target: Seq<char>, stage: Stage)
    requires
        stage.flow is On,
        is_untouched(stage.ran),
        stage.vars == start().vars.insert("d"@, target),
    ensures
        ({
            let end = run(machine, rest_program(), Seq::empty(), stage);
            let at = stage.ran.len() as int;
            &&& is_harmless(end.ran, target)
            &&& end.ran.len() > at
            &&& end.ran.take(at) == stage.ran
            &&& end.ran[at] == removal_words(target)
            &&& if !succeeded(machine, end.ran, at) {
                end.flow == Flow::Ended(7)
            } else {
                &&& end.ran.len() > at + 1
                &&& end.ran[at + 1] == test_words("-e"@, target)
                &&& if succeeded(machine, end.ran, at + 1) {
                    end.flow == Flow::Ended(8)
                } else {
                    &&& end.flow is On
                    &&& end.ran.last() == seq!["echo"@, target]
                }
            }
        }),
{
    reveal_strlit("?");
    reveal_strlit("d");
    reveal_strlit("");
    assert("d"@[0] != "?"@[0]);
    let none = Seq::<char>::empty();
    let at = stage.ran.len() as int;
    let end = run(machine, rest_program(), none, stage);
    let words = seq![
        Word::Bare("rm"@),
        Word::Bare("-rf"@),
        Word::Bare("--"@),
        Word::Double("d"@, ""@),
    ];
    let rm = Command::Run(words);
    let no = refusal("could not delete (permissions?)"@, 7);
    let or = Command::Or(Box::new(rm), Box::new(no));
    let look = probe("-e"@, ""@);
    let still = refusal("the directory is still there after rm"@, 8);
    let and = Command::And(Box::new(look), Box::new(still));
    let say_words = seq![Word::Bare("echo"@), Word::Double("d"@, ""@)];
    let say = Command::Run(say_words);
    let tail = Command::Lines(Box::new(and), Box::new(say), ""@);
    assert(target + ""@ == target);
    assert(arguments(stage, words) =~= removal_words(target)) by {
        reveal_with_fuel(arguments, 5);
    }
    let s1 = run(machine, rm, none, stage);
    assert(s1.ran.take(at) == stage.ran);
    assert(s1.ran[at] == removal_words(target));
    assert(s1.ok == machine(stage.ran, removal_words(target), none).0);
    assert(is_harmless(s1.ran, target));
    if !s1.ok {
        lemma_refusal_run(machine, "could not delete (permissions?)"@, 7, none, s1);
        let s2 = run(machine, no, none, s1);
        assert(run(machine, or, none, stage) == s2);
        assert(end == s2);
        assert(end.ran.take(at) == stage.ran);
        assert(end.ran[at] == removal_words(target));
    } else {
        assert(run(machine, or, none, stage) == s1);
        assert(end == run(machine, tail, none, s1));
        lemma_test_run(machine, "-e"@, ""@, target, none, s1);
        let s3 = run(machine, look, none, s1);
        assert(is_harmless(s3.ran, target));
        assert(s3.ran.take(at) == stage.ran);
        assert(s3.ran.take(at + 1) == s1.ran);
        if s3.ok {
            lemma_refusal_run(machine, "the directory is still there after rm"@, 8, none, s3);
            let s4 = run(machine, still, none, s3);
            assert(run(machine, and, none, s1) == s4);
            assert(end == s4);
            assert(end.ran.take(at) == stage.ran);
            assert(end.ran.take(at + 1) == s1.ran);
        } else {
            assert(run(machine, and, none, s1) == s3);
            assert(end == run(machine, say, none, s3));
            assert(arguments(s3, say_words) =~= seq!["echo"@, target]) by {
                reveal_with_fuel(arguments, 3);
            }
            assert(end.ran.take(at) == stage.ran);
            assert(end.ran.take(at + 1) == s1.ran);
        }
    }
}

/// The deletion script, run on a machine on which only the removal changes what
/// there is. The directory is removed exactly when it is there and holds what it
/// should: a `HEAD` file and the directories `objects` and `refs`, or with
/// `whole_tree` a directory `.git`. Otherwise nothing is removed and the script
/// fails. Nothing else is ever removed. The script succeeds, with the path as the
/// last thing it prints, exactly when the removal worked and the directory is gone
/// after it.
pub proof fn law_delete_script_checks_before_it_removes(
    machine: Machine,
    target: Seq<char>,
    whole_tree: bool,
)
    requires
        changed_only_by(machine, removal_words(target)),
    ensures
        removal(target, whole_tree) == text(removal_program(target, whole_tree)) + "\n"@,
        is_grouped(removal_program(target, whole_tree)),
        ({
            let end = run(machine, removal_program(target, whole_tree), Seq::empty(), start());
            let at = if whole_tree {
                2int
            } else {
                4int
            };
            &&& is_harmless(end.ran, target)
            &&& end.ran.contains(removal_words(target)) == is_deletable(machine, target, whole_tree)
            &&& if !holds(machine, "-d"@, target) {
                end.flow == Flow::Ended(5)
            } else if !is_deletable(machine, target, whole_tree) {
                end.flow == Flow::Ended(6)
            } else {
                &&& end.ran[at] == removal_words(target)
                &&& if !succeeded(machine, end.ran, at) {
                    end.flow == Flow::Ended(7)
                } else {
                    &&& end.ran[at + 1] == test_words("-e"@, target)
                    &&& if succeeded(machine, end.ran, at + 1) {
                        end.flow == Flow::Ended(8)
                    } else {
                        &&& end.flow is On
                        &&& end.ran.last() == seq!["echo"@, target]
                    }
                }
            }
        }),
{
    let none = Seq::<char>::empty();
    let whole = removal_program(target, whole_tree);
    let first = Command::Assign("d"@, Word::Single(target));
    let there = Command::Or(
        Box::new(probe("-d"@, ""@)),
        Box::new(refusal("the directory no longer exists"@, 5)),
    );
    let last = Command::Lines(
        Box::new(check_program(whole_tree)),
        Box::new(rest_program()),
        ""@,
    );
    let below = Command::Lines(Box::new(there), Box::new(last), ""@);
    assert(whole == Command::Lines(Box::new(first), Box::new(below), ""@));
    lemma_removal_text(target, whole_tree);
    reveal_strlit("?");
    reveal_strlit("d");
    reveal_strlit("");
    assert("d"@[0] != "?"@[0]);
    assert(target + ""@ == target);
    let s1 = run(machine, first, none, start());
    let end = run(machine, whole, none, start());
    assert(end == run(machine, below, none, s1));
    lemma_test_run(machine, "-d"@, ""@, target, none, s1);
    let s2 = run(machine, probe("-d"@, ""@), none, s1);
    assert(s2.ran == seq![test_words("-d"@, target)]);
    assert(is_untouched(s2.ran));
    assert(s2.ok == holds(machine, "-d"@, target));
    if !s2.ok {
        lemma_refusal_run(machine, "the directory no longer exists"@, 5, none, s2);
        let s3 = run(machine, refusal("the directory no longer exists"@, 5), none, s2);
        assert(run(machine, there, none, s1) == s3);
        assert(end == s3);
        assert(is_untouched(end.ran));
        lemma_untouched(end.ran, target);
    } else {
        assert(run(machine, there, none, s1) == s2);
        assert(end == run(machine, last, none, s2));
        lemma_check_run(machine, target, whole_tree, s2);
        let s3 = run(machine, check_program(whole_tree), none, s2);
        if is_deletable(machine, target, whole_tree) {
            assert(end == run(machine, rest_program(), none, s3));
            lemma_rest_run(machine, target, s3);
            assert(end.ran[s3.ran.len() as int] == removal_words(target));
        } else {
            assert(end == s3);
            lemma_untouched(end.ran, target);
        }
    }
}

/// The script is the spelling of the program.
proof fn lemma_removal_text(target: Seq<char>, whole_tree: bool)
    ensures
        removal(target, whole_tree) == text(removal_program(target, whole_tree)) + "\n"@,
        is_grouped(removal_program(target, whole_tree)),
{
    let first = Command::Assign("d"@, Word::Single(target));
    let there = Command::Or(
        Box::new(probe("-d"@, ""@)),
        Box::new(refusal("the directory no longer exists"@, 5)),
    );
    let last = Command::Lines(
        Box::new(check_program(whole_tree)),
        Box::new(rest_program()),
        ""@,
    );
    let below = Command::Lines(Box::new(there), Box::new(last), ""@);
    lemma_check_text(whole_tree);
    lemma_rest_text();
    lemma_test_text("-d"@, ""@);
    assert(text(there) + "\n"@
        == "[ -d \"$d\" ] || { echo 'the directory no longer exists'; exit 5; }\n"@
        && is_grouped(there)) by {
        reveal_strlit("the directory no longer exists");
        lemma_refusal_text("the directory no longer exists"@, 5);
        reveal_strlit("[ ");
        reveal_strlit("-d");
        reveal_strlit("");
        reveal_strlit(" \"$d");
        reveal_strlit("\" ]");
        reveal_strlit(" || ");
        reveal_strlit("{ echo '");
        reveal_strlit("'; exit ");
        reveal_strlit("; }");
        reveal_strlit("\n");
        reveal_strlit("[ -d \"$d\" ] || { echo 'the directory no longer exists'; exit 5; }\n");
        assert(text(there) + "\n"@
            =~= "[ -d \"$d\" ] || { echo 'the directory no longer exists'; exit 5; }\n"@);
    }
    assert("\n[ -d \"$d\" ] || { echo 'the directory no longer exists'; exit 5; }\n"@ == "\n"@
        + "[ -d \"$d\" ] || { echo 'the directory no longer exists'; exit 5; }\n"@) by {
        reveal_strlit("\n");
        reveal_strlit("[ -d \"$d\" ] || { echo 'the directory no longer exists'; exit 5; }\n");
        reveal_strlit("\n[ -d \"$d\" ] || { echo 'the directory no longer exists'; exit 5; }\n");
    }
    assert("d="@ == "d"@ + "="@) by {
        reveal_strlit("d=");
        reveal_strlit("d");
        reveal_strlit("=");
    }
    assert(is_grouped(first));
    assert(is_grouped(last));
    assert(is_grouped(below));
    reveal_strlit("");
    assert(text(last) == text(check_program(whole_tree)) + "\n"@ + ""@ + text(rest_program()));
    assert(text(below) == text(there) + "\n"@ + ""@ + text(last));
    assert(text(removal_program(target, whole_tree)) == text(first) + "\n"@ + ""@ + text(below));
    assert(text(removal_program(target, whole_tree)) + "\n"@ =~= removal(target, whole_tree));
}

/// What lies below a root can be deleted: a directory with a clean absolute path, or
/// with `whole_tree` the directory of the working copy whose `.git` was listed.
pub proof fn law_what_lies_below_a_root_can_be_deleted(
    r: Seq<char>,
    rest: Seq<char>,
    roots: Seq<Seq<char>>,
)
    requires
        r.len() > 0,
        r[0] == '/',
        r.last() != '/',
        trimmed(r) == r,
        roots.contains(r),
        rest.len() > 0,
        rest.last() != '/',
        !is_white_space(rest.last()),
        !has_dots(r + "/"@ + rest),
    ensures
        deletion(r + "/"@ + rest, roots, false) == Ok::<Seq<char>, Fault>(r + "/"@ + rest),
        deletion(r + "/"@ + rest + "/.git"@, roots, true) == Ok::<Seq<char>, Fault>(
            r + "/"@ + rest,
        ),
{
    reveal_strlit("/");
    reveal_strlit("/.git");
    reveal_strlit(".");
    reveal_strlit("..");
    assert("/"@ == seq!['/']);
    let p = r + "/"@ + rest;
    let git = p + "/.git"@;
    lemma_trimmed_ends(r);
    lemma_clean_already(p);
    lemma_clean_already(git);
    lemma_clean_already(r);
    assert(p.take((r + seq!['/']).len() as int) =~= r + seq!['/']);
    let at = choose|i: int| 0 <= i < roots.len() && roots[i] == r;
    assert(!ends_with(p, seq!['/'])) by {
        if ends_with(p, seq!['/']) {
            assert(p.skip(p.len() - 1)[0] == p.last());
        }
    }
    assert(is_inside(p, roots[at]));
    assert(git.skip(git.len() - "/.git"@.len()) =~= "/.git"@);
    assert(git.take(git.len() - "/.git"@.len()) =~= p);
    let tail = "/.git"@.skip(1);
    assert(git =~= p + seq!['/'] + tail);
    lemma_fields_concat(p, '/', tail);
    assert(!tail.contains('/')) by {
        assert forall|i: int| 0 <= i < tail.len() implies tail[i] != '/' by {
            assert(tail[i] == "/.git"@[i + 1]);
        }
    }
    lemma_fields_single(tail, '/');
    assert(tail.len() == 4);
    assert forall|i: int| 0 <= i < fields(git, '/').len() implies !is_dots(
        #[trigger] fields(git, '/')[i],
    ) by {
        if i < fields(p, '/').len() {
            assert(fields(git, '/')[i] == fields(p, '/')[i]);
        } else {
            assert(fields(git, '/')[i] == tail);
        }
    }
}

/// A path that ends with something else than a slash, and has no white space at its
/// ends, is clean.
proof fn lemma_clean_already(p: Seq<char>)
    requires
        p.len() > 0,
        p[0] == '/',
        p.last() != '/',
        !is_white_space(p.last()),
    ensures
        clean_path(p) == p,
{
    lemma_trimmed_already(p);
    if ends_with(p, seq!['/']) {
        assert(p.skip(p.len() - 1)[0] == p.last());
    }
}

/// A root itself is never deleted, nor is a directory beside it whose name only
/// starts like the root's.
pub proof fn law_a_root_is_not_deleted(r: Seq<char>, slashes: nat, more: Seq<char>)
    requires
        r.len() > 0,
        r[0] == '/',
        r.last() != '/',
        trimmed(r) == r,
        more.len() > 0,
        more[0] != '/',
        more.last() != '/',
        !is_white_space(more.last()),
    ensures
        deletion(r + repeated("/"@, slashes), seq![r], false) is Err,
        deletion(r + more, seq![r], false) is Err,
{
    reveal_strlit("/");
    assert("/"@ == seq!['/']);
    lemma_trimmed_ends(r);
    let none = Seq::<char>::empty();
    law_clean_path(none, r, slashes, none);
    assert(none + (r + repeated("/"@, slashes)) + none =~= r + repeated("/"@, slashes));
    lemma_clean_already(r);
    lemma_clean_already(r + more);
    assert(!ends_with(r, seq!['/'])) by {
        if ends_with(r, seq!['/']) {
            assert(r.skip(r.len() - 1)[0] == r.last());
        }
    }
    assert(!starts_with(r, r + seq!['/']));
    assert(!starts_with(r + more, r + seq!['/'])) by {
        if starts_with(r + more, r + seq!['/']) {
            let n = r.len() as int;
            assert((r + more).take(n + 1)[n] == (r + seq!['/'])[n]);
            assert((r + more)[n] == more[0]);
        }
    }
    assert(!is_inside_any(r, seq![r])) by {
        if is_inside_any(r, seq![r]) {
            let i = choose|i: int| 0 <= i < seq![r].len() && is_inside(r, #[trigger] seq![r][i]);
            assert(seq![r][i] == r);
        }
    }
    assert(!is_inside_any(r + more, seq![r])) by {
        if is_inside_any(r + more, seq![r]) {
            let i = choose|i: int|
                0 <= i < seq![r].len() && is_inside(r + more, #[trigger] seq![r][i]);
            assert(seq![r][i] == r);
        }
    }
}

/// A path with a component `.` or `..` anywhere in it is refused, and so is one that
/// is not absolute.
pub proof fn law_paths_with_dots_are_refused(
    a: Seq<char>,
    b: Seq<char>,
    roots: Seq<Seq<char>>,
    whole_tree: bool,
)
    requires
        a.len() == 0 || a[0] == '/',
        b.len() > 0,
        b.last() != '/',
        !is_white_space(b.last()),
    ensures
        deletion(a + "/./"@ + b, roots, whole_tree) == Err::<Seq<char>, Fault>(Fault::PathDots),
        deletion(a + "/../"@ + b, roots, whole_tree) == Err::<Seq<char>, Fault>(Fault::PathDots),
{
    reveal_strlit("/./");
    reveal_strlit("/../");
    reveal_strlit(".");
    reveal_strlit("..");
    let one = a + "/./"@ + b;
    let two = a + "/../"@ + b;
    lemma_clean_already(one);
    lemma_clean_already(two);
    let t1 = "."@ + seq!['/'] + b;
    let t2 = ".."@ + seq!['/'] + b;
    assert(one =~= a + seq!['/'] + t1);
    assert(two =~= a + seq!['/'] + t2);
    assert(!"."@.contains('/')) by {
        assert forall|i: int| 0 <= i < "."@.len() implies "."@[i] != '/' by {}
    }
    assert(!".."@.contains('/')) by {
        assert forall|i: int| 0 <= i < ".."@.len() implies ".."@[i] != '/' by {}
    }
    lemma_fields_concat(a, '/', t1);
    lemma_fields_concat(a, '/', t2);
    lemma_fields_concat("."@, '/', b);
    lemma_fields_concat(".."@, '/', b);
    lemma_fields_single("."@, '/');
    lemma_fields_single(".."@, '/');
    let k = fields(a, '/').len() as int;
    assert(fields(one, '/')[k] == "."@);
    assert(fields(two, '/')[k] == ".."@);
    assert(is_dots(fields(one, '/')[k]));
    assert(is_dots(fields(two, '/')[k]));
}

/// Why a deletion is refused. A path that is not absolute is refused for that, and with
/// `whole_tree` one that is not the `.git` of a working copy; a clean path that lies in
/// none of the roots is refused by its name; and the root of the file system is never
/// deleted, not even as a working copy.
pub proof fn law_why_a_deletion_is_refused(path: Seq<char>, roots: Seq<Seq<char>>, whole_tree: bool)
    ensures
        !starts_with_char(clean_path(path), '/') ==> deletion(path, roots, whole_tree) == Err::<
            Seq<char>,
            Fault,
        >(Fault::PathNotAbsolute),
        starts_with_char(clean_path(path), '/') && !has_dots(clean_path(path)) && !ends_with(
            clean_path(path),
            "/.git"@,
        ) ==> deletion(path, roots, true) == Err::<Seq<char>, Fault>(Fault::NoWorkingTree),
        starts_with_char(clean_path(path), '/') && !has_dots(clean_path(path)) && clean_path(path)
            != "/"@ && !is_inside_any(clean_path(path), roots) ==> deletion(path, roots, false)
            == Err::<Seq<char>, Fault>(Fault::OutsideRoots(clean_path(path))),
        clean_path(path) == "/.git"@ ==> deletion(path, roots, true) is Err,
        roots.len() == 0 ==> deletion(path, roots, whole_tree) is Err,
{
    reveal_strlit("/.git");
    if clean_path(path) == "/.git"@ {
        assert("/.git"@.take(0).len() == 0);
    }
}

} // verus!
