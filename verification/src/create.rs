//! Creating a repository: its name, its path, and the script that makes it.
use vstd::prelude::*;
use crate::error::{concat2, concat3, outcome, Error, Fault};
use crate::quote::{is_ascii_alphanumeric, shq_chars, shq, single_quoted};
use crate::shell::{
    arguments, guarded, is_grouped, lemma_guarded_run, lemma_guarded_text,
    lemma_single_quoted_plain, lemma_test_run, lemma_test_text, phrase, probe, run, start,
    succeeded, test_words, text, Command, Flow, Machine, Stage, Word,
};
use crate::text::{
    begins_char, chars_of, contains, ends, ends_with, has_part, is_white_space, law_trimmed,
    law_without_suffixes, occurs_at, push_text, repeated, starts_with, starts_with_char,
    text_of, trim, trim_end_matches, trimmed, without_suffixes,
};

verus! {

/// A character that a repository name may hold.
pub open spec fn is_name_char(c: char) -> bool {
    is_ascii_alphanumeric(c) || c == '_' || c == '-' || c == '.'
}

/// `name` with the suffix of a bare repository, which is added if it is missing.
pub open spec fn bare_name(name: Seq<char>) -> Seq<char> {
    if ends_with(name, ".git"@) {
        name
    } else {
        name + ".git"@
    }
}

/// The directory name of a repository called `name`, or why that is no name.
pub open spec fn repo_name(name: Seq<char>) -> Result<Seq<char>, Fault> {
    let n = trimmed(name);
    if n.len() == 0 {
        Err(Fault::NameEmpty)
    } else if n[0] == '.' || n[0] == '-' {
        Err(Fault::NameStart)
    } else if !forall|i: int| 0 <= i < n.len() ==> is_name_char(#[trigger] n[i]) {
        Err(Fault::NameCharacters)
    } else if has_part(n, ".."@) {
        Err(Fault::NameDots)
    } else {
        Ok(bare_name(n))
    }
}

fn all_name_chars(s: &[char]) -> (r: bool)
    ensures
        r == forall|i: int| 0 <= i < s@.len() ==> is_name_char(#[trigger] s@[i]),
{
    let n: usize = s.len();
    for i in 0..n
        invariant
            n == s@.len(),
            forall|j: int| 0 <= j < i ==> is_name_char(#[trigger] s@[j]),
    {
        let c = s[i];
        if !(('a' <= c && c <= 'z') || ('A' <= c && c <= 'Z') || ('0' <= c && c <= '9') || c == '_'
            || c == '-' || c == '.') {
            assert(!is_name_char(s@[i as int]));
            return false;
        }
    }
    true
}

/// Rejects repository names that would escape the root or confuse the shell.
pub fn validate_repo_name(name: &str) -> (r: Result<String, Error>)
    ensures
        outcome(r) == repo_name(name@),
{
    let cs = chars_of(name);
    let n = trim(cs.as_slice());
    if n.len() == 0 {
        return Err(Error::NameEmpty);
    }
    if begins_char(n, '.') || begins_char(n, '-') {
        return Err(Error::NameStart);
    }
    if !all_name_chars(n) {
        return Err(Error::NameCharacters);
    }
    if contains(n, chars_of("..").as_slice()) {
        return Err(Error::NameDots);
    }
    if ends(n, chars_of(".git").as_slice()) {
        Ok(text_of(n))
    } else {
        Ok(concat2(text_of(n).as_str(), ".git"))
    }
}

/// A repository name that is accepted names a directory right below the root it
/// is created in: it is made of name characters only, so it holds no slash, and
/// it starts with neither a dot nor a dash, so it is neither `.` nor `..` and no
/// program takes it for an option.
pub proof fn law_repository_name_is_one_component(name: Seq<char>)
    ensures
        repo_name(name) matches Ok(dir) ==> {
            &&& dir.len() > 0
            &&& forall|i: int| 0 <= i < dir.len() ==> is_name_char(#[trigger] dir[i])
            &&& !dir.contains('/')
            &&& dir[0] != '.'
            &&& dir[0] != '-'
            &&& ends_with(dir, ".git"@)
        },
{
    reveal_strlit(".git");
    let n = trimmed(name);
    if let Ok(dir) = repo_name(name) {
        if !ends_with(n, ".git"@) {
            assert(dir.skip(dir.len() - ".git"@.len()) == ".git"@);
        }
        assert forall|i: int| 0 <= i < dir.len() implies is_name_char(#[trigger] dir[i]) by {
            if i < n.len() {
                assert(dir[i] == n[i]);
            } else {
                assert(dir[i] == ".git"@[i - n.len()]);
            }
        }
    }
}

/// A directory as the scripts name it: without white space around it and without
/// slashes at its end.
pub open spec fn clean_path(path: Seq<char>) -> Seq<char> {
    without_suffixes(trimmed(path), seq!['/'])
}

/// Cuts off the white space around a path and the slashes at its end.
pub fn clean(path: &[char]) -> (r: &[char])
    ensures
        r@ == clean_path(path@),
{
    let slash: Vec<char> = vec!['/'];
    assert(slash@ == seq!['/']);
    trim_end_matches(trim(path), slash.as_slice())
}

/// The script that creates the repository `path` in `root`.
pub open spec fn creation(
    path: Seq<char>,
    root: Seq<char>,
    description: Seq<char>,
    shared: bool,
) -> Seq<char> {
    "d="@ + single_quoted(path)
        + "\ncommand -v git >/dev/null 2>&1 || { echo 'git is not installed on the server (install the Git Server package)'; exit 4; }\n[ -d "@
        + single_quoted(root)
        + " ] || { echo 'root directory does not exist'; exit 5; }\nif [ -e \"$d\" ]; then echo 'a file or repository with that name already exists'; exit 6; fi\nmkdir \"$d\" || { echo 'could not create the directory (permissions?)'; exit 7; }\ngit init --bare "@
        + (if shared {
        "--shared=group"@
    } else {
        ""@
    })
        + " \"$d\" >/dev/null || { rmdir \"$d\" 2>/dev/null; echo 'git init --bare failed'; exit 8; }\nprintf '%s\n' "@
        + single_quoted(trimmed(description)) + " > \"$d/description\"\necho \"$d\""@
}

/// The path of a new repository, and the script that creates it.
pub open spec fn created(
    root: Seq<char>,
    name: Seq<char>,
    description: Seq<char>,
    shared: bool,
) -> Result<(Seq<char>, Seq<char>), Fault> {
    let r = clean_path(root);
    if !starts_with_char(r, '/') {
        Err(Fault::RootNotAbsolute)
    } else {
        match repo_name(name) {
            Err(e) => Err(e),
            Ok(dir) => {
                let path = r + "/"@ + dir;
                Ok((path, creation(path, r, description, shared)))
            },
        }
    }
}

/// The texts of a path and a script.
pub open spec fn script_outcome(r: Result<(String, String), Error>) -> Result<
    (Seq<char>, Seq<char>),
    Fault,
> {
    match r {
        Ok((path, script)) => Ok((path@, script@)),
        Err(e) => Err(e@),
    }
}

/// Builds the shell script that creates a bare repository, plus its full path.
pub fn create_script(root: &str, name: &str, description: &str, shared: bool) -> (r: Result<
    (String, String),
    Error,
>)
    ensures
        script_outcome(r) == created(root@, name@, description@, shared),
{
    let root_chars = chars_of(root);
    let top = clean(root_chars.as_slice());
    if !begins_char(top, '/') {
        return Err(Error::RootNotAbsolute);
    }
    match validate_repo_name(name) {
        Err(e) => Err(e),
        Ok(dir) => {
            let path = concat3(text_of(top).as_str(), "/", dir.as_str());
            let about = chars_of(description);
            let mut script = "d=".to_string();
            push_text(&mut script, shq(path.as_str()).as_str());
            push_text(
                &mut script,
                "\ncommand -v git >/dev/null 2>&1 || { echo 'git is not installed on the server (install the Git Server package)'; exit 4; }\n[ -d ",
            );
            push_text(&mut script, shq_chars(top).as_str());
            push_text(
                &mut script,
                " ] || { echo 'root directory does not exist'; exit 5; }\nif [ -e \"$d\" ]; then echo 'a file or repository with that name already exists'; exit 6; fi\nmkdir \"$d\" || { echo 'could not create the directory (permissions?)'; exit 7; }\ngit init --bare ",
            );
            push_text(
                &mut script,
                if shared {
                    "--shared=group"
                } else {
                    ""
                },
            );
            push_text(
                &mut script,
                " \"$d\" >/dev/null || { rmdir \"$d\" 2>/dev/null; echo 'git init --bare failed'; exit 8; }\nprintf '%s\n' ",
            );
            push_text(&mut script, shq_chars(trim(about.as_slice())).as_str());
            push_text(&mut script, " > \"$d/description\"\necho \"$d\"");
            Ok((path, script))
        },
    }
}

/// `git init`, as it is spelled.
pub open spec fn init_spelled(shared: bool) -> Seq<Word> {
    seq![
        Word::Bare("git"@),
        Word::Bare("init"@),
        Word::Bare("--bare"@),
        if shared {
            Word::Bare("--shared=group"@)
        } else {
            Word::Gap
        },
        Word::Double("d"@, ""@),
        Word::Redirect(">/dev/null"@),
    ]
}

/// `[ -d 'root' ]`, as it is spelled.
pub open spec fn root_spelled(root: Seq<char>) -> Seq<Word> {
    seq![Word::Bare("["@), Word::Bare("-d"@), Word::Single(root), Word::Bare("]"@)]
}

/// `command -v git`, as it is spelled.
pub open spec fn git_spelled() -> Seq<Word> {
    seq![
        Word::Bare("command"@),
        Word::Bare("-v"@),
        Word::Bare("git"@),
        Word::Redirect(">/dev/null"@),
        Word::Redirect("2>&1"@),
    ]
}

/// `mkdir "$d"`, as it is spelled.
pub open spec fn mkdir_spelled() -> Seq<Word> {
    seq![Word::Bare("mkdir"@), Word::Double("d"@, ""@)]
}

/// The writing of the description, as it is spelled.
pub open spec fn description_spelled(description: Seq<char>) -> Seq<Word> {
    seq![
        Word::Bare("printf"@),
        Word::Single("%s\n"@),
        Word::Single(description),
        Word::Redirect(">"@),
        Word::Double("d"@, "/description"@),
    ]
}

/// `if [ -e "$d" ]; then echo '..'; exit 6; fi`.
pub open spec fn taken_program() -> Command {
    Command::If(
        Box::new(probe("-e"@, ""@)),
        Box::new(
            Command::Semicolon(
                Box::new(
                    Command::Run(
                        seq![
                            Word::Bare("echo"@),
                            Word::Single("a file or repository with that name already exists"@),
                        ],
                    ),
                ),
                Box::new(Command::Exit(6)),
            ),
        ),
    )
}

/// What follows `git init` on its line: the directory goes again.
pub open spec fn undo_program() -> Command {
    Command::Group(
        Box::new(
            Command::Semicolon(
                Box::new(
                    Command::Semicolon(
                        Box::new(
                            Command::Run(
                                seq![
                                    Word::Bare("rmdir"@),
                                    Word::Double("d"@, ""@),
                                    Word::Redirect("2>/dev/null"@),
                                ],
                            ),
                        ),
                        Box::new(
                            Command::Run(
                                seq![Word::Bare("echo"@), Word::Single("git init --bare failed"@)],
                            ),
                        ),
                    ),
                ),
                Box::new(Command::Exit(8)),
            ),
        ),
    )
}

/// The last lines of the program, from `git init` on.
pub open spec fn init_program(description: Seq<char>, shared: bool) -> Command {
    Command::Lines(
        Box::new(
            Command::Or(
                Box::new(Command::Run(init_spelled(shared))),
                Box::new(undo_program()),
            ),
        ),
        Box::new(
            Command::Lines(
                Box::new(Command::Run(description_spelled(description))),
                Box::new(Command::Run(seq![Word::Bare("echo"@), Word::Double("d"@, ""@)])),
                ""@,
            ),
        ),
        ""@,
    )
}

/// The lines of the program that look whether the directory can be made, and make it.
pub open spec fn make_program(root: Seq<char>, description: Seq<char>, shared: bool) -> Command {
    Command::Lines(
        Box::new(
            guarded(
                git_spelled(),
                "git is not installed on the server (install the Git Server package)"@,
                4,
            ),
        ),
        Box::new(
            Command::Lines(
                Box::new(guarded(root_spelled(root), "root directory does not exist"@, 5)),
                Box::new(
                    Command::Lines(
                        Box::new(taken_program()),
                        Box::new(
                            Command::Lines(
                                Box::new(
                                    guarded(
                                        mkdir_spelled(),
                                        "could not create the directory (permissions?)"@,
                                        7,
                                    ),
                                ),
                                Box::new(init_program(description, shared)),
                                ""@,
                            ),
                        ),
                        ""@,
                    ),
                ),
                ""@,
            ),
        ),
        ""@,
    )
}

/// What the script that creates the repository `path` in `root` says, as a program
/// of the shell.
pub open spec fn creation_program(
    path: Seq<char>,
    root: Seq<char>,
    description: Seq<char>,
    shared: bool,
) -> Command {
    Command::Lines(
        Box::new(Command::Assign("d"@, Word::Single(path))),
        Box::new(make_program(root, trimmed(description), shared)),
        ""@,
    )
}

/// `git init`, as the machine sees it: a bare repository in `path`, for the group if
/// it is shared.
pub open spec fn init_words(path: Seq<char>, shared: bool) -> Seq<Seq<char>> {
    seq!["git"@, "init"@, "--bare"@] + (if shared {
        seq!["--shared=group"@]
    } else {
        seq![]
    }) + seq![path, ">/dev/null"@]
}

#[verifier::rlimit(100)]
proof fn lemma_init_text(description: Seq<char>, shared: bool)
    ensures
        text(init_program(description, shared)) == "git init --bare "@ + (if shared {
            "--shared=group"@
        } else {
            ""@
        })
            + " \"$d\" >/dev/null || { rmdir \"$d\" 2>/dev/null; echo 'git init --bare failed'; exit 8; }\nprintf '%s\n' "@
            + single_quoted(description) + " > \"$d/description\"\necho \"$d\""@,
        is_grouped(init_program(description, shared)),
{
    reveal_strlit("git");
    reveal_strlit("init");
    reveal_strlit("--bare");
    reveal_strlit("git init --bare ");
    reveal_strlit("");
    reveal_strlit(" ");
    reveal_strlit("\n");
    reveal_strlit("d");
    reveal_strlit("\"$");
    reveal_strlit("\"");
    reveal_strlit(">/dev/null");
    assert(phrase(init_spelled(shared)) =~= "git init --bare "@ + (if shared {
        "--shared=group"@
    } else {
        ""@
    }) + " \"$d\" >/dev/null"@) by {
        reveal_strlit(" \"$d\" >/dev/null");
        reveal_with_fuel(phrase, 7);
    }
    let undo = undo_program();
    assert(text(undo) == "{ rmdir \"$d\" 2>/dev/null; echo 'git init --bare failed'; exit 8; }"@) by {
        reveal_strlit("{ rmdir \"$d\" 2>/dev/null; echo 'git init --bare failed'; exit 8; }");
        reveal_strlit("git init --bare failed");
        reveal_strlit("rmdir");
        reveal_strlit("2>/dev/null");
        reveal_strlit("echo");
        reveal_strlit("exit ");
        reveal_strlit("{ ");
        reveal_strlit("; }");
        reveal_strlit("; ");
        reveal_strlit("'");
        lemma_single_quoted_plain("git init --bare failed"@);
        reveal_with_fuel(phrase, 4);
        reveal_with_fuel(text, 5);
        assert(text(undo)
            =~= "{ rmdir \"$d\" 2>/dev/null; echo 'git init --bare failed'; exit 8; }"@);
    }
    assert(phrase(description_spelled(description)) == "printf '%s\n' "@ + single_quoted(description)
        + " > \"$d/description\""@) by {
        reveal_strlit("printf");
        reveal_strlit("%s\n");
        reveal_strlit("'");
        reveal_strlit("printf '%s\n' ");
        reveal_strlit(">");
        reveal_strlit("/description");
        reveal_strlit(" > \"$d/description\"");
        lemma_single_quoted_plain("%s\n"@);
        reveal_with_fuel(phrase, 6);
        assert(phrase(description_spelled(description)) =~= "printf '%s\n' "@ + single_quoted(
            description,
        ) + " > \"$d/description\""@);
    }
    let say = Command::Run(seq![Word::Bare("echo"@), Word::Double("d"@, ""@)]);
    assert(text(say) == "echo \"$d\""@) by {
        reveal_strlit("echo");
        reveal_strlit("echo \"$d\"");
        reveal_with_fuel(phrase, 3);
        assert(text(say) =~= "echo \"$d\""@);
    }
    let init = Command::Run(init_spelled(shared));
    let about = Command::Run(description_spelled(description));
    let or = Command::Or(Box::new(init), Box::new(undo));
    let tail = Command::Lines(Box::new(about), Box::new(say), ""@);
    assert(is_grouped(init_program(description, shared))) by {
        reveal_with_fuel(is_grouped, 8);
    }
    assert(text(or) == text(init) + " || "@ + text(undo));
    assert(text(tail) == text(about) + "\n"@ + ""@ + text(say));
    assert(text(init_program(description, shared)) == text(or) + "\n"@ + ""@ + text(tail));
    assert(" \"$d\" >/dev/null || { rmdir \"$d\" 2>/dev/null; echo 'git init --bare failed'; exit 8; }\nprintf '%s\n' "@
        == " \"$d\" >/dev/null"@ + " || "@
        + "{ rmdir \"$d\" 2>/dev/null; echo 'git init --bare failed'; exit 8; }"@ + "\n"@
        + "printf '%s\n' "@) by {
        reveal_strlit(" || ");
        reveal_strlit(" \"$d\" >/dev/null");
        reveal_strlit("{ rmdir \"$d\" 2>/dev/null; echo 'git init --bare failed'; exit 8; }");
        reveal_strlit("printf '%s\n' ");
        reveal_strlit(" \"$d\" >/dev/null || { rmdir \"$d\" 2>/dev/null; echo 'git init --bare failed'; exit 8; }\nprintf '%s\n' ");
    }
    assert(" > \"$d/description\"\necho \"$d\""@ == " > \"$d/description\""@ + "\n"@
        + "echo \"$d\""@) by {
        reveal_strlit(" > \"$d/description\"");
        reveal_strlit("echo \"$d\"");
        reveal_strlit(" > \"$d/description\"\necho \"$d\"");
    }
    let flag = if shared {
        "--shared=group"@
    } else {
        ""@
    };
    assert(text(init_program(description, shared)) =~= "git init --bare "@ + flag
        + " \"$d\" >/dev/null || { rmdir \"$d\" 2>/dev/null; echo 'git init --bare failed'; exit 8; }\nprintf '%s\n' "@
        + single_quoted(description) + " > \"$d/description\"\necho \"$d\""@);
}

proof fn lemma_git_text()
    ensures
        text(
            guarded(
                git_spelled(),
                "git is not installed on the server (install the Git Server package)"@,
                4,
            ),
        )
            == "command -v git >/dev/null 2>&1 || { echo 'git is not installed on the server (install the Git Server package)'; exit 4; }"@,
        is_grouped(
            guarded(
                git_spelled(),
                "git is not installed on the server (install the Git Server package)"@,
                4,
            ),
        ),
{
    reveal_strlit("command");
    reveal_strlit("-v");
    reveal_strlit("git");
    reveal_strlit(">/dev/null");
    reveal_strlit("2>&1");
    reveal_strlit(" ");
    reveal_strlit(" || { echo '");
    reveal_strlit("'; exit ");
    reveal_strlit("; }");
    reveal_strlit("git is not installed on the server (install the Git Server package)");
    reveal_strlit("command -v git >/dev/null 2>&1 || { echo 'git is not installed on the server (install the Git Server package)'; exit 4; }");
    lemma_guarded_text(
        git_spelled(),
        "git is not installed on the server (install the Git Server package)"@,
        4,
    );
    reveal_with_fuel(phrase, 6);
}

proof fn lemma_root_text(root: Seq<char>)
    ensures
        text(guarded(root_spelled(root), "root directory does not exist"@, 5)) == "[ -d "@
            + single_quoted(root)
            + " ] || { echo 'root directory does not exist'; exit 5; }"@,
        is_grouped(guarded(root_spelled(root), "root directory does not exist"@, 5)),
{
    reveal_strlit("[");
    reveal_strlit("-d");
    reveal_strlit("]");
    reveal_strlit(" ");
    reveal_strlit(" || { echo '");
    reveal_strlit("'; exit ");
    reveal_strlit("; }");
    reveal_strlit("root directory does not exist");
    reveal_strlit(" ] || { echo 'root directory does not exist'; exit 5; }");
    reveal_strlit("[ -d ");
    lemma_guarded_text(root_spelled(root), "root directory does not exist"@, 5);
    reveal_with_fuel(phrase, 5);
}

proof fn lemma_taken_text()
    ensures
        text(taken_program())
            == "if [ -e \"$d\" ]; then echo 'a file or repository with that name already exists'; exit 6; fi"@,
        is_grouped(taken_program()),
{
    reveal_strlit("if ");
    reveal_strlit("; then ");
    reveal_strlit("; fi");
    reveal_strlit("echo");
    reveal_strlit(" ");
    reveal_strlit("'");
    reveal_strlit("; ");
    reveal_strlit("exit ");
    reveal_strlit("[ ");
    reveal_strlit("-e");
    reveal_strlit("");
    reveal_strlit(" \"$d");
    reveal_strlit("\" ]");
    reveal_strlit("a file or repository with that name already exists");
    reveal_strlit("if [ -e \"$d\" ]; then echo 'a file or repository with that name already exists'; exit 6; fi");
    lemma_single_quoted_plain("a file or repository with that name already exists"@);
    lemma_test_text("-e"@, ""@);
    reveal_with_fuel(phrase, 3);
    reveal_with_fuel(text, 4);
    reveal_with_fuel(is_grouped, 4);
}

proof fn lemma_mkdir_text()
    ensures
        text(guarded(mkdir_spelled(), "could not create the directory (permissions?)"@, 7))
            == "mkdir \"$d\" || { echo 'could not create the directory (permissions?)'; exit 7; }"@,
        is_grouped(guarded(mkdir_spelled(), "could not create the directory (permissions?)"@, 7)),
{
    reveal_strlit("mkdir");
    reveal_strlit("d");
    reveal_strlit("");
    reveal_strlit("\"$");
    reveal_strlit("\"");
    reveal_strlit(" ");
    reveal_strlit(" || { echo '");
    reveal_strlit("'; exit ");
    reveal_strlit("; }");
    reveal_strlit("could not create the directory (permissions?)");
    reveal_strlit("mkdir \"$d\" || { echo 'could not create the directory (permissions?)'; exit 7; }");
    lemma_guarded_text(mkdir_spelled(), "could not create the directory (permissions?)"@, 7);
    reveal_with_fuel(phrase, 3);
}

/// The lines of the script, one by one.
#[verifier::spinoff_prover]
#[verifier::rlimit(50)]
proof fn lemma_creation_lines()
    ensures
        "\ncommand -v git >/dev/null 2>&1 || { echo 'git is not installed on the server (install the Git Server package)'; exit 4; }\n[ -d "@
            == "\n"@
            + "command -v git >/dev/null 2>&1 || { echo 'git is not installed on the server (install the Git Server package)'; exit 4; }"@
            + "\n"@ + "[ -d "@,
        " ] || { echo 'root directory does not exist'; exit 5; }\nif [ -e \"$d\" ]; then echo 'a file or repository with that name already exists'; exit 6; fi\nmkdir \"$d\" || { echo 'could not create the directory (permissions?)'; exit 7; }\ngit init --bare "@
            == " ] || { echo 'root directory does not exist'; exit 5; }"@ + "\n"@
            + "if [ -e \"$d\" ]; then echo 'a file or repository with that name already exists'; exit 6; fi"@
            + "\n"@
            + "mkdir \"$d\" || { echo 'could not create the directory (permissions?)'; exit 7; }"@
            + "\n"@ + "git init --bare "@,
{
    reveal_strlit("\n");
    reveal_strlit("[ -d ");
    reveal_strlit("command -v git >/dev/null 2>&1 || { echo 'git is not installed on the server (install the Git Server package)'; exit 4; }");
    reveal_strlit(" ] || { echo 'root directory does not exist'; exit 5; }");
    reveal_strlit("if [ -e \"$d\" ]; then echo 'a file or repository with that name already exists'; exit 6; fi");
    reveal_strlit("mkdir \"$d\" || { echo 'could not create the directory (permissions?)'; exit 7; }");
    reveal_strlit("git init --bare ");
    reveal_strlit("\ncommand -v git >/dev/null 2>&1 || { echo 'git is not installed on the server (install the Git Server package)'; exit 4; }\n[ -d ");
    reveal_strlit(" ] || { echo 'root directory does not exist'; exit 5; }\nif [ -e \"$d\" ]; then echo 'a file or repository with that name already exists'; exit 6; fi\nmkdir \"$d\" || { echo 'could not create the directory (permissions?)'; exit 7; }\ngit init --bare ");
}

/// The script is the spelling of the program.
#[verifier::spinoff_prover]
#[verifier::rlimit(60)]
proof fn lemma_creation_text(
    path: Seq<char>,
    root: Seq<char>,
    description: Seq<char>,
    shared: bool,
)
    ensures
        creation(path, root, description, shared) == text(
            creation_program(path, root, description, shared),
        ),
        is_grouped(creation_program(path, root, description, shared)),
{
    let about = trimmed(description);
    let git = guarded(
        git_spelled(),
        "git is not installed on the server (install the Git Server package)"@,
        4,
    );
    let top = guarded(root_spelled(root), "root directory does not exist"@, 5);
    let taken = taken_program();
    let make = guarded(mkdir_spelled(), "could not create the directory (permissions?)"@, 7);
    let init = init_program(about, shared);
    let below3 = Command::Lines(Box::new(make), Box::new(init), ""@);
    let below2 = Command::Lines(Box::new(taken), Box::new(below3), ""@);
    let below1 = Command::Lines(Box::new(top), Box::new(below2), ""@);
    let below0 = make_program(root, about, shared);
    let first = Command::Assign("d"@, Word::Single(path));
    lemma_git_text();
    lemma_root_text(root);
    lemma_taken_text();
    lemma_mkdir_text();
    lemma_init_text(about, shared);
    lemma_creation_lines();
    assert(is_grouped(first));
    assert(is_grouped(below3));
    assert(is_grouped(below2));
    assert(is_grouped(below1));
    assert(is_grouped(below0));
    assert(text(below3) == text(make) + "\n"@ + ""@ + text(init));
    assert(text(below2) == text(taken) + "\n"@ + ""@ + text(below3));
    assert(text(below1) == text(top) + "\n"@ + ""@ + text(below2));
    assert(text(below0) == text(git) + "\n"@ + ""@ + text(below1));
    assert("d="@ == "d"@ + "="@) by {
        reveal_strlit("d=");
        reveal_strlit("d");
        reveal_strlit("=");
    }
    reveal_strlit("");
    let whole = creation_program(path, root, description, shared);
    assert(text(whole) == text(first) + "\n"@ + ""@ + text(below0));
    let nl = "\n"@;
    let flag = if shared {
        "--shared=group"@
    } else {
        ""@
    };
    let x = " \"$d\" >/dev/null || { rmdir \"$d\" 2>/dev/null; echo 'git init --bare failed'; exit 8; }\nprintf '%s\n' "@;
    let y = " > \"$d/description\"\necho \"$d\""@;
    let q = single_quoted(about);
    let tail = flag + x + q + y;
    let i0 = "git init --bare "@;
    let l4 = text(git);
    let top5 = "[ -d "@ + single_quoted(root);
    let l5 = " ] || { echo 'root directory does not exist'; exit 5; }"@;
    let l6 = text(taken);
    let l7 = text(make);
    assert(text(init) =~= i0 + tail);
    let t3 = l7 + nl + i0;
    assert(text(below3) =~= t3 + tail);
    let t2 = l6 + nl + t3;
    assert(text(below2) =~= t2 + tail);
    let b = l5 + nl + t2;
    assert(text(below1) =~= top5 + (b + tail));
    assert(b =~= l5 + nl + l6 + nl + l7 + nl + i0);
    let a = nl + l4 + nl + "[ -d "@;
    let d = "d="@ + single_quoted(path);
    assert(text(first) =~= d);
    assert(nl + text(below0) =~= a + single_quoted(root) + (b + tail));
    assert(text(whole) =~= d + (nl + text(below0)));
    assert(text(whole) =~= d + a + single_quoted(root) + b + tail);
    assert(creation(path, root, description, shared) == d + a + single_quoted(root) + b + flag + x + q
        + y);
    assert(d + a + single_quoted(root) + b + tail =~= d + a + single_quoted(root) + b + flag + x + q
        + y);
}

/// What the last lines do.
#[verifier::spinoff_prover]
#[verifier::rlimit(60)]
proof fn lemma_init_run(
    machine: Machine,
    path: Seq<char>,
    description: Seq<char>,
    shared: bool,
    stage: Stage,
)
    requires
        stage.flow is On,
        stage.vars == start().vars.insert("d"@, path),
    ensures
        ({
            let end = run(machine, init_program(description, shared), Seq::empty(), stage);
            let at = stage.ran.len() as int;
            &&& end.ran.len() > at
            &&& end.ran.take(at) == stage.ran
            &&& end.ran[at] == init_words(path, shared)
            &&& if succeeded(machine, end.ran, at) {
                &&& end.flow is On
                &&& end.ran.len() == at + 3
                &&& end.ran[at + 1] == seq![
                    "printf"@,
                    "%s\n"@,
                    description,
                    ">"@,
                    path + "/description"@,
                ]
                &&& end.ran[at + 2] == seq!["echo"@, path]
            } else {
                &&& end.flow == Flow::Ended(8)
                &&& end.ran.len() == at + 3
                &&& end.ran[at + 1] == seq!["rmdir"@, path, "2>/dev/null"@]
            }
        }),
{
    reveal_strlit("?");
    reveal_strlit("d");
    reveal_strlit("");
    assert("d"@[0] != "?"@[0]);
    assert(path + ""@ == path);
    let none = Seq::<char>::empty();
    let at = stage.ran.len() as int;
    let whole = init_program(description, shared);
    let end = run(machine, whole, none, stage);
    let init = Command::Run(init_spelled(shared));
    let undo = undo_program();
    let or = Command::Or(Box::new(init), Box::new(undo));
    let about = Command::Run(description_spelled(description));
    let say_words = seq![Word::Bare("echo"@), Word::Double("d"@, ""@)];
    let say = Command::Run(say_words);
    let tail = Command::Lines(Box::new(about), Box::new(say), ""@);
    assert(arguments(stage, init_spelled(shared)) =~= init_words(path, shared)) by {
        reveal_with_fuel(arguments, 7);
    }
    let s1 = run(machine, init, none, stage);
    assert(s1.ran.take(at) == stage.ran);
    if s1.ok {
        assert(run(machine, or, none, stage) == s1);
        assert(end == run(machine, tail, none, s1));
        let args = seq!["printf"@, "%s\n"@, description, ">"@, path + "/description"@];
        assert(arguments(s1, description_spelled(description)) =~= args) by {
            reveal_with_fuel(arguments, 6);
        }
        let s2 = run(machine, about, none, s1);
        assert(end == run(machine, say, none, s2));
        assert(arguments(s2, say_words) =~= seq!["echo"@, path]) by {
            reveal_with_fuel(arguments, 3);
        }
        assert(end.ran.take(at) == stage.ran);
    } else {
        let gone_words = seq![
            Word::Bare("rmdir"@),
            Word::Double("d"@, ""@),
            Word::Redirect("2>/dev/null"@),
        ];
        let gone = Command::Run(gone_words);
        let tell_words = seq![Word::Bare("echo"@), Word::Single("git init --bare failed"@)];
        let tell = Command::Run(tell_words);
        let leave = Command::Exit(8);
        let two = Command::Semicolon(Box::new(gone), Box::new(tell));
        let three = Command::Semicolon(Box::new(two), Box::new(leave));
        assert(arguments(s1, gone_words) =~= seq!["rmdir"@, path, "2>/dev/null"@]) by {
            reveal_with_fuel(arguments, 4);
        }
        let s2 = run(machine, gone, none, s1);
        let s3 = run(machine, tell, none, s2);
        let s4 = run(machine, leave, none, s3);
        assert(run(machine, two, none, s1) == s3);
        assert(run(machine, three, none, s1) == s4);
        assert(run(machine, undo, none, s1) == s4);
        assert(run(machine, or, none, stage) == s4);
        assert(end == s4);
        assert(end.ran.take(at) == stage.ran);
    }
}

/// The creation script, run on any machine. It first looks for git, then for the
/// root, then whether the path is taken, and only then makes the directory and the
/// repository in it; at the first of these that goes wrong it fails, and says which
/// by its status. The repository is bare, whether or not it is shared; it is shared
/// with the group exactly if that was asked for. When all went well the description
/// is in the repository, on a line of its own, and the path is the last thing
/// printed. When `git init` failed, the directory that was made for it goes again.
pub proof fn law_create_script_makes_a_bare_repository(
    machine: Machine,
    path: Seq<char>,
    root: Seq<char>,
    description: Seq<char>,
    shared: bool,
)
    ensures
        creation(path, root, description, shared) == text(
            creation_program(path, root, description, shared),
        ),
        is_grouped(creation_program(path, root, description, shared)),
        ({
            let end = run(
                machine,
                creation_program(path, root, description, shared),
                Seq::empty(),
                start(),
            );
            &&& end.ran[0] == seq!["command"@, "-v"@, "git"@, ">/dev/null"@, "2>&1"@]
            &&& if !succeeded(machine, end.ran, 0) {
                end.flow == Flow::Ended(4) && end.ran.len() == 2
            } else {
                &&& end.ran[1] == test_words("-d"@, root)
                &&& if !succeeded(machine, end.ran, 1) {
                    end.flow == Flow::Ended(5) && end.ran.len() == 3
                } else {
                    &&& end.ran[2] == test_words("-e"@, path)
                    &&& if succeeded(machine, end.ran, 2) {
                        end.flow == Flow::Ended(6) && end.ran.len() == 4
                    } else {
                        &&& end.ran[3] == seq!["mkdir"@, path]
                        &&& if !succeeded(machine, end.ran, 3) {
                            end.flow == Flow::Ended(7) && end.ran.len() == 5
                        } else {
                            &&& end.ran[4] == seq!["git"@, "init"@, "--bare"@] + (if shared {
                                seq!["--shared=group"@]
                            } else {
                                seq![]
                            }) + seq![path, ">/dev/null"@]
                            &&& end.ran.len() == 7
                            &&& if !succeeded(machine, end.ran, 4) {
                                &&& end.flow == Flow::Ended(8)
                                &&& end.ran[5] == seq!["rmdir"@, path, "2>/dev/null"@]
                            } else {
                                &&& end.flow is On
                                &&& end.ran[5] == seq![
                                    "printf"@,
                                    "%s\n"@,
                                    trimmed(description),
                                    ">"@,
                                    path + "/description"@,
                                ]
                                &&& end.ran[6] == seq!["echo"@, path]
                            }
                        }
                    }
                }
            }
        }),
{
    lemma_creation_text(path, root, description, shared);
    reveal_strlit("?");
    reveal_strlit("d");
    reveal_strlit("");
    assert("d"@[0] != "?"@[0]);
    assert(path + ""@ == path);
    let none = Seq::<char>::empty();
    let about = trimmed(description);
    let m4 = "git is not installed on the server (install the Git Server package)"@;
    let m5 = "root directory does not exist"@;
    let m7 = "could not create the directory (permissions?)"@;
    let git = guarded(git_spelled(), m4, 4);
    let top = guarded(root_spelled(root), m5, 5);
    let taken = taken_program();
    let make = guarded(mkdir_spelled(), m7, 7);
    let init = init_program(about, shared);
    let below3 = Command::Lines(Box::new(make), Box::new(init), ""@);
    let below2 = Command::Lines(Box::new(taken), Box::new(below3), ""@);
    let below1 = Command::Lines(Box::new(top), Box::new(below2), ""@);
    let below0 = Command::Lines(Box::new(git), Box::new(below1), ""@);
    assert(below0 == make_program(root, about, shared));
    let first = Command::Assign("d"@, Word::Single(path));
    let whole = creation_program(path, root, description, shared);
    let end = run(machine, whole, none, start());
    let s0 = run(machine, first, none, start());
    assert(end == run(machine, below0, none, s0));
    let a0 = seq!["command"@, "-v"@, "git"@, ">/dev/null"@, "2>&1"@];
    assert(arguments(s0, git_spelled()) =~= a0) by {
        reveal_with_fuel(arguments, 6);
    }
    lemma_guarded_run(machine, git_spelled(), a0, m4, 4, none, s0);
    let s1 = run(machine, git, none, s0);
    assert(s0.ran =~= Seq::empty());
    assert(s1.ran.take(0) =~= Seq::empty());
    if s1.flow is On {
        assert(end == run(machine, below1, none, s1));
        let a1 = test_words("-d"@, root);
        assert(arguments(s1, root_spelled(root)) =~= a1) by {
            reveal_with_fuel(arguments, 5);
        }
        lemma_guarded_run(machine, root_spelled(root), a1, m5, 5, none, s1);
        let s2 = run(machine, top, none, s1);
        assert(s2.ran.take(0) =~= Seq::empty());
        assert(s2.ran.take(1) =~= s1.ran);
        if s2.flow is On {
            assert(end == run(machine, below2, none, s2));
            lemma_test_run(machine, "-e"@, ""@, path, none, s2);
            let s3 = run(machine, probe("-e"@, ""@), none, s2);
            assert(s3.ran.take(0) =~= Seq::empty());
            assert(s3.ran.take(1) =~= s1.ran);
            assert(s3.ran.take(2) =~= s2.ran);
            let tell = Command::Run(
                seq![
                    Word::Bare("echo"@),
                    Word::Single("a file or repository with that name already exists"@),
                ],
            );
            let leave = Command::Exit(6);
            let both = Command::Semicolon(Box::new(tell), Box::new(leave));
            if s3.ok {
                let s4 = run(machine, tell, none, s3);
                let s5 = run(machine, leave, none, s4);
                assert(run(machine, both, none, s3) == s5);
                assert(run(machine, taken, none, s2) == s5);
                assert(end == s5);
                assert(end.ran.take(0) =~= Seq::empty());
                assert(end.ran.take(1) =~= s1.ran);
                assert(end.ran.take(2) =~= s2.ran);
            } else {
                let s4 = Stage { ok: true, ..s3 };
                assert(run(machine, taken, none, s2) == s4);
                assert(end == run(machine, below3, none, s4));
                let a3 = seq!["mkdir"@, path];
                assert(arguments(s4, mkdir_spelled()) =~= a3) by {
                    reveal_with_fuel(arguments, 3);
                }
                lemma_guarded_run(machine, mkdir_spelled(), a3, m7, 7, none, s4);
                let s5 = run(machine, make, none, s4);
                if s5.flow is On {
                    assert(end == run(machine, init, none, s5));
                    lemma_init_run(machine, path, about, shared, s5);
                    assert(end.ran.take(4) == s5.ran);
                    assert forall|i: int| 0 <= i < 4 implies end.ran[i] == s5.ran[i] by {
                        assert(end.ran.take(4)[i] == end.ran[i]);
                    }
                }
                assert(end.ran.take(0) =~= Seq::empty());
                assert(end.ran.take(1) =~= s1.ran);
                assert(end.ran.take(2) =~= s2.ran);
                assert(end.ran.take(3) =~= s3.ran);
            }
        } else {
            assert(end == s2);
        }
    } else {
        assert(end == s1);
    }
}

/// Which names are accepted, character by character: a name that is not empty, starts
/// with neither a dot nor a dash, holds letters, digits, `_`, `-` and `.` of ASCII
/// only, and has no two dots in a row. White space around it does not count. The
/// directory is called by the name, with the suffix `.git` once at its end.
pub proof fn law_which_names_are_accepted(name: Seq<char>)
    ensures
        ({
            let n = trimmed(name);
            let plain = forall|i: int|
                0 <= i < n.len() ==> {
                    ||| 'a' <= #[trigger] n[i] <= 'z'
                    ||| 'A' <= n[i] <= 'Z'
                    ||| '0' <= n[i] <= '9'
                    ||| n[i] == '_'
                    ||| n[i] == '-'
                    ||| n[i] == '.'
                };
            let dots = exists|i: int|
                0 <= i < n.len() - 1 && #[trigger] n[i] == '.' && n[i + 1] == '.';
            &&& repo_name(name) is Ok <==> n.len() > 0 && n[0] != '.' && n[0] != '-' && plain
                && !dots
            &&& repo_name(name) == Err::<Seq<char>, Fault>(Fault::NameEmpty) <==> n.len() == 0
            &&& repo_name(name) == Err::<Seq<char>, Fault>(Fault::NameStart) <==> n.len() > 0 && (n[0]
                == '.' || n[0] == '-')
            &&& repo_name(name) == Err::<Seq<char>, Fault>(Fault::NameCharacters) <==> n.len() > 0
                && n[0] != '.' && n[0] != '-' && !plain
            &&& repo_name(name) == Err::<Seq<char>, Fault>(Fault::NameDots) <==> n.len() > 0 && n[0]
                != '.' && n[0] != '-' && plain && dots
            &&& repo_name(name) matches Ok(dir) ==> ends_with(dir, ".git"@) && (dir == n || dir == n
                + ".git"@) && (ends_with(n, ".git"@) ==> dir == n)
        }),
{
    let n = trimmed(name);
    law_repository_name_is_one_component(name);
    reveal_strlit("..");
    reveal_strlit(".git");
    assert(forall|i: int| 0 <= i < n.len() ==> (is_name_char(#[trigger] n[i]) <==> {
        ||| 'a' <= n[i] <= 'z'
        ||| 'A' <= n[i] <= 'Z'
        ||| '0' <= n[i] <= '9'
        ||| n[i] == '_'
        ||| n[i] == '-'
        ||| n[i] == '.'
    }));
    if has_part(n, ".."@) {
        let at = choose|at: int| occurs_at(n, ".."@, at);
        assert(n.subrange(at, at + 2)[0] == '.');
        assert(n.subrange(at, at + 2)[1] == '.');
        assert(n[at] == '.' && n[at + 1] == '.');
    }
    if exists|i: int| 0 <= i < n.len() - 1 && #[trigger] n[i] == '.' && n[i + 1] == '.' {
        let i = choose|i: int| 0 <= i < n.len() - 1 && #[trigger] n[i] == '.' && n[i + 1] == '.';
        assert(n.subrange(i, i + 2) =~= ".."@);
        assert(occurs_at(n, ".."@, i));
    }
}

/// A directory is the same directory with white space around it and with slashes at
/// its end.
pub proof fn law_clean_path(before: Seq<char>, r: Seq<char>, slashes: nat, after: Seq<char>)
    requires
        forall|i: int| 0 <= i < before.len() ==> is_white_space(#[trigger] before[i]),
        forall|i: int| 0 <= i < after.len() ==> is_white_space(#[trigger] after[i]),
        r.len() > 0,
        !is_white_space(r[0]),
        !is_white_space(r.last()),
        r.last() != '/',
    ensures
        clean_path(before + (r + repeated("/"@, slashes)) + after) == r,
{
    reveal_strlit("/");
    assert("/"@ == seq!['/']);
    let s = r + repeated("/"@, slashes);
    assert(s[0] == r[0]);
    assert(s.last() == r.last() || s.last() == '/') by {
        if slashes > 0 {
            assert(repeated("/"@, slashes).last() == '/');
        } else {
            assert(s == r);
        }
    }
    law_trimmed(before, s, after);
    assert(!ends_with(r, seq!['/'])) by {
        if ends_with(r, seq!['/']) {
            assert(r.skip(r.len() - 1)[0] == r.last());
        }
    }
    law_without_suffixes(r, seq!['/'], slashes);
}

/// A repository called `n` that is created in the root `r`, however many slashes
/// stand behind the root, is the directory `n.git` right below `r`; and its script is
/// the one that makes that directory, and looks for that root.
pub proof fn law_created_right_below_the_root(
    r: Seq<char>,
    slashes: nat,
    n: Seq<char>,
    description: Seq<char>,
    shared: bool,
)
    requires
        r.len() > 1,
        r[0] == '/',
        r.last() != '/',
        !is_white_space(r.last()),
        repo_name(n) is Ok,
        !ends_with(trimmed(n), ".git"@),
    ensures
        ({
            let path = r + "/"@ + trimmed(n) + ".git"@;
            created(r + repeated("/"@, slashes), n, description, shared) == Ok::<
                (Seq<char>, Seq<char>),
                Fault,
            >((path, text(creation_program(path, r, description, shared))))
        }),
{
    let none = Seq::<char>::empty();
    law_clean_path(none, r, slashes, none);
    assert(none + (r + repeated("/"@, slashes)) + none =~= r + repeated("/"@, slashes));
    let path = r + "/"@ + trimmed(n) + ".git"@;
    assert(r + "/"@ + (trimmed(n) + ".git"@) =~= path);
    lemma_creation_text(path, r, description, shared);
}

/// A repository is created in absolute directories only, and under the names that are
/// accepted only.
pub proof fn law_what_is_not_created(
    root: Seq<char>,
    name: Seq<char>,
    description: Seq<char>,
    shared: bool,
)
    ensures
        created(
            root,
            name,
            description,
            shared,
        ) is Ok ==> trimmed(root).len() > 0 && trimmed(root)[0]
            == '/' && repo_name(name) is Ok,
        !starts_with_char(trimmed(root), '/') ==> created(root, name, description, shared) == Err::<
            (Seq<char>, Seq<char>),
            Fault,
        >(Fault::RootNotAbsolute),
{
    lemma_without_suffixes_start(trimmed(root), seq!['/']);
}

/// What is left when suffixes are taken off is the start of the text.
pub proof fn lemma_without_suffixes_start(s: Seq<char>, suffix: Seq<char>)
    ensures
        without_suffixes(s, suffix).len() <= s.len(),
        without_suffixes(s, suffix) == s.take(without_suffixes(s, suffix).len() as int),
    decreases s.len(),
{
    if suffix.len() > 0 && ends_with(s, suffix) {
        let head = s.take(s.len() - suffix.len());
        lemma_without_suffixes_start(head, suffix);
        let n = without_suffixes(head, suffix).len() as int;
        assert(head.take(n) =~= s.take(n));
    } else {
        assert(s.take(s.len() as int) =~= s);
    }
}

/// The scripts for a shared repository and for one that is not differ in the one word
/// that says so.
pub proof fn law_shared_is_one_word(
    path: Seq<char>,
    root: Seq<char>,
    description: Seq<char>,
) -> (parts: (Seq<char>, Seq<char>))
    ensures
        creation(path, root, description, true) == parts.0 + "--shared=group"@ + parts.1,
        creation(path, root, description, false) == parts.0 + parts.1,
        ends_with(parts.0, "git init --bare "@),
        starts_with(parts.1, " \"$d\" >/dev/null || "@),
{
    reveal_strlit("");
    let a = "d="@ + single_quoted(path)
        + "\ncommand -v git >/dev/null 2>&1 || { echo 'git is not installed on the server (install the Git Server package)'; exit 4; }\n[ -d "@
        + single_quoted(root)
        + " ] || { echo 'root directory does not exist'; exit 5; }\nif [ -e \"$d\" ]; then echo 'a file or repository with that name already exists'; exit 6; fi\nmkdir \"$d\" || { echo 'could not create the directory (permissions?)'; exit 7; }\ngit init --bare "@;
    let x = " \"$d\" >/dev/null || { rmdir \"$d\" 2>/dev/null; echo 'git init --bare failed'; exit 8; }\nprintf '%s\n' "@;
    let q = single_quoted(trimmed(description));
    let y = " > \"$d/description\"\necho \"$d\""@;
    let b = x + q + y;
    assert(a + "--shared=group"@ + x + q + y =~= a + "--shared=group"@ + b);
    assert(a + ""@ + x + q + y =~= a + b);
    lemma_creation_lines();
    assert(ends_with(a, "git init --bare "@)) by {
        let tail = "git init --bare "@;
        assert(a.skip(a.len() - tail.len()) =~= tail);
    }
    assert(starts_with(b, " \"$d\" >/dev/null || "@)) by {
        reveal_strlit(" \"$d\" >/dev/null || ");
        reveal_strlit(" \"$d\" >/dev/null || { rmdir \"$d\" 2>/dev/null; echo 'git init --bare failed'; exit 8; }\nprintf '%s\n' ");
        let head = " \"$d\" >/dev/null || "@;
        assert(b.take(head.len() as int) =~= head);
    }
    (a, b)
}

} // verus!
