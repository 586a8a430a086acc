//! What the scan script does on a server, and that the listing it gives is what is
//! there.
use vstd::prelude::*;
use crate::error::Fault;
use crate::inspect::{
    formatted, git_found, is_one_line, is_posix, is_usual, lemma_printed_concat, lemma_printed_one,
    lemma_program_run, lemma_starts_apart,
};
use crate::listing::{
    brief_text, display_name, is_printable, law_scan_is_read_back, lemma_concat_lacks, listing,
    quoted_roots, row, scan, scan_lines, LIST_BODY,
};
use crate::quote::single_quoted;
use crate::shell::{
    arguments, chomped, is_grouped, lemma_single_quoted_plain, phrase, rounds, run, text, value,
    variable, Command, Machine, Pattern, Stage, Word,
};
use crate::ssh::{BriefView, CommitView, ListView, RepoView, GIT_PREAMBLE, SEP};
use crate::text::{
    ends_with, is_line, joined, lemma_lines_printed, nonblank, printed, starts_with,
};

verus! {

/// A root that is no directory is passed over.
pub open spec fn root_line() -> Command {
    Command::Or(
        Box::new(
            Command::Run(
                seq![Word::Bare("["@), Word::Bare("-d"@), Word::Double("r"@, ""@), Word::Bare("]"@)],
            ),
        ),
        Box::new(Command::Continue),
    )
}

/// The files called `HEAD` at most five levels below a root.
pub open spec fn find_line() -> Command {
    Command::Run(
        seq![
            Word::Bare("find"@),
            Word::Double("r"@, ""@),
            Word::Bare("-maxdepth"@),
            Word::Bare("5"@),
            Word::Bare("-name"@),
            Word::Bare("HEAD"@),
            Word::Bare("-type"@),
            Word::Bare("f"@),
            Word::Redirect("2>/dev/null"@),
        ],
    )
}

/// The directory that a `HEAD` is in.
pub open spec fn dirname_line() -> Command {
    Command::Capture(
        "d"@,
        Box::new(Command::Run(seq![Word::Bare("dirname"@), Word::Double("h"@, ""@)])),
    )
}

/// A directory without objects and references is no repository.
pub open spec fn repo_line() -> Command {
    Command::Or(
        Box::new(
            Command::And(
                Box::new(
                    Command::Run(
                        seq![
                            Word::Bare("["@),
                            Word::Bare("-d"@),
                            Word::Double("d"@, "/objects"@),
                            Word::Bare("]"@),
                        ],
                    ),
                ),
                Box::new(
                    Command::Run(
                        seq![
                            Word::Bare("["@),
                            Word::Bare("-d"@),
                            Word::Double("d"@, "/refs"@),
                            Word::Bare("]"@),
                        ],
                    ),
                ),
            ),
        ),
        Box::new(Command::Continue),
    )
}

/// There is no description yet.
pub open spec fn no_description_line() -> Command {
    Command::Assign("desc"@, Word::Single(""@))
}

/// The first line of the description, unless it is the one that git puts there.
pub open spec fn description_lines() -> Command {
    Command::IfLines(
        Box::new(
            Command::Run(
                seq![
                    Word::Bare("["@),
                    Word::Bare("-f"@),
                    Word::Double("d"@, "/description"@),
                    Word::Bare("]"@),
                ],
            ),
        ),
        Box::new(
            Command::Lines(
                Box::new(
                    Command::Capture(
                        "desc"@,
                        Box::new(
                            Command::Run(
                                seq![
                                    Word::Bare("head"@),
                                    Word::Bare("-n"@),
                                    Word::Bare("1"@),
                                    Word::Double("d"@, "/description"@),
                                    Word::Redirect("2>/dev/null"@),
                                ],
                            ),
                        ),
                    ),
                ),
                Box::new(
                    Command::Case(
                        Word::Double("desc"@, ""@),
                        Pattern::Starts("Unnamed repository"@),
                        Box::new(Command::Assign("desc"@, Word::Single(""@))),
                    ),
                ),
                "    "@,
            ),
        ),
        "  "@,
    )
}

/// A repository is bare ..
pub open spec fn bare_line() -> Command {
    Command::Assign("bare"@, Word::Bare("1"@))
}

/// .. unless it is the `.git` of a working copy.
pub open spec fn tree_line() -> Command {
    Command::Case(
        Word::Double("d"@, ""@),
        Pattern::Ends("/.git"@),
        Box::new(Command::Assign("bare"@, Word::Bare("0"@))),
    )
}

/// There is no tip commit yet.
pub open spec fn no_tip_line() -> Command {
    Command::Assign("last"@, Word::Single(""@))
}

/// The tip commit of the branch that is checked out, or of any branch.
pub open spec fn tip_lines() -> Command {
    Command::IfLines(
        Box::new(
            Command::Run(
                seq![
                    Word::Bare("["@),
                    Word::Bare("-n"@),
                    Word::Double("GIT"@, ""@),
                    Word::Bare("]"@),
                ],
            ),
        ),
        Box::new(found_lines()),
        "  "@,
    )
}

/// The tip commit, when there is git.
pub open spec fn found_lines() -> Command {
    Command::Lines(
        Box::new(Command::Assign("fmt"@, Word::Single("%h%x1f%cr%x1f%s"@))),
        Box::new(
            Command::Lines(
                Box::new(
                    Command::Capture(
                        "last"@,
                        Box::new(
                            Command::Pipe(
                                Box::new(
                                    Command::Run(
                                        seq![
                                            Word::Bare("rgit"@),
                                            Word::Double("d"@, ""@),
                                            Word::Bare("log"@),
                                            Word::Bare("-1"@),
                                            Word::Option("--format="@, "fmt"@),
                                            Word::Redirect("2>/dev/null"@),
                                        ],
                                    ),
                                ),
                                Box::new(
                                    Command::Run(
                                        seq![
                                            Word::Bare("head"@),
                                            Word::Bare("-n"@),
                                            Word::Bare("1"@),
                                        ],
                                    ),
                                ),
                            ),
                        ),
                    ),
                ),
                Box::new(
                    Command::IfLines(
                        Box::new(
                            Command::Run(
                                seq![
                                    Word::Bare("["@),
                                    Word::Bare("-z"@),
                                    Word::Double("last"@, ""@),
                                    Word::Bare("]"@),
                                ],
                            ),
                        ),
                        Box::new(
                            Command::Capture(
                                "last"@,
                                Box::new(
                                    Command::Pipe(
                                        Box::new(
                                            Command::Run(
                                                seq![
                                                    Word::Bare("rgit"@),
                                                    Word::Double("d"@, ""@),
                                                    Word::Bare("log"@),
                                                    Word::Bare("-1"@),
                                                    Word::Bare("--all"@),
                                                    Word::Option("--format="@, "fmt"@),
                                                    Word::Redirect("2>/dev/null"@),
                                                ],
                                            ),
                                        ),
                                        Box::new(
                                            Command::Run(
                                                seq![
                                                    Word::Bare("head"@),
                                                    Word::Bare("-n"@),
                                                    Word::Bare("1"@),
                                                ],
                                            ),
                                        ),
                                    ),
                                ),
                            ),
                        ),
                        "    "@,
                    ),
                ),
                "    "@,
            ),
        ),
        "    "@,
    )
}

/// The repository, on a line.
pub open spec fn row_line() -> Command {
    Command::Run(
        seq![
            Word::Bare("printf"@),
            Word::Single("%s\\t%s\\t%s\\t%s\\n"@),
            Word::Double("d"@, ""@),
            Word::Double("bare"@, ""@),
            Word::Double("desc"@, ""@),
            Word::Double("last"@, ""@),
        ],
    )
}

/// The remark that there is no git.
pub open spec fn no_git_line() -> Command {
    Command::Or(
        Box::new(
            Command::Run(
                seq![
                    Word::Bare("["@),
                    Word::Bare("-n"@),
                    Word::Double("GIT"@, ""@),
                    Word::Bare("]"@),
                ],
            ),
        ),
        Box::new(Command::Run(seq![Word::Bare("echo"@), Word::Single("<<<NOGIT"@)])),
    )
}

/// `a` on a line of a loop, and `b` on the lines below.
pub open spec fn then_line(a: Command, b: Command) -> Command {
    Command::Lines(Box::new(a), Box::new(b), "  "@)
}

/// What is done with each root.
pub open spec fn root_lines() -> Command {
    then_line(root_line(), find_line())
}

/// What is done with each `HEAD`.
pub open spec fn head_lines() -> Command {
    then_line(
        dirname_line(),
        then_line(
            repo_line(),
            then_line(
                no_description_line(),
                then_line(description_lines(), show_lines()),
            ),
        ),
    )
}

/// What is done with each repository, once its description is known.
pub open spec fn show_lines() -> Command {
    then_line(
        bare_line(),
        then_line(
            tree_line(),
            then_line(no_tip_line(), then_line(tip_lines(), row_line())),
        ),
    )
}

/// The roots, as they are spelled.
pub open spec fn root_words(roots: Seq<Seq<char>>) -> Seq<Word> {
    roots.map_values(|r: Seq<char>| Word::Single(r))
}

/// What the scan script says behind the part that finds git, as a program of the
/// shell.
pub open spec fn scan_program(roots: Seq<Seq<char>>) -> Command {
    Command::Lines(
        Box::new(
            Command::Pipe(
                Box::new(Command::For("r"@, root_words(roots), Box::new(root_lines()))),
                Box::new(Command::WhileRead("h"@, Box::new(head_lines()))),
            ),
        ),
        Box::new(no_git_line()),
        ""@,
    )
}

proof fn lemma_root_line_text()
    ensures
        text(root_line()) == "[ -d \"$r\" ] || continue"@,
        is_grouped(root_line()),
{
    reveal_strlit("");
    reveal_strlit(" ");
    reveal_strlit(" || ");
    reveal_strlit("\"");
    reveal_strlit("\"$");
    reveal_strlit("-d");
    reveal_strlit("[");
    reveal_strlit("[ -d \"$r\" ] || continue");
    reveal_strlit("]");
    reveal_strlit("continue");
    reveal_strlit("r");
    reveal_with_fuel(phrase, 5);
    reveal_with_fuel(text, 3);
    reveal_with_fuel(is_grouped, 3);
    assert(text(root_line()) =~= "[ -d \"$r\" ] || continue"@);
}

proof fn lemma_find_line_text()
    ensures
        text(find_line()) == "find \"$r\" -maxdepth 5 -name HEAD -type f 2>/dev/null"@,
        is_grouped(find_line()),
{
    reveal_strlit("");
    reveal_strlit(" ");
    reveal_strlit("\"");
    reveal_strlit("\"$");
    reveal_strlit("-maxdepth");
    reveal_strlit("-name");
    reveal_strlit("-type");
    reveal_strlit("2>/dev/null");
    reveal_strlit("5");
    reveal_strlit("HEAD");
    reveal_strlit("f");
    reveal_strlit("find");
    reveal_strlit("find \"$r\" -maxdepth 5 -name HEAD -type f 2>/dev/null");
    reveal_strlit("r");
    reveal_with_fuel(phrase, 10);
    assert(text(find_line()) =~= "find \"$r\" -maxdepth 5 -name HEAD -type f 2>/dev/null"@);
}

proof fn lemma_dirname_line_text()
    ensures
        text(dirname_line()) == "d=$(dirname \"$h\")"@,
        is_grouped(dirname_line()),
{
    reveal_strlit("");
    reveal_strlit(" ");
    reveal_strlit("\"");
    reveal_strlit("\"$");
    reveal_strlit(")");
    reveal_strlit("=$(");
    reveal_strlit("d");
    reveal_strlit("d=$(dirname \"$h\")");
    reveal_strlit("dirname");
    reveal_strlit("h");
    reveal_with_fuel(phrase, 3);
    reveal_with_fuel(text, 3);
    reveal_with_fuel(is_grouped, 3);
    assert(text(dirname_line()) =~= "d=$(dirname \"$h\")"@);
}

#[verifier::spinoff_prover]
#[verifier::rlimit(40)]
proof fn lemma_repo_line_text()
    ensures
        text(repo_line()) == "[ -d \"$d/objects\" ] && [ -d \"$d/refs\" ] || continue"@,
        is_grouped(repo_line()),
{
    reveal_strlit(" ");
    reveal_strlit(" && ");
    reveal_strlit(" || ");
    reveal_strlit("\"");
    reveal_strlit("\"$");
    reveal_strlit("-d");
    reveal_strlit("/objects");
    reveal_strlit("/refs");
    reveal_strlit("[");
    reveal_strlit("[ -d \"$d/objects\" ] && [ -d \"$d/refs\" ] || continue");
    reveal_strlit("]");
    reveal_strlit("continue");
    reveal_strlit("d");
    reveal_with_fuel(phrase, 5);
    reveal_with_fuel(text, 4);
    reveal_with_fuel(is_grouped, 4);
    assert(text(repo_line()) =~= "[ -d \"$d/objects\" ] && [ -d \"$d/refs\" ] || continue"@);
}

proof fn lemma_no_description_line_text()
    ensures
        text(no_description_line()) == "desc=''"@,
        is_grouped(no_description_line()),
{
    reveal_strlit("");
    reveal_strlit("'");
    reveal_strlit("=");
    reveal_strlit("desc");
    reveal_strlit("desc=''");
    lemma_single_quoted_plain(""@);
    assert(text(no_description_line()) =~= "desc=''"@);
}

#[verifier::spinoff_prover]
#[verifier::rlimit(40)]
proof fn lemma_description_lines_text()
    ensures
        text(
            description_lines(),
        ) == "if [ -f \"$d/description\" ]; then\n    desc=$(head -n 1 \"$d/description\" 2>/dev/null)\n    case \"$desc\" in \"Unnamed repository\"*) desc='' ;; esac\n  fi"@,
        is_grouped(description_lines()),
{
    reveal_strlit("");
    reveal_strlit("\n");
    reveal_strlit(" ");
    reveal_strlit("  ");
    reveal_strlit("    ");
    reveal_strlit(" ;; esac");
    reveal_strlit(" in ");
    reveal_strlit("\"");
    reveal_strlit("\"$");
    reveal_strlit("\"*");
    reveal_strlit("'");
    reveal_strlit(")");
    reveal_strlit(") ");
    reveal_strlit("-f");
    reveal_strlit("-n");
    reveal_strlit("/description");
    reveal_strlit("1");
    reveal_strlit("2>/dev/null");
    reveal_strlit("; then\n");
    reveal_strlit("=");
    reveal_strlit("=$(");
    reveal_strlit("Unnamed repository");
    reveal_strlit("[");
    reveal_strlit("]");
    reveal_strlit("case ");
    reveal_strlit("d");
    reveal_strlit("desc");
    reveal_strlit("fi");
    reveal_strlit("head");
    reveal_strlit("if ");
    reveal_strlit("if [ -f \"$d/description\" ]; then\n    desc=$(head -n 1 \"$d/description\" 2>/dev/null)\n    case \"$desc\" in \"Unnamed repository\"*) desc='' ;; esac\n  fi");
    lemma_single_quoted_plain(""@);
    reveal_with_fuel(phrase, 6);
    reveal_with_fuel(text, 5);
    reveal_with_fuel(is_grouped, 5);
    assert(
        text(
            description_lines(),
        ) =~= "if [ -f \"$d/description\" ]; then\n    desc=$(head -n 1 \"$d/description\" 2>/dev/null)\n    case \"$desc\" in \"Unnamed repository\"*) desc='' ;; esac\n  fi"@
    );
}

proof fn lemma_bare_line_text()
    ensures
        text(bare_line()) == "bare=1"@,
        is_grouped(bare_line()),
{
    reveal_strlit("1");
    reveal_strlit("=");
    reveal_strlit("bare");
    reveal_strlit("bare=1");
    assert(text(bare_line()) =~= "bare=1"@);
}

proof fn lemma_tree_line_text()
    ensures
        text(tree_line()) == "case \"$d\" in */.git) bare=0 ;; esac"@,
        is_grouped(tree_line()),
{
    reveal_strlit("");
    reveal_strlit(" ;; esac");
    reveal_strlit(" in ");
    reveal_strlit("\"");
    reveal_strlit("\"$");
    reveal_strlit(") ");
    reveal_strlit("*");
    reveal_strlit("/.git");
    reveal_strlit("0");
    reveal_strlit("=");
    reveal_strlit("bare");
    reveal_strlit("case ");
    reveal_strlit("case \"$d\" in */.git) bare=0 ;; esac");
    reveal_strlit("d");
    reveal_with_fuel(text, 3);
    reveal_with_fuel(is_grouped, 3);
    assert(text(tree_line()) =~= "case \"$d\" in */.git) bare=0 ;; esac"@);
}

proof fn lemma_no_tip_line_text()
    ensures
        text(no_tip_line()) == "last=''"@,
        is_grouped(no_tip_line()),
{
    reveal_strlit("");
    reveal_strlit("'");
    reveal_strlit("=");
    reveal_strlit("last");
    reveal_strlit("last=''");
    lemma_single_quoted_plain(""@);
    assert(text(no_tip_line()) =~= "last=''"@);
}

#[verifier::spinoff_prover]
#[verifier::rlimit(100)]
proof fn lemma_tip_lines_text()
    ensures
        text(
            tip_lines(),
        ) == "if [ -n \"$GIT\" ]; then\n    fmt='%h%x1f%cr%x1f%s'\n    last=$(rgit \"$d\" log -1 --format=\"$fmt\" 2>/dev/null | head -n 1)\n    if [ -z \"$last\" ]; then\n      last=$(rgit \"$d\" log -1 --all --format=\"$fmt\" 2>/dev/null | head -n 1)\n    fi\n  fi"@,
        is_grouped(tip_lines()),
{
    reveal_strlit("");
    reveal_strlit("\n");
    reveal_strlit(" ");
    reveal_strlit("  ");
    reveal_strlit("    ");
    reveal_strlit(" | ");
    reveal_strlit("\"");
    reveal_strlit("\"$");
    reveal_strlit("%h%x1f%cr%x1f%s");
    reveal_strlit("'");
    reveal_strlit(")");
    reveal_strlit("--all");
    reveal_strlit("--format=");
    reveal_strlit("-1");
    reveal_strlit("-n");
    reveal_strlit("-z");
    reveal_strlit("1");
    reveal_strlit("2>/dev/null");
    reveal_strlit("; then\n");
    reveal_strlit("=");
    reveal_strlit("=$(");
    reveal_strlit("GIT");
    reveal_strlit("[");
    reveal_strlit("]");
    reveal_strlit("d");
    reveal_strlit("fi");
    reveal_strlit("fmt");
    reveal_strlit("head");
    reveal_strlit("if ");
    reveal_strlit("if [ -n \"$GIT\" ]; then\n    fmt='%h%x1f%cr%x1f%s'\n    last=$(rgit \"$d\" log -1 --format=\"$fmt\" 2>/dev/null | head -n 1)\n    if [ -z \"$last\" ]; then\n      last=$(rgit \"$d\" log -1 --all --format=\"$fmt\" 2>/dev/null | head -n 1)\n    fi\n  fi");
    reveal_strlit("last");
    reveal_strlit("log");
    reveal_strlit("rgit");
    lemma_single_quoted_plain("%h%x1f%cr%x1f%s"@);
    reveal_with_fuel(phrase, 8);
    reveal_with_fuel(text, 8);
    reveal_with_fuel(is_grouped, 8);
    assert(
        text(
            tip_lines(),
        ) =~= "if [ -n \"$GIT\" ]; then\n    fmt='%h%x1f%cr%x1f%s'\n    last=$(rgit \"$d\" log -1 --format=\"$fmt\" 2>/dev/null | head -n 1)\n    if [ -z \"$last\" ]; then\n      last=$(rgit \"$d\" log -1 --all --format=\"$fmt\" 2>/dev/null | head -n 1)\n    fi\n  fi"@
    );
}

proof fn lemma_row_line_text()
    ensures
        text(row_line()) == "printf '%s\\t%s\\t%s\\t%s\\n' \"$d\" \"$bare\" \"$desc\" \"$last\""@,
        is_grouped(row_line()),
{
    reveal_strlit("");
    reveal_strlit(" ");
    reveal_strlit("\"");
    reveal_strlit("\"$");
    reveal_strlit("%s\\t%s\\t%s\\t%s\\n");
    reveal_strlit("'");
    reveal_strlit("bare");
    reveal_strlit("d");
    reveal_strlit("desc");
    reveal_strlit("last");
    reveal_strlit("printf");
    reveal_strlit("printf '%s\\t%s\\t%s\\t%s\\n' \"$d\" \"$bare\" \"$desc\" \"$last\"");
    lemma_single_quoted_plain("%s\\t%s\\t%s\\t%s\\n"@);
    reveal_with_fuel(phrase, 7);
    assert(
        text(row_line()) =~= "printf '%s\\t%s\\t%s\\t%s\\n' \"$d\" \"$bare\" \"$desc\" \"$last\""@
    );
}

proof fn lemma_no_git_line_text()
    ensures
        text(no_git_line()) == "[ -n \"$GIT\" ] || echo '<<<NOGIT'"@,
        is_grouped(no_git_line()),
{
    reveal_strlit("");
    reveal_strlit(" ");
    reveal_strlit(" || ");
    reveal_strlit("\"");
    reveal_strlit("\"$");
    reveal_strlit("'");
    reveal_strlit("-n");
    reveal_strlit("<<<NOGIT");
    reveal_strlit("GIT");
    reveal_strlit("[");
    reveal_strlit("[ -n \"$GIT\" ] || echo '<<<NOGIT'");
    reveal_strlit("]");
    reveal_strlit("echo");
    lemma_single_quoted_plain("<<<NOGIT"@);
    reveal_with_fuel(phrase, 5);
    reveal_with_fuel(text, 3);
    reveal_with_fuel(is_grouped, 3);
    assert(text(no_git_line()) =~= "[ -n \"$GIT\" ] || echo '<<<NOGIT'"@);
}

#[verifier::spinoff_prover]
#[verifier::rlimit(100)]
proof fn lemma_show_parts()
    ensures
        "bare=1\n  case \"$d\" in */.git) bare=0 ;; esac\n  last=''\n  if [ -n \"$GIT\" ]; then\n    fmt='%h%x1f%cr%x1f%s'\n    last=$(rgit \"$d\" log -1 --format=\"$fmt\" 2>/dev/null | head -n 1)\n    if [ -z \"$last\" ]; then\n      last=$(rgit \"$d\" log -1 --all --format=\"$fmt\" 2>/dev/null | head -n 1)\n    fi\n  fi\n  printf '%s\\t%s\\t%s\\t%s\\n' \"$d\" \"$bare\" \"$desc\" \"$last\""@ == "bare=1"@
            + "\n"@ + "  "@ + "case \"$d\" in */.git) bare=0 ;; esac"@ + "\n"@ + "  "@ + "last=''"@
            + "\n"@ + "  "@
            + "if [ -n \"$GIT\" ]; then\n    fmt='%h%x1f%cr%x1f%s'\n    last=$(rgit \"$d\" log -1 --format=\"$fmt\" 2>/dev/null | head -n 1)\n    if [ -z \"$last\" ]; then\n      last=$(rgit \"$d\" log -1 --all --format=\"$fmt\" 2>/dev/null | head -n 1)\n    fi\n  fi"@
            + "\n"@ + "  "@ + "printf '%s\\t%s\\t%s\\t%s\\n' \"$d\" \"$bare\" \"$desc\" \"$last\""@,
{
    reveal_strlit("\n");
    reveal_strlit("  ");
    reveal_strlit("bare=1");
    reveal_strlit("bare=1\n  case \"$d\" in */.git) bare=0 ;; esac\n  last=''\n  if [ -n \"$GIT\" ]; then\n    fmt='%h%x1f%cr%x1f%s'\n    last=$(rgit \"$d\" log -1 --format=\"$fmt\" 2>/dev/null | head -n 1)\n    if [ -z \"$last\" ]; then\n      last=$(rgit \"$d\" log -1 --all --format=\"$fmt\" 2>/dev/null | head -n 1)\n    fi\n  fi\n  printf '%s\\t%s\\t%s\\t%s\\n' \"$d\" \"$bare\" \"$desc\" \"$last\"");
    reveal_strlit("case \"$d\" in */.git) bare=0 ;; esac");
    reveal_strlit("if [ -n \"$GIT\" ]; then\n    fmt='%h%x1f%cr%x1f%s'\n    last=$(rgit \"$d\" log -1 --format=\"$fmt\" 2>/dev/null | head -n 1)\n    if [ -z \"$last\" ]; then\n      last=$(rgit \"$d\" log -1 --all --format=\"$fmt\" 2>/dev/null | head -n 1)\n    fi\n  fi");
    reveal_strlit("last=''");
    reveal_strlit("printf '%s\\t%s\\t%s\\t%s\\n' \"$d\" \"$bare\" \"$desc\" \"$last\"");
    assert(
        "bare=1\n  case \"$d\" in */.git) bare=0 ;; esac\n  last=''\n  if [ -n \"$GIT\" ]; then\n    fmt='%h%x1f%cr%x1f%s'\n    last=$(rgit \"$d\" log -1 --format=\"$fmt\" 2>/dev/null | head -n 1)\n    if [ -z \"$last\" ]; then\n      last=$(rgit \"$d\" log -1 --all --format=\"$fmt\" 2>/dev/null | head -n 1)\n    fi\n  fi\n  printf '%s\\t%s\\t%s\\t%s\\n' \"$d\" \"$bare\" \"$desc\" \"$last\""@ =~= "bare=1"@
            + "\n"@ + "  "@ + "case \"$d\" in */.git) bare=0 ;; esac"@ + "\n"@ + "  "@ + "last=''"@
            + "\n"@ + "  "@
            + "if [ -n \"$GIT\" ]; then\n    fmt='%h%x1f%cr%x1f%s'\n    last=$(rgit \"$d\" log -1 --format=\"$fmt\" 2>/dev/null | head -n 1)\n    if [ -z \"$last\" ]; then\n      last=$(rgit \"$d\" log -1 --all --format=\"$fmt\" 2>/dev/null | head -n 1)\n    fi\n  fi"@
            + "\n"@ + "  "@ + "printf '%s\\t%s\\t%s\\t%s\\n' \"$d\" \"$bare\" \"$desc\" \"$last\""@
    );
}

#[verifier::spinoff_prover]
#[verifier::rlimit(100)]
proof fn lemma_head_parts()
    ensures
        "d=$(dirname \"$h\")\n  [ -d \"$d/objects\" ] && [ -d \"$d/refs\" ] || continue\n  desc=''\n  if [ -f \"$d/description\" ]; then\n    desc=$(head -n 1 \"$d/description\" 2>/dev/null)\n    case \"$desc\" in \"Unnamed repository\"*) desc='' ;; esac\n  fi\n  bare=1\n  case \"$d\" in */.git) bare=0 ;; esac\n  last=''\n  if [ -n \"$GIT\" ]; then\n    fmt='%h%x1f%cr%x1f%s'\n    last=$(rgit \"$d\" log -1 --format=\"$fmt\" 2>/dev/null | head -n 1)\n    if [ -z \"$last\" ]; then\n      last=$(rgit \"$d\" log -1 --all --format=\"$fmt\" 2>/dev/null | head -n 1)\n    fi\n  fi\n  printf '%s\\t%s\\t%s\\t%s\\n' \"$d\" \"$bare\" \"$desc\" \"$last\""@ == "d=$(dirname \"$h\")"@
            + "\n"@ + "  "@ + "[ -d \"$d/objects\" ] && [ -d \"$d/refs\" ] || continue"@ + "\n"@
            + "  "@ + "desc=''"@ + "\n"@ + "  "@
            + "if [ -f \"$d/description\" ]; then\n    desc=$(head -n 1 \"$d/description\" 2>/dev/null)\n    case \"$desc\" in \"Unnamed repository\"*) desc='' ;; esac\n  fi"@
            + "\n"@ + "  "@
            + "bare=1\n  case \"$d\" in */.git) bare=0 ;; esac\n  last=''\n  if [ -n \"$GIT\" ]; then\n    fmt='%h%x1f%cr%x1f%s'\n    last=$(rgit \"$d\" log -1 --format=\"$fmt\" 2>/dev/null | head -n 1)\n    if [ -z \"$last\" ]; then\n      last=$(rgit \"$d\" log -1 --all --format=\"$fmt\" 2>/dev/null | head -n 1)\n    fi\n  fi\n  printf '%s\\t%s\\t%s\\t%s\\n' \"$d\" \"$bare\" \"$desc\" \"$last\""@,
{
    reveal_strlit("\n");
    reveal_strlit("  ");
    reveal_strlit("[ -d \"$d/objects\" ] && [ -d \"$d/refs\" ] || continue");
    reveal_strlit("bare=1\n  case \"$d\" in */.git) bare=0 ;; esac\n  last=''\n  if [ -n \"$GIT\" ]; then\n    fmt='%h%x1f%cr%x1f%s'\n    last=$(rgit \"$d\" log -1 --format=\"$fmt\" 2>/dev/null | head -n 1)\n    if [ -z \"$last\" ]; then\n      last=$(rgit \"$d\" log -1 --all --format=\"$fmt\" 2>/dev/null | head -n 1)\n    fi\n  fi\n  printf '%s\\t%s\\t%s\\t%s\\n' \"$d\" \"$bare\" \"$desc\" \"$last\"");
    reveal_strlit("d=$(dirname \"$h\")");
    reveal_strlit("d=$(dirname \"$h\")\n  [ -d \"$d/objects\" ] && [ -d \"$d/refs\" ] || continue\n  desc=''\n  if [ -f \"$d/description\" ]; then\n    desc=$(head -n 1 \"$d/description\" 2>/dev/null)\n    case \"$desc\" in \"Unnamed repository\"*) desc='' ;; esac\n  fi\n  bare=1\n  case \"$d\" in */.git) bare=0 ;; esac\n  last=''\n  if [ -n \"$GIT\" ]; then\n    fmt='%h%x1f%cr%x1f%s'\n    last=$(rgit \"$d\" log -1 --format=\"$fmt\" 2>/dev/null | head -n 1)\n    if [ -z \"$last\" ]; then\n      last=$(rgit \"$d\" log -1 --all --format=\"$fmt\" 2>/dev/null | head -n 1)\n    fi\n  fi\n  printf '%s\\t%s\\t%s\\t%s\\n' \"$d\" \"$bare\" \"$desc\" \"$last\"");
    reveal_strlit("desc=''");
    reveal_strlit("if [ -f \"$d/description\" ]; then\n    desc=$(head -n 1 \"$d/description\" 2>/dev/null)\n    case \"$desc\" in \"Unnamed repository\"*) desc='' ;; esac\n  fi");
    assert(
        "d=$(dirname \"$h\")\n  [ -d \"$d/objects\" ] && [ -d \"$d/refs\" ] || continue\n  desc=''\n  if [ -f \"$d/description\" ]; then\n    desc=$(head -n 1 \"$d/description\" 2>/dev/null)\n    case \"$desc\" in \"Unnamed repository\"*) desc='' ;; esac\n  fi\n  bare=1\n  case \"$d\" in */.git) bare=0 ;; esac\n  last=''\n  if [ -n \"$GIT\" ]; then\n    fmt='%h%x1f%cr%x1f%s'\n    last=$(rgit \"$d\" log -1 --format=\"$fmt\" 2>/dev/null | head -n 1)\n    if [ -z \"$last\" ]; then\n      last=$(rgit \"$d\" log -1 --all --format=\"$fmt\" 2>/dev/null | head -n 1)\n    fi\n  fi\n  printf '%s\\t%s\\t%s\\t%s\\n' \"$d\" \"$bare\" \"$desc\" \"$last\""@ =~= "d=$(dirname \"$h\")"@
            + "\n"@ + "  "@ + "[ -d \"$d/objects\" ] && [ -d \"$d/refs\" ] || continue"@ + "\n"@
            + "  "@ + "desc=''"@ + "\n"@ + "  "@
            + "if [ -f \"$d/description\" ]; then\n    desc=$(head -n 1 \"$d/description\" 2>/dev/null)\n    case \"$desc\" in \"Unnamed repository\"*) desc='' ;; esac\n  fi"@
            + "\n"@ + "  "@
            + "bare=1\n  case \"$d\" in */.git) bare=0 ;; esac\n  last=''\n  if [ -n \"$GIT\" ]; then\n    fmt='%h%x1f%cr%x1f%s'\n    last=$(rgit \"$d\" log -1 --format=\"$fmt\" 2>/dev/null | head -n 1)\n    if [ -z \"$last\" ]; then\n      last=$(rgit \"$d\" log -1 --all --format=\"$fmt\" 2>/dev/null | head -n 1)\n    fi\n  fi\n  printf '%s\\t%s\\t%s\\t%s\\n' \"$d\" \"$bare\" \"$desc\" \"$last\""@
    );
}

#[verifier::spinoff_prover]
#[verifier::rlimit(100)]
proof fn lemma_list_parts()
    ensures
        LIST_BODY@ == "; do\n  "@
            + "[ -d \"$r\" ] || continue\n  find \"$r\" -maxdepth 5 -name HEAD -type f 2>/dev/null"@
            + "\ndone"@ + " | "@ + "while IFS= read -r "@ + "h"@ + "; do\n  "@
            + "d=$(dirname \"$h\")\n  [ -d \"$d/objects\" ] && [ -d \"$d/refs\" ] || continue\n  desc=''\n  if [ -f \"$d/description\" ]; then\n    desc=$(head -n 1 \"$d/description\" 2>/dev/null)\n    case \"$desc\" in \"Unnamed repository\"*) desc='' ;; esac\n  fi\n  bare=1\n  case \"$d\" in */.git) bare=0 ;; esac\n  last=''\n  if [ -n \"$GIT\" ]; then\n    fmt='%h%x1f%cr%x1f%s'\n    last=$(rgit \"$d\" log -1 --format=\"$fmt\" 2>/dev/null | head -n 1)\n    if [ -z \"$last\" ]; then\n      last=$(rgit \"$d\" log -1 --all --format=\"$fmt\" 2>/dev/null | head -n 1)\n    fi\n  fi\n  printf '%s\\t%s\\t%s\\t%s\\n' \"$d\" \"$bare\" \"$desc\" \"$last\""@
            + "\ndone"@ + "\n"@ + "[ -n \"$GIT\" ] || echo '<<<NOGIT'"@,
{
    reveal_strlit("\n");
    reveal_strlit("\ndone");
    reveal_strlit(" | ");
    reveal_strlit("; do\n  ");
    reveal_strlit("; do\n  [ -d \"$r\" ] || continue\n  find \"$r\" -maxdepth 5 -name HEAD -type f 2>/dev/null\ndone | while IFS= read -r h; do\n  d=$(dirname \"$h\")\n  [ -d \"$d/objects\" ] && [ -d \"$d/refs\" ] || continue\n  desc=''\n  if [ -f \"$d/description\" ]; then\n    desc=$(head -n 1 \"$d/description\" 2>/dev/null)\n    case \"$desc\" in \"Unnamed repository\"*) desc='' ;; esac\n  fi\n  bare=1\n  case \"$d\" in */.git) bare=0 ;; esac\n  last=''\n  if [ -n \"$GIT\" ]; then\n    fmt='%h%x1f%cr%x1f%s'\n    last=$(rgit \"$d\" log -1 --format=\"$fmt\" 2>/dev/null | head -n 1)\n    if [ -z \"$last\" ]; then\n      last=$(rgit \"$d\" log -1 --all --format=\"$fmt\" 2>/dev/null | head -n 1)\n    fi\n  fi\n  printf '%s\\t%s\\t%s\\t%s\\n' \"$d\" \"$bare\" \"$desc\" \"$last\"\ndone\n[ -n \"$GIT\" ] || echo '<<<NOGIT'");
    reveal_strlit("[ -d \"$r\" ] || continue\n  find \"$r\" -maxdepth 5 -name HEAD -type f 2>/dev/null");
    reveal_strlit("[ -n \"$GIT\" ] || echo '<<<NOGIT'");
    reveal_strlit("d=$(dirname \"$h\")\n  [ -d \"$d/objects\" ] && [ -d \"$d/refs\" ] || continue\n  desc=''\n  if [ -f \"$d/description\" ]; then\n    desc=$(head -n 1 \"$d/description\" 2>/dev/null)\n    case \"$desc\" in \"Unnamed repository\"*) desc='' ;; esac\n  fi\n  bare=1\n  case \"$d\" in */.git) bare=0 ;; esac\n  last=''\n  if [ -n \"$GIT\" ]; then\n    fmt='%h%x1f%cr%x1f%s'\n    last=$(rgit \"$d\" log -1 --format=\"$fmt\" 2>/dev/null | head -n 1)\n    if [ -z \"$last\" ]; then\n      last=$(rgit \"$d\" log -1 --all --format=\"$fmt\" 2>/dev/null | head -n 1)\n    fi\n  fi\n  printf '%s\\t%s\\t%s\\t%s\\n' \"$d\" \"$bare\" \"$desc\" \"$last\"");
    reveal_strlit("h");
    reveal_strlit("while IFS= read -r ");
    assert(
        "; do\n  [ -d \"$r\" ] || continue\n  find \"$r\" -maxdepth 5 -name HEAD -type f 2>/dev/null\ndone | while IFS= read -r h; do\n  d=$(dirname \"$h\")\n  [ -d \"$d/objects\" ] && [ -d \"$d/refs\" ] || continue\n  desc=''\n  if [ -f \"$d/description\" ]; then\n    desc=$(head -n 1 \"$d/description\" 2>/dev/null)\n    case \"$desc\" in \"Unnamed repository\"*) desc='' ;; esac\n  fi\n  bare=1\n  case \"$d\" in */.git) bare=0 ;; esac\n  last=''\n  if [ -n \"$GIT\" ]; then\n    fmt='%h%x1f%cr%x1f%s'\n    last=$(rgit \"$d\" log -1 --format=\"$fmt\" 2>/dev/null | head -n 1)\n    if [ -z \"$last\" ]; then\n      last=$(rgit \"$d\" log -1 --all --format=\"$fmt\" 2>/dev/null | head -n 1)\n    fi\n  fi\n  printf '%s\\t%s\\t%s\\t%s\\n' \"$d\" \"$bare\" \"$desc\" \"$last\"\ndone\n[ -n \"$GIT\" ] || echo '<<<NOGIT'"@ =~= "; do\n  "@
            + "[ -d \"$r\" ] || continue\n  find \"$r\" -maxdepth 5 -name HEAD -type f 2>/dev/null"@
            + "\ndone"@ + " | "@ + "while IFS= read -r "@ + "h"@ + "; do\n  "@
            + "d=$(dirname \"$h\")\n  [ -d \"$d/objects\" ] && [ -d \"$d/refs\" ] || continue\n  desc=''\n  if [ -f \"$d/description\" ]; then\n    desc=$(head -n 1 \"$d/description\" 2>/dev/null)\n    case \"$desc\" in \"Unnamed repository\"*) desc='' ;; esac\n  fi\n  bare=1\n  case \"$d\" in */.git) bare=0 ;; esac\n  last=''\n  if [ -n \"$GIT\" ]; then\n    fmt='%h%x1f%cr%x1f%s'\n    last=$(rgit \"$d\" log -1 --format=\"$fmt\" 2>/dev/null | head -n 1)\n    if [ -z \"$last\" ]; then\n      last=$(rgit \"$d\" log -1 --all --format=\"$fmt\" 2>/dev/null | head -n 1)\n    fi\n  fi\n  printf '%s\\t%s\\t%s\\t%s\\n' \"$d\" \"$bare\" \"$desc\" \"$last\""@
            + "\ndone"@ + "\n"@ + "[ -n \"$GIT\" ] || echo '<<<NOGIT'"@
    );
}

proof fn lemma_then_text(a: Command, b: Command)
    ensures
        text(then_line(a, b)) == text(a) + "\n"@ + "  "@ + text(b),
        is_grouped(a) && is_grouped(b) ==> is_grouped(then_line(a, b)),
{
}

proof fn lemma_root_lines_text()
    ensures
        text(
            root_lines(),
        ) == "[ -d \"$r\" ] || continue\n  find \"$r\" -maxdepth 5 -name HEAD -type f 2>/dev/null"@,
        is_grouped(root_lines()),
{
    lemma_root_line_text();
    lemma_find_line_text();
    lemma_then_text(root_line(), find_line());
    reveal_strlit("[ -d \"$r\" ] || continue");
    reveal_strlit("find \"$r\" -maxdepth 5 -name HEAD -type f 2>/dev/null");
    reveal_strlit("\n");
    reveal_strlit("  ");
    reveal_strlit("[ -d \"$r\" ] || continue\n  find \"$r\" -maxdepth 5 -name HEAD -type f 2>/dev/null");
    assert(
        text(
            root_lines(),
        ) =~= "[ -d \"$r\" ] || continue\n  find \"$r\" -maxdepth 5 -name HEAD -type f 2>/dev/null"@
    );
}

#[verifier::spinoff_prover]
#[verifier::rlimit(100)]
proof fn lemma_show_lines_flat()
    ensures
        text(show_lines()) == "bare=1"@ + "\n"@ + "  "@ + "case \"$d\" in */.git) bare=0 ;; esac"@
            + "\n"@ + "  "@ + "last=''"@ + "\n"@ + "  "@
            + "if [ -n \"$GIT\" ]; then\n    fmt='%h%x1f%cr%x1f%s'\n    last=$(rgit \"$d\" log -1 --format=\"$fmt\" 2>/dev/null | head -n 1)\n    if [ -z \"$last\" ]; then\n      last=$(rgit \"$d\" log -1 --all --format=\"$fmt\" 2>/dev/null | head -n 1)\n    fi\n  fi"@
            + "\n"@ + "  "@ + "printf '%s\\t%s\\t%s\\t%s\\n' \"$d\" \"$bare\" \"$desc\" \"$last\""@,
        is_grouped(show_lines()),
{
    lemma_bare_line_text();
    lemma_tree_line_text();
    lemma_no_tip_line_text();
    lemma_tip_lines_text();
    lemma_row_line_text();
    let nl = "\n"@;
    let sp = "  "@;
    let c0 = bare_line();
    let c1 = tree_line();
    let c2 = no_tip_line();
    let c3 = tip_lines();
    let c4 = row_line();
    let b3 = then_line(c3, c4);
    lemma_then_text(c3, c4);
    assert(text(b3) =~= text(c3) + nl + sp + text(c4));
    let b2 = then_line(c2, b3);
    lemma_then_text(c2, b3);
    assert(text(b2) =~= text(c2) + nl + sp + text(c3) + nl + sp + text(c4));
    let b1 = then_line(c1, b2);
    lemma_then_text(c1, b2);
    assert(text(b1) =~= text(c1) + nl + sp + text(c2) + nl + sp + text(c3) + nl + sp + text(c4));
    let b0 = then_line(c0, b1);
    lemma_then_text(c0, b1);
    assert(
        text(b0) =~= text(c0) + nl + sp + text(c1) + nl + sp + text(c2) + nl + sp + text(c3) + nl
            + sp + text(c4)
    );
    assert(show_lines() == b0);
}

proof fn lemma_show_lines_text()
    ensures
        text(
            show_lines(),
        ) == "bare=1\n  case \"$d\" in */.git) bare=0 ;; esac\n  last=''\n  if [ -n \"$GIT\" ]; then\n    fmt='%h%x1f%cr%x1f%s'\n    last=$(rgit \"$d\" log -1 --format=\"$fmt\" 2>/dev/null | head -n 1)\n    if [ -z \"$last\" ]; then\n      last=$(rgit \"$d\" log -1 --all --format=\"$fmt\" 2>/dev/null | head -n 1)\n    fi\n  fi\n  printf '%s\\t%s\\t%s\\t%s\\n' \"$d\" \"$bare\" \"$desc\" \"$last\""@,
        is_grouped(show_lines()),
{
    lemma_show_lines_flat();
    lemma_show_parts();
}

#[verifier::spinoff_prover]
#[verifier::rlimit(100)]
proof fn lemma_head_lines_flat()
    ensures
        text(head_lines()) == "d=$(dirname \"$h\")"@ + "\n"@ + "  "@
            + "[ -d \"$d/objects\" ] && [ -d \"$d/refs\" ] || continue"@ + "\n"@ + "  "@
            + "desc=''"@ + "\n"@ + "  "@
            + "if [ -f \"$d/description\" ]; then\n    desc=$(head -n 1 \"$d/description\" 2>/dev/null)\n    case \"$desc\" in \"Unnamed repository\"*) desc='' ;; esac\n  fi"@
            + "\n"@ + "  "@
            + "bare=1\n  case \"$d\" in */.git) bare=0 ;; esac\n  last=''\n  if [ -n \"$GIT\" ]; then\n    fmt='%h%x1f%cr%x1f%s'\n    last=$(rgit \"$d\" log -1 --format=\"$fmt\" 2>/dev/null | head -n 1)\n    if [ -z \"$last\" ]; then\n      last=$(rgit \"$d\" log -1 --all --format=\"$fmt\" 2>/dev/null | head -n 1)\n    fi\n  fi\n  printf '%s\\t%s\\t%s\\t%s\\n' \"$d\" \"$bare\" \"$desc\" \"$last\""@,
        is_grouped(head_lines()),
{
    lemma_dirname_line_text();
    lemma_repo_line_text();
    lemma_no_description_line_text();
    lemma_description_lines_text();
    lemma_show_lines_text();
    let nl = "\n"@;
    let sp = "  "@;
    let c0 = dirname_line();
    let c1 = repo_line();
    let c2 = no_description_line();
    let c3 = description_lines();
    let c4 = show_lines();
    let b3 = then_line(c3, c4);
    lemma_then_text(c3, c4);
    assert(text(b3) =~= text(c3) + nl + sp + text(c4));
    let b2 = then_line(c2, b3);
    lemma_then_text(c2, b3);
    assert(text(b2) =~= text(c2) + nl + sp + text(c3) + nl + sp + text(c4));
    let b1 = then_line(c1, b2);
    lemma_then_text(c1, b2);
    assert(text(b1) =~= text(c1) + nl + sp + text(c2) + nl + sp + text(c3) + nl + sp + text(c4));
    let b0 = then_line(c0, b1);
    lemma_then_text(c0, b1);
    assert(
        text(b0) =~= text(c0) + nl + sp + text(c1) + nl + sp + text(c2) + nl + sp + text(c3) + nl
            + sp + text(c4)
    );
    assert(head_lines() == b0);
}

proof fn lemma_head_lines_text()
    ensures
        text(
            head_lines(),
        ) == "d=$(dirname \"$h\")\n  [ -d \"$d/objects\" ] && [ -d \"$d/refs\" ] || continue\n  desc=''\n  if [ -f \"$d/description\" ]; then\n    desc=$(head -n 1 \"$d/description\" 2>/dev/null)\n    case \"$desc\" in \"Unnamed repository\"*) desc='' ;; esac\n  fi\n  bare=1\n  case \"$d\" in */.git) bare=0 ;; esac\n  last=''\n  if [ -n \"$GIT\" ]; then\n    fmt='%h%x1f%cr%x1f%s'\n    last=$(rgit \"$d\" log -1 --format=\"$fmt\" 2>/dev/null | head -n 1)\n    if [ -z \"$last\" ]; then\n      last=$(rgit \"$d\" log -1 --all --format=\"$fmt\" 2>/dev/null | head -n 1)\n    fi\n  fi\n  printf '%s\\t%s\\t%s\\t%s\\n' \"$d\" \"$bare\" \"$desc\" \"$last\""@,
        is_grouped(head_lines()),
{
    lemma_head_lines_flat();
    lemma_head_parts();
}

/// The roots are spelled in single quotes, with a blank between neighbours.
proof fn lemma_root_words_text(roots: Seq<Seq<char>>)
    ensures
        phrase(root_words(roots)) == joined(
            roots.map_values(|r: Seq<char>| single_quoted(r)),
            seq![' '],
        ),
    decreases roots.len(),
{
    reveal_strlit(" ");
    assert(" "@ =~= seq![' ']);
    let quoted = roots.map_values(|r: Seq<char>| single_quoted(r));
    let words = root_words(roots);
    if roots.len() > 1 {
        let head = roots.drop_last();
        lemma_root_words_text(head);
        assert(words.drop_last() =~= root_words(head));
        assert(quoted.drop_last() =~= head.map_values(|r: Seq<char>| single_quoted(r)));
    }
}

/// The script is the part that finds git and the spelling of the program.
#[verifier::spinoff_prover]
#[verifier::rlimit(60)]
proof fn lemma_scan_text(roots: Seq<Seq<char>>)
    requires
        nonblank(roots).len() > 0,
    ensures
        scan(roots) == Ok::<Seq<char>, Fault>(
            GIT_PREAMBLE@ + text(scan_program(nonblank(roots))),
        ),
        is_grouped(scan_program(nonblank(roots))),
{
    let kept = nonblank(roots);
    lemma_root_words_text(kept);
    lemma_root_lines_text();
    lemma_head_lines_text();
    lemma_no_git_line_text();
    lemma_list_parts();
    let words = root_words(kept);
    let each = Command::For("r"@, words, Box::new(root_lines()));
    let read = Command::WhileRead("h"@, Box::new(head_lines()));
    let pipe = Command::Pipe(Box::new(each), Box::new(read));
    let all = scan_program(kept);
    assert(is_grouped(each));
    assert(is_grouped(read));
    assert(is_grouped(pipe));
    assert("for r in "@ == "for "@ + "r"@ + " in "@) by {
        reveal_strlit("for r in ");
        reveal_strlit("for ");
        reveal_strlit("r");
        reveal_strlit(" in ");
    }
    let q = phrase(words);
    assert(q == quoted_roots(roots));
    let a = "; do\n  "@;
    let fb = text(root_lines());
    let done = "\ndone"@;
    let bar = " | "@;
    let w = "while IFS= read -r "@;
    let h = "h"@;
    let rw = text(head_lines());
    let nl = "\n"@;
    let ng = text(no_git_line());
    let f = "for r in "@;
    assert(text(each) == f + q + a + fb + done);
    assert(text(read) == w + h + a + rw + done);
    assert(text(pipe) == text(each) + bar + text(read));
    reveal_strlit("");
    assert(text(all) == text(pipe) + nl + ""@ + ng);
    assert(text(all) =~= text(pipe) + nl + ng);
    let x = a + fb + done;
    let y = w + h + a + rw + done;
    assert(text(each) =~= f + q + x);
    assert(LIST_BODY@ =~= x + bar + y + nl + ng);
    assert(text(all) =~= f + q + (x + bar + y + nl + ng));
    assert(GIT_PREAMBLE@ + f + q + LIST_BODY@ =~= GIT_PREAMBLE@ + (f + q + LIST_BODY@));
}

/// What there is on a server.
pub struct Site {
    /// Which paths are directories.
    pub dirs: spec_fn(Seq<char>) -> bool,
    /// Which paths are files.
    pub files: spec_fn(Seq<char>) -> bool,
    /// The files called `HEAD` that are at most five levels below a directory.
    pub heads: spec_fn(Seq<char>) -> Seq<Seq<char>>,
    /// The first line of a file.
    pub first_line: spec_fn(Seq<char>) -> Seq<char>,
    /// The tip of the branch that is checked out in a repository.
    pub tip: spec_fn(Seq<char>) -> Option<CommitView>,
    /// The newest tip of all branches of a repository.
    pub any_tip: spec_fn(Seq<char>) -> Option<CommitView>,
}

/// What `git log` prints of at most one commit.
pub open spec fn tip_text(tip: Option<CommitView>, format: Seq<char>) -> Seq<char> {
    match tip {
        Some(c) => formatted(format, c) + "\n"@,
        None => Seq::empty(),
    }
}

/// What programs tell of `site`.
pub open spec fn shows(
    args: Seq<Seq<char>>,
    input: Seq<char>,
    r: (bool, Seq<char>),
    site: Site,
) -> bool {
    &&& args.len() == 4 && args[0] == "["@ && args[1] == "-d"@ && args[3] == "]"@ ==> r == (
        (site.dirs)(args[2]),
        Seq::<char>::empty(),
    )
    &&& args.len() == 4 && args[0] == "["@ && args[1] == "-f"@ && args[3] == "]"@ ==> r == (
        (site.files)(args[2]),
        Seq::<char>::empty(),
    )
    &&& args.len() == 9 && args[0] == "find"@ && args[2] == "-maxdepth"@ && args[3] == "5"@
        && args[4] == "-name"@ && args[5] == "HEAD"@ && args[6] == "-type"@ && args[7] == "f"@
        && args[8] == "2>/dev/null"@ ==> r.1 == printed((site.heads)(args[1]))
    &&& args.len() == 2 && args[0] == "dirname"@ && ends_with(args[1], "/HEAD"@) && args[1].len()
        > 5 ==> r == (true, args[1].take(args[1].len() - 5) + "\n"@)
    &&& args.len() == 5 && args[0] == "head"@ && args[1] == "-n"@ && args[2] == "1"@ && args[4]
        == "2>/dev/null"@ ==> r.1 == (site.first_line)(args[3]) + "\n"@
    &&& args.len() == 6 && args[0] == "rgit"@ && args[2] == "log"@ && args[3] == "-1"@
        && starts_with(args[4], "--format="@) && args[5] == "2>/dev/null"@ ==> r.1 == tip_text(
        (site.tip)(args[1]),
        args[4].skip(9),
    )
    &&& args.len() == 7 && args[0] == "rgit"@ && args[2] == "log"@ && args[3] == "-1"@ && args[4]
        == "--all"@ && starts_with(args[5], "--format="@) && args[6] == "2>/dev/null"@ ==> r.1
        == tip_text((site.any_tip)(args[1]), args[5].skip(9))
    &&& args.len() == 6 && args[0] == "printf"@ && args[1] == "%s\\t%s\\t%s\\t%s\\n"@ ==> r == (
        true,
        args[2] + seq!['\t'] + args[3] + seq!['\t'] + args[4] + seq!['\t'] + args[5] + seq!['\n'],
    )
    &&& args == seq!["head"@, "-n"@, "1"@] && input.len() == 0 ==> r.1.len() == 0
}

/// `machine` has what is on `site`.
pub open spec fn hosts(machine: Machine, site: Site) -> bool {
    forall|ran: Seq<Seq<Seq<char>>>, args: Seq<Seq<char>>, input: Seq<char>|
        shows(args, input, #[trigger] machine(ran, args, input), site)
}

/// What is listed of a tip commit.
pub open spec fn brief_of(tip: Option<CommitView>) -> Option<BriefView> {
    match tip {
        Some(c) => Some(BriefView { hash: c.hash, when: c.when, subject: c.subject }),
        None => None,
    }
}

/// The directory that the file `head`, which is called `HEAD`, is in.
pub open spec fn dir_of(head: Seq<char>) -> Seq<char> {
    head.take(head.len() - 5)
}

/// The tip commit that is listed of the repository at `d`, when there is git.
pub open spec fn tip_of(site: Site, d: Seq<char>) -> Option<CommitView> {
    match (site.tip)(d) {
        Some(c) => Some(c),
        None => (site.any_tip)(d),
    }
}

/// The description of the repository at `d`: the first line of the file, unless it is
/// the one that git puts there.
pub open spec fn description_of(site: Site, d: Seq<char>) -> Seq<char> {
    let line = (site.first_line)(d + "/description"@);
    if (site.files)(d + "/description"@) && !starts_with(line, "Unnamed repository"@) {
        line
    } else {
        Seq::empty()
    }
}

/// The repository that a `HEAD` belongs to, if it belongs to one: the directory has
/// objects and references. It is bare unless it is the `.git` of a working copy.
pub open spec fn repo_at(site: Site, git: Seq<char>, head: Seq<char>) -> Option<RepoView> {
    let d = dir_of(head);
    if (site.dirs)(d + "/objects"@) && (site.dirs)(d + "/refs"@) {
        Some(
            RepoView {
                path: d,
                name: display_name(d, !ends_with(d, "/.git"@)),
                description: description_of(site, d),
                bare: !ends_with(d, "/.git"@),
                last: if git.len() > 0 {
                    brief_of(tip_of(site, d))
                } else {
                    None
                },
            },
        )
    } else {
        None
    }
}

/// The repositories that `heads` belong to, in their order.
pub open spec fn repos_at(site: Site, git: Seq<char>, heads: Seq<Seq<char>>) -> Seq<RepoView>
    decreases heads.len(),
{
    if heads.len() == 0 {
        Seq::empty()
    } else {
        let rest = repos_at(site, git, heads.drop_last());
        match repo_at(site, git, heads.last()) {
            Some(repo) => rest.push(repo),
            None => rest,
        }
    }
}

/// The files called `HEAD` below the roots that are directories, root by root.
pub open spec fn heads_below(site: Site, roots: Seq<Seq<char>>) -> Seq<Seq<char>>
    decreases roots.len(),
{
    if roots.len() == 0 {
        Seq::empty()
    } else {
        let rest = heads_below(site, roots.drop_last());
        if (site.dirs)(roots.last()) {
            rest + (site.heads)(roots.last())
        } else {
            rest
        }
    }
}

/// What is at `head` can be printed on a line.
pub open spec fn is_listable(site: Site, git: Seq<char>, head: Seq<char>) -> bool {
    &&& is_line(head)
    &&& ends_with(head, "/HEAD"@)
    &&& head.len() > 5
    &&& !(site.first_line)(dir_of(head) + "/description"@).contains('\n')
    &&& repo_at(site, git, head) matches Some(repo) ==> is_printable(repo)
    &&& (site.tip)(dir_of(head)) matches Some(c) ==> !c.subject.contains('\n')
    &&& (site.any_tip)(dir_of(head)) matches Some(c) ==> !c.subject.contains('\n')
    &&& (site.tip)(dir_of(head)) matches Some(c) ==> !c.when.contains('\n') && !c.hash.contains(
        '\n',
    )
    &&& (site.any_tip)(dir_of(head)) matches Some(c) ==> !c.when.contains('\n')
        && !c.hash.contains('\n')
}

/// The variables have different names.
proof fn lemma_names()
    ensures
        "?"@ != "r"@,
        "?"@ != "h"@,
        "?"@ != "d"@,
        "?"@ != "GIT"@,
        "?"@ != "fmt"@,
        "?"@ != "desc"@,
        "?"@ != "bare"@,
        "?"@ != "last"@,
        "r"@ != "h"@,
        "r"@ != "d"@,
        "r"@ != "GIT"@,
        "r"@ != "fmt"@,
        "r"@ != "desc"@,
        "r"@ != "bare"@,
        "r"@ != "last"@,
        "h"@ != "d"@,
        "h"@ != "GIT"@,
        "h"@ != "fmt"@,
        "h"@ != "desc"@,
        "h"@ != "bare"@,
        "h"@ != "last"@,
        "d"@ != "GIT"@,
        "d"@ != "fmt"@,
        "d"@ != "desc"@,
        "d"@ != "bare"@,
        "d"@ != "last"@,
        "GIT"@ != "fmt"@,
        "GIT"@ != "desc"@,
        "GIT"@ != "bare"@,
        "GIT"@ != "last"@,
        "fmt"@ != "desc"@,
        "fmt"@ != "bare"@,
        "fmt"@ != "last"@,
        "desc"@ != "bare"@,
        "desc"@ != "last"@,
        "bare"@ != "last"@,
{
    reveal_strlit("?");
    reveal_strlit("r");
    reveal_strlit("h");
    reveal_strlit("d");
    reveal_strlit("GIT");
    reveal_strlit("fmt");
    reveal_strlit("desc");
    reveal_strlit("bare");
    reveal_strlit("last");
    assert("?"@[0] == '?');
    assert("?"@.len() == 1);
    assert("r"@[0] == 'r');
    assert("r"@.len() == 1);
    assert("h"@[0] == 'h');
    assert("h"@.len() == 1);
    assert("d"@[0] == 'd');
    assert("d"@.len() == 1);
    assert("GIT"@[0] == 'G');
    assert("GIT"@.len() == 3);
    assert("fmt"@[0] == 'f');
    assert("fmt"@.len() == 3);
    assert("desc"@[0] == 'd');
    assert("desc"@.len() == 4);
    assert("bare"@[0] == 'b');
    assert("bare"@.len() == 4);
    assert("last"@[0] == 'l');
    assert("last"@.len() == 4);
}

/// What git prints of a tip commit is what is read back.
#[verifier::spinoff_prover]
#[verifier::rlimit(50)]
proof fn lemma_brief_format(c: CommitView)
    ensures
        formatted("%h%x1f%cr%x1f%s"@, c) == brief_text(
            BriefView { hash: c.hash, when: c.when, subject: c.subject },
        ),
{
    reveal_strlit("%h%x1f%cr%x1f%s");
    let f0 = "%h%x1f%cr%x1f%s"@;
    let f1 = f0.skip(2);
    let f2 = f1.skip(4);
    let f3 = f2.skip(3);
    let f4 = f3.skip(4);
    let f5 = f4.skip(2);
    assert(f5 =~= Seq::empty());
    assert(formatted(f5, c) =~= Seq::empty());
    lemma_starts_apart(f4, 's');
    assert(f4.len() == 2);
    assert(f4.take(2) =~= seq!['%', 's']);
    assert(formatted(f4, c) == c.subject + formatted(f5, c));
    assert(f3.take(4) =~= seq!['%', 'x', '1', 'f']);
    assert(formatted(f3, c) == seq!['\u{1f}'] + formatted(f4, c));
    lemma_starts_apart(f2, 'c');
    assert(f2.take(3) =~= seq!['%', 'c', 'r']);
    assert(!starts_with(f2, seq!['%', 'c', 'I'])) by {
        if starts_with(f2, seq!['%', 'c', 'I']) {
            assert(f2.take(3)[2] == 'I');
        }
    }
    assert(formatted(f2, c) == c.when + formatted(f3, c));
    assert(f1.take(4) =~= seq!['%', 'x', '1', 'f']);
    assert(formatted(f1, c) == seq!['\u{1f}'] + formatted(f2, c));
    lemma_starts_apart(f0, 'h');
    assert(f0.take(2) =~= seq!['%', 'h']);
    assert(formatted(f0, c) == c.hash + formatted(f1, c));
    assert(formatted(f0, c) =~= brief_text(
        BriefView { hash: c.hash, when: c.when, subject: c.subject },
    ));
}

/// A text without an end of line comes back when it was captured with one behind it.
proof fn lemma_chomped_line(s: Seq<char>)
    requires
        !s.contains('\n'),
    ensures
        chomped(s + "\n"@) == s,
        chomped(s) == s,
{
    reveal_strlit("\n");
    let t = s + "\n"@;
    assert(t.drop_last() =~= s);
    if s.len() > 0 {
        assert(s[s.len() - 1] == s.last());
    }
    assert(chomped(s) == s);
}

/// One round over the roots.
#[verifier::spinoff_prover]
#[verifier::rlimit(40)]
proof fn lemma_root_run(machine: Machine, site: Site, r: Seq<char>, input: Seq<char>, stage: Stage)
    requires
        hosts(machine, site),
        stage.flow is On,
        variable(stage, "r"@) == r,
    ensures
        ({
            let end = run(machine, root_lines(), input, stage);
            &&& end.out == stage.out + if (site.dirs)(r) {
                printed((site.heads)(r))
            } else {
                Seq::empty()
            }
            &&& end.flow is On || end.flow is Round
        }),
{
    lemma_names();
    reveal_strlit("");
    assert(r + ""@ == r);
    let w1 = seq![Word::Bare("["@), Word::Bare("-d"@), Word::Double("r"@, ""@), Word::Bare("]"@)];
    let a1 = seq!["["@, "-d"@, r, "]"@];
    assert(arguments(stage, w1) =~= a1) by {
        reveal_with_fuel(arguments, 5);
    }
    lemma_program_run(machine, w1, a1, input, stage);
    assert(shows(a1, input, machine(stage.ran, a1, input), site));
    let s1 = run(machine, Command::Run(w1), input, stage);
    assert(s1.out =~= stage.out);
    let end = run(machine, root_lines(), input, stage);
    let first = run(machine, root_line(), input, stage);
    if s1.ok {
        assert(first == s1);
        let w2 = seq![
            Word::Bare("find"@),
            Word::Double("r"@, ""@),
            Word::Bare("-maxdepth"@),
            Word::Bare("5"@),
            Word::Bare("-name"@),
            Word::Bare("HEAD"@),
            Word::Bare("-type"@),
            Word::Bare("f"@),
            Word::Redirect("2>/dev/null"@),
        ];
        let a2 = seq![
            "find"@,
            r,
            "-maxdepth"@,
            "5"@,
            "-name"@,
            "HEAD"@,
            "-type"@,
            "f"@,
            "2>/dev/null"@,
        ];
        assert(arguments(s1, w2) =~= a2) by {
            reveal_with_fuel(arguments, 10);
        }
        lemma_program_run(machine, w2, a2, input, s1);
        assert(shows(a2, input, machine(s1.ran, a2, input), site));
        assert(end == run(machine, find_line(), input, s1));
    } else {
        assert(first == run(machine, Command::Continue, input, s1));
        assert(end == first);
        assert(stage.out + Seq::<char>::empty() =~= stage.out);
    }
}

/// The loop over the roots prints every `HEAD` below them.
proof fn lemma_roots_run(
    machine: Machine,
    site: Site,
    roots: Seq<Seq<char>>,
    input: Seq<char>,
    stage: Stage,
)
    requires
        hosts(machine, site),
        stage.flow is On,
    ensures
        ({
            let end = rounds(machine, "r"@, roots, root_lines(), input, stage);
            &&& end.out == stage.out + printed(heads_below(site, roots))
            &&& end.flow is On
        }),
    decreases roots.len(),
{
    lemma_names();
    if roots.len() == 0 {
        assert(stage.out + Seq::<char>::empty() =~= stage.out);
    } else {
        let head = roots.drop_last();
        let r = roots.last();
        lemma_roots_run(machine, site, head, input, stage);
        let before = rounds(machine, "r"@, head, root_lines(), input, stage);
        let entered = Stage { vars: before.vars.insert("r"@, r), ..before };
        lemma_root_run(machine, site, r, input, entered);
        lemma_printed_concat(heads_below(site, head), (site.heads)(r));
        let end = rounds(machine, "r"@, roots, root_lines(), input, stage);
        let a = printed(heads_below(site, head));
        if (site.dirs)(r) {
            assert(stage.out + a + printed((site.heads)(r)) =~= stage.out + (a + printed(
                (site.heads)(r),
            )));
        } else {
            assert(stage.out + a + Seq::<char>::empty() =~= stage.out + a);
        }
    }
}

/// The script has come so far that git and the directory are known.
pub open spec fn is_at(stage: Stage, git: Seq<char>, d: Seq<char>) -> bool {
    &&& stage.flow is On
    &&& variable(stage, "GIT"@) == git
    &&& variable(stage, "d"@) == d
}

/// The lines that read the description.
#[verifier::spinoff_prover]
#[verifier::rlimit(60)]
proof fn lemma_description_run(
    machine: Machine,
    site: Site,
    git: Seq<char>,
    d: Seq<char>,
    input: Seq<char>,
    stage: Stage,
)
    requires
        hosts(machine, site),
        is_at(stage, git, d),
        !(site.first_line)(d + "/description"@).contains('\n'),
    ensures
        ({
            let s1 = run(machine, no_description_line(), input, stage);
            let end = run(machine, description_lines(), input, s1);
            &&& s1.flow is On
            &&& is_at(end, git, d)
            &&& end.out == stage.out
            &&& variable(end, "desc"@) == description_of(site, d)
        }),
{
    lemma_names();
    reveal_strlit("");
    let empty = Seq::<char>::empty();
    assert(""@ =~= empty);
    let file = d + "/description"@;
    let s1 = run(machine, no_description_line(), input, stage);
    assert(is_at(s1, git, d));
    let w2 = seq![
        Word::Bare("["@),
        Word::Bare("-f"@),
        Word::Double("d"@, "/description"@),
        Word::Bare("]"@),
    ];
    let a2 = seq!["["@, "-f"@, file, "]"@];
    assert(arguments(s1, w2) =~= a2) by {
        reveal_with_fuel(arguments, 5);
    }
    lemma_program_run(machine, w2, a2, input, s1);
    assert(shows(a2, input, machine(s1.ran, a2, input), site));
    let s2 = run(machine, Command::Run(w2), input, s1);
    assert(s2.out =~= stage.out);
    assert(is_at(s2, git, d));
    let w3 = seq![
        Word::Bare("head"@),
        Word::Bare("-n"@),
        Word::Bare("1"@),
        Word::Double("d"@, "/description"@),
        Word::Redirect("2>/dev/null"@),
    ];
    let a3 = seq!["head"@, "-n"@, "1"@, file, "2>/dev/null"@];
    let take = Command::Capture("desc"@, Box::new(Command::Run(w3)));
    let clear = Command::Assign("desc"@, Word::Single(""@));
    let case = Command::Case(
        Word::Double("desc"@, ""@),
        Pattern::Starts("Unnamed repository"@),
        Box::new(clear),
    );
    let body = Command::Lines(Box::new(take), Box::new(case), "    "@);
    assert(description_lines() == Command::IfLines(
        Box::new(Command::Run(w2)),
        Box::new(body),
        "  "@,
    ));
    let end = run(machine, description_lines(), input, s1);
    if s2.ok {
        let inner = Stage { out: empty, ..s2 };
        assert(arguments(inner, w3) =~= a3) by {
            reveal_with_fuel(arguments, 6);
        }
        lemma_program_run(machine, w3, a3, input, inner);
        assert(shows(a3, input, machine(inner.ran, a3, input), site));
        let line = (site.first_line)(file);
        lemma_chomped_line(line);
        let s3 = run(machine, take, input, s2);
        assert(empty + (line + "\n"@) =~= line + "\n"@);
        assert(s3.vars == s2.vars.insert("desc"@, line));
        assert(variable(s3, "desc"@) == line);
        assert(is_at(s3, git, d));
        assert(line + ""@ =~= line);
        assert(value(s3, Word::Double("desc"@, ""@)) == line);
        let s4 = run(machine, case, input, s3);
        let s5 = run(machine, clear, input, s3);
        assert(s4 == if starts_with(line, "Unnamed repository"@) {
            s5
        } else {
            Stage { ok: true, ..s3 }
        });
        assert(run(machine, body, input, s2) == s4);
        assert(end == s4);
    } else {
        assert(end == Stage { ok: true, ..s2 });
    }
}

/// The lines that tell a bare repository from a working copy.
proof fn lemma_bare_run(
    machine: Machine,
    git: Seq<char>,
    d: Seq<char>,
    input: Seq<char>,
    stage: Stage,
)
    requires
        is_at(stage, git, d),
    ensures
        ({
            let s1 = run(machine, bare_line(), input, stage);
            let end = run(machine, tree_line(), input, s1);
            &&& s1.flow is On
            &&& is_at(end, git, d)
            &&& end.out == stage.out
            &&& variable(end, "desc"@) == variable(stage, "desc"@)
            &&& variable(end, "bare"@) == if ends_with(d, "/.git"@) {
                "0"@
            } else {
                "1"@
            }
        }),
{
    lemma_names();
    reveal_strlit("");
    assert(d + ""@ =~= d);
    let s1 = run(machine, bare_line(), input, stage);
    let end = run(machine, tree_line(), input, s1);
    assert(is_at(s1, git, d));
    assert(value(s1, Word::Double("d"@, ""@)) == d);
    let other = Command::Assign("bare"@, Word::Bare("0"@));
    let s2 = run(machine, other, input, s1);
    assert(end == if ends_with(d, "/.git"@) {
        s2
    } else {
        Stage { ok: true, ..s1 }
    });
}

/// A tip commit as it is listed; nothing if there is none.
pub open spec fn listed_tip(tip: Option<CommitView>) -> Seq<char> {
    match brief_of(tip) {
        Some(b) => brief_text(b),
        None => Seq::empty(),
    }
}

/// A tip commit without an end of line in it.
pub open spec fn is_one_line_tip(tip: Option<CommitView>) -> bool {
    tip matches Some(c) ==> !c.subject.contains('\n') && !c.when.contains('\n')
        && !c.hash.contains('\n')
}

/// What git prints of a tip commit, cut after its first line and captured.
#[verifier::spinoff_prover]
#[verifier::rlimit(60)]
proof fn lemma_tip_captured(
    machine: Machine,
    words: Seq<Word>,
    args: Seq<Seq<char>>,
    tip: Option<CommitView>,
    input: Seq<char>,
    stage: Stage,
    site: Site,
)
    requires
        is_posix(machine),
        hosts(machine, site),
        is_one_line_tip(tip),
        arguments(Stage { out: Seq::empty(), ..stage }, words) == args,
        machine(stage.ran, args, input).1 == tip_text(tip, "%h%x1f%cr%x1f%s"@),
    ensures
        ({
            let cut = seq![Word::Bare("head"@), Word::Bare("-n"@), Word::Bare("1"@)];
            let pipe = Command::Pipe(Box::new(Command::Run(words)), Box::new(Command::Run(cut)));
            let end = run(machine, Command::Capture("last"@, Box::new(pipe)), input, stage);
            &&& end.flow == stage.flow
            &&& end.out == stage.out
            &&& end.vars == stage.vars.insert("last"@, listed_tip(tip))
        }),
{
    reveal_strlit("\n");
    let empty = Seq::<char>::empty();
    let cut = seq![Word::Bare("head"@), Word::Bare("-n"@), Word::Bare("1"@)];
    let cut_args = seq!["head"@, "-n"@, "1"@];
    let pipe = Command::Pipe(Box::new(Command::Run(words)), Box::new(Command::Run(cut)));
    let inner = Stage { out: empty, ..stage };
    let first = Stage { out: empty, ..inner };
    lemma_program_run(machine, words, args, input, first);
    let s1 = run(machine, Command::Run(words), input, first);
    let line = tip_text(tip, "%h%x1f%cr%x1f%s"@);
    assert(s1.out =~= line);
    let second = Stage { ran: s1.ran, out: empty, ..inner };
    assert(arguments(second, cut) =~= cut_args) by {
        reveal_with_fuel(arguments, 4);
    }
    lemma_program_run(machine, cut, cut_args, line, second);
    let r = machine(second.ran, cut_args, line);
    assert(is_usual(cut_args, line, r));
    assert(shows(cut_args, line, r, site));
    let shown = listed_tip(tip);
    match tip {
        Some(c) => {
            lemma_brief_format(c);
            let b = BriefView { hash: c.hash, when: c.when, subject: c.subject };
            assert(line == brief_text(b) + "\n"@);
            assert(!brief_text(b).contains('\n')) by {
                lemma_concat_lacks(c.hash, seq![SEP], '\n');
                lemma_concat_lacks(c.hash + seq![SEP], c.when, '\n');
                lemma_concat_lacks(c.hash + seq![SEP] + c.when, seq![SEP], '\n');
                lemma_concat_lacks(c.hash + seq![SEP] + c.when + seq![SEP], c.subject, '\n');
            }
            assert(line.drop_last() =~= brief_text(b));
            assert(is_one_line(line));
            lemma_chomped_line(brief_text(b));
            assert(r.1 == line);
            assert(chomped(r.1) == shown);
        },
        None => {
            assert(r.1 =~= empty);
            assert(chomped(r.1) == shown);
        },
    }
    let s2 = run(machine, Command::Run(cut), line, second);
    assert(s2.out =~= r.1);
    let piped = run(machine, pipe, input, inner);
    assert(piped.out == inner.out + s2.out);
    assert(piped.out =~= r.1);
}

/// The lines that read the tip commit.
#[verifier::spinoff_prover]
#[verifier::rlimit(100)]
proof fn lemma_tip_run(
    machine: Machine,
    site: Site,
    git: Seq<char>,
    d: Seq<char>,
    input: Seq<char>,
    stage: Stage,
)
    requires
        is_posix(machine),
        hosts(machine, site),
        is_at(stage, git, d),
        is_one_line_tip((site.tip)(d)),
        is_one_line_tip((site.any_tip)(d)),
    ensures
        ({
            let s1 = run(machine, no_tip_line(), input, stage);
            let end = run(machine, tip_lines(), input, s1);
            &&& s1.flow is On
            &&& is_at(end, git, d)
            &&& end.out == stage.out
            &&& variable(end, "desc"@) == variable(stage, "desc"@)
            &&& variable(end, "bare"@) == variable(stage, "bare"@)
            &&& variable(end, "last"@) == if git.len() > 0 {
                listed_tip(tip_of(site, d))
            } else {
                Seq::empty()
            }
        }),
{
    lemma_names();
    reveal_strlit("");
    let empty = Seq::<char>::empty();
    assert(""@ =~= empty);
    assert(git + ""@ =~= git);
    assert(d + ""@ =~= d);
    let s1 = run(machine, no_tip_line(), input, stage);
    assert(is_at(s1, git, d));
    let w2 = seq![Word::Bare("["@), Word::Bare("-n"@), Word::Double("GIT"@, ""@), Word::Bare("]"@)];
    let a2 = seq!["["@, "-n"@, git, "]"@];
    assert(arguments(s1, w2) =~= a2) by {
        reveal_with_fuel(arguments, 5);
    }
    lemma_program_run(machine, w2, a2, input, s1);
    assert(is_usual(a2, input, machine(s1.ran, a2, input)));
    let s2 = run(machine, Command::Run(w2), input, s1);
    assert(s2.ok == (git.len() > 0));
    assert(s2.out =~= stage.out);
    let end = run(machine, tip_lines(), input, s1);
    if s2.ok {
        lemma_tip_found(machine, site, git, d, input, s2);
    } else {
        assert(end == Stage { ok: true, ..s2 });
    }
}

/// The lines that read the tip commit when there is git.
#[verifier::spinoff_prover]
#[verifier::rlimit(100)]
proof fn lemma_tip_found(
    machine: Machine,
    site: Site,
    git: Seq<char>,
    d: Seq<char>,
    input: Seq<char>,
    stage: Stage,
)
    requires
        is_posix(machine),
        hosts(machine, site),
        is_at(stage, git, d),
        is_one_line_tip((site.tip)(d)),
        is_one_line_tip((site.any_tip)(d)),
    ensures
        ({
            let end = run(machine, found_lines(), input, stage);
            &&& is_at(end, git, d)
            &&& end.out == stage.out
            &&& variable(end, "desc"@) == variable(stage, "desc"@)
            &&& variable(end, "bare"@) == variable(stage, "bare"@)
            &&& variable(end, "last"@) == listed_tip(tip_of(site, d))
        }),
{
    lemma_names();
    reveal_strlit("");
    let empty = Seq::<char>::empty();
    assert(d + ""@ =~= d);
    let format = "%h%x1f%cr%x1f%s"@;
    let opt = "--format="@ + format;
    assert(starts_with(opt, "--format="@) && opt.skip(9) == format) by {
        reveal_strlit("--format=");
        assert(opt.take(9) =~= "--format="@);
        assert(opt.skip(9) =~= format);
    }
    let set = Command::Assign("fmt"@, Word::Single(format));
    let s1 = run(machine, set, input, stage);
    assert(is_at(s1, git, d));
    assert(variable(s1, "fmt"@) == format);
    let w2 = seq![
        Word::Bare("rgit"@),
        Word::Double("d"@, ""@),
        Word::Bare("log"@),
        Word::Bare("-1"@),
        Word::Option("--format="@, "fmt"@),
        Word::Redirect("2>/dev/null"@),
    ];
    let a2 = seq!["rgit"@, d, "log"@, "-1"@, opt, "2>/dev/null"@];
    let i2 = Stage { out: empty, ..s1 };
    assert(arguments(i2, w2) =~= a2) by {
        reveal_with_fuel(arguments, 7);
    }
    assert(shows(a2, input, machine(s1.ran, a2, input), site));
    lemma_tip_captured(machine, w2, a2, (site.tip)(d), input, s1, site);
    let cut = seq![Word::Bare("head"@), Word::Bare("-n"@), Word::Bare("1"@)];
    let ask = Command::Capture(
        "last"@,
        Box::new(Command::Pipe(Box::new(Command::Run(w2)), Box::new(Command::Run(cut)))),
    );
    let s2 = run(machine, ask, input, s1);
    let last = listed_tip((site.tip)(d));
    assert(variable(s2, "last"@) == last);
    assert(is_at(s2, git, d));
    assert(last + ""@ =~= last);
    let w3 = seq![
        Word::Bare("["@),
        Word::Bare("-z"@),
        Word::Double("last"@, ""@),
        Word::Bare("]"@),
    ];
    let a3 = seq!["["@, "-z"@, last, "]"@];
    assert(arguments(s2, w3) =~= a3) by {
        reveal_with_fuel(arguments, 5);
    }
    lemma_program_run(machine, w3, a3, input, s2);
    assert(is_usual(a3, input, machine(s2.ran, a3, input)));
    let s3 = run(machine, Command::Run(w3), input, s2);
    assert(s3.ok == (last.len() == 0));
    assert(s3.ok == ((site.tip)(d) is None)) by {
        if let Some(c) = (site.tip)(d) {
            assert(last.len() >= 2);
        }
    }
    assert(s3.out =~= stage.out);
    let w4 = seq![
        Word::Bare("rgit"@),
        Word::Double("d"@, ""@),
        Word::Bare("log"@),
        Word::Bare("-1"@),
        Word::Bare("--all"@),
        Word::Option("--format="@, "fmt"@),
        Word::Redirect("2>/dev/null"@),
    ];
    let a4 = seq!["rgit"@, d, "log"@, "-1"@, "--all"@, opt, "2>/dev/null"@];
    let i4 = Stage { out: empty, ..s3 };
    assert(arguments(i4, w4) =~= a4) by {
        reveal_with_fuel(arguments, 8);
    }
    assert(shows(a4, input, machine(s3.ran, a4, input), site));
    lemma_tip_captured(machine, w4, a4, (site.any_tip)(d), input, s3, site);
    let ask_all = Command::Capture(
        "last"@,
        Box::new(Command::Pipe(Box::new(Command::Run(w4)), Box::new(Command::Run(cut)))),
    );
    let s4 = run(machine, ask_all, input, s3);
    let again = Command::IfLines(Box::new(Command::Run(w3)), Box::new(ask_all), "    "@);
    let s5 = run(machine, again, input, s2);
    assert(s5 == if s3.ok {
        s4
    } else {
        Stage { ok: true, ..s3 }
    });
    let rest = Command::Lines(Box::new(ask), Box::new(again), "    "@);
    assert(run(machine, rest, input, s1) == s5);
    let all = Command::Lines(Box::new(set), Box::new(rest), "    "@);
    assert(found_lines() == all);
    assert(run(machine, all, input, stage) == s5);
}

/// The line that prints a repository.
proof fn lemma_row_run(
    machine: Machine,
    site: Site,
    input: Seq<char>,
    stage: Stage,
    repo: RepoView,
)
    requires
        hosts(machine, site),
        stage.flow is On,
        variable(stage, "d"@) == repo.path,
        variable(stage, "bare"@) == (if repo.bare {
            "1"@
        } else {
            "0"@
        }),
        variable(stage, "desc"@) == repo.description,
        variable(stage, "last"@) == (match repo.last {
            Some(b) => brief_text(b),
            None => Seq::empty(),
        }),
    ensures
        ({
            let end = run(machine, row_line(), input, stage);
            &&& end.flow is On
            &&& end.vars == stage.vars
            &&& end.out == stage.out + (row(repo) + "\n"@)
        }),
{
    reveal_strlit("");
    reveal_strlit("\n");
    let a = variable(stage, "d"@);
    let b = variable(stage, "bare"@);
    let c = variable(stage, "desc"@);
    let d = variable(stage, "last"@);
    assert(a + ""@ =~= a);
    assert(b + ""@ =~= b);
    assert(c + ""@ =~= c);
    assert(d + ""@ =~= d);
    let words = seq![
        Word::Bare("printf"@),
        Word::Single("%s\\t%s\\t%s\\t%s\\n"@),
        Word::Double("d"@, ""@),
        Word::Double("bare"@, ""@),
        Word::Double("desc"@, ""@),
        Word::Double("last"@, ""@),
    ];
    let args = seq!["printf"@, "%s\\t%s\\t%s\\t%s\\n"@, a, b, c, d];
    assert(arguments(stage, words) =~= args) by {
        reveal_with_fuel(arguments, 7);
    }
    lemma_program_run(machine, words, args, input, stage);
    assert(shows(args, input, machine(stage.ran, args, input), site));
    assert(row(repo) + "\n"@ =~= a + seq!['\t'] + b + seq!['\t'] + c + seq!['\t'] + d + seq!['\n']);
}

proof fn lemma_then_run(machine: Machine, a: Command, b: Command, input: Seq<char>, stage: Stage)
    ensures
        run(machine, then_line(a, b), input, stage) == ({
            let first = run(machine, a, input, stage);
            if first.flow is On {
                run(machine, b, input, first)
            } else {
                first
            }
        }),
{
}

/// One round over the `HEAD`s.
#[verifier::spinoff_prover]
#[verifier::rlimit(100)]
proof fn lemma_head_run(
    machine: Machine,
    site: Site,
    git: Seq<char>,
    head: Seq<char>,
    input: Seq<char>,
    stage: Stage,
)
    requires
        is_posix(machine),
        hosts(machine, site),
        is_listable(site, git, head),
        stage.flow is On,
        variable(stage, "GIT"@) == git,
        variable(stage, "h"@) == head,
    ensures
        ({
            let end = run(machine, head_lines(), input, stage);
            &&& end.out == stage.out + match repo_at(site, git, head) {
                Some(repo) => row(repo) + "\n"@,
                None => Seq::empty(),
            }
            &&& end.flow is On || end.flow is Round
            &&& variable(end, "GIT"@) == git
        }),
{
    lemma_names();
    reveal_strlit("");
    let empty = Seq::<char>::empty();
    let d = dir_of(head);
    let end = run(machine, head_lines(), input, stage);
    let l7 = then_line(tip_lines(), row_line());
    let l6 = then_line(no_tip_line(), l7);
    let l5 = then_line(tree_line(), l6);
    let l4 = then_line(bare_line(), l5);
    let l3 = then_line(description_lines(), l4);
    let l2 = then_line(no_description_line(), l3);
    let l1 = then_line(repo_line(), l2);
    assert(head_lines() == then_line(dirname_line(), l1));
    // The directory.
    assert(head + ""@ =~= head);
    let w0 = seq![Word::Bare("dirname"@), Word::Double("h"@, ""@)];
    let a0 = seq!["dirname"@, head];
    let i0 = Stage { out: empty, ..stage };
    assert(arguments(i0, w0) =~= a0) by {
        reveal_with_fuel(arguments, 3);
    }
    lemma_program_run(machine, w0, a0, input, i0);
    assert(shows(a0, input, machine(i0.ran, a0, input), site));
    assert(!d.contains('\n')) by {
        if d.contains('\n') {
            let i = choose|i: int| 0 <= i < d.len() && d[i] == '\n';
            assert(head[i] == '\n');
        }
    }
    lemma_chomped_line(d);
    let s0 = run(machine, dirname_line(), input, stage);
    assert(empty + (d + "\n"@) =~= d + "\n"@);
    assert(s0.vars == stage.vars.insert("d"@, d));
    assert(is_at(s0, git, d));
    lemma_then_run(machine, dirname_line(), l1, input, stage);
    // Is it a repository?
    let w1 = seq![
        Word::Bare("["@),
        Word::Bare("-d"@),
        Word::Double("d"@, "/objects"@),
        Word::Bare("]"@),
    ];
    let a1 = seq!["["@, "-d"@, d + "/objects"@, "]"@];
    assert(arguments(s0, w1) =~= a1) by {
        reveal_with_fuel(arguments, 5);
    }
    lemma_program_run(machine, w1, a1, input, s0);
    assert(shows(a1, input, machine(s0.ran, a1, input), site));
    let s1 = run(machine, Command::Run(w1), input, s0);
    assert(s1.out =~= stage.out);
    let w2 = seq![
        Word::Bare("["@),
        Word::Bare("-d"@),
        Word::Double("d"@, "/refs"@),
        Word::Bare("]"@),
    ];
    let a2 = seq!["["@, "-d"@, d + "/refs"@, "]"@];
    assert(arguments(s1, w2) =~= a2) by {
        reveal_with_fuel(arguments, 5);
    }
    lemma_program_run(machine, w2, a2, input, s1);
    assert(shows(a2, input, machine(s1.ran, a2, input), site));
    let s2 = run(machine, Command::Run(w2), input, s1);
    assert(s2.out =~= stage.out);
    let both = Command::And(Box::new(Command::Run(w1)), Box::new(Command::Run(w2)));
    let s3 = run(machine, both, input, s0);
    assert(s3 == if s1.ok {
        s2
    } else {
        s1
    });
    let s4 = run(machine, repo_line(), input, s0);
    lemma_then_run(machine, repo_line(), l2, input, s0);
    if s3.ok {
        assert(s4 == s3);
        assert(is_at(s4, git, d));
        assert(end == run(machine, l2, input, s4));
        let repo = repo_at(site, git, head)->0;
        assert(repo_at(site, git, head) is Some);
        let s5 = run(machine, no_description_line(), input, s4);
        let s6 = run(machine, description_lines(), input, s5);
        lemma_description_run(machine, site, git, d, input, s4);
        lemma_then_run(machine, no_description_line(), l3, input, s4);
        lemma_then_run(machine, description_lines(), l4, input, s5);
        let s7 = run(machine, bare_line(), input, s6);
        let s8 = run(machine, tree_line(), input, s7);
        lemma_bare_run(machine, git, d, input, s6);
        lemma_then_run(machine, bare_line(), l5, input, s6);
        lemma_then_run(machine, tree_line(), l6, input, s7);
        let s9 = run(machine, no_tip_line(), input, s8);
        let s10 = run(machine, tip_lines(), input, s9);
        lemma_tip_run(machine, site, git, d, input, s8);
        lemma_then_run(machine, no_tip_line(), l7, input, s8);
        lemma_then_run(machine, tip_lines(), row_line(), input, s9);
        let s11 = run(machine, row_line(), input, s10);
        lemma_row_run(machine, site, input, s10, repo);
        assert(end == s11);
    } else {
        assert(s4 == run(machine, Command::Continue, input, s3));
        assert(end == s4);
        assert(repo_at(site, git, head) is None);
        assert(stage.out + empty =~= stage.out);
    }
}

/// The loop over the `HEAD`s prints a row for every repository.
proof fn lemma_heads_run(
    machine: Machine,
    site: Site,
    git: Seq<char>,
    heads: Seq<Seq<char>>,
    input: Seq<char>,
    stage: Stage,
)
    requires
        is_posix(machine),
        hosts(machine, site),
        forall|i: int| 0 <= i < heads.len() ==> is_listable(site, git, #[trigger] heads[i]),
        stage.flow is On,
        variable(stage, "GIT"@) == git,
    ensures
        ({
            let end = rounds(machine, "h"@, heads, head_lines(), input, stage);
            &&& end.out == stage.out + printed(
                repos_at(site, git, heads).map_values(|r: RepoView| row(r)),
            )
            &&& end.flow is On
            &&& variable(end, "GIT"@) == git
        }),
    decreases heads.len(),
{
    lemma_names();
    let rows = repos_at(site, git, heads).map_values(|r: RepoView| row(r));
    if heads.len() == 0 {
        assert(rows =~= Seq::empty());
        assert(stage.out + Seq::<char>::empty() =~= stage.out);
    } else {
        let rest = heads.drop_last();
        let head = heads.last();
        assert(head == heads[heads.len() - 1]);
        assert forall|i: int| 0 <= i < rest.len() implies is_listable(
            site,
            git,
            #[trigger] rest[i],
        ) by {
            assert(rest[i] == heads[i]);
        }
        lemma_heads_run(machine, site, git, rest, input, stage);
        let before = rounds(machine, "h"@, rest, head_lines(), input, stage);
        let entered = Stage { vars: before.vars.insert("h"@, head), ..before };
        lemma_head_run(machine, site, git, head, input, entered);
        let done = repos_at(site, git, rest).map_values(|r: RepoView| row(r));
        match repo_at(site, git, head) {
            Some(repo) => {
                assert(rows =~= done + seq![row(repo)]);
                lemma_printed_concat(done, seq![row(repo)]);
                lemma_printed_one(row(repo));
                assert(stage.out + printed(done) + (row(repo) + "\n"@) =~= stage.out + (printed(done)
                    + (row(repo) + "\n"@)));
            },
            None => {
                assert(rows == done);
                assert(stage.out + printed(done) + Seq::<char>::empty() =~= stage.out + printed(
                    done,
                ));
            },
        }
    }
}

proof fn lemma_root_arguments(stage: Stage, roots: Seq<Seq<char>>)
    ensures
        arguments(stage, root_words(roots)) == roots,
    decreases roots.len(),
{
    let words = root_words(roots);
    if roots.len() > 0 {
        let head = roots.drop_last();
        lemma_root_arguments(stage, head);
        assert(words.drop_last() =~= root_words(head));
        assert(words.last() == Word::Single(roots.last()));
        assert(head.push(roots.last()) =~= roots);
    } else {
        assert(arguments(stage, words) =~= roots);
    }
}

proof fn lemma_repos_printable(site: Site, git: Seq<char>, heads: Seq<Seq<char>>)
    requires
        forall|i: int| 0 <= i < heads.len() ==> is_listable(site, git, #[trigger] heads[i]),
    ensures
        forall|i: int|
            0 <= i < repos_at(site, git, heads).len() ==> is_printable(
                #[trigger] repos_at(site, git, heads)[i],
            ),
    decreases heads.len(),
{
    if heads.len() > 0 {
        let rest = heads.drop_last();
        assert(heads.last() == heads[heads.len() - 1]);
        assert forall|i: int| 0 <= i < rest.len() implies is_listable(
            site,
            git,
            #[trigger] rest[i],
        ) by {
            assert(rest[i] == heads[i]);
        }
        lemma_repos_printable(site, git, rest);
        let all = repos_at(site, git, heads);
        let some = repos_at(site, git, rest);
        assert forall|i: int| 0 <= i < all.len() implies is_printable(#[trigger] all[i]) by {
            if i < some.len() {
                assert(all[i] == some[i]);
            }
        }
    }
}

/// The line that says that there is no git.
proof fn lemma_no_git_run(machine: Machine, git: Seq<char>, stage: Stage)
    requires
        is_posix(machine),
        stage.flow is On,
        variable(stage, "GIT"@) == git,
    ensures
        ({
            let end = run(machine, no_git_line(), Seq::empty(), stage);
            &&& end.flow is On
            &&& end.out == stage.out + if git.len() == 0 {
                "<<<NOGIT"@ + "\n"@
            } else {
                Seq::empty()
            }
        }),
{
    lemma_names();
    reveal_strlit("");
    let empty = Seq::<char>::empty();
    assert(git + ""@ =~= git);
    let w1 = seq![Word::Bare("["@), Word::Bare("-n"@), Word::Double("GIT"@, ""@), Word::Bare("]"@)];
    let a1 = seq!["["@, "-n"@, git, "]"@];
    assert(arguments(stage, w1) =~= a1) by {
        reveal_with_fuel(arguments, 5);
    }
    lemma_program_run(machine, w1, a1, empty, stage);
    assert(is_usual(a1, empty, machine(stage.ran, a1, empty)));
    let s1 = run(machine, Command::Run(w1), empty, stage);
    assert(s1.out =~= stage.out);
    let w2 = seq![Word::Bare("echo"@), Word::Single("<<<NOGIT"@)];
    let a2 = seq!["echo"@, "<<<NOGIT"@];
    assert(arguments(s1, w2) =~= a2) by {
        reveal_with_fuel(arguments, 3);
    }
    lemma_program_run(machine, w2, a2, empty, s1);
    assert(is_usual(a2, empty, machine(s1.ran, a2, empty)));
    let s2 = run(machine, Command::Run(w2), empty, s1);
    assert(run(machine, no_git_line(), empty, stage) == if s1.ok {
        s1
    } else {
        s2
    });
    assert(stage.out + empty =~= stage.out);
}

/// The scan script, run on a server, lists what is there. It goes through the roots
/// that are not blank, in their order, and passes over those that are no directories.
/// Every directory with a file `HEAD`, at most five levels below a root, that also has
/// objects and references is listed, once for each such file, and nothing else is. It
/// counts as bare unless it is the `.git` of a working copy. Its description is the
/// first line of the file, but not the one that git puts there. Its tip commit is the
/// one of the branch that is checked out, or of any branch where that has none. That
/// there is no git is said exactly if there is none.
pub proof fn law_scan_script_lists_what_is_there(
    machine: Machine,
    site: Site,
    git: Seq<char>,
    roots: Seq<Seq<char>>,
)
    requires
        is_posix(machine),
        hosts(machine, site),
        nonblank(roots).len() > 0,
        forall|i: int|
            0 <= i < heads_below(site, nonblank(roots)).len() ==> is_listable(
                site,
                git,
                #[trigger] heads_below(site, nonblank(roots))[i],
            ),
    ensures
        ({
            let program = scan_program(nonblank(roots));
            let end = run(machine, program, Seq::empty(), git_found(git));
            &&& scan(roots) == Ok::<Seq<char>, Fault>(GIT_PREAMBLE@ + text(program))
            &&& is_grouped(program)
            &&& end.flow is On
            &&& listing(end.out) == (ListView {
                repos: repos_at(site, git, heads_below(site, nonblank(roots))),
                no_git: git.len() == 0,
            })
        }),
{
    lemma_names();
    lemma_scan_text(roots);
    reveal_strlit("");
    let empty = Seq::<char>::empty();
    let kept = nonblank(roots);
    let heads = heads_below(site, kept);
    let stage = git_found(git);
    let each = Command::For("r"@, root_words(kept), Box::new(root_lines()));
    let read = Command::WhileRead("h"@, Box::new(head_lines()));
    let pipe = Command::Pipe(Box::new(each), Box::new(read));
    let i0 = Stage { out: empty, ..stage };
    lemma_root_arguments(i0, kept);
    lemma_roots_run(machine, site, kept, empty, i0);
    let s1 = run(machine, each, empty, i0);
    assert(s1.out =~= printed(heads));
    assert forall|i: int| 0 <= i < heads.len() implies is_line(#[trigger] heads[i]) by {
        assert(is_listable(site, git, heads[i]));
    }
    lemma_lines_printed(heads);
    let i1 = Stage { ran: s1.ran, out: empty, ..stage };
    lemma_heads_run(machine, site, git, heads, s1.out, i1);
    let s2 = run(machine, read, s1.out, i1);
    let repos = repos_at(site, git, heads);
    let rows = repos.map_values(|r: RepoView| row(r));
    assert(s2.out =~= printed(rows));
    let s3 = run(machine, pipe, empty, stage);
    assert(s3.out =~= printed(rows));
    assert(s3.flow is On);
    assert(variable(s3, "GIT"@) == git);
    lemma_no_git_run(machine, git, s3);
    let end = run(machine, no_git_line(), empty, s3);
    assert(run(machine, scan_program(kept), empty, stage) == end);
    let no_git = git.len() == 0;
    lemma_printed_concat(rows, seq!["<<<NOGIT"@]);
    lemma_printed_one("<<<NOGIT"@);
    assert(rows.push("<<<NOGIT"@) =~= rows + seq!["<<<NOGIT"@]);
    assert(end.out =~= printed(scan_lines(repos, no_git)));
    lemma_repos_printable(site, git, heads);
    law_scan_is_read_back(repos, no_git);
}

} // verus!
