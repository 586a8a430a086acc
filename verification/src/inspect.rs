//! What the detail script does on a server, and that what it prints is what the
//! server knows of the repository.
use vstd::prelude::*;
use crate::detail::{
    commit_text, detail, detail_lines, inspection, is_printable_commit, is_printable_line,
    law_commit_is_read_back, law_detail_is_read_back, DETAIL_ALL, DETAIL_LOG, DETAIL_REST,
};
use crate::quote::single_quoted;
use crate::shell::{
    arguments, chomped, is_grouped, lemma_single_quoted_plain, phrase, run, start, text,
    variable, Command, Machine, Stage, Word,
};
use crate::ssh::{CommitView, DetailView, GIT_PREAMBLE, LOG_LIMIT};
use crate::text::{
    before, decimal, lemma_before_is, lemma_parsed_decimal, parsed_u16, printed, starts_with,
    trimmed_end,
};

verus! {

/// `echo '<<<name'`.
pub open spec fn mark_line(name: Seq<char>) -> Command {
    Command::Run(seq![Word::Bare("echo"@), Word::Single("<<<"@ + name)])
}

/// `fmt=..`: what is asked of each commit.
pub open spec fn format_line() -> Command {
    Command::Assign("fmt"@, Word::Single("%h%x1f%an%x1f%cI%x1f%cr%x1f%s"@))
}

/// The log of the branch that is checked out.
pub open spec fn log_line(limit: Seq<char>) -> Command {
    Command::Capture(
        "log"@,
        Box::new(
            Command::Run(
                seq![
                    Word::Bare("rgit"@),
                    Word::Double("d"@, ""@),
                    Word::Bare("log"@),
                    Word::Bare("-n"@),
                    Word::Bare(limit),
                    Word::Option("--format="@, "fmt"@),
                    Word::Redirect("2>&1"@),
                ],
            ),
        ),
    )
}

/// `ok=$?`.
pub open spec fn status_line() -> Command {
    Command::Assign("ok"@, Word::Variable("?"@))
}

/// The log could not be read, or is empty.
pub open spec fn log_is_missing() -> Command {
    Command::Or(
        Box::new(
            Command::Run(
                seq![
                    Word::Bare("["@),
                    Word::Variable("ok"@),
                    Word::Bare("-ne"@),
                    Word::Bare("0"@),
                    Word::Bare("]"@),
                ],
            ),
        ),
        Box::new(
            Command::Run(
                seq![
                    Word::Bare("["@),
                    Word::Bare("-z"@),
                    Word::Double("log"@, ""@),
                    Word::Bare("]"@),
                ],
            ),
        ),
    )
}

/// The log of all branches.
pub open spec fn all_line(limit: Seq<char>) -> Command {
    Command::Capture(
        "alt"@,
        Box::new(
            Command::Run(
                seq![
                    Word::Bare("rgit"@),
                    Word::Double("d"@, ""@),
                    Word::Bare("log"@),
                    Word::Bare("-n"@),
                    Word::Bare(limit),
                    Word::Bare("--all"@),
                    Word::Option("--format="@, "fmt"@),
                    Word::Redirect("2>&1"@),
                ],
            ),
        ),
    )
}

/// The log of all branches counts if it could be read and is not empty.
pub open spec fn take_line() -> Command {
    Command::If(
        Box::new(
            Command::And(
                Box::new(
                    Command::Run(
                        seq![
                            Word::Bare("["@),
                            Word::Variable("?"@),
                            Word::Bare("-eq"@),
                            Word::Bare("0"@),
                            Word::Bare("]"@),
                        ],
                    ),
                ),
                Box::new(
                    Command::Run(
                        seq![
                            Word::Bare("["@),
                            Word::Bare("-n"@),
                            Word::Double("alt"@, ""@),
                            Word::Bare("]"@),
                        ],
                    ),
                ),
            ),
        ),
        Box::new(Command::Assign("log"@, Word::Variable("alt"@))),
    )
}

/// The line that prints the log.
pub open spec fn show_line() -> Command {
    Command::Run(seq![Word::Bare("printf"@), Word::Single("%s\\n"@), Word::Double("log"@, ""@)])
}

/// The names of the branches, the last one changed first.
pub open spec fn refs_line() -> Command {
    Command::Run(
        seq![
            Word::Bare("rgit"@),
            Word::Double("d"@, ""@),
            Word::Bare("for-each-ref"@),
            Word::Bare("--sort=-committerdate"@),
            Word::Fixed("--format="@, "%(refname:short)"@),
            Word::Bare("refs/heads"@),
            Word::Redirect("2>/dev/null"@),
        ],
    )
}

/// What `HEAD` holds.
pub open spec fn head_line() -> Command {
    Command::Run(
        seq![Word::Bare("cat"@), Word::Double("d"@, "/HEAD"@), Word::Redirect("2>/dev/null"@)],
    )
}

/// The size of the repository.
pub open spec fn size_line() -> Command {
    Command::Pipe(
        Box::new(
            Command::Run(
                seq![
                    Word::Bare("du"@),
                    Word::Bare("-sh"@),
                    Word::Double("d"@, ""@),
                    Word::Redirect("2>/dev/null"@),
                ],
            ),
        ),
        Box::new(Command::Run(seq![Word::Bare("cut"@), Word::Bare("-f1"@)])),
    )
}

/// The version of git.
pub open spec fn version_line() -> Command {
    Command::IfElse(
        Box::new(
            Command::Run(
                seq![
                    Word::Bare("["@),
                    Word::Bare("-n"@),
                    Word::Double("GIT"@, ""@),
                    Word::Bare("]"@),
                ],
            ),
        ),
        Box::new(
            Command::Pipe(
                Box::new(
                    Command::Run(
                        seq![
                            Word::Double("GIT"@, ""@),
                            Word::Bare("--version"@),
                            Word::Redirect("2>&1"@),
                        ],
                    ),
                ),
                Box::new(
                    Command::Run(seq![Word::Bare("head"@), Word::Bare("-n"@), Word::Bare("1"@)]),
                ),
            ),
        ),
        Box::new(
            Command::Run(
                seq![
                    Word::Bare("echo"@),
                    Word::Single("git was not found on the server (install the Git Server package)"@),
                ],
            ),
        ),
    )
}

/// If the log of the branch is missing, the log of all branches is tried.
pub open spec fn fallback_lines(limit: Seq<char>) -> Command {
    Command::IfLines(
        Box::new(log_is_missing()),
        Box::new(Command::Lines(Box::new(all_line(limit)), Box::new(take_line()), "  "@)),
        ""@,
    )
}

/// The lines of the script from the log on.
pub open spec fn report_lines() -> Command {
    after(
        show_line(),
        after(
            mark_line("BRANCHES"@),
            after(
                refs_line(),
                after(
                    mark_line("HEAD"@),
                    after(
                        head_line(),
                        after(
                            mark_line("SIZE"@),
                            after(size_line(), after(mark_line("GIT"@), version_line())),
                        ),
                    ),
                ),
            ),
        ),
    )
}

/// `a` on a line and `b` on the lines below.
pub open spec fn after(a: Command, b: Command) -> Command {
    Command::Lines(Box::new(a), Box::new(b), ""@)
}

/// What the detail script says behind the part that finds git, as a program of the
/// shell: it asks for at most `limit` commits.
pub open spec fn detail_program(path: Seq<char>, limit: Seq<char>) -> Command {
    after(
        Command::Assign("d"@, Word::Single(path)),
        after(
            mark_line("LOG"@),
            after(
                format_line(),
                after(
                    log_line(limit),
                    after(status_line(), after(fallback_lines(limit), report_lines())),
                ),
            ),
        ),
    )
}

proof fn lemma_format_line_text()
    ensures
        text(format_line()) == "fmt='%h%x1f%an%x1f%cI%x1f%cr%x1f%s'"@,
        is_grouped(format_line()),
{
    reveal_strlit("%h%x1f%an%x1f%cI%x1f%cr%x1f%s");
    reveal_strlit("'");
    reveal_strlit("=");
    reveal_strlit("fmt");
    reveal_strlit("fmt='%h%x1f%an%x1f%cI%x1f%cr%x1f%s'");
    lemma_single_quoted_plain("%h%x1f%an%x1f%cI%x1f%cr%x1f%s"@);
    assert(text(format_line()) =~= "fmt='%h%x1f%an%x1f%cI%x1f%cr%x1f%s'"@);
}

proof fn lemma_log_line_text(limit: Seq<char>)
    ensures
        text(log_line(limit)) == "log=$(rgit \"$d\" log -n "@ + limit + " --format=\"$fmt\" 2>&1)"@,
        is_grouped(log_line(limit)),
{
    reveal_strlit("");
    reveal_strlit(" ");
    reveal_strlit(" --format=\"$fmt\" 2>&1)");
    reveal_strlit("\"");
    reveal_strlit("\"$");
    reveal_strlit(")");
    reveal_strlit("--format=");
    reveal_strlit("-n");
    reveal_strlit("2>&1");
    reveal_strlit("=$(");
    reveal_strlit("d");
    reveal_strlit("fmt");
    reveal_strlit("log");
    reveal_strlit("log=$(rgit \"$d\" log -n ");
    reveal_strlit("rgit");
    reveal_with_fuel(phrase, 8);
    reveal_with_fuel(text, 3);
    reveal_with_fuel(is_grouped, 3);
    assert(
        text(log_line(limit)) =~= "log=$(rgit \"$d\" log -n "@ + limit + " --format=\"$fmt\" 2>&1)"@
    );
}

proof fn lemma_status_line_text()
    ensures
        text(status_line()) == "ok=$?"@,
        is_grouped(status_line()),
{
    reveal_strlit("$");
    reveal_strlit("=");
    reveal_strlit("?");
    reveal_strlit("ok");
    reveal_strlit("ok=$?");
    assert(text(status_line()) =~= "ok=$?"@);
}

proof fn lemma_show_line_text()
    ensures
        text(show_line()) == "printf '%s\\n' \"$log\""@,
        is_grouped(show_line()),
{
    reveal_strlit("");
    reveal_strlit(" ");
    reveal_strlit("\"");
    reveal_strlit("\"$");
    reveal_strlit("%s\\n");
    reveal_strlit("'");
    reveal_strlit("log");
    reveal_strlit("printf");
    reveal_strlit("printf '%s\\n' \"$log\"");
    lemma_single_quoted_plain("%s\\n"@);
    reveal_with_fuel(phrase, 4);
    assert(text(show_line()) =~= "printf '%s\\n' \"$log\""@);
}

#[verifier::spinoff_prover]
#[verifier::rlimit(30)]
proof fn lemma_refs_line_text()
    ensures
        text(
            refs_line(),
        ) == "rgit \"$d\" for-each-ref --sort=-committerdate --format='%(refname:short)' refs/heads 2>/dev/null"@,
        is_grouped(refs_line()),
{
    reveal_strlit("");
    reveal_strlit(" ");
    reveal_strlit("\"");
    reveal_strlit("\"$");
    reveal_strlit("%(refname:short)");
    reveal_strlit("'");
    reveal_strlit("--format=");
    reveal_strlit("--sort=-committerdate");
    reveal_strlit("2>/dev/null");
    reveal_strlit("d");
    reveal_strlit("for-each-ref");
    reveal_strlit("refs/heads");
    reveal_strlit("rgit");
    reveal_strlit("rgit \"$d\" for-each-ref --sort=-committerdate --format='%(refname:short)' refs/heads 2>/dev/null");
    lemma_single_quoted_plain("%(refname:short)"@);
    reveal_with_fuel(phrase, 8);
    assert(
        text(
            refs_line(),
        ) =~= "rgit \"$d\" for-each-ref --sort=-committerdate --format='%(refname:short)' refs/heads 2>/dev/null"@
    );
}

proof fn lemma_head_line_text()
    ensures
        text(head_line()) == "cat \"$d/HEAD\" 2>/dev/null"@,
        is_grouped(head_line()),
{
    reveal_strlit(" ");
    reveal_strlit("\"");
    reveal_strlit("\"$");
    reveal_strlit("/HEAD");
    reveal_strlit("2>/dev/null");
    reveal_strlit("cat");
    reveal_strlit("cat \"$d/HEAD\" 2>/dev/null");
    reveal_strlit("d");
    reveal_with_fuel(phrase, 4);
    assert(text(head_line()) =~= "cat \"$d/HEAD\" 2>/dev/null"@);
}

proof fn lemma_size_line_text()
    ensures
        text(size_line()) == "du -sh \"$d\" 2>/dev/null | cut -f1"@,
        is_grouped(size_line()),
{
    reveal_strlit("");
    reveal_strlit(" ");
    reveal_strlit(" | ");
    reveal_strlit("\"");
    reveal_strlit("\"$");
    reveal_strlit("-f1");
    reveal_strlit("-sh");
    reveal_strlit("2>/dev/null");
    reveal_strlit("cut");
    reveal_strlit("d");
    reveal_strlit("du");
    reveal_strlit("du -sh \"$d\" 2>/dev/null | cut -f1");
    reveal_with_fuel(phrase, 5);
    reveal_with_fuel(text, 3);
    reveal_with_fuel(is_grouped, 3);
    assert(text(size_line()) =~= "du -sh \"$d\" 2>/dev/null | cut -f1"@);
}

#[verifier::spinoff_prover]
#[verifier::rlimit(30)]
proof fn lemma_version_line_text()
    ensures
        text(
            version_line(),
        ) == "if [ -n \"$GIT\" ]; then \"$GIT\" --version 2>&1 | head -n 1; else echo 'git was not found on the server (install the Git Server package)'; fi"@,
        is_grouped(version_line()),
{
    reveal_strlit("");
    reveal_strlit(" ");
    reveal_strlit(" | ");
    reveal_strlit("\"");
    reveal_strlit("\"$");
    reveal_strlit("'");
    reveal_strlit("--version");
    reveal_strlit("-n");
    reveal_strlit("1");
    reveal_strlit("2>&1");
    reveal_strlit("; else ");
    reveal_strlit("; fi");
    reveal_strlit("; then ");
    reveal_strlit("GIT");
    reveal_strlit("[");
    reveal_strlit("]");
    reveal_strlit("echo");
    reveal_strlit("git was not found on the server (install the Git Server package)");
    reveal_strlit("head");
    reveal_strlit("if ");
    reveal_strlit("if [ -n \"$GIT\" ]; then \"$GIT\" --version 2>&1 | head -n 1; else echo 'git was not found on the server (install the Git Server package)'; fi");
    lemma_single_quoted_plain("git was not found on the server (install the Git Server package)"@);
    reveal_with_fuel(phrase, 5);
    reveal_with_fuel(text, 4);
    reveal_with_fuel(is_grouped, 4);
    assert(
        text(
            version_line(),
        ) =~= "if [ -n \"$GIT\" ]; then \"$GIT\" --version 2>&1 | head -n 1; else echo 'git was not found on the server (install the Git Server package)'; fi"@
    );
}

proof fn lemma_mark_line_text(name: Seq<char>)
    requires
        !name.contains('\''),
    ensures
        text(mark_line(name)) == "echo '<<<"@ + name + "'"@,
        is_grouped(mark_line(name)),
{
    reveal_strlit("echo");
    reveal_strlit("<<<");
    reveal_strlit(" ");
    reveal_strlit("'");
    reveal_strlit("echo '<<<");
    let s = "<<<"@ + name;
    assert(!s.contains('\'')) by {
        if s.contains('\'') {
            let i = choose|i: int| 0 <= i < s.len() && s[i] == '\'';
            if i >= 3 {
                assert(name[i - 3] == '\'');
            }
        }
    }
    lemma_single_quoted_plain(s);
    reveal_with_fuel(phrase, 3);
    assert(text(mark_line(name)) =~= "echo '<<<"@ + name + "'"@);
}

proof fn lemma_after_text(a: Command, b: Command)
    ensures
        text(after(a, b)) == text(a) + "\n"@ + text(b),
        is_grouped(a) && is_grouped(b) ==> is_grouped(after(a, b)),
{
    reveal_strlit("");
    assert(text(after(a, b)) =~= text(a) + "\n"@ + text(b));
}

proof fn lemma_marks()
    ensures
        text(mark_line("LOG"@)) == "echo '<<<LOG'"@,
        is_grouped(mark_line("LOG"@)),
        text(mark_line("BRANCHES"@)) == "echo '<<<BRANCHES'"@,
        is_grouped(mark_line("BRANCHES"@)),
        text(mark_line("HEAD"@)) == "echo '<<<HEAD'"@,
        is_grouped(mark_line("HEAD"@)),
        text(mark_line("SIZE"@)) == "echo '<<<SIZE'"@,
        is_grouped(mark_line("SIZE"@)),
        text(mark_line("GIT"@)) == "echo '<<<GIT'"@,
        is_grouped(mark_line("GIT"@)),
{
    reveal_strlit("echo '<<<");
    reveal_strlit("'");
    reveal_strlit("LOG");
    reveal_strlit("echo '<<<LOG'");
    lemma_mark_line_text("LOG"@);
    assert(text(mark_line("LOG"@)) =~= "echo '<<<LOG'"@);
    reveal_strlit("BRANCHES");
    reveal_strlit("echo '<<<BRANCHES'");
    lemma_mark_line_text("BRANCHES"@);
    assert(text(mark_line("BRANCHES"@)) =~= "echo '<<<BRANCHES'"@);
    reveal_strlit("HEAD");
    reveal_strlit("echo '<<<HEAD'");
    lemma_mark_line_text("HEAD"@);
    assert(text(mark_line("HEAD"@)) =~= "echo '<<<HEAD'"@);
    reveal_strlit("SIZE");
    reveal_strlit("echo '<<<SIZE'");
    lemma_mark_line_text("SIZE"@);
    assert(text(mark_line("SIZE"@)) =~= "echo '<<<SIZE'"@);
    reveal_strlit("GIT");
    reveal_strlit("echo '<<<GIT'");
    lemma_mark_line_text("GIT"@);
    assert(text(mark_line("GIT"@)) =~= "echo '<<<GIT'"@);
}

#[verifier::spinoff_prover]
#[verifier::rlimit(60)]
proof fn lemma_fallback_lines_text(limit: Seq<char>)
    ensures
        text(
            fallback_lines(limit),
        ) == "if [ $ok -ne 0 ] || [ -z \"$log\" ]; then\n  alt=$(rgit \"$d\" log -n "@
            + limit
            + " --all --format=\"$fmt\" 2>&1)\n  if [ $? -eq 0 ] && [ -n \"$alt\" ]; then log=$alt; fi\nfi"@,
        is_grouped(fallback_lines(limit)),
{
    reveal_strlit("");
    reveal_strlit("\n");
    reveal_strlit(" ");
    reveal_strlit("  ");
    reveal_strlit(" && ");
    reveal_strlit(" --all --format=\"$fmt\" 2>&1)\n  if [ $? -eq 0 ] && [ -n \"$alt\" ]; then log=$alt; fi\nfi");
    reveal_strlit(" || ");
    reveal_strlit("\"");
    reveal_strlit("\"$");
    reveal_strlit("$");
    reveal_strlit(")");
    reveal_strlit("--all");
    reveal_strlit("--format=");
    reveal_strlit("-eq");
    reveal_strlit("-n");
    reveal_strlit("-ne");
    reveal_strlit("-z");
    reveal_strlit("0");
    reveal_strlit("2>&1");
    reveal_strlit("; fi");
    reveal_strlit("; then\n");
    reveal_strlit("; then ");
    reveal_strlit("=");
    reveal_strlit("=$(");
    reveal_strlit("?");
    reveal_strlit("[");
    reveal_strlit("]");
    reveal_strlit("alt");
    reveal_strlit("d");
    reveal_strlit("fi");
    reveal_strlit("fmt");
    reveal_strlit("if ");
    reveal_strlit("if [ $ok -ne 0 ] || [ -z \"$log\" ]; then\n  alt=$(rgit \"$d\" log -n ");
    reveal_strlit("log");
    reveal_strlit("ok");
    reveal_strlit("rgit");
    reveal_with_fuel(phrase, 9);
    reveal_with_fuel(text, 6);
    reveal_with_fuel(is_grouped, 6);
    assert(
        text(
            fallback_lines(limit),
        ) =~= "if [ $ok -ne 0 ] || [ -z \"$log\" ]; then\n  alt=$(rgit \"$d\" log -n "@
            + limit
            + " --all --format=\"$fmt\" 2>&1)\n  if [ $? -eq 0 ] && [ -n \"$alt\" ]; then log=$alt; fi\nfi"@
    );
}

#[verifier::spinoff_prover]
#[verifier::rlimit(100)]
proof fn lemma_report_lines_text()
    ensures
        text(report_lines()) == "printf '%s\\n' \"$log\""@ + "\n"@ + "echo '<<<BRANCHES'"@ + "\n"@
            + "rgit \"$d\" for-each-ref --sort=-committerdate --format='%(refname:short)' refs/heads 2>/dev/null"@
            + "\n"@ + "echo '<<<HEAD'"@ + "\n"@ + "cat \"$d/HEAD\" 2>/dev/null"@ + "\n"@
            + "echo '<<<SIZE'"@ + "\n"@ + "du -sh \"$d\" 2>/dev/null | cut -f1"@ + "\n"@
            + "echo '<<<GIT'"@ + "\n"@
            + "if [ -n \"$GIT\" ]; then \"$GIT\" --version 2>&1 | head -n 1; else echo 'git was not found on the server (install the Git Server package)'; fi"@,
        is_grouped(report_lines()),
{
    lemma_marks();
    lemma_show_line_text();
    lemma_refs_line_text();
    lemma_head_line_text();
    lemma_size_line_text();
    lemma_version_line_text();
    let nl = "\n"@;
    let c0 = show_line();
    let c1 = mark_line("BRANCHES"@);
    let c2 = refs_line();
    let c3 = mark_line("HEAD"@);
    let c4 = head_line();
    let c5 = mark_line("SIZE"@);
    let c6 = size_line();
    let c7 = mark_line("GIT"@);
    let c8 = version_line();
    let b7 = after(c7, c8);
    lemma_after_text(c7, c8);
    assert(text(b7) =~= text(c7) + nl + text(c8));
    let b6 = after(c6, b7);
    lemma_after_text(c6, b7);
    assert(text(b6) =~= text(c6) + nl + text(c7) + nl + text(c8));
    let b5 = after(c5, b6);
    lemma_after_text(c5, b6);
    assert(text(b5) =~= text(c5) + nl + text(c6) + nl + text(c7) + nl + text(c8));
    let b4 = after(c4, b5);
    lemma_after_text(c4, b5);
    assert(text(b4) =~= text(c4) + nl + text(c5) + nl + text(c6) + nl + text(c7) + nl + text(c8));
    let b3 = after(c3, b4);
    lemma_after_text(c3, b4);
    assert(
        text(b3) =~= text(c3) + nl + text(c4) + nl + text(c5) + nl + text(c6) + nl + text(c7) + nl
            + text(c8)
    );
    let b2 = after(c2, b3);
    lemma_after_text(c2, b3);
    assert(
        text(b2) =~= text(c2) + nl + text(c3) + nl + text(c4) + nl + text(c5) + nl + text(c6) + nl
            + text(c7) + nl + text(c8)
    );
    let b1 = after(c1, b2);
    lemma_after_text(c1, b2);
    assert(
        text(b1) =~= text(c1) + nl + text(c2) + nl + text(c3) + nl + text(c4) + nl + text(c5) + nl
            + text(c6) + nl + text(c7) + nl + text(c8)
    );
    let b0 = after(c0, b1);
    lemma_after_text(c0, b1);
    assert(
        text(b0) =~= text(c0) + nl + text(c1) + nl + text(c2) + nl + text(c3) + nl + text(c4) + nl
            + text(c5) + nl + text(c6) + nl + text(c7) + nl + text(c8)
    );
    assert(report_lines() == b0);
}

proof fn lemma_report_text()
    ensures
        text(report_lines())
            == "printf '%s\\n' \"$log\"\necho '<<<BRANCHES'\nrgit \"$d\" for-each-ref --sort=-committerdate --format='%(refname:short)' refs/heads 2>/dev/null\necho '<<<HEAD'\ncat \"$d/HEAD\" 2>/dev/null\necho '<<<SIZE'\ndu -sh \"$d\" 2>/dev/null | cut -f1\necho '<<<GIT'\nif [ -n \"$GIT\" ]; then \"$GIT\" --version 2>&1 | head -n 1; else echo 'git was not found on the server (install the Git Server package)'; fi"@,
        is_grouped(report_lines()),
{
    lemma_report_lines_text();
    lemma_report_parts();
}

#[verifier::spinoff_prover]
#[verifier::rlimit(100)]
proof fn lemma_report_parts()
    ensures
        "printf '%s\\n' \"$log\"\necho '<<<BRANCHES'\nrgit \"$d\" for-each-ref --sort=-committerdate --format='%(refname:short)' refs/heads 2>/dev/null\necho '<<<HEAD'\ncat \"$d/HEAD\" 2>/dev/null\necho '<<<SIZE'\ndu -sh \"$d\" 2>/dev/null | cut -f1\necho '<<<GIT'\nif [ -n \"$GIT\" ]; then \"$GIT\" --version 2>&1 | head -n 1; else echo 'git was not found on the server (install the Git Server package)'; fi"@ == "printf '%s\\n' \"$log\""@
            + "\n"@ + "echo '<<<BRANCHES'"@ + "\n"@
            + "rgit \"$d\" for-each-ref --sort=-committerdate --format='%(refname:short)' refs/heads 2>/dev/null"@
            + "\n"@ + "echo '<<<HEAD'"@ + "\n"@ + "cat \"$d/HEAD\" 2>/dev/null"@ + "\n"@
            + "echo '<<<SIZE'"@ + "\n"@ + "du -sh \"$d\" 2>/dev/null | cut -f1"@ + "\n"@
            + "echo '<<<GIT'"@ + "\n"@
            + "if [ -n \"$GIT\" ]; then \"$GIT\" --version 2>&1 | head -n 1; else echo 'git was not found on the server (install the Git Server package)'; fi"@,
{
    reveal_strlit("\n");
    reveal_strlit("cat \"$d/HEAD\" 2>/dev/null");
    reveal_strlit("du -sh \"$d\" 2>/dev/null | cut -f1");
    reveal_strlit("echo '<<<BRANCHES'");
    reveal_strlit("echo '<<<GIT'");
    reveal_strlit("echo '<<<HEAD'");
    reveal_strlit("echo '<<<SIZE'");
    reveal_strlit("if [ -n \"$GIT\" ]; then \"$GIT\" --version 2>&1 | head -n 1; else echo 'git was not found on the server (install the Git Server package)'; fi");
    reveal_strlit("printf '%s\\n' \"$log\"");
    reveal_strlit("printf '%s\\n' \"$log\"\necho '<<<BRANCHES'\nrgit \"$d\" for-each-ref --sort=-committerdate --format='%(refname:short)' refs/heads 2>/dev/null\necho '<<<HEAD'\ncat \"$d/HEAD\" 2>/dev/null\necho '<<<SIZE'\ndu -sh \"$d\" 2>/dev/null | cut -f1\necho '<<<GIT'\nif [ -n \"$GIT\" ]; then \"$GIT\" --version 2>&1 | head -n 1; else echo 'git was not found on the server (install the Git Server package)'; fi");
    reveal_strlit("rgit \"$d\" for-each-ref --sort=-committerdate --format='%(refname:short)' refs/heads 2>/dev/null");
    assert(
        "printf '%s\\n' \"$log\"\necho '<<<BRANCHES'\nrgit \"$d\" for-each-ref --sort=-committerdate --format='%(refname:short)' refs/heads 2>/dev/null\necho '<<<HEAD'\ncat \"$d/HEAD\" 2>/dev/null\necho '<<<SIZE'\ndu -sh \"$d\" 2>/dev/null | cut -f1\necho '<<<GIT'\nif [ -n \"$GIT\" ]; then \"$GIT\" --version 2>&1 | head -n 1; else echo 'git was not found on the server (install the Git Server package)'; fi"@ =~= "printf '%s\\n' \"$log\""@
            + "\n"@ + "echo '<<<BRANCHES'"@ + "\n"@
            + "rgit \"$d\" for-each-ref --sort=-committerdate --format='%(refname:short)' refs/heads 2>/dev/null"@
            + "\n"@ + "echo '<<<HEAD'"@ + "\n"@ + "cat \"$d/HEAD\" 2>/dev/null"@ + "\n"@
            + "echo '<<<SIZE'"@ + "\n"@ + "du -sh \"$d\" 2>/dev/null | cut -f1"@ + "\n"@
            + "echo '<<<GIT'"@ + "\n"@
            + "if [ -n \"$GIT\" ]; then \"$GIT\" --version 2>&1 | head -n 1; else echo 'git was not found on the server (install the Git Server package)'; fi"@
    );
}

#[verifier::spinoff_prover]
#[verifier::rlimit(100)]
proof fn lemma_detail_parts()
    ensures
        DETAIL_LOG@ == "\necho '<<<LOG'\nfmt='%h%x1f%an%x1f%cI%x1f%cr%x1f%s'\n"@
            + "log=$(rgit \"$d\" log -n "@,
        DETAIL_ALL@ == " --format=\"$fmt\" 2>&1)"@ + "\n"@ + "ok=$?"@ + "\n"@
            + "if [ $ok -ne 0 ] || [ -z \"$log\" ]; then\n  alt=$(rgit \"$d\" log -n "@,
        "\necho '<<<LOG'\nfmt='%h%x1f%an%x1f%cI%x1f%cr%x1f%s'\n"@ == "\n"@ + "echo '<<<LOG'"@
            + "\n"@ + "fmt='%h%x1f%an%x1f%cI%x1f%cr%x1f%s'"@ + "\n"@,
{
    reveal_strlit("\n");
    reveal_strlit("\necho '<<<LOG'\nfmt='%h%x1f%an%x1f%cI%x1f%cr%x1f%s'\n");
    reveal_strlit("\necho '<<<LOG'\nfmt='%h%x1f%an%x1f%cI%x1f%cr%x1f%s'\nlog=$(rgit \"$d\" log -n ");
    reveal_strlit(" --format=\"$fmt\" 2>&1)");
    reveal_strlit(" --format=\"$fmt\" 2>&1)\nok=$?\nif [ $ok -ne 0 ] || [ -z \"$log\" ]; then\n  alt=$(rgit \"$d\" log -n ");
    reveal_strlit("echo '<<<LOG'");
    reveal_strlit("fmt='%h%x1f%an%x1f%cI%x1f%cr%x1f%s'");
    reveal_strlit("if [ $ok -ne 0 ] || [ -z \"$log\" ]; then\n  alt=$(rgit \"$d\" log -n ");
    reveal_strlit("log=$(rgit \"$d\" log -n ");
    reveal_strlit("ok=$?");
    assert(
        "\necho '<<<LOG'\nfmt='%h%x1f%an%x1f%cI%x1f%cr%x1f%s'\nlog=$(rgit \"$d\" log -n "@ =~= "\necho '<<<LOG'\nfmt='%h%x1f%an%x1f%cI%x1f%cr%x1f%s'\n"@
            + "log=$(rgit \"$d\" log -n "@
    );
    assert(
        " --format=\"$fmt\" 2>&1)\nok=$?\nif [ $ok -ne 0 ] || [ -z \"$log\" ]; then\n  alt=$(rgit \"$d\" log -n "@ =~= " --format=\"$fmt\" 2>&1)"@
            + "\n"@ + "ok=$?"@ + "\n"@
            + "if [ $ok -ne 0 ] || [ -z \"$log\" ]; then\n  alt=$(rgit \"$d\" log -n "@
    );
    assert(
        "\necho '<<<LOG'\nfmt='%h%x1f%an%x1f%cI%x1f%cr%x1f%s'\n"@ =~= "\n"@ + "echo '<<<LOG'"@
            + "\n"@ + "fmt='%h%x1f%an%x1f%cI%x1f%cr%x1f%s'"@ + "\n"@
    );
}

#[verifier::spinoff_prover]
#[verifier::rlimit(100)]
proof fn lemma_detail_rest_parts()
    ensures
        DETAIL_REST@ == " --all --format=\"$fmt\" 2>&1)\n  if [ $? -eq 0 ] && [ -n \"$alt\" ]; then log=$alt; fi\nfi"@
            + "\n"@
            + "printf '%s\\n' \"$log\"\necho '<<<BRANCHES'\nrgit \"$d\" for-each-ref --sort=-committerdate --format='%(refname:short)' refs/heads 2>/dev/null\necho '<<<HEAD'\ncat \"$d/HEAD\" 2>/dev/null\necho '<<<SIZE'\ndu -sh \"$d\" 2>/dev/null | cut -f1\necho '<<<GIT'\nif [ -n \"$GIT\" ]; then \"$GIT\" --version 2>&1 | head -n 1; else echo 'git was not found on the server (install the Git Server package)'; fi"@,
{
    reveal_strlit("\n");
    reveal_strlit(" --all --format=\"$fmt\" 2>&1)\n  if [ $? -eq 0 ] && [ -n \"$alt\" ]; then log=$alt; fi\nfi");
    reveal_strlit(" --all --format=\"$fmt\" 2>&1)\n  if [ $? -eq 0 ] && [ -n \"$alt\" ]; then log=$alt; fi\nfi\nprintf '%s\\n' \"$log\"\necho '<<<BRANCHES'\nrgit \"$d\" for-each-ref --sort=-committerdate --format='%(refname:short)' refs/heads 2>/dev/null\necho '<<<HEAD'\ncat \"$d/HEAD\" 2>/dev/null\necho '<<<SIZE'\ndu -sh \"$d\" 2>/dev/null | cut -f1\necho '<<<GIT'\nif [ -n \"$GIT\" ]; then \"$GIT\" --version 2>&1 | head -n 1; else echo 'git was not found on the server (install the Git Server package)'; fi");
    reveal_strlit("printf '%s\\n' \"$log\"\necho '<<<BRANCHES'\nrgit \"$d\" for-each-ref --sort=-committerdate --format='%(refname:short)' refs/heads 2>/dev/null\necho '<<<HEAD'\ncat \"$d/HEAD\" 2>/dev/null\necho '<<<SIZE'\ndu -sh \"$d\" 2>/dev/null | cut -f1\necho '<<<GIT'\nif [ -n \"$GIT\" ]; then \"$GIT\" --version 2>&1 | head -n 1; else echo 'git was not found on the server (install the Git Server package)'; fi");
    assert(
        " --all --format=\"$fmt\" 2>&1)\n  if [ $? -eq 0 ] && [ -n \"$alt\" ]; then log=$alt; fi\nfi\nprintf '%s\\n' \"$log\"\necho '<<<BRANCHES'\nrgit \"$d\" for-each-ref --sort=-committerdate --format='%(refname:short)' refs/heads 2>/dev/null\necho '<<<HEAD'\ncat \"$d/HEAD\" 2>/dev/null\necho '<<<SIZE'\ndu -sh \"$d\" 2>/dev/null | cut -f1\necho '<<<GIT'\nif [ -n \"$GIT\" ]; then \"$GIT\" --version 2>&1 | head -n 1; else echo 'git was not found on the server (install the Git Server package)'; fi"@ =~= " --all --format=\"$fmt\" 2>&1)\n  if [ $? -eq 0 ] && [ -n \"$alt\" ]; then log=$alt; fi\nfi"@
            + "\n"@
            + "printf '%s\\n' \"$log\"\necho '<<<BRANCHES'\nrgit \"$d\" for-each-ref --sort=-committerdate --format='%(refname:short)' refs/heads 2>/dev/null\necho '<<<HEAD'\ncat \"$d/HEAD\" 2>/dev/null\necho '<<<SIZE'\ndu -sh \"$d\" 2>/dev/null | cut -f1\necho '<<<GIT'\nif [ -n \"$GIT\" ]; then \"$GIT\" --version 2>&1 | head -n 1; else echo 'git was not found on the server (install the Git Server package)'; fi"@
    );
}

/// The script is the part that finds git and the spelling of the program.
#[verifier::spinoff_prover]
#[verifier::rlimit(100)]
proof fn lemma_inspection_text(path: Seq<char>)
    ensures
        inspection(path) == GIT_PREAMBLE@ + text(
            detail_program(path, decimal((LOG_LIMIT + 1) as nat)),
        ),
        is_grouped(detail_program(path, decimal((LOG_LIMIT + 1) as nat))),
{
    let limit = decimal((LOG_LIMIT + 1) as nat);
    let nl = "\n"@;
    lemma_marks();
    lemma_format_line_text();
    lemma_log_line_text(limit);
    lemma_status_line_text();
    lemma_fallback_lines_text(limit);
    lemma_report_text();
    lemma_detail_parts();
    lemma_detail_rest_parts();
    let first = Command::Assign("d"@, Word::Single(path));
    let b4 = after(fallback_lines(limit), report_lines());
    let b3 = after(status_line(), b4);
    let b2 = after(log_line(limit), b3);
    let b1 = after(format_line(), b2);
    let b0 = after(mark_line("LOG"@), b1);
    lemma_after_text(fallback_lines(limit), report_lines());
    lemma_after_text(status_line(), b4);
    lemma_after_text(log_line(limit), b3);
    lemma_after_text(format_line(), b2);
    lemma_after_text(mark_line("LOG"@), b1);
    lemma_after_text(first, b0);
    assert(is_grouped(first));
    assert(detail_program(path, limit) == after(first, b0));
    assert("d="@ + single_quoted(path) == text(first)) by {
        reveal_strlit("d=");
        reveal_strlit("d");
        reveal_strlit("=");
        assert("d="@ =~= "d"@ + "="@);
    }
    let asked = "\necho '<<<LOG'\nfmt='%h%x1f%an%x1f%cI%x1f%cr%x1f%s'\n"@;
    let between = "if [ $ok -ne 0 ] || [ -z \"$log\" ]; then\n  alt=$(rgit \"$d\" log -n "@;
    let call = "log=$(rgit \"$d\" log -n "@;
    let called = " --format=\"$fmt\" 2>&1)"@;
    let rest = DETAIL_REST@;
    assert(text(b4) =~= between + limit + rest);
    assert(text(b3) =~= text(status_line()) + nl + between + limit + rest);
    let all = DETAIL_ALL@;
    assert(called + nl + text(b3) =~= all + limit + rest);
    assert(text(b2) =~= call + limit + (called + nl + text(b3)));
    assert(nl + text(b0) =~= asked + text(b2));
    let tail = limit + (all + limit + rest);
    assert(text(b2) =~= call + tail);
    assert(nl + text(b0) =~= DETAIL_LOG@ + tail);
    assert(text(after(first, b0)) =~= text(first) + (nl + text(b0)));
    let d = text(first);
    assert(inspection(path) =~= GIT_PREAMBLE@ + d + DETAIL_LOG@ + limit + all + limit + rest);
    assert(GIT_PREAMBLE@ + d + DETAIL_LOG@ + limit + all + limit + rest =~= GIT_PREAMBLE@ + (d + (
    DETAIL_LOG@ + tail)));
}

/// What git prints for the commit `c` when it is asked for `format`: each
/// placeholder stands for a part of the commit, and `%x1f` for the separator.
pub open spec fn formatted(format: Seq<char>, c: CommitView) -> Seq<char>
    decreases format.len(),
{
    if format.len() == 0 {
        Seq::empty()
    } else if starts_with(format, seq!['%', 'x', '1', 'f']) {
        seq!['\u{1f}'] + formatted(format.skip(4), c)
    } else if starts_with(format, seq!['%', 'h']) {
        c.hash + formatted(format.skip(2), c)
    } else if starts_with(format, seq!['%', 'a', 'n']) {
        c.author + formatted(format.skip(3), c)
    } else if starts_with(format, seq!['%', 'c', 'I']) {
        c.date + formatted(format.skip(3), c)
    } else if starts_with(format, seq!['%', 'c', 'r']) {
        c.when + formatted(format.skip(3), c)
    } else if starts_with(format, seq!['%', 's']) {
        c.subject + formatted(format.skip(2), c)
    } else {
        seq![format[0]] + formatted(format.skip(1), c)
    }
}

/// The first `n` of `commits`, or all if there are not so many.
pub open spec fn newest(commits: Seq<CommitView>, n: int) -> Seq<CommitView> {
    if commits.len() > n {
        commits.take(n)
    } else {
        commits
    }
}

/// What a server knows of a repository.
pub struct Known {
    /// The commits of the branch that is checked out, the newest first. `None` if git
    /// cannot tell.
    pub log: Option<Seq<CommitView>>,
    /// The commits of all branches.
    pub all: Seq<CommitView>,
    pub branches: Seq<Seq<char>>,
    pub head: Seq<char>,
    pub size: Seq<char>,
    pub version: Seq<char>,
}

/// The commits that are worth showing: those of the branch that is checked out, or
/// those of all branches if there are none.
pub open spec fn history(known: Known) -> Seq<CommitView> {
    match known.log {
        Some(log) if log.len() > 0 => log,
        _ => known.all,
    }
}

/// What the programs do that every system has: `echo` and `printf`, the tests that
/// compare texts, and the ones that take the first field or the first line of a line.
pub open spec fn is_usual(args: Seq<Seq<char>>, input: Seq<char>, r: (bool, Seq<char>)) -> bool {
    &&& args.len() == 2 && args[0] == "echo"@ ==> r == (true, args[1] + "\n"@)
    &&& args.len() == 3 && args[0] == "printf"@ && args[1] == "%s\\n"@ ==> r == (
        true,
        args[2] + "\n"@,
    )
    &&& args.len() == 4 && args[0] == "["@ && args[1] == "-z"@ && args[3] == "]"@ ==> r == (
        args[2].len() == 0,
        Seq::<char>::empty(),
    )
    &&& args.len() == 4 && args[0] == "["@ && args[1] == "-n"@ && args[3] == "]"@ ==> r == (
        args[2].len() > 0,
        Seq::<char>::empty(),
    )
    &&& args.len() == 5 && args[0] == "["@ && args[2] == "-ne"@ && args[3] == "0"@ && args[4]
        == "]"@ ==> r == (args[1] != "0"@, Seq::<char>::empty())
    &&& args.len() == 5 && args[0] == "["@ && args[2] == "-eq"@ && args[3] == "0"@ && args[4]
        == "]"@ ==> r == (args[1] == "0"@, Seq::<char>::empty())
    &&& args == seq!["cut"@, "-f1"@] && is_one_line(input) && input.contains('\t') ==> r == (
        true,
        input.take(before(input, '\t') as int) + "\n"@,
    )
    &&& args == seq!["head"@, "-n"@, "1"@] && is_one_line(input) ==> r == (true, input)
}

/// One line, with the line feed that ends it.
pub open spec fn is_one_line(s: Seq<char>) -> bool {
    s.len() > 0 && s.last() == '\n' && !s.drop_last().contains('\n')
}

/// The programs of `machine` that every system has do what they are documented to do.
pub open spec fn is_posix(machine: Machine) -> bool {
    forall|ran: Seq<Seq<Seq<char>>>, args: Seq<Seq<char>>, input: Seq<char>|
        is_usual(args, input, #[trigger] machine(ran, args, input))
}

/// What git and the other programs tell of the repository `known` at `path`, where
/// `git` is git.
pub open spec fn tells(
    args: Seq<Seq<char>>,
    r: (bool, Seq<char>),
    git: Seq<char>,
    path: Seq<char>,
    known: Known,
) -> bool {
    &&& args.len() == 7 && args[0] == "rgit"@ && args[1] == path && args[2] == "log"@ && args[3]
        == "-n"@ && parsed_u16(args[4]) is Some && starts_with(args[5], "--format="@) && args[6]
        == "2>&1"@ ==> match known.log {
        Some(log) => r == (
            true,
            log_text(log, parsed_u16(args[4])->0 as int, args[5].skip(9)),
        ),
        None => !r.0,
    }
    &&& args.len() == 8 && args[0] == "rgit"@ && args[1] == path && args[2] == "log"@ && args[3]
        == "-n"@ && parsed_u16(args[4]) is Some && args[5] == "--all"@ && starts_with(
        args[6],
        "--format="@,
    ) && args[7] == "2>&1"@ ==> r == (
        true,
        log_text(known.all, parsed_u16(args[4])->0 as int, args[6].skip(9)),
    )
    &&& args == seq![
        "rgit"@,
        path,
        "for-each-ref"@,
        "--sort=-committerdate"@,
        "--format="@ + "%(refname:short)"@,
        "refs/heads"@,
        "2>/dev/null"@,
    ] ==> r == (true, printed(known.branches))
    &&& args == seq!["cat"@, path + "/HEAD"@, "2>/dev/null"@] ==> r == (
        true,
        "ref: refs/heads/"@ + known.head + "\n"@,
    )
    &&& args == seq!["du"@, "-sh"@, path, "2>/dev/null"@] ==> r == (
        true,
        known.size + "\t"@ + path + "\n"@,
    )
    &&& args == seq![git, "--version"@, "2>&1"@] ==> r == (true, known.version + "\n"@)
}

/// What `git log` prints of at most `n` commits.
pub open spec fn log_text(commits: Seq<CommitView>, n: int, format: Seq<char>) -> Seq<char> {
    printed(newest(commits, n).map_values(|c: CommitView| formatted(format, c)))
}

/// `machine` has the repository `known` at `path`, and git as `git`.
pub open spec fn serves(machine: Machine, git: Seq<char>, path: Seq<char>, known: Known) -> bool {
    forall|ran: Seq<Seq<Seq<char>>>, args: Seq<Seq<char>>, input: Seq<char>|
        tells(args, #[trigger] machine(ran, args, input), git, path, known)
}

/// What is known can be printed: no part holds what would end its line or its field,
/// and none looks like a section mark.
pub open spec fn is_printable_known(known: Known) -> bool {
    &&& history(known).len() > 0
    &&& forall|i: int|
        0 <= i < history(known).len() ==> is_printable_commit(#[trigger] history(known)[i])
    &&& forall|i: int|
        0 <= i < known.branches.len() ==> is_printable_line(#[trigger] known.branches[i])
    &&& trimmed_end(known.head) == known.head
    &&& !known.head.contains('\n')
    &&& !starts_with(known.head, "ref: refs/heads/"@)
    &&& is_printable_line(known.size)
    &&& !known.size.contains('\t')
    &&& is_printable_line(known.version)
}

/// What the script asks of git for each commit is what is read back.
#[verifier::spinoff_prover]
#[verifier::rlimit(50)]
proof fn lemma_format(c: CommitView)
    ensures
        formatted("%h%x1f%an%x1f%cI%x1f%cr%x1f%s"@, c) == commit_text(c),
{
    reveal_strlit("%h%x1f%an%x1f%cI%x1f%cr%x1f%s");
    let f0 = "%h%x1f%an%x1f%cI%x1f%cr%x1f%s"@;
    let f1 = f0.skip(2);
    let f2 = f1.skip(4);
    let f3 = f2.skip(3);
    let f4 = f3.skip(4);
    let f5 = f4.skip(3);
    let f6 = f5.skip(4);
    let f7 = f6.skip(3);
    let f8 = f7.skip(4);
    let f9 = f8.skip(2);
    assert(f9 =~= Seq::empty());
    assert(f8.take(2) =~= seq!['%', 's']);
    assert(f8.len() == 2);
    assert(f8[1] == 's');
    assert(seq!['%', 'h'][1] == 'h');
    assert(!starts_with(f8, seq!['%', 'h'])) by {
        if starts_with(f8, seq!['%', 'h']) {
            assert(f8.take(2)[1] == seq!['%', 'h'][1]);
        }
    }
    assert(formatted(f9, c) =~= Seq::empty());
    assert(formatted(f8, c) == c.subject + formatted(f9, c));
    assert(formatted(f8, c) =~= c.subject);
    assert(f7.take(4) =~= seq!['%', 'x', '1', 'f']);
    assert(formatted(f7, c) == seq!['\u{1f}'] + formatted(f8, c));
    lemma_starts_apart(f6, 'c');
    assert(f6.take(3) =~= seq!['%', 'c', 'r']);
    assert(!starts_with(f6, seq!['%', 'c', 'I'])) by {
        if starts_with(f6, seq!['%', 'c', 'I']) {
            assert(f6.take(3)[2] == seq!['%', 'c', 'I'][2]);
        }
    }
    assert(formatted(f6, c) == c.when + formatted(f7, c));
    assert(f5.take(4) =~= seq!['%', 'x', '1', 'f']);
    assert(formatted(f5, c) == seq!['\u{1f}'] + formatted(f6, c));
    lemma_starts_apart(f4, 'c');
    assert(f4.take(3) =~= seq!['%', 'c', 'I']);
    assert(formatted(f4, c) == c.date + formatted(f5, c));
    assert(f3.take(4) =~= seq!['%', 'x', '1', 'f']);
    assert(formatted(f3, c) == seq!['\u{1f}'] + formatted(f4, c));
    lemma_starts_apart(f2, 'a');
    assert(f2.take(3) =~= seq!['%', 'a', 'n']);
    assert(formatted(f2, c) == c.author + formatted(f3, c));
    assert(f1.take(4) =~= seq!['%', 'x', '1', 'f']);
    assert(formatted(f1, c) == seq!['\u{1f}'] + formatted(f2, c));
    assert(f0.take(2) =~= seq!['%', 'h']);
    assert(!starts_with(f0, seq!['%', 'x', '1', 'f'])) by {
        if starts_with(f0, seq!['%', 'x', '1', 'f']) {
            assert(f0.take(4)[1] == seq!['%', 'x', '1', 'f'][1]);
        }
    }
    assert(formatted(f0, c) == c.hash + formatted(f1, c));
    assert(formatted(f0, c) =~= commit_text(c));
}

/// A placeholder is told from the others by its second character.
pub proof fn lemma_starts_apart(f: Seq<char>, second: char)
    requires
        f.len() > 1,
        f[1] == second,
    ensures
        second != 'x' ==> !starts_with(f, seq!['%', 'x', '1', 'f']),
        second != 'h' ==> !starts_with(f, seq!['%', 'h']),
        second != 'a' ==> !starts_with(f, seq!['%', 'a', 'n']),
        second != 'c' ==> !starts_with(f, seq!['%', 'c', 'I']),
        second != 'c' ==> !starts_with(f, seq!['%', 'c', 'r']),
{
    if starts_with(f, seq!['%', 'x', '1', 'f']) {
        assert(f.take(4)[1] == 'x');
    }
    if starts_with(f, seq!['%', 'h']) {
        assert(f.take(2)[1] == 'h');
    }
    if starts_with(f, seq!['%', 'a', 'n']) {
        assert(f.take(3)[1] == 'a');
    }
    if starts_with(f, seq!['%', 'c', 'I']) {
        assert(f.take(3)[1] == 'c');
    }
    if starts_with(f, seq!['%', 'c', 'r']) {
        assert(f.take(3)[1] == 'c');
    }
}

/// What is printed of two rows of lines is printed of the one and then of the other.
pub proof fn lemma_printed_concat(a: Seq<Seq<char>>, b: Seq<Seq<char>>)
    ensures
        printed(a + b) == printed(a) + printed(b),
    decreases a.len(),
{
    if a.len() == 0 {
        assert(a + b == b);
        assert(printed(a) + printed(b) == printed(b));
    } else {
        lemma_printed_concat(a.skip(1), b);
        assert((a + b).skip(1) == a.skip(1) + b);
        assert(printed(a + b) =~= printed(a) + printed(b));
    }
}

pub proof fn lemma_printed_one(s: Seq<char>)
    ensures
        printed(seq![s]) == s + "\n"@,
{
    reveal_strlit("\n");
    assert(seq![s].skip(1) == Seq::<Seq<char>>::empty());
    assert(printed(seq![s].skip(1)) == Seq::<char>::empty());
    assert(printed(seq![s]) =~= s + "\n"@);
}

/// Lines that were captured and printed again are as they were.
proof fn lemma_chomped_printed(lines: Seq<Seq<char>>)
    requires
        lines.len() > 0,
        lines.last().len() > 0,
        lines.last().last() != '\n',
    ensures
        chomped(printed(lines)) + "\n"@ == printed(lines),
        chomped(printed(lines)).len() > 0,
{
    reveal_strlit("\n");
    let head = lines.drop_last();
    let last = lines.last();
    assert(lines == head + seq![last]);
    lemma_printed_concat(head, seq![last]);
    lemma_printed_one(last);
    let whole = printed(lines);
    let body = printed(head) + last;
    assert(whole =~= body + "\n"@);
    assert(whole.last() == '\n');
    assert(whole.drop_last() =~= body);
    assert(body.last() == last.last());
    assert(chomped(body) == body);
    assert(chomped(whole) == chomped(whole.drop_last()));
}

/// The variables have different names.
proof fn lemma_names()
    ensures
        "?"@ != "d"@,
        "?"@ != "GIT"@,
        "?"@ != "fmt"@,
        "?"@ != "log"@,
        "?"@ != "ok"@,
        "?"@ != "alt"@,
        "d"@ != "GIT"@,
        "d"@ != "fmt"@,
        "d"@ != "log"@,
        "d"@ != "ok"@,
        "d"@ != "alt"@,
        "GIT"@ != "fmt"@,
        "GIT"@ != "log"@,
        "GIT"@ != "ok"@,
        "GIT"@ != "alt"@,
        "fmt"@ != "log"@,
        "fmt"@ != "ok"@,
        "fmt"@ != "alt"@,
        "log"@ != "ok"@,
        "log"@ != "alt"@,
        "ok"@ != "alt"@,
{
    reveal_strlit("?");
    reveal_strlit("d");
    reveal_strlit("GIT");
    reveal_strlit("fmt");
    reveal_strlit("log");
    reveal_strlit("ok");
    reveal_strlit("alt");
    assert("?"@[0] == '?');
    assert("?"@.len() == 1);
    assert("d"@[0] == 'd');
    assert("d"@.len() == 1);
    assert("GIT"@[0] == 'G');
    assert("GIT"@.len() == 3);
    assert("fmt"@[0] == 'f');
    assert("fmt"@.len() == 3);
    assert("log"@[0] == 'l');
    assert("log"@.len() == 3);
    assert("ok"@[0] == 'o');
    assert("ok"@.len() == 2);
    assert("alt"@[0] == 'a');
    assert("alt"@.len() == 3);
}

/// What a program does, with its words as it sees them.
pub proof fn lemma_program_run(
    machine: Machine,
    words: Seq<Word>,
    args: Seq<Seq<char>>,
    input: Seq<char>,
    stage: Stage,
)
    requires
        arguments(stage, words) == args,
    ensures
        run(machine, Command::Run(words), input, stage) == (Stage {
            ran: stage.ran.push(args),
            out: stage.out + machine(stage.ran, args, input).1,
            ok: machine(stage.ran, args, input).0,
            ..stage
        }),
{
}

/// The script has come so far that the directory, the format and git are known.
pub open spec fn is_set(stage: Stage, git: Seq<char>, path: Seq<char>) -> bool {
    &&& stage.flow is On
    &&& variable(stage, "d"@) == path
    &&& variable(stage, "GIT"@) == git
    &&& variable(stage, "fmt"@) == "%h%x1f%an%x1f%cI%x1f%cr%x1f%s"@
}

/// `end` is `stage` with `printed` behind what was printed, and with the same
/// variables.
pub open spec fn has_printed(end: Stage, stage: Stage, printed: Seq<char>) -> bool {
    &&& end.flow == stage.flow
    &&& end.vars == stage.vars
    &&& end.out == stage.out + printed
}

proof fn lemma_mark_run(machine: Machine, name: Seq<char>, stage: Stage)
    requires
        is_posix(machine),
    ensures
        has_printed(
            run(machine, mark_line(name), Seq::empty(), stage),
            stage,
            "<<<"@ + name + "\n"@,
        ),
{
    let words = seq![Word::Bare("echo"@), Word::Single("<<<"@ + name)];
    let args = seq!["echo"@, "<<<"@ + name];
    assert(arguments(stage, words) =~= args) by {
        reveal_with_fuel(arguments, 3);
    }
    lemma_program_run(machine, words, args, Seq::empty(), stage);
    assert(is_usual(args, Seq::empty(), machine(stage.ran, args, Seq::empty())));
}

/// The words with which git is asked for a log.
proof fn lemma_log_arguments(stage: Stage, limit: Seq<char>, git: Seq<char>, path: Seq<char>)
    requires
        is_set(stage, git, path),
    ensures
        arguments(
            stage,
            seq![
                Word::Bare("rgit"@),
                Word::Double("d"@, ""@),
                Word::Bare("log"@),
                Word::Bare("-n"@),
                Word::Bare(limit),
                Word::Option("--format="@, "fmt"@),
                Word::Redirect("2>&1"@),
            ],
        ) == seq![
            "rgit"@,
            path,
            "log"@,
            "-n"@,
            limit,
            "--format="@ + "%h%x1f%an%x1f%cI%x1f%cr%x1f%s"@,
            "2>&1"@,
        ],
        arguments(
            stage,
            seq![
                Word::Bare("rgit"@),
                Word::Double("d"@, ""@),
                Word::Bare("log"@),
                Word::Bare("-n"@),
                Word::Bare(limit),
                Word::Bare("--all"@),
                Word::Option("--format="@, "fmt"@),
                Word::Redirect("2>&1"@),
            ],
        ) == seq![
            "rgit"@,
            path,
            "log"@,
            "-n"@,
            limit,
            "--all"@,
            "--format="@ + "%h%x1f%an%x1f%cI%x1f%cr%x1f%s"@,
            "2>&1"@,
        ],
{
    reveal_strlit("");
    assert(path + ""@ == path);
    reveal_with_fuel(arguments, 9);
}

/// What is printed of a log is not empty, and comes back when it was captured.
proof fn lemma_log_captured(commits: Seq<CommitView>, n: int)
    requires
        n > 0,
        commits.len() > 0,
        forall|i: int| 0 <= i < commits.len() ==> is_printable_commit(#[trigger] commits[i]),
    ensures
        ({
            let out = log_text(commits, n, "%h%x1f%an%x1f%cI%x1f%cr%x1f%s"@);
            &&& out == printed(newest(commits, n).map_values(|c: CommitView| commit_text(c)))
            &&& chomped(out).len() > 0
            &&& chomped(out) + "\n"@ == out
        }),
{
    let format = "%h%x1f%an%x1f%cI%x1f%cr%x1f%s"@;
    let shown = newest(commits, n);
    let a = shown.map_values(|c: CommitView| formatted(format, c));
    let b = shown.map_values(|c: CommitView| commit_text(c));
    assert forall|i: int| 0 <= i < shown.len() implies #[trigger] a[i] == b[i] by {
        lemma_format(shown[i]);
    }
    assert(a =~= b);
    let last = shown.last();
    assert(last == commits[shown.len() - 1]);
    assert(is_printable_commit(last));
    law_commit_is_read_back(last);
    assert(b.last() == commit_text(last));
    let text = commit_text(last);
    assert(text.len() > 0);
    assert(text.last() != '\n') by {
        if text.last() == '\n' {
            assert(text[text.len() - 1] == '\n');
        }
    }
    lemma_chomped_printed(b);
}

/// The lines that read the log: behind them `log` holds the commits that are worth
/// showing, and nothing was printed.
#[verifier::spinoff_prover]
#[verifier::rlimit(60)]
proof fn lemma_log_run(
    machine: Machine,
    git: Seq<char>,
    path: Seq<char>,
    known: Known,
    limit: Seq<char>,
    stage: Stage,
)
    requires
        is_posix(machine),
        serves(machine, git, path, known),
        is_printable_known(known),
        parsed_u16(limit) is Some,
        parsed_u16(limit)->0 > 0,
        is_set(stage, git, path),
    ensures
        ({
            let s1 = run(machine, log_line(limit), Seq::empty(), stage);
            let s2 = run(machine, status_line(), Seq::empty(), s1);
            let end = run(machine, fallback_lines(limit), Seq::empty(), s2);
            &&& s1.flow is On
            &&& s2.flow is On
            &&& is_set(end, git, path)
            &&& end.out == stage.out
            &&& variable(end, "log"@) == chomped(
                log_text(
                    history(known),
                    parsed_u16(limit)->0 as int,
                    "%h%x1f%an%x1f%cI%x1f%cr%x1f%s"@,
                ),
            )
        }),
{
    lemma_names();
    reveal_strlit("");
    let none = Seq::<char>::empty();
    let n = parsed_u16(limit)->0 as int;
    let format = "%h%x1f%an%x1f%cI%x1f%cr%x1f%s"@;
    let opt = "--format="@ + format;
    assert(starts_with(opt, "--format="@) && opt.skip(9) == format) by {
        reveal_strlit("--format=");
        assert(opt.take(9) =~= "--format="@);
        assert(opt.skip(9) =~= format);
    }
    let args = seq!["rgit"@, path, "log"@, "-n"@, limit, opt, "2>&1"@];
    let inner = Stage { out: none, ..stage };
    lemma_log_arguments(inner, limit, git, path);
    assert(tells(args, machine(inner.ran, args, none), git, path, known));
    let s1 = run(machine, log_line(limit), none, stage);
    let words = seq![
        Word::Bare("rgit"@),
        Word::Double("d"@, ""@),
        Word::Bare("log"@),
        Word::Bare("-n"@),
        Word::Bare(limit),
        Word::Option("--format="@, "fmt"@),
        Word::Redirect("2>&1"@),
    ];
    lemma_program_run(machine, words, args, none, inner);
    let r = machine(stage.ran, args, none);
    assert(none + r.1 =~= r.1);
    assert(s1.vars == stage.vars.insert("log"@, chomped(r.1)));
    assert(s1.ok == r.0);
    let s2 = run(machine, status_line(), none, s1);
    assert(variable(s2, "ok"@) == if r.0 {
        "0"@
    } else {
        "1"@
    });
    assert(variable(s2, "log"@) == chomped(r.1));
    assert(is_set(s2, git, path));
    let log = chomped(r.1);
    // Is the log missing?
    let w3 = seq![
        Word::Bare("["@),
        Word::Variable("ok"@),
        Word::Bare("-ne"@),
        Word::Bare("0"@),
        Word::Bare("]"@),
    ];
    let a3 = seq!["["@, variable(s2, "ok"@), "-ne"@, "0"@, "]"@];
    assert(arguments(s2, w3) =~= a3) by {
        reveal_with_fuel(arguments, 6);
    }
    lemma_program_run(machine, w3, a3, none, s2);
    let s3 = run(machine, Command::Run(w3), none, s2);
    assert(is_usual(a3, none, machine(s2.ran, a3, none)));
    reveal_strlit("0");
    reveal_strlit("1");
    assert("0"@[0] != "1"@[0]);
    assert(s3.ok == !r.0);
    assert(s3.out =~= stage.out);
    let w4 = seq![Word::Bare("["@), Word::Bare("-z"@), Word::Double("log"@, ""@), Word::Bare("]"@)];
    let a4 = seq!["["@, "-z"@, log, "]"@];
    assert(log + ""@ == log);
    assert(arguments(s3, w4) =~= a4) by {
        reveal_with_fuel(arguments, 5);
    }
    lemma_program_run(machine, w4, a4, none, s3);
    let s4 = run(machine, Command::Run(w4), none, s3);
    assert(is_usual(a4, none, machine(s3.ran, a4, none)));
    assert(s4.ok == (log.len() == 0));
    assert(s4.out =~= stage.out);
    let s5 = run(machine, log_is_missing(), none, s2);
    assert(s5 == if s3.ok {
        s3
    } else {
        s4
    });
    assert(s5.vars == s2.vars);
    let body = Command::Lines(Box::new(all_line(limit)), Box::new(take_line()), "  "@);
    let end = run(machine, fallback_lines(limit), none, s2);
    assert(end == if s5.ok {
        run(machine, body, none, s5)
    } else {
        Stage { ok: true, ..s5 }
    });
    if known.log is Some && known.log->0.len() > 0 {
        lemma_log_captured(known.log->0, n);
        assert(!s5.ok);
    } else {
        assert(s5.ok) by {
            if known.log is Some {
                assert(newest(known.log->0, n).map_values(|c: CommitView| formatted(format, c))
                    =~= Seq::empty());
                assert(r.1 == none);
            }
        }
        lemma_fallback_run(machine, git, path, known, limit, s5);
    }
}

/// The lines that read the log of all branches.
#[verifier::spinoff_prover]
#[verifier::rlimit(60)]
proof fn lemma_fallback_run(
    machine: Machine,
    git: Seq<char>,
    path: Seq<char>,
    known: Known,
    limit: Seq<char>,
    stage: Stage,
)
    requires
        is_posix(machine),
        serves(machine, git, path, known),
        parsed_u16(limit) is Some,
        parsed_u16(limit)->0 > 0,
        is_set(stage, git, path),
        known.all.len() > 0,
        forall|i: int| 0 <= i < known.all.len() ==> is_printable_commit(#[trigger] known.all[i]),
    ensures
        ({
            let body = Command::Lines(Box::new(all_line(limit)), Box::new(take_line()), "  "@);
            let end = run(machine, body, Seq::empty(), stage);
            &&& is_set(end, git, path)
            &&& end.out == stage.out
            &&& variable(end, "log"@) == chomped(
                log_text(
                    known.all,
                    parsed_u16(limit)->0 as int,
                    "%h%x1f%an%x1f%cI%x1f%cr%x1f%s"@,
                ),
            )
        }),
{
    lemma_names();
    reveal_strlit("");
    let none = Seq::<char>::empty();
    let n = parsed_u16(limit)->0 as int;
    let format = "%h%x1f%an%x1f%cI%x1f%cr%x1f%s"@;
    let opt = "--format="@ + format;
    assert(starts_with(opt, "--format="@) && opt.skip(9) == format) by {
        reveal_strlit("--format=");
        assert(opt.take(9) =~= "--format="@);
        assert(opt.skip(9) =~= format);
    }
    let args = seq!["rgit"@, path, "log"@, "-n"@, limit, "--all"@, opt, "2>&1"@];
    let words = seq![
        Word::Bare("rgit"@),
        Word::Double("d"@, ""@),
        Word::Bare("log"@),
        Word::Bare("-n"@),
        Word::Bare(limit),
        Word::Bare("--all"@),
        Word::Option("--format="@, "fmt"@),
        Word::Redirect("2>&1"@),
    ];
    let inner = Stage { out: none, ..stage };
    lemma_log_arguments(inner, limit, git, path);
    lemma_program_run(machine, words, args, none, inner);
    assert(tells(args, machine(inner.ran, args, none), git, path, known));
    let r = machine(stage.ran, args, none);
    assert(none + r.1 =~= r.1);
    let s1 = run(machine, all_line(limit), none, stage);
    let alt = chomped(r.1);
    assert(s1.vars == stage.vars.insert("alt"@, alt));
    assert(s1.ok);
    lemma_log_captured(known.all, n);
    let w2 = seq![
        Word::Bare("["@),
        Word::Variable("?"@),
        Word::Bare("-eq"@),
        Word::Bare("0"@),
        Word::Bare("]"@),
    ];
    let a2 = seq!["["@, "0"@, "-eq"@, "0"@, "]"@];
    assert(arguments(s1, w2) =~= a2) by {
        reveal_with_fuel(arguments, 6);
    }
    lemma_program_run(machine, w2, a2, none, s1);
    let s2 = run(machine, Command::Run(w2), none, s1);
    assert(is_usual(a2, none, machine(s1.ran, a2, none)));
    assert(s2.ok);
    assert(s2.out =~= stage.out);
    let w3 = seq![Word::Bare("["@), Word::Bare("-n"@), Word::Double("alt"@, ""@), Word::Bare("]"@)];
    let a3 = seq!["["@, "-n"@, alt, "]"@];
    assert(alt + ""@ == alt);
    assert(arguments(s2, w3) =~= a3) by {
        reveal_with_fuel(arguments, 5);
    }
    lemma_program_run(machine, w3, a3, none, s2);
    let s3 = run(machine, Command::Run(w3), none, s2);
    assert(is_usual(a3, none, machine(s2.ran, a3, none)));
    assert(s3.ok);
    assert(s3.out =~= stage.out);
    let both = Command::And(Box::new(Command::Run(w2)), Box::new(Command::Run(w3)));
    assert(run(machine, both, none, s1) == s3);
    let assign = Command::Assign("log"@, Word::Variable("alt"@));
    let s4 = run(machine, assign, none, s3);
    assert(run(machine, take_line(), none, s1) == s4);
    assert(variable(s4, "log"@) == alt);
    let body = Command::Lines(Box::new(all_line(limit)), Box::new(take_line()), "  "@);
    assert(run(machine, body, none, stage) == s4);
}

/// The line that prints the branches.
proof fn lemma_refs_run(
    machine: Machine,
    git: Seq<char>,
    path: Seq<char>,
    known: Known,
    stage: Stage,
)
    requires
        is_posix(machine),
        serves(machine, git, path, known),
        is_set(stage, git, path),
    ensures
        has_printed(run(machine, refs_line(), Seq::empty(), stage), stage, printed(known.branches)),
{
    lemma_names();
    reveal_strlit("");
    let none = Seq::<char>::empty();
    assert(path + ""@ == path);
    let words = seq![
        Word::Bare("rgit"@),
        Word::Double("d"@, ""@),
        Word::Bare("for-each-ref"@),
        Word::Bare("--sort=-committerdate"@),
        Word::Fixed("--format="@, "%(refname:short)"@),
        Word::Bare("refs/heads"@),
        Word::Redirect("2>/dev/null"@),
    ];
    let args = seq![
        "rgit"@,
        path,
        "for-each-ref"@,
        "--sort=-committerdate"@,
        "--format="@ + "%(refname:short)"@,
        "refs/heads"@,
        "2>/dev/null"@,
    ];
    assert(arguments(stage, words) =~= args) by {
        reveal_with_fuel(arguments, 8);
    }
    lemma_program_run(machine, words, args, none, stage);
    assert(tells(args, machine(stage.ran, args, none), git, path, known));
}

/// The line that prints what `HEAD` holds.
proof fn lemma_head_run(
    machine: Machine,
    git: Seq<char>,
    path: Seq<char>,
    known: Known,
    stage: Stage,
)
    requires
        is_posix(machine),
        serves(machine, git, path, known),
        is_set(stage, git, path),
    ensures
        has_printed(
            run(machine, head_line(), Seq::empty(), stage),
            stage,
            "ref: refs/heads/"@ + known.head + "\n"@,
        ),
{
    lemma_names();
    reveal_strlit("");
    let none = Seq::<char>::empty();
    assert(path + ""@ == path);
    let words = seq![
        Word::Bare("cat"@),
        Word::Double("d"@, "/HEAD"@),
        Word::Redirect("2>/dev/null"@),
    ];
    let args = seq!["cat"@, path + "/HEAD"@, "2>/dev/null"@];
    assert(arguments(stage, words) =~= args) by {
        reveal_with_fuel(arguments, 8);
    }
    lemma_program_run(machine, words, args, none, stage);
    assert(tells(args, machine(stage.ran, args, none), git, path, known));
}

/// The line that prints the log.
proof fn lemma_show_run(machine: Machine, stage: Stage)
    requires
        is_posix(machine),
        stage.flow is On,
    ensures
        has_printed(
            run(machine, show_line(), Seq::empty(), stage),
            stage,
            variable(stage, "log"@) + "\n"@,
        ),
{
    reveal_strlit("");
    let none = Seq::<char>::empty();
    let log = variable(stage, "log"@);
    assert(log + ""@ == log);
    let words = seq![Word::Bare("printf"@), Word::Single("%s\\n"@), Word::Double("log"@, ""@)];
    let args = seq!["printf"@, "%s\\n"@, log];
    assert(arguments(stage, words) =~= args) by {
        reveal_with_fuel(arguments, 4);
    }
    lemma_program_run(machine, words, args, none, stage);
    assert(is_usual(args, none, machine(stage.ran, args, none)));
}

/// The line that prints the size.
#[verifier::spinoff_prover]
#[verifier::rlimit(40)]
proof fn lemma_size_run(
    machine: Machine,
    git: Seq<char>,
    path: Seq<char>,
    known: Known,
    stage: Stage,
)
    requires
        is_posix(machine),
        serves(machine, git, path, known),
        is_set(stage, git, path),
        !known.size.contains('\t'),
        !known.size.contains('\n'),
        !path.contains('\n'),
    ensures
        has_printed(
            run(machine, size_line(), Seq::empty(), stage),
            stage,
            known.size + "\n"@,
        ),
{
    lemma_names();
    reveal_strlit("");
    reveal_strlit("\t");
    reveal_strlit("\n");
    let none = Seq::<char>::empty();
    assert(path + ""@ == path);
    let words = seq![
        Word::Bare("du"@),
        Word::Bare("-sh"@),
        Word::Double("d"@, ""@),
        Word::Redirect("2>/dev/null"@),
    ];
    let args = seq!["du"@, "-sh"@, path, "2>/dev/null"@];
    let inner = Stage { out: none, ..stage };
    assert(arguments(inner, words) =~= args) by {
        reveal_with_fuel(arguments, 5);
    }
    lemma_program_run(machine, words, args, none, inner);
    assert(tells(args, machine(inner.ran, args, none), git, path, known));
    let s1 = run(machine, Command::Run(words), none, inner);
    let line = known.size + "\t"@ + path + "\n"@;
    assert(s1.out =~= line);
    assert(is_one_line(line)) by {
        let body = line.drop_last();
        assert(body =~= known.size + "\t"@ + path);
        if body.contains('\n') {
            let i = choose|i: int| 0 <= i < body.len() && body[i] == '\n';
            if i < known.size.len() {
                assert(known.size[i] == '\n');
            } else if i > known.size.len() {
                assert(path[i - known.size.len() - 1] == '\n');
            }
        }
    }
    assert(line[known.size.len() as int] == '\t');
    assert forall|j: int| 0 <= j < known.size.len() implies line[j] != '\t' by {
        assert(line[j] == known.size[j]);
    }
    lemma_before_is(line, '\t', known.size.len() as int);
    assert(line.take(known.size.len() as int) =~= known.size);
    let words2 = seq![Word::Bare("cut"@), Word::Bare("-f1"@)];
    let args2 = seq!["cut"@, "-f1"@];
    let mid = Stage { ran: s1.ran, out: none, ..stage };
    assert(arguments(mid, words2) =~= args2) by {
        reveal_with_fuel(arguments, 3);
    }
    lemma_program_run(machine, words2, args2, line, mid);
    assert(is_usual(args2, line, machine(mid.ran, args2, line)));
    let s2 = run(machine, Command::Run(words2), line, mid);
    assert(s2.out =~= known.size + "\n"@);
    let pipe = Command::Pipe(Box::new(Command::Run(words)), Box::new(Command::Run(words2)));
    assert(size_line() == pipe);
    assert(run(machine, pipe, none, stage).out == stage.out + s2.out);
}

/// The line that prints the version of git.
#[verifier::spinoff_prover]
#[verifier::rlimit(40)]
proof fn lemma_version_run(
    machine: Machine,
    git: Seq<char>,
    path: Seq<char>,
    known: Known,
    stage: Stage,
)
    requires
        is_posix(machine),
        serves(machine, git, path, known),
        is_set(stage, git, path),
        git.len() > 0,
        !known.version.contains('\n'),
    ensures
        has_printed(
            run(machine, version_line(), Seq::empty(), stage),
            stage,
            known.version + "\n"@,
        ),
{
    lemma_names();
    reveal_strlit("");
    reveal_strlit("\n");
    let none = Seq::<char>::empty();
    assert(git + ""@ == git);
    let words0 = seq![
        Word::Bare("["@),
        Word::Bare("-n"@),
        Word::Double("GIT"@, ""@),
        Word::Bare("]"@),
    ];
    let args0 = seq!["["@, "-n"@, git, "]"@];
    assert(arguments(stage, words0) =~= args0) by {
        reveal_with_fuel(arguments, 5);
    }
    lemma_program_run(machine, words0, args0, none, stage);
    assert(is_usual(args0, none, machine(stage.ran, args0, none)));
    let s0 = run(machine, Command::Run(words0), none, stage);
    assert(s0.ok);
    assert(s0.out =~= stage.out);
    assert(is_set(s0, git, path));
    let words = seq![Word::Double("GIT"@, ""@), Word::Bare("--version"@), Word::Redirect("2>&1"@)];
    let args = seq![git, "--version"@, "2>&1"@];
    let inner = Stage { out: none, ..s0 };
    assert(arguments(inner, words) =~= args) by {
        reveal_with_fuel(arguments, 4);
    }
    lemma_program_run(machine, words, args, none, inner);
    assert(tells(args, machine(inner.ran, args, none), git, path, known));
    let s1 = run(machine, Command::Run(words), none, inner);
    let line = known.version + "\n"@;
    assert(s1.out =~= line);
    assert(line.drop_last() =~= known.version);
    let words2 = seq![Word::Bare("head"@), Word::Bare("-n"@), Word::Bare("1"@)];
    let args2 = seq!["head"@, "-n"@, "1"@];
    let mid = Stage { ran: s1.ran, out: none, ..s0 };
    assert(arguments(mid, words2) =~= args2) by {
        reveal_with_fuel(arguments, 4);
    }
    lemma_program_run(machine, words2, args2, line, mid);
    assert(is_usual(args2, line, machine(mid.ran, args2, line)));
    let s2 = run(machine, Command::Run(words2), line, mid);
    assert(s2.out =~= line);
    let pipe = Command::Pipe(Box::new(Command::Run(words)), Box::new(Command::Run(words2)));
    let after_pipe = run(machine, pipe, none, s0);
    assert(after_pipe.out == s0.out + s2.out);
    assert(run(machine, version_line(), none, stage) == after_pipe);
}

proof fn lemma_after_run(machine: Machine, a: Command, b: Command, stage: Stage)
    requires
        run(machine, a, Seq::empty(), stage).flow is On,
    ensures
        run(machine, after(a, b), Seq::empty(), stage) == run(
            machine,
            b,
            Seq::empty(),
            run(machine, a, Seq::empty(), stage),
        ),
{
}

/// The lines from the log on print what the server knows.
#[verifier::spinoff_prover]
#[verifier::rlimit(60)]
proof fn lemma_report_run(
    machine: Machine,
    git: Seq<char>,
    path: Seq<char>,
    known: Known,
    stage: Stage,
)
    requires
        is_posix(machine),
        serves(machine, git, path, known),
        is_printable_known(known),
        is_set(stage, git, path),
        git.len() > 0,
        !path.contains('\n'),
    ensures
        has_printed(
            run(machine, report_lines(), Seq::empty(), stage),
            stage,
            variable(stage, "log"@) + "\n"@ + ("<<<"@ + "BRANCHES"@ + "\n"@) + printed(
                known.branches,
            ) + ("<<<"@ + "HEAD"@ + "\n"@) + ("ref: refs/heads/"@ + known.head + "\n"@) + ("<<<"@
                + "SIZE"@ + "\n"@) + (known.size + "\n"@) + ("<<<"@ + "GIT"@ + "\n"@) + (
            known.version + "\n"@),
        ),
{
    lemma_names();
    let none = Seq::<char>::empty();
    let b7 = after(mark_line("GIT"@), version_line());
    let b6 = after(size_line(), b7);
    let b5 = after(mark_line("SIZE"@), b6);
    let b4 = after(head_line(), b5);
    let b3 = after(mark_line("HEAD"@), b4);
    let b2 = after(refs_line(), b3);
    let b1 = after(mark_line("BRANCHES"@), b2);
    let s0 = run(machine, show_line(), none, stage);
    lemma_show_run(machine, stage);
    let s1 = run(machine, mark_line("BRANCHES"@), none, s0);
    lemma_mark_run(machine, "BRANCHES"@, s0);
    let s2 = run(machine, refs_line(), none, s1);
    lemma_refs_run(machine, git, path, known, s1);
    let s3 = run(machine, mark_line("HEAD"@), none, s2);
    lemma_mark_run(machine, "HEAD"@, s2);
    let s4 = run(machine, head_line(), none, s3);
    lemma_head_run(machine, git, path, known, s3);
    let s5 = run(machine, mark_line("SIZE"@), none, s4);
    lemma_mark_run(machine, "SIZE"@, s4);
    let s6 = run(machine, size_line(), none, s5);
    lemma_size_run(machine, git, path, known, s5);
    let s7 = run(machine, mark_line("GIT"@), none, s6);
    lemma_mark_run(machine, "GIT"@, s6);
    let s8 = run(machine, version_line(), none, s7);
    lemma_version_run(machine, git, path, known, s7);
    lemma_after_run(machine, show_line(), b1, stage);
    lemma_after_run(machine, mark_line("BRANCHES"@), b2, s0);
    lemma_after_run(machine, refs_line(), b3, s1);
    lemma_after_run(machine, mark_line("HEAD"@), b4, s2);
    lemma_after_run(machine, head_line(), b5, s3);
    lemma_after_run(machine, mark_line("SIZE"@), b6, s4);
    lemma_after_run(machine, size_line(), b7, s5);
    lemma_after_run(machine, mark_line("GIT"@), version_line(), s6);
    assert(report_lines() == after(show_line(), b1));
    assert(run(machine, report_lines(), none, stage) == s8);
    let p0 = variable(stage, "log"@) + "\n"@;
    let p1 = p0 + ("<<<"@ + "BRANCHES"@ + "\n"@);
    let p2 = p1 + printed(known.branches);
    let p3 = p2 + ("<<<"@ + "HEAD"@ + "\n"@);
    let p4 = p3 + ("ref: refs/heads/"@ + known.head + "\n"@);
    let p5 = p4 + ("<<<"@ + "SIZE"@ + "\n"@);
    let p6 = p5 + (known.size + "\n"@);
    let p7 = p6 + ("<<<"@ + "GIT"@ + "\n"@);
    let p8 = p7 + (known.version + "\n"@);
    assert(s1.out =~= stage.out + p1);
    assert(s2.out =~= stage.out + p2);
    assert(s3.out =~= stage.out + p3);
    assert(s4.out =~= stage.out + p4);
    assert(s5.out =~= stage.out + p5);
    assert(s6.out =~= stage.out + p6);
    assert(s7.out =~= stage.out + p7);
    assert(s8.out =~= stage.out + p8);
}

/// What is printed of a repository, section by section.
#[verifier::spinoff_prover]
#[verifier::rlimit(60)]
proof fn lemma_detail_lines_printed(commits: Seq<CommitView>, known: Known)
    ensures
        printed(
            detail_lines(commits, known.branches, known.head, known.size, known.version),
        ) == ("<<<"@ + "LOG"@ + "\n"@) + printed(commits.map_values(|c: CommitView| commit_text(c)))
            + ("<<<"@ + "BRANCHES"@ + "\n"@) + printed(known.branches) + ("<<<"@ + "HEAD"@ + "\n"@) + (
        "ref: refs/heads/"@ + known.head + "\n"@) + ("<<<"@ + "SIZE"@ + "\n"@) + (known.size
            + "\n"@) + ("<<<"@ + "GIT"@ + "\n"@) + (known.version + "\n"@),
{
    let log = commits.map_values(|c: CommitView| commit_text(c));
    let head = "ref: refs/heads/"@ + known.head;
    let none = Seq::<Seq<char>>::empty();
    let l0 = none + seq!["<<<"@ + "LOG"@];
    let l1 = l0 + log;
    let l2 = l1 + seq!["<<<"@ + "BRANCHES"@];
    let l3 = l2 + known.branches;
    let l4 = l3 + seq!["<<<"@ + "HEAD"@];
    let l5 = l4 + seq![head];
    let l6 = l5 + seq!["<<<"@ + "SIZE"@];
    let l7 = l6 + seq![known.size];
    let l8 = l7 + seq!["<<<"@ + "GIT"@];
    let l9 = l8 + seq![known.version];
    assert(detail_lines(commits, known.branches, known.head, known.size, known.version) == l9);
    lemma_printed_concat(none, seq!["<<<"@ + "LOG"@]);
    lemma_printed_concat(l0, log);
    lemma_printed_concat(l1, seq!["<<<"@ + "BRANCHES"@]);
    lemma_printed_concat(l2, known.branches);
    lemma_printed_concat(l3, seq!["<<<"@ + "HEAD"@]);
    lemma_printed_concat(l4, seq![head]);
    lemma_printed_concat(l5, seq!["<<<"@ + "SIZE"@]);
    lemma_printed_concat(l6, seq![known.size]);
    lemma_printed_concat(l7, seq!["<<<"@ + "GIT"@]);
    lemma_printed_concat(l8, seq![known.version]);
    lemma_printed_one("<<<"@ + "LOG"@);
    lemma_printed_one("<<<"@ + "BRANCHES"@);
    lemma_printed_one("<<<"@ + "HEAD"@);
    lemma_printed_one(head);
    lemma_printed_one("<<<"@ + "SIZE"@);
    lemma_printed_one(known.size);
    lemma_printed_one("<<<"@ + "GIT"@);
    lemma_printed_one(known.version);
    assert(printed(none) + ("<<<"@ + "LOG"@ + "\n"@) =~= "<<<"@ + "LOG"@ + "\n"@);
}

/// What the script has found out before it runs the lines that report on the
/// repository: where git is.
pub open spec fn git_found(git: Seq<char>) -> Stage {
    Stage { vars: Map::empty().insert("GIT"@, git), ..start() }
}

/// The detail script, run on a server that has the repository, tells what the server
/// knows. It asks git for one commit more than the fifty that are shown, both for the
/// branch that is checked out and, where that has none or cannot be read, for all
/// branches; so of a history of any length the first fifty commits are shown, in
/// order, and the history counts as cut off exactly if it has more. The branches, the
/// branch that `HEAD` names, the size and the version of git are shown as they are.
pub proof fn law_detail_script_tells_what_the_server_knows(
    machine: Machine,
    git: Seq<char>,
    path: Seq<char>,
    known: Known,
)
    requires
        is_posix(machine),
        serves(machine, git, path, known),
        is_printable_known(known),
        git.len() > 0,
        !path.contains('\n'),
    ensures
        ({
            let limit = decimal(51);
            let program = detail_program(path, limit);
            let end = run(machine, program, Seq::empty(), git_found(git));
            let commits = history(known);
            &&& inspection(path) == GIT_PREAMBLE@ + text(program)
            &&& is_grouped(program)
            &&& end.flow is On
            &&& detail(end.out) == (DetailView {
                commits: if commits.len() > 50 {
                    commits.take(50)
                } else {
                    commits
                },
                truncated: commits.len() > 50,
                branches: known.branches,
                head: known.head,
                size: known.size,
                error: Seq::empty(),
                git: known.version,
            })
        }),
{
    let limit = decimal(51);
    let none = Seq::<char>::empty();
    lemma_inspection_text(path);
    lemma_parsed_decimal(51);
    lemma_names();
    let program = detail_program(path, limit);
    let stage = git_found(git);
    let first = Command::Assign("d"@, Word::Single(path));
    let b4 = after(fallback_lines(limit), report_lines());
    let b3 = after(status_line(), b4);
    let b2 = after(log_line(limit), b3);
    let b1 = after(format_line(), b2);
    let b0 = after(mark_line("LOG"@), b1);
    assert(program == after(first, b0));
    let s0 = run(machine, first, none, stage);
    lemma_after_run(machine, first, b0, stage);
    let s1 = run(machine, mark_line("LOG"@), none, s0);
    lemma_mark_run(machine, "LOG"@, s0);
    lemma_after_run(machine, mark_line("LOG"@), b1, s0);
    let s2 = run(machine, format_line(), none, s1);
    lemma_after_run(machine, format_line(), b2, s1);
    assert(is_set(s2, git, path));
    lemma_log_run(machine, git, path, known, limit, s2);
    let s3 = run(machine, log_line(limit), none, s2);
    let s4 = run(machine, status_line(), none, s3);
    let s5 = run(machine, fallback_lines(limit), none, s4);
    lemma_after_run(machine, log_line(limit), b3, s2);
    lemma_after_run(machine, status_line(), b4, s3);
    lemma_after_run(machine, fallback_lines(limit), report_lines(), s4);
    lemma_report_run(machine, git, path, known, s5);
    let end = run(machine, report_lines(), none, s5);
    assert(run(machine, program, none, stage) == end);
    let commits = history(known);
    let shown = newest(commits, 51);
    lemma_log_captured(commits, 51);
    let log = printed(shown.map_values(|c: CommitView| commit_text(c)));
    assert(variable(s5, "log"@) + "\n"@ == log);
    assert(s2.out =~= "<<<"@ + "LOG"@ + "\n"@);
    let mark = "<<<"@ + "LOG"@ + "\n"@;
    lemma_detail_lines_printed(shown, known);
    let a = "<<<"@ + "BRANCHES"@ + "\n"@;
    let b = printed(known.branches);
    let c = "<<<"@ + "HEAD"@ + "\n"@;
    let d = "ref: refs/heads/"@ + known.head + "\n"@;
    let e = "<<<"@ + "SIZE"@ + "\n"@;
    let f = known.size + "\n"@;
    let g = "<<<"@ + "GIT"@ + "\n"@;
    let h = known.version + "\n"@;
    lemma_long_sum(mark, log, a, b, c, d, e, f, g, h);
    assert(end.out == printed(
        detail_lines(shown, known.branches, known.head, known.size, known.version),
    ));
    assert forall|i: int| 0 <= i < shown.len() implies is_printable_commit(#[trigger] shown[i]) by {
        assert(shown[i] == commits[i]);
    }
    law_detail_is_read_back(shown, known.branches, known.head, known.size, known.version);
    if commits.len() > 50 {
        assert(shown.len() == 51 || shown == commits);
        assert(shown.take(50) =~= commits.take(50));
    }
}

proof fn lemma_long_sum(
    x: Seq<char>,
    l: Seq<char>,
    a: Seq<char>,
    b: Seq<char>,
    c: Seq<char>,
    d: Seq<char>,
    e: Seq<char>,
    f: Seq<char>,
    g: Seq<char>,
    h: Seq<char>,
)
    ensures
        x + (l + a + b + c + d + e + f + g + h) == x + l + a + b + c + d + e + f + g + h,
{
    assert(x + (l + a) =~= x + l + a);
    assert(x + (l + a + b) =~= (x + (l + a)) + b);
    assert(x + (l + a + b + c) =~= (x + (l + a + b)) + c);
    assert(x + (l + a + b + c + d) =~= (x + (l + a + b + c)) + d);
    assert(x + (l + a + b + c + d + e) =~= (x + (l + a + b + c + d)) + e);
    assert(x + (l + a + b + c + d + e + f) =~= (x + (l + a + b + c + d + e)) + f);
    assert(x + (l + a + b + c + d + e + f + g) =~= (x + (l + a + b + c + d + e + f)) + g);
    assert(x + (l + a + b + c + d + e + f + g + h) =~= (x + (l + a + b + c + d + e + f + g)) + h);
}

} // verus!
