//! One repository in detail: the script that reads it, and its output.
use vstd::prelude::*;
use vstd::slice::slice_subrange;
use crate::listing::{is_printable_part, lemma_concat_lacks, piece, piece_text};
use crate::quote::{shq, single_quoted};
use crate::ssh::{
    commit_views, Commit, CommitView, DetailView, RepoDetail, GIT_PREAMBLE, LOG_LIMIT, SEP,
};
use crate::text::{
    begins, chars_of, decimal, fields, has_char, is_blank, is_line, is_white_space, joined,
    law_trimmed, lemma_fields_concat,
    lemma_fields_single, lemma_lines_printed, lemma_trimmed_already, lemma_trimmed_ends,
    lemma_trimmed_keeps_first, lemma_trimmed_lengths, lines, lines_of, nonblank, number, pieces, printed, push_text, same,
    split, starts_with, text_of, texts, trim, trim_start_matches, trimmed,
    trimmed_end, without_prefixes,
};

verus! {

/// The part of the detail script before the first commit limit.
pub const DETAIL_LOG: &'static str = "
echo '<<<LOG'
fmt='%h%x1f%an%x1f%cI%x1f%cr%x1f%s'
log=$(rgit \"$d\" log -n ";

/// The part of the detail script between the two commit limits.
///
/// Errors are kept: an empty log is usually caused by git refusing to read the
/// repository, and the reason belongs in the UI.
pub const DETAIL_ALL: &'static str = " --format=\"$fmt\" 2>&1)
ok=$?
if [ $ok -ne 0 ] || [ -z \"$log\" ]; then
  alt=$(rgit \"$d\" log -n ";

/// The part of the detail script after the commit limits.
///
/// The fallback only wins when it worked, so that a genuine error message
/// survives instead of being blanked out.
pub const DETAIL_REST: &'static str = " --all --format=\"$fmt\" 2>&1)
  if [ $? -eq 0 ] && [ -n \"$alt\" ]; then log=$alt; fi
fi
printf '%s\\n' \"$log\"
echo '<<<BRANCHES'
rgit \"$d\" for-each-ref --sort=-committerdate --format='%(refname:short)' refs/heads 2>/dev/null
echo '<<<HEAD'
cat \"$d/HEAD\" 2>/dev/null
echo '<<<SIZE'
du -sh \"$d\" 2>/dev/null | cut -f1
echo '<<<GIT'
if [ -n \"$GIT\" ]; then \"$GIT\" --version 2>&1 | head -n 1; else echo 'git was not found on the server (install the Git Server package)'; fi";

/// The script that reads the repository at `path`. It asks for one commit more
/// than are shown, so that it is known whether the history was cut off.
pub open spec fn inspection(path: Seq<char>) -> Seq<char> {
    GIT_PREAMBLE@ + "d="@ + single_quoted(path) + DETAIL_LOG@ + decimal((LOG_LIMIT + 1) as nat)
        + DETAIL_ALL@ + decimal((LOG_LIMIT + 1) as nat) + DETAIL_REST@
}

/// Builds the script that reports a repository's log, branches, HEAD and size.
/// One extra commit is requested so we can tell whether the history was cut off.
pub fn detail_script(path: &str) -> (r: String)
    ensures
        r@ == inspection(path@),
{
    let limit = number((LOG_LIMIT + 1) as u64);
    let mut script = GIT_PREAMBLE.to_string();
    push_text(&mut script, "d=");
    push_text(&mut script, shq(path).as_str());
    push_text(&mut script, DETAIL_LOG);
    push_text(&mut script, limit.as_str());
    push_text(&mut script, DETAIL_ALL);
    push_text(&mut script, limit.as_str());
    push_text(&mut script, DETAIL_REST);
    script
}

/// The commit that `hash<SEP>author<SEP>iso-date<SEP>relative-date<SEP>subject`
/// tells of.
pub open spec fn commit(line: Seq<char>) -> Option<CommitView> {
    let parts = fields(line, SEP);
    if piece(parts, 0).len() == 0 {
        None
    } else {
        Some(
            CommitView {
                hash: piece(parts, 0),
                author: piece(parts, 1),
                date: piece(parts, 2),
                when: piece(parts, 3),
                subject: piece(parts, 4),
            },
        )
    }
}

/// The text of an optional commit.
pub open spec fn commit_option(c: Option<Commit>) -> Option<CommitView> {
    match c {
        Some(c) => Some(c@),
        None => None,
    }
}

/// Parses `hash<SEP>author<SEP>iso-date<SEP>relative-date<SEP>subject`.
pub fn parse_commit(line: &str) -> (r: Option<Commit>)
    ensures
        commit_option(r) == commit(line@),
{
    parse_commit_chars(chars_of(line).as_slice())
}

fn parse_commit_chars(line: &[char]) -> (r: Option<Commit>)
    ensures
        commit_option(r) == commit(line@),
{
    let parts = split(line, SEP);
    let hash = piece_text(parts.as_slice(), 0);
    if hash.as_str().is_empty() {
        return None;
    }
    Some(
        Commit {
            hash,
            author: piece_text(parts.as_slice(), 1),
            date: piece_text(parts.as_slice(), 2),
            when: piece_text(parts.as_slice(), 3),
            subject: piece_text(parts.as_slice(), 4),
        },
    )
}

/// The name of the section that a line opens.
pub open spec fn section_name(line: Seq<char>) -> Option<Seq<char>> {
    let t = trimmed(line);
    if starts_with(t, "<<<"@) {
        Some(t.skip(3))
    } else {
        None
    }
}

/// The section that is open after `lines`.
pub open spec fn open_section(lines: Seq<Seq<char>>) -> Option<Seq<char>>
    decreases lines.len(),
{
    if lines.len() == 0 {
        None
    } else {
        match section_name(lines.last()) {
            Some(name) => Some(name),
            None => open_section(lines.drop_last()),
        }
    }
}

/// The lines of `lines` in sections called `name`.
pub open spec fn section(lines: Seq<Seq<char>>, name: Seq<char>) -> Seq<Seq<char>>
    decreases lines.len(),
{
    if lines.len() == 0 {
        Seq::empty()
    } else {
        let rest = section(lines.drop_last(), name);
        if section_name(lines.last()) is None && open_section(lines.drop_last()) == Some(name) {
            rest.push(lines.last())
        } else {
            rest
        }
    }
}

/// The commits that the lines of a log tell of: those with a separator in them.
pub open spec fn commits_of(lines: Seq<Seq<char>>) -> Seq<CommitView>
    decreases lines.len(),
{
    if lines.len() == 0 {
        Seq::empty()
    } else {
        let rest = commits_of(lines.drop_last());
        match commit(lines.last()) {
            Some(c) if lines.last().contains(SEP) => rest.push(c),
            _ => rest,
        }
    }
}

/// The lines of a log in which git complains: those without a separator.
pub open spec fn complaints(lines: Seq<Seq<char>>) -> Seq<Seq<char>>
    decreases lines.len(),
{
    if lines.len() == 0 {
        Seq::empty()
    } else {
        let rest = complaints(lines.drop_last());
        if lines.last().contains(SEP) || is_blank(lines.last()) {
            rest
        } else {
            rest.push(trimmed(lines.last()))
        }
    }
}

/// The first text of a list; empty when there is none.
pub open spec fn first_or_empty(list: Seq<Seq<char>>) -> Seq<char> {
    if list.len() > 0 {
        list[0]
    } else {
        Seq::empty()
    }
}

/// The last text of a list; empty when there is none.
pub open spec fn last_or_empty(list: Seq<Seq<char>>) -> Seq<char> {
    if list.len() > 0 {
        list.last()
    } else {
        Seq::empty()
    }
}

/// What the output of the detail script tells.
pub open spec fn detail(out: Seq<char>) -> DetailView {
    let all = lines_of(out);
    let log = section(all, "LOG"@);
    let commits = commits_of(log);
    DetailView {
        commits: if commits.len() > LOG_LIMIT {
            commits.take(LOG_LIMIT as int)
        } else {
            commits
        },
        branches: nonblank(section(all, "BRANCHES"@)),
        size: last_or_empty(nonblank(section(all, "SIZE"@))),
        head: without_prefixes(
            last_or_empty(nonblank(section(all, "HEAD"@))),
            "ref: refs/heads/"@,
        ),
        truncated: commits.len() > LOG_LIMIT,
        error: joined(complaints(log), seq!['\n']),
        git: first_or_empty(nonblank(section(all, "GIT"@))),
    }
}

/// The sections of the detail script's output.
#[derive(Clone, Copy, PartialEq, Eq, Structural)]
enum Section {
    Other,
    Log,
    Git,
    Branches,
    Head,
    Size,
}

/// `section` is the one that is open when `name` says so.
spec fn is_section(section: Section, name: Option<Seq<char>>) -> bool {
    &&& (section == Section::Log <==> name == Some("LOG"@))
    &&& (section == Section::Git <==> name == Some("GIT"@))
    &&& (section == Section::Branches <==> name == Some("BRANCHES"@))
    &&& (section == Section::Head <==> name == Some("HEAD"@))
    &&& (section == Section::Size <==> name == Some("SIZE"@))
}

/// The names of the sections are different.
proof fn lemma_section_names()
    ensures
        "LOG"@ != "GIT"@,
        "LOG"@ != "BRANCHES"@,
        "LOG"@ != "HEAD"@,
        "LOG"@ != "SIZE"@,
        "GIT"@ != "BRANCHES"@,
        "GIT"@ != "HEAD"@,
        "GIT"@ != "SIZE"@,
        "BRANCHES"@ != "HEAD"@,
        "BRANCHES"@ != "SIZE"@,
        "HEAD"@ != "SIZE"@,
{
    reveal_strlit("LOG");
    reveal_strlit("GIT");
    reveal_strlit("BRANCHES");
    reveal_strlit("HEAD");
    reveal_strlit("SIZE");
    assert("LOG"@[0] == 'L');
    assert("GIT"@[0] == 'G');
    assert("BRANCHES"@[0] == 'B');
    assert("HEAD"@[0] == 'H');
    assert("SIZE"@[0] == 'S');
}

fn section_of(name: &[char]) -> (r: Section)
    ensures
        is_section(r, Some(name@)),
{
    proof {
        lemma_section_names();
    }
    if same(name, chars_of("LOG").as_slice()) {
        Section::Log
    } else if same(name, chars_of("GIT").as_slice()) {
        Section::Git
    } else if same(name, chars_of("BRANCHES").as_slice()) {
        Section::Branches
    } else if same(name, chars_of("HEAD").as_slice()) {
        Section::Head
    } else if same(name, chars_of("SIZE").as_slice()) {
        Section::Size
    } else {
        Section::Other
    }
}

/// What has been read of the output: everything but the cut.
spec fn is_read(d: RepoDetail, all: Seq<Seq<char>>) -> bool {
    let log = section(all, "LOG"@);
    &&& commit_views(d.commits@) == commits_of(log)
    &&& texts(d.branches@) == nonblank(section(all, "BRANCHES"@))
    &&& d.size@ == last_or_empty(nonblank(section(all, "SIZE"@)))
    &&& d.head@ == without_prefixes(
        last_or_empty(nonblank(section(all, "HEAD"@))),
        "ref: refs/heads/"@,
    )
    &&& d.error@ == joined(complaints(log), seq!['\n'])
    &&& (d.error@.len() == 0 <==> complaints(log).len() == 0)
    &&& d.git@ == first_or_empty(nonblank(section(all, "GIT"@)))
    &&& (d.git@.len() == 0 <==> nonblank(section(all, "GIT"@)).len() == 0)
    &&& !d.truncated
}

/// Reads one line of the section that is open.
fn read_line(d: &mut RepoDetail, open: Section, line: &[char], Ghost(before): Ghost<Seq<Seq<char>>>)
    requires
        is_read(*old(d), before),
        is_section(open, open_section(before)),
        section_name(line@) is None,
    ensures
        is_read(*final(d), before.push(line@)),
{
    proof {
        lemma_section_names();
        let all = before.push(line@);
        assert(all.drop_last() == before);
        assert(all.last() == line@);
        let log = section(before, "LOG"@);
        assert(log.push(line@).drop_last() == log);
        let branches = section(before, "BRANCHES"@);
        assert(branches.push(line@).drop_last() == branches);
        let head = section(before, "HEAD"@);
        assert(head.push(line@).drop_last() == head);
        let size = section(before, "SIZE"@);
        assert(size.push(line@).drop_last() == size);
        let git = section(before, "GIT"@);
        assert(git.push(line@).drop_last() == git);
    }
    let text = trim(line);
    match open {
        Section::Log => {
            if has_char(line, SEP) {
                match parse_commit_chars(line) {
                    Some(c) => {
                        let ghost done = commit_views(d.commits@);
                        d.commits.push(c);
                        assert(commit_views(d.commits@) == done.push(c@));
                    },
                    None => {},
                }
            } else if text.len() > 0 {
                // No separator means git printed a diagnostic, not a commit.
                let ghost done = complaints(section(before, "LOG"@));
                assert(done.push(text@).drop_last() == done);
                if !d.error.as_str().is_empty() {
                    d.error.push('\n');
                    assert(d.error@ == joined(done, seq!['\n']) + seq!['\n']);
                }
                push_text(&mut d.error, text_of(text).as_str());
                assert(d.error@ == joined(done.push(text@), seq!['\n'])) by {
                    assert(Seq::<char>::empty() + text@ == text@);
                }
            }
        },
        Section::Git => {
            if text.len() > 0 && d.git.as_str().is_empty() {
                d.git = text_of(text);
            }
        },
        Section::Branches => {
            if text.len() > 0 {
                let ghost done = texts(d.branches@);
                d.branches.push(text_of(text));
                assert(texts(d.branches@) == done.push(text@));
            }
        },
        Section::Head => {
            if text.len() > 0 {
                let prefix = chars_of("ref: refs/heads/");
                d.head = text_of(trim_start_matches(text, prefix.as_slice()));
            }
        },
        Section::Size => {
            if text.len() > 0 {
                d.size = text_of(text);
            }
        },
        Section::Other => {},
    }
}

/// Parses the sectioned output of [`detail_script`].
pub fn parse_detail(out: &str) -> (r: RepoDetail)
    ensures
        r@ == detail(out@),
{
    let cs = chars_of(out);
    let rows = lines(cs.as_slice());
    let ghost all = lines_of(out@);
    let n: usize = rows.len();
    let mark = chars_of("<<<");
    let mut d = RepoDetail::default();
    let mut open = Section::Other;
    proof {
        assert(all.take(0) == Seq::<Seq<char>>::empty());
        reveal_strlit("ref: refs/heads/");
        assert(!starts_with(Seq::empty(), "ref: refs/heads/"@));
    }
    for i in 0..n
        invariant
            n == rows@.len(),
            all == pieces(rows@),
            mark@ == "<<<"@,
            is_read(d, all.take(i as int)),
            is_section(open, open_section(all.take(i as int))),
    {
        let line = rows[i];
        let text = trim(line);
        assert(all[i as int] == line@);
        let ghost seen = all.take(i as int);
        assert(all.take(i + 1) == seen.push(line@));
        assert(seen.push(line@).drop_last() == seen);
        if begins(text, mark.as_slice()) {
            proof {
                reveal_strlit("<<<");
            }
            let name = slice_subrange(text, 3, text.len());
            assert(name@ == text@.skip(3));
            open = section_of(name);
        } else {
            read_line(&mut d, open, line, Ghost(seen));
        }
    }
    assert(all.take(n as int) == all);
    if d.commits.len() > LOG_LIMIT {
        let ghost full = commit_views(d.commits@);
        d.commits.truncate(LOG_LIMIT);
        d.truncated = true;
        assert(commit_views(d.commits@) == full.take(LOG_LIMIT as int));
    }
    d
}

/// A commit as the detail script prints it.
pub open spec fn commit_text(c: CommitView) -> Seq<char> {
    c.hash + seq![SEP] + c.author + seq![SEP] + c.date + seq![SEP] + c.when + seq![SEP] + c.subject
}

/// A commit that can be printed on one line: there is a hash, no part holds the
/// separator or a line feed or has white space around it, and the hash does not
/// look like a section mark.
pub open spec fn is_printable_commit(c: CommitView) -> bool {
    &&& c.hash.len() > 0
    &&& !starts_with(c.hash, "<<<"@)
    &&& is_printable_part(c.hash) && !c.hash.contains('\n')
    &&& is_printable_part(c.author) && !c.author.contains('\n')
    &&& is_printable_part(c.date) && !c.date.contains('\n')
    &&& is_printable_part(c.when) && !c.when.contains('\n')
    &&& is_printable_part(c.subject) && !c.subject.contains('\n')
}

/// A commit that the detail script prints is read back as it was.
pub proof fn law_commit_is_read_back(c: CommitView)
    requires
        is_printable_commit(c),
    ensures
        commit(commit_text(c)) == Some(c),
        commit_text(c).contains(SEP),
        is_line(commit_text(c)),
        section_name(commit_text(c)) is None,
{
    let text = commit_text(c);
    let t3 = c.when + seq![SEP] + c.subject;
    let t2 = c.date + seq![SEP] + t3;
    let t1 = c.author + seq![SEP] + t2;
    assert(text == c.hash + seq![SEP] + t1);
    lemma_fields_concat(c.hash, SEP, t1);
    lemma_fields_concat(c.author, SEP, t2);
    lemma_fields_concat(c.date, SEP, t3);
    lemma_fields_concat(c.when, SEP, c.subject);
    lemma_fields_single(c.hash, SEP);
    lemma_fields_single(c.author, SEP);
    lemma_fields_single(c.date, SEP);
    lemma_fields_single(c.when, SEP);
    lemma_fields_single(c.subject, SEP);
    assert(fields(text, SEP) == seq![c.hash, c.author, c.date, c.when, c.subject]);
    assert(text[c.hash.len() as int] == SEP);

    lemma_concat_lacks(c.when, seq![SEP], '\n');
    lemma_concat_lacks(c.when + seq![SEP], c.subject, '\n');
    lemma_concat_lacks(c.date, seq![SEP], '\n');
    lemma_concat_lacks(c.date + seq![SEP], t3, '\n');
    lemma_concat_lacks(c.author, seq![SEP], '\n');
    lemma_concat_lacks(c.author + seq![SEP], t2, '\n');
    lemma_concat_lacks(c.hash, seq![SEP], '\n');
    lemma_concat_lacks(c.hash + seq![SEP], t1, '\n');
    if c.subject.len() > 0 {
        lemma_trimmed_ends(c.subject);
        assert(text.last() == c.subject.last());
    } else {
        assert(text.last() == SEP);
    }
    lemma_trimmed_ends(c.hash);
    assert(text[0] == c.hash[0]);
    lemma_trimmed_keeps_first(text);
    lemma_trimmed_lengths(text);
    reveal_strlit("<<<");
    if section_name(text) is Some {
        let n = c.hash.len() as int;
        assert(text.take(3) == trimmed(text).take(3));
        if n < 3 {
            assert(text.take(3)[n] == "<<<"@[n]);
        } else {
            assert(c.hash.take(3) == text.take(3));
        }
    }
}

/// A text that can be printed on a line of its own in a section: it is not blank,
/// has no white space around it, holds no line feed and is no section mark.
pub open spec fn is_printable_line(s: Seq<char>) -> bool {
    s.len() > 0 && !starts_with(s, "<<<"@) && trimmed(s) == s && !s.contains('\n')
}

proof fn lemma_printable_line(s: Seq<char>)
    requires
        is_printable_line(s),
    ensures
        is_line(s),
        section_name(s) is None,
        !is_blank(s),
{
    lemma_trimmed_ends(s);
}

/// The line that opens the section `name`.
pub open spec fn section_mark(name: Seq<char>) -> Seq<char> {
    "<<<"@ + name
}

proof fn lemma_section_mark(name: Seq<char>)
    requires
        name.len() > 0,
        trimmed(name) == name,
        !name.contains('\n'),
    ensures
        section_name(section_mark(name)) == Some(name),
        is_line(section_mark(name)),
{
    reveal_strlit("<<<");
    let mark = section_mark(name);
    lemma_trimmed_ends(name);
    assert(mark[0] == '<');
    assert(mark.last() == name.last());
    lemma_trimmed_already(mark);
    assert(mark.take(3) == "<<<"@);
    assert(mark.skip(3) == name);
    assert forall|j: int| 0 <= j < "<<<"@.len() implies "<<<"@[j] != '\n' by {}
    lemma_concat_lacks("<<<"@, name, '\n');
}

/// A section behind other lines adds its body to the lines of its name.
proof fn lemma_section_appended(
    before: Seq<Seq<char>>,
    opened: Seq<char>,
    body: Seq<Seq<char>>,
    name: Seq<char>,
)
    requires
        section_name(section_mark(opened)) == Some(opened),
        forall|i: int| 0 <= i < body.len() ==> section_name(#[trigger] body[i]) is None,
    ensures
        section(before + seq![section_mark(opened)] + body, name) == section(before, name) + if opened
            == name {
            body
        } else {
            Seq::empty()
        },
        open_section(before + seq![section_mark(opened)] + body) == Some(opened),
    decreases body.len(),
{
    let all = before + seq![section_mark(opened)] + body;
    if body.len() == 0 {
        assert(all == before.push(section_mark(opened)));
        assert(all.drop_last() == before);
        assert(section(before, name) + Seq::<Seq<char>>::empty() == section(before, name));
        assert(section(before, name) + body == section(before, name));
    } else {
        let rest = body.drop_last();
        assert forall|i: int| 0 <= i < rest.len() implies section_name(#[trigger] rest[i]) is None by {
            assert(rest[i] == body[i]);
        }
        lemma_section_appended(before, opened, rest, name);
        assert(all.drop_last() == before + seq![section_mark(opened)] + rest);
        assert(section_name(body[body.len() - 1]) is None);
        assert(all.last() == body.last());
        if opened == name {
            assert((section(before, name) + rest).push(body.last()) == section(before, name)
                + body);
        }
    }
}

proof fn lemma_commits_of_log(commits: Seq<CommitView>)
    requires
        forall|i: int| 0 <= i < commits.len() ==> is_printable_commit(#[trigger] commits[i]),
    ensures
        commits_of(commits.map_values(|c: CommitView| commit_text(c))) == commits,
        complaints(commits.map_values(|c: CommitView| commit_text(c))) == Seq::<Seq<char>>::empty(),
    decreases commits.len(),
{
    let log = commits.map_values(|c: CommitView| commit_text(c));
    if commits.len() > 0 {
        let rest = commits.drop_last();
        assert forall|i: int| 0 <= i < rest.len() implies is_printable_commit(
            #[trigger] rest[i],
        ) by {
            assert(rest[i] == commits[i]);
        }
        lemma_commits_of_log(rest);
        assert(log.drop_last() == rest.map_values(|c: CommitView| commit_text(c)));
        assert(is_printable_commit(commits[commits.len() - 1]));
        law_commit_is_read_back(commits.last());
        assert(rest.push(commits.last()) == commits);
    }
}

proof fn lemma_nonblank_lines(list: Seq<Seq<char>>)
    requires
        forall|i: int| 0 <= i < list.len() ==> is_printable_line(#[trigger] list[i]),
    ensures
        nonblank(list) == list,
    decreases list.len(),
{
    if list.len() > 0 {
        let rest = list.drop_last();
        assert forall|i: int| 0 <= i < rest.len() implies is_printable_line(#[trigger] rest[i]) by {
            assert(rest[i] == list[i]);
        }
        lemma_nonblank_lines(rest);
        assert(is_printable_line(list[list.len() - 1]));
        lemma_printable_line(list.last());
        assert(rest.push(list.last()) == list);
    }
}

/// The lines that the detail script prints for a repository that git can read.
pub open spec fn detail_lines(
    commits: Seq<CommitView>,
    branches: Seq<Seq<char>>,
    head: Seq<char>,
    size: Seq<char>,
    git: Seq<char>,
) -> Seq<Seq<char>> {
    Seq::<Seq<char>>::empty() + seq![section_mark("LOG"@)] + commits.map_values(
        |c: CommitView| commit_text(c),
    ) + seq![section_mark("BRANCHES"@)] + branches + seq![section_mark("HEAD"@)] + seq![
        "ref: refs/heads/"@ + head,
    ] + seq![section_mark("SIZE"@)] + seq![size] + seq![section_mark("GIT"@)] + seq![git]
}

/// What the detail script prints is read back: the commits in order, of which the
/// first fifty are kept and the cut is noted, and the branches, the branch that
/// `HEAD` names, the size and the version of git.
pub proof fn law_detail_is_read_back(
    commits: Seq<CommitView>,
    branches: Seq<Seq<char>>,
    head: Seq<char>,
    size: Seq<char>,
    git: Seq<char>,
)
    requires
        forall|i: int| 0 <= i < commits.len() ==> is_printable_commit(#[trigger] commits[i]),
        forall|i: int| 0 <= i < branches.len() ==> is_printable_line(#[trigger] branches[i]),
        trimmed_end(head) == head,
        !head.contains('\n'),
        !starts_with(head, "ref: refs/heads/"@),
        size.len() == 0 || is_printable_line(size),
        git.len() == 0 || is_printable_line(git),
    ensures
        detail(printed(detail_lines(commits, branches, head, size, git))) == (DetailView {
            commits: if commits.len() > LOG_LIMIT {
                commits.take(LOG_LIMIT as int)
            } else {
                commits
            },
            branches,
            size,
            head,
            truncated: commits.len() > LOG_LIMIT,
            error: Seq::empty(),
            git,
        }),
{
    let log = commits.map_values(|c: CommitView| commit_text(c));
    let prefix = "ref: refs/heads/"@;
    let l0 = Seq::<Seq<char>>::empty();
    let l1 = l0 + seq![section_mark("LOG"@)] + log;
    let l2 = l1 + seq![section_mark("BRANCHES"@)] + branches;
    let l3 = l2 + seq![section_mark("HEAD"@)] + seq![prefix + head];
    let l4 = l3 + seq![section_mark("SIZE"@)] + seq![size];
    let all = detail_lines(commits, branches, head, size, git);
    assert(all == l4 + seq![section_mark("GIT"@)] + seq![git]);

    reveal_strlit("LOG");
    reveal_strlit("GIT");
    reveal_strlit("BRANCHES");
    reveal_strlit("HEAD");
    reveal_strlit("SIZE");
    reveal_strlit("ref: refs/heads/");
    lemma_section_names();
    lemma_name_mark("LOG"@);
    lemma_name_mark("BRANCHES"@);
    lemma_name_mark("HEAD"@);
    lemma_name_mark("SIZE"@);
    lemma_name_mark("GIT"@);

    assert(is_printable_line(prefix + head)) by {
        if head.len() > 0 {
            lemma_trimmed_lengths(head.drop_last());
            assert((prefix + head).last() == head.last());
        } else {
            assert(prefix + head == prefix);
            assert(prefix.last() == '/');
        }
        assert((prefix + head)[0] == 'r');
        reveal_strlit("<<<");
        if starts_with(prefix + head, "<<<"@) {
            assert((prefix + head).take(3)[0] == "<<<"@[0]);
        }
        lemma_trimmed_already(prefix + head);
        assert forall|j: int| 0 <= j < prefix.len() implies prefix[j] != '\n' by {}
        lemma_concat_lacks(prefix, head, '\n');
    }
    lemma_printable_line(prefix + head);
    lemma_single_line(size);
    lemma_single_line(git);
    assert forall|i: int| 0 <= i < log.len() implies section_name(#[trigger] log[i]) is None
        && is_line(log[i]) by {
        assert(is_printable_commit(commits[i]));
        law_commit_is_read_back(commits[i]);
    }
    assert forall|i: int| 0 <= i < branches.len() implies section_name(#[trigger] branches[i]) is None
        && is_line(branches[i]) by {
        assert(is_printable_line(branches[i]));
        lemma_printable_line(branches[i]);
    }

    assert forall|i: int| 0 <= i < all.len() implies is_line(#[trigger] all[i]) by {
        let n = log.len() as int;
        let m = branches.len() as int;
        if 1 <= i < 1 + n {
            assert(all[i] == log[i - 1]);
        } else if 2 + n <= i < 2 + n + m {
            assert(all[i] == branches[i - 2 - n]);
        }
    }
    lemma_lines_printed(all);

    lemma_all_sections(l0, "LOG"@, log);
    lemma_all_sections(l1, "BRANCHES"@, branches);
    lemma_all_sections(l2, "HEAD"@, seq![prefix + head]);
    lemma_all_sections(l3, "SIZE"@, seq![size]);
    lemma_all_sections(l4, "GIT"@, seq![git]);
    assert(section(all, "LOG"@) == log);
    assert(section(all, "BRANCHES"@) == branches);
    assert(section(all, "HEAD"@) == seq![prefix + head]);
    assert(section(all, "SIZE"@) == seq![size]);
    assert(section(all, "GIT"@) == seq![git]);

    lemma_commits_of_log(commits);
    lemma_nonblank_lines(branches);
    lemma_nonblank_lines(seq![prefix + head]);
    assert((prefix + head).take(prefix.len() as int) == prefix);
    assert((prefix + head).skip(prefix.len() as int) == head);
    assert(without_prefixes(prefix + head, prefix) == without_prefixes(head, prefix));
}

/// A section of one line gives that line, also where it is empty.
proof fn lemma_single_line(s: Seq<char>)
    requires
        s.len() == 0 || is_printable_line(s),
    ensures
        is_line(s),
        section_name(s) is None,
        first_or_empty(nonblank(seq![s])) == s,
        last_or_empty(nonblank(seq![s])) == s,
{
    reveal_strlit("<<<");
    let list = seq![s];
    assert(list.drop_last() == Seq::<Seq<char>>::empty());
    if s.len() == 0 {
        assert(trimmed(s) == s);
        assert(is_blank(list.last()));
        assert(nonblank(list.drop_last()) == Seq::<Seq<char>>::empty());
        assert(nonblank(list) == Seq::<Seq<char>>::empty());
        assert(s == Seq::<char>::empty());
    } else {
        lemma_printable_line(s);
        lemma_nonblank_lines(list);
    }
}

proof fn lemma_name_mark(name: Seq<char>)
    requires
        name.len() > 0,
        forall|i: int| 0 <= i < name.len() ==> 'A' <= #[trigger] name[i] <= 'Z',
    ensures
        section_name(section_mark(name)) == Some(name),
        is_line(section_mark(name)),
{
    assert('A' <= name[0] <= 'Z');
    assert('A' <= name[name.len() - 1] <= 'Z');
    lemma_trimmed_already(name);
    assert forall|i: int| 0 <= i < name.len() implies name[i] != '\n' by {
        assert('A' <= name[i] <= 'Z');
    }
    lemma_section_mark(name);
}

proof fn lemma_all_sections(before: Seq<Seq<char>>, opened: Seq<char>, body: Seq<Seq<char>>)
    requires
        section_name(section_mark(opened)) == Some(opened),
        forall|i: int| 0 <= i < body.len() ==> section_name(#[trigger] body[i]) is None,
    ensures
        forall|name: Seq<char>| #[trigger]
            section(before + seq![section_mark(opened)] + body, name) =~= section(before, name) + if opened
                == name {
                body
            } else {
                Seq::empty()
            },
{
    assert forall|name: Seq<char>| #[trigger]
        section(before + seq![section_mark(opened)] + body, name) =~= section(before, name) + if opened
            == name {
            body
        } else {
            Seq::empty()
        } by {
        lemma_section_appended(before, opened, body, name);
    }
}

proof fn lemma_complaints(lines: Seq<Seq<char>>)
    requires
        forall|i: int|
            0 <= i < lines.len() ==> is_printable_line(#[trigger] lines[i]) && !lines[i].contains(
                SEP,
            ),
    ensures
        complaints(lines) == lines,
        commits_of(lines) == Seq::<CommitView>::empty(),
    decreases lines.len(),
{
    if lines.len() > 0 {
        let rest = lines.drop_last();
        assert forall|i: int| 0 <= i < rest.len() implies is_printable_line(#[trigger] rest[i])
            && !rest[i].contains(SEP) by {
            assert(rest[i] == lines[i]);
        }
        lemma_complaints(rest);
        assert(is_printable_line(lines[lines.len() - 1]));
        lemma_printable_line(lines.last());
        assert(rest.push(lines.last()) == lines);
    }
}

/// What git complains about instead of printing a log is shown, line by line, and no
/// commit is made of it.
pub proof fn law_complaints_are_shown(lines: Seq<Seq<char>>)
    requires
        forall|i: int|
            0 <= i < lines.len() ==> is_printable_line(#[trigger] lines[i]) && !lines[i].contains(
                SEP,
            ),
    ensures
        ({
            let d = detail(printed(seq!["<<<LOG"@] + lines));
            &&& d.commits.len() == 0
            &&& !d.truncated
            &&& d.error == joined(lines, "\n"@)
        }),
{
    reveal_strlit("\n");
    reveal_strlit("<<<");
    reveal_strlit("<<<LOG");
    reveal_strlit("LOG");
    assert("\n"@ =~= seq!['\n']);
    assert("<<<LOG"@ =~= section_mark("LOG"@));
    lemma_name_mark("LOG"@);
    let none = Seq::<Seq<char>>::empty();
    let all = seq!["<<<LOG"@] + lines;
    assert(all =~= none + seq![section_mark("LOG"@)] + lines);
    assert forall|i: int| 0 <= i < lines.len() implies section_name(#[trigger] lines[i]) is None
        && is_line(lines[i]) by {
        assert(is_printable_line(lines[i]));
        lemma_printable_line(lines[i]);
    }
    assert forall|i: int| 0 <= i < all.len() implies is_line(#[trigger] all[i]) by {
        if i > 0 {
            assert(all[i] == lines[i - 1]);
        }
    }
    lemma_lines_printed(all);
    lemma_all_sections(none, "LOG"@, lines);
    assert(section(all, "LOG"@) =~= lines);
    lemma_complaints(lines);
}

/// Where a section has more lines than it needs, the last one is the size and the
/// branch of `HEAD`, and the first one the version of git. A `HEAD` that names no branch
/// is shown as it is. White space around a line does not count, and neither do blank
/// lines.
pub proof fn law_sections_with_more_lines(
    a: Seq<char>,
    b: Seq<char>,
    pad: Seq<char>,
)
    requires
        is_printable_line(a),
        is_printable_line(b),
        !starts_with(b, "ref: refs/heads/"@),
        forall|i: int|
            0 <= i < pad.len() ==> is_white_space(#[trigger] pad[i]) && pad[i] != '\n' && pad[i]
                != '\r',
    ensures
        detail(printed(seq!["<<<SIZE"@, a, pad, pad + b + pad])).size == b,
        detail(printed(seq!["<<<HEAD"@, a, pad, pad + b + pad])).head == b,
        detail(printed(seq!["<<<GIT"@, pad, pad + b + pad, a])).git == b,
        detail(printed(seq!["<<<BRANCHES"@, a, pad, pad + b + pad])).branches == seq![a, b],
{
    lemma_trimmed_ends(b);
    law_trimmed(pad, b, pad);
    let none = Seq::<char>::empty();
    law_trimmed(pad, none, none);
    assert(pad + none + none =~= pad);
    let padded = pad + b + pad;
    lemma_printable_line(a);
    lemma_printable_line(b);
    assert(!pad.contains('\n'));
    lemma_concat_lacks(pad, b, '\n');
    lemma_concat_lacks(pad + b, pad, '\n');
    assert(is_line(padded)) by {
        if pad.len() > 0 {
            assert(padded.last() == pad[pad.len() - 1]);
        } else {
            assert(padded =~= b);
        }
    }
    assert(is_line(pad)) by {
        if pad.len() > 0 {
            assert(pad.last() == pad[pad.len() - 1]);
        }
    }
    reveal_strlit("<<<");
    assert(section_name(padded) is None);
    assert(section_name(pad) is None);
    let x = seq![a, pad, padded];
    let y = seq![pad, padded, a];
    assert(nonblank(x) =~= seq![a, b]) by {
        reveal_with_fuel(nonblank, 4);
        assert(x.drop_last() =~= seq![a, pad]);
        assert(x.drop_last().drop_last() =~= seq![a]);
    }
    assert(nonblank(y) =~= seq![b, a]) by {
        reveal_with_fuel(nonblank, 4);
        assert(y.drop_last() =~= seq![pad, padded]);
        assert(y.drop_last().drop_last() =~= seq![pad]);
    }
    assert(seq!["<<<SIZE"@, a, pad, padded] =~= seq!["<<<SIZE"@] + x);
    lemma_one_section("SIZE"@, "<<<SIZE"@, x, seq!["<<<SIZE"@, a, pad, padded]);
    assert(seq!["<<<HEAD"@, a, pad, padded] =~= seq!["<<<HEAD"@] + x);
    lemma_one_section("HEAD"@, "<<<HEAD"@, x, seq!["<<<HEAD"@, a, pad, padded]);
    assert(seq!["<<<GIT"@, pad, padded, a] =~= seq!["<<<GIT"@] + y);
    lemma_one_section("GIT"@, "<<<GIT"@, y, seq!["<<<GIT"@, pad, padded, a]);
    assert(seq!["<<<BRANCHES"@, a, pad, padded] =~= seq!["<<<BRANCHES"@] + x);
    lemma_one_section("BRANCHES"@, "<<<BRANCHES"@, x, seq!["<<<BRANCHES"@, a, pad, padded]);
    assert(without_prefixes(b, "ref: refs/heads/"@) == b);
}

/// An output that is one section.
proof fn lemma_one_section(
    name: Seq<char>,
    mark: Seq<char>,
    body: Seq<Seq<char>>,
    all: Seq<Seq<char>>,
)
    requires
        (name == "SIZE"@ && mark == "<<<SIZE"@) || (name == "HEAD"@ && mark == "<<<HEAD"@) || (name
            == "GIT"@ && mark == "<<<GIT"@) || (name == "BRANCHES"@ && mark == "<<<BRANCHES"@),
        all == seq![mark] + body,
        forall|i: int|
            0 <= i < body.len() ==> section_name(#[trigger] body[i]) is None && is_line(body[i]),
    ensures
        lines_of(printed(all)) == all,
        section(all, name) == body,
{
    reveal_strlit("<<<");
    reveal_strlit("SIZE");
    reveal_strlit("HEAD");
    reveal_strlit("GIT");
    reveal_strlit("BRANCHES");
    reveal_strlit("<<<SIZE");
    reveal_strlit("<<<HEAD");
    reveal_strlit("<<<GIT");
    reveal_strlit("<<<BRANCHES");
    assert(mark =~= section_mark(name));
    lemma_name_mark(name);
    let none = Seq::<Seq<char>>::empty();
    assert(all =~= none + seq![section_mark(name)] + body);
    assert forall|i: int| 0 <= i < all.len() implies is_line(#[trigger] all[i]) by {
        if i > 0 {
            assert(all[i] == body[i - 1]);
        }
    }
    lemma_lines_printed(all);
    lemma_all_sections(none, name, body);
    assert(section(all, name) =~= body);
}

/// Complaints of git among the commits do not keep the commits from being shown, nor the
/// other way round.
pub proof fn law_commits_and_complaints_are_told_apart(
    commits: Seq<CommitView>,
    lines: Seq<Seq<char>>,
)
    requires
        commits.len() <= 50,
        forall|i: int| 0 <= i < commits.len() ==> is_printable_commit(#[trigger] commits[i]),
        forall|i: int|
            0 <= i < lines.len() ==> is_printable_line(#[trigger] lines[i]) && !lines[i].contains(
                SEP,
            ),
    ensures
        ({
            let log = commits.map_values(|c: CommitView| commit_text(c)) + lines;
            let d = detail(printed(seq!["<<<LOG"@] + log));
            &&& d.commits == commits
            &&& !d.truncated
            &&& d.error == joined(lines, "\n"@)
        }),
{
    reveal_strlit("\n");
    reveal_strlit("<<<");
    reveal_strlit("<<<LOG");
    reveal_strlit("LOG");
    assert("\n"@ =~= seq!['\n']);
    assert("<<<LOG"@ =~= section_mark("LOG"@));
    lemma_name_mark("LOG"@);
    let none = Seq::<Seq<char>>::empty();
    let first = commits.map_values(|c: CommitView| commit_text(c));
    let log = first + lines;
    let all = seq!["<<<LOG"@] + log;
    assert(all =~= none + seq![section_mark("LOG"@)] + log);
    assert forall|i: int| 0 <= i < log.len() implies section_name(#[trigger] log[i]) is None
        && is_line(log[i]) by {
        if i < first.len() {
            assert(is_printable_commit(commits[i]));
            law_commit_is_read_back(commits[i]);
            assert(log[i] == commit_text(commits[i]));
        } else {
            assert(log[i] == lines[i - first.len()]);
            lemma_printable_line(lines[i - first.len()]);
        }
    }
    assert forall|i: int| 0 <= i < all.len() implies is_line(#[trigger] all[i]) by {
        if i > 0 {
            assert(all[i] == log[i - 1]);
        }
    }
    lemma_lines_printed(all);
    lemma_all_sections(none, "LOG"@, log);
    assert(section(all, "LOG"@) =~= log);
    lemma_commits_of_log(commits);
    lemma_complaints_behind(first, lines);
    assert(none + lines =~= lines);
}

/// Complaints behind a log add themselves to the complaints, and nothing to the commits.
proof fn lemma_complaints_behind(log: Seq<Seq<char>>, lines: Seq<Seq<char>>)
    requires
        forall|i: int|
            0 <= i < lines.len() ==> is_printable_line(#[trigger] lines[i]) && !lines[i].contains(
                SEP,
            ),
    ensures
        commits_of(log + lines) == commits_of(log),
        complaints(log + lines) == complaints(log) + lines,
    decreases lines.len(),
{
    if lines.len() == 0 {
        assert(log + lines =~= log);
        assert(complaints(log) + lines =~= complaints(log));
    } else {
        let rest = lines.drop_last();
        assert forall|i: int| 0 <= i < rest.len() implies is_printable_line(#[trigger] rest[i])
            && !rest[i].contains(SEP) by {
            assert(rest[i] == lines[i]);
        }
        lemma_complaints_behind(log, rest);
        assert((log + lines).drop_last() =~= log + rest);
        assert(is_printable_line(lines[lines.len() - 1]));
        lemma_printable_line(lines.last());
        assert((complaints(log) + rest).push(lines.last()) =~= complaints(log) + lines);
    }
}

} // verus!
