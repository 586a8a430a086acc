//! Finding the repositories: the script that scans the roots, and its output.
use vstd::prelude::*;
use vstd::slice::slice_subrange;
use crate::error::{outcome, Error, Fault};
use crate::order::{
    arranged, indices, is_order, law_order_exists, law_order_is_by_key,
    lemma_order_has_every_item, lowercase, order_of, stable_order, text_less, to_lowercase,
};
use crate::quote::{
    is_word_for, law_single_quoted_is_one_word, lemma_joined_words, shell_words, shq, single_quoted,
};
use crate::ssh::{
    brief_option, repo_views, BriefView, CommitBrief, ListView, Repo, RepoList, RepoView,
    GIT_PREAMBLE, SEP,
};
use crate::text::{
    begins, chars_of, ends, ends_with, fields, fields_up_to, is_blank, is_line, is_white_space,
    law_trimmed, law_without_suffixes, lemma_before, lemma_before_is, join, joined,
    last_field, last_piece, law_last_field, lemma_fields_concat, lemma_fields_single, lemma_fields_up_to_step,
    lemma_lines_printed, lemma_trimmed_already, lemma_trimmed_ends, lemma_trimmed_keeps_first, lemma_trimmed_lengths,
    lemma_without_suffix,
    lines, lines_of, nonblank, nonblank_texts, pieces, printed, push_text, repeated, same, split,
    split_up_to, starts_with, text_of, texts, trim, trim_end_matches, trim_start, trimmed,
    trimmed_start, without_suffixes,
};

verus! {

/// The part of the scan script after the list of roots.
///
/// A directory is a git repo when it holds HEAD plus objects/ and refs/. That
/// matches bare repos (/volume1/git/foo.git) and the .git directory of a working
/// copy alike. HEAD can name a branch that does not exist yet (pushed as master
/// while HEAD says main), so the tip falls back to the newest of all refs.
pub const LIST_BODY: &'static str = "; do
  [ -d \"$r\" ] || continue
  find \"$r\" -maxdepth 5 -name HEAD -type f 2>/dev/null
done | while IFS= read -r h; do
  d=$(dirname \"$h\")
  [ -d \"$d/objects\" ] && [ -d \"$d/refs\" ] || continue
  desc=''
  if [ -f \"$d/description\" ]; then
    desc=$(head -n 1 \"$d/description\" 2>/dev/null)
    case \"$desc\" in \"Unnamed repository\"*) desc='' ;; esac
  fi
  bare=1
  case \"$d\" in */.git) bare=0 ;; esac
  last=''
  if [ -n \"$GIT\" ]; then
    fmt='%h%x1f%cr%x1f%s'
    last=$(rgit \"$d\" log -1 --format=\"$fmt\" 2>/dev/null | head -n 1)
    if [ -z \"$last\" ]; then
      last=$(rgit \"$d\" log -1 --all --format=\"$fmt\" 2>/dev/null | head -n 1)
    fi
  fi
  printf '%s\\t%s\\t%s\\t%s\\n' \"$d\" \"$bare\" \"$desc\" \"$last\"
done
[ -n \"$GIT\" ] || echo '<<<NOGIT'";

/// The roots that are not blank, each in single quotes, with a blank between
/// neighbours.
pub open spec fn quoted_roots(roots: Seq<Seq<char>>) -> Seq<char> {
    joined(nonblank(roots).map_values(|r: Seq<char>| single_quoted(r)), seq![' '])
}

/// The script that scans `roots`.
pub open spec fn scan(roots: Seq<Seq<char>>) -> Result<Seq<char>, Fault> {
    if nonblank(roots).len() == 0 {
        Err(Fault::NoRoots)
    } else {
        Ok(GIT_PREAMBLE@ + "for r in "@ + quoted_roots(roots) + LIST_BODY@)
    }
}

/// The shell walks exactly the roots that are not blank, whatever they hold.
pub proof fn law_scan_walks_the_roots(roots: Seq<Seq<char>>)
    ensures
        shell_words(quoted_roots(roots)) == Some(nonblank(roots)),
{
    let kept = nonblank(roots);
    let quoted = kept.map_values(|r: Seq<char>| single_quoted(r));
    assert forall|i: int| 0 <= i < kept.len() implies is_word_for(
        #[trigger] quoted[i],
        kept[i],
    ) by {
        law_single_quoted_is_one_word(kept[i]);
    }
    lemma_joined_words(quoted, kept);
}

/// Builds the script that walks the roots and prints one TSV line per repository.
pub fn list_script(roots: &[String]) -> (r: Result<String, Error>)
    ensures
        outcome(r) == scan(texts(roots@)),
{
    let kept = nonblank_texts(roots);
    let n: usize = kept.len();
    assert(texts(kept@).len() == n);
    if n == 0 {
        return Err(Error::NoRoots);
    }
    let mut quoted: Vec<String> = Vec::new();
    for i in 0..n
        invariant
            n == kept@.len(),
            quoted@.len() == i,
            forall|j: int| 0 <= j < i ==> (#[trigger] quoted@[j])@ == single_quoted(kept@[j]@),
    {
        quoted.push(shq(kept[i].as_str()));
    }
    let blank = " ";
    proof {
        reveal_strlit(" ");
        assert(blank@ == seq![' ']);
        assert(texts(quoted@) == nonblank(texts(roots@)).map_values(
            |r: Seq<char>| single_quoted(r),
        )) by {
            assert forall|i: int| 0 <= i < n implies #[trigger] texts(quoted@)[i] == single_quoted(
                nonblank(texts(roots@))[i],
            ) by {
                assert(nonblank(texts(roots@))[i] == texts(kept@)[i]);
                assert(quoted@[i]@ == single_quoted(kept@[i]@));
            }
        }
    }
    let mut script = GIT_PREAMBLE.to_string();
    push_text(&mut script, "for r in ");
    push_text(&mut script, join(quoted.as_slice(), blank).as_str());
    push_text(&mut script, LIST_BODY);
    Ok(script)
}

/// The text of the piece `i`, without the white space around it; empty when
/// there are not so many pieces.
pub open spec fn piece(parts: Seq<Seq<char>>, i: int) -> Seq<char> {
    if i < parts.len() {
        trimmed(parts[i])
    } else {
        Seq::empty()
    }
}

/// The text of the piece `i`, without the white space around it.
pub fn piece_text(parts: &[&[char]], i: usize) -> (r: String)
    ensures
        r@ == piece(pieces(parts@), i as int),
{
    if i < parts.len() {
        text_of(trim(parts[i]))
    } else {
        String::new()
    }
}

/// The tip commit that `hash<SEP>relative-date<SEP>subject` tells of.
pub open spec fn brief(field: Seq<char>) -> Option<BriefView> {
    let parts = fields(trimmed(field), SEP);
    if is_blank(field) || piece(parts, 0).len() == 0 {
        None
    } else {
        Some(BriefView { hash: piece(parts, 0), when: piece(parts, 1), subject: piece(parts, 2) })
    }
}

/// Parses `hash<SEP>relative-date<SEP>subject` as produced by the list script.
pub fn parse_brief(field: &str) -> (r: Option<CommitBrief>)
    ensures
        brief_option(r) == brief(field@),
{
    parse_brief_chars(chars_of(field).as_slice())
}

fn parse_brief_chars(field: &[char]) -> (r: Option<CommitBrief>)
    ensures
        brief_option(r) == brief(field@),
{
    let field = trim(field);
    if field.len() == 0 {
        return None;
    }
    let parts = split(field, SEP);
    let hash = piece_text(parts.as_slice(), 0);
    if hash.as_str().is_empty() {
        return None;
    }
    Some(
        CommitBrief {
            hash,
            when: piece_text(parts.as_slice(), 1),
            subject: piece_text(parts.as_slice(), 2),
        },
    )
}

/// The directory that a repository's name is taken from: the repository itself,
/// or the working copy that a `.git` belongs to.
pub open spec fn display_path(path: Seq<char>, bare: bool) -> Seq<char> {
    if !bare && ends_with(path, "/.git"@) {
        path.take(path.len() - "/.git"@.len())
    } else {
        path
    }
}

/// The name of the repository at `path`.
pub open spec fn display_name(path: Seq<char>, bare: bool) -> Seq<char> {
    without_suffixes(last_field(display_path(path, bare), '/'), ".git"@)
}

/// The directory of the repository at `path`, or the working copy it belongs to.
pub fn display_dir(path: &[char], bare: bool) -> (r: &[char])
    ensures
        r@ == display_path(path@, bare),
{
    let suffix = chars_of("/.git");
    if !bare && ends(path, suffix.as_slice()) {
        slice_subrange(path, 0, path.len() - suffix.len())
    } else {
        path
    }
}

/// The repository that one line of the scan tells of.
pub open spec fn repo_of(line: Seq<char>) -> Option<RepoView> {
    let parts = fields_up_to(line, '\t', 4);
    let path = piece(parts, 0);
    let bare = parts.len() <= 1 || parts[1] == "1"@;
    if path.len() == 0 {
        None
    } else {
        Some(
            RepoView {
                path,
                name: display_name(path, bare),
                description: piece(parts, 2),
                bare,
                last: if parts.len() > 3 {
                    brief(parts[3])
                } else {
                    None
                },
            },
        )
    }
}

/// A line that is no repository but a remark of the script.
pub open spec fn is_remark(line: Seq<char>) -> bool {
    starts_with(trimmed_start(line), "<<<"@)
}

/// The repositories that the lines of a scan tell of.
pub open spec fn repos_of(lines: Seq<Seq<char>>) -> Seq<RepoView>
    decreases lines.len(),
{
    if lines.len() == 0 {
        Seq::empty()
    } else {
        let rest = repos_of(lines.drop_last());
        match repo_of(lines.last()) {
            Some(repo) if !is_remark(lines.last()) => rest.push(repo),
            _ => rest,
        }
    }
}

/// The scan says that there is no git on the server.
pub open spec fn says_no_git(lines: Seq<Seq<char>>) -> bool {
    exists|i: int| 0 <= i < lines.len() && trimmed(#[trigger] lines[i]) == "<<<NOGIT"@
}

/// What the output of a scan tells.
pub open spec fn listing(out: Seq<char>) -> ListView {
    ListView { repos: repos_of(lines_of(out)), no_git: says_no_git(lines_of(out)) }
}

/// The text of an optional repository.
pub open spec fn repo_option(r: Option<Repo>) -> Option<RepoView> {
    match r {
        Some(repo) => Some(repo@),
        None => None,
    }
}

fn parse_repo_line(line: &[char]) -> (r: Option<Repo>)
    ensures
        repo_option(r) == repo_of(line@),
{
    let parts = split_up_to(line, '\t', 4);
    let path_text = piece_text(parts.as_slice(), 0);
    if path_text.as_str().is_empty() {
        return None;
    }
    let ghost ps = pieces(parts@);
    let n: usize = parts.len();
    assert(n == ps.len());
    let one = chars_of("1");
    let bare = n <= 1 || same(parts[1], one.as_slice());
    let path = chars_of(path_text.as_str());
    let display = display_dir(path.as_slice(), bare);
    let git = chars_of(".git");
    let name = text_of(trim_end_matches(last_piece(display, '/'), git.as_slice()));
    let last = if n > 3 {
        parse_brief_chars(parts[3])
    } else {
        None
    };
    Some(
        Repo {
            path: path_text,
            name,
            description: piece_text(parts.as_slice(), 2),
            bare,
            last,
        },
    )
}

/// Parses the TSV emitted by [`list_script`].
pub fn parse_repo_lines(out: &str) -> (r: RepoList)
    ensures
        r@ == listing(out@),
{
    let cs = chars_of(out);
    let rows = lines(cs.as_slice());
    let ghost all = lines_of(out@);
    let n: usize = rows.len();
    let mark = chars_of("<<<");
    let missing = chars_of("<<<NOGIT");
    let mut repos: Vec<Repo> = Vec::new();
    let mut no_git = false;
    assert(repo_views(repos@) == Seq::<RepoView>::empty());
    for i in 0..n
        invariant
            n == rows@.len(),
            all == pieces(rows@),
            mark@ == "<<<"@,
            missing@ == "<<<NOGIT"@,
            no_git == exists|j: int| 0 <= j < i && trimmed(#[trigger] all[j]) == "<<<NOGIT"@,
            repo_views(repos@) == repos_of(all.take(i as int)),
    {
        let line = rows[i];
        assert(all[i as int] == line@);
        assert(all.take(i + 1).drop_last() == all.take(i as int));
        if same(trim(line), missing.as_slice()) {
            no_git = true;
        }
        if !begins(trim_start(line), mark.as_slice()) {
            let ghost done = repo_views(repos@);
            match parse_repo_line(line) {
                Some(repo) => {
                    repos.push(repo);
                    assert(repo_views(repos@) == done.push(repo@));
                },
                None => {},
            }
        }
    }
    assert(all.take(n as int) == all);
    RepoList { repos, no_git }
}

/// The names of repositories, in lower case.
pub open spec fn name_keys(repos: Seq<RepoView>) -> Seq<Seq<char>> {
    repos.map_values(|r: RepoView| lowercase(r.name))
}

/// Orders repositories by the keys that go with them; repositories with the same
/// key stay as they stood.
pub fn sort_repos(repos: &[Repo], keys: &[String]) -> (r: Vec<Repo>)
    requires
        repos@.len() == keys@.len(),
    ensures
        repo_views(r@) == arranged(repo_views(repos@), order_of(texts(keys@))),
{
    let order = stable_order(keys);
    let ghost all = indices(order@);
    let n: usize = order.len();
    let mut r: Vec<Repo> = Vec::new();
    for i in 0..n
        invariant
            n == order@.len(),
            all == indices(order@),
            is_order(all, texts(keys@)),
            repos@.len() == keys@.len(),
            r@.len() == i,
            forall|j: int| 0 <= j < i ==> (#[trigger] r@[j])@ == repos@[all[j]]@,
    {
        assert(0 <= all[i as int] < texts(keys@).len());
        r.push(repos[order[i]].clone());
    }
    assert(repo_views(r@) == arranged(repo_views(repos@), all)) by {
        assert forall|k: int| 0 <= k < n implies #[trigger] repo_views(r@)[k] == repo_views(
            repos@,
        )[all[k]] by {
            assert(0 <= all[k] < texts(keys@).len());
            assert(r@[k]@ == repos@[all[k]]@);
        }
    }
    r
}

/// A listing ordered by name, without regard to case.
pub open spec fn by_name(list: ListView) -> ListView {
    ListView { repos: arranged(list.repos, order_of(name_keys(list.repos))), ..list }
}

/// A listing that was ordered has every repository of the listing it came from,
/// once, and no name behind a greater one, without regard to case.
pub proof fn law_listing_is_by_name(list: ListView)
    ensures
        by_name(list).repos.len() == list.repos.len(),
        by_name(list).no_git == list.no_git,
        forall|i: int|
            0 <= i < list.repos.len() ==> by_name(list).repos.contains(#[trigger] list.repos[i]),
        forall|a: int, b: int|
            0 <= a < b < list.repos.len() ==> !text_less(
                lowercase((#[trigger] by_name(list).repos[b]).name),
                lowercase((#[trigger] by_name(list).repos[a]).name),
            ),
{
    let keys = name_keys(list.repos);
    let order = order_of(keys);
    law_order_exists(keys);
    law_order_is_by_key(order, keys);
    lemma_order_has_every_item(order, keys);
    assert forall|i: int| 0 <= i < list.repos.len() implies by_name(list).repos.contains(
        #[trigger] list.repos[i],
    ) by {
        assert(order.contains(i));
        let k = choose|k: int| 0 <= k < order.len() && order[k] == i;
        assert(by_name(list).repos[k] == list.repos[i]);
    }
    assert forall|a: int, b: int| 0 <= a < b < list.repos.len() implies !text_less(
        lowercase((#[trigger] by_name(list).repos[b]).name),
        lowercase((#[trigger] by_name(list).repos[a]).name),
    ) by {
        assert(0 <= order[a] < keys.len());
        assert(0 <= order[b] < keys.len());
        assert(!text_less(keys[order[b]], keys[order[a]]));
    }
}

/// Reads the output of a scan, and orders the repositories by name without regard
/// to case.
pub fn read_scan(out: &str) -> (r: RepoList)
    ensures
        r@ == by_name(listing(out@)),
{
    let list = parse_repo_lines(out);
    let n: usize = list.repos.len();
    let mut keys: Vec<String> = Vec::new();
    for i in 0..n
        invariant
            n == list.repos@.len(),
            keys@.len() == i,
            forall|j: int| 0 <= j < i ==> (#[trigger] keys@[j])@ == lowercase(list.repos@[j].name@),
    {
        keys.push(to_lowercase(list.repos[i].name.as_str()));
    }
    assert(texts(keys@) == name_keys(list@.repos));
    let repos = sort_repos(list.repos.as_slice(), keys.as_slice());
    RepoList { repos, no_git: list.no_git }
}

/// A tip commit as the scan script prints it.
pub open spec fn brief_text(b: BriefView) -> Seq<char> {
    b.hash + seq![SEP] + b.when + seq![SEP] + b.subject
}

/// A tip commit that can be printed in one field: there is a hash, no part holds
/// the separator, and no part has white space around it.
pub open spec fn is_printable_brief(b: BriefView) -> bool {
    &&& b.hash.len() > 0
    &&& is_printable_part(b.hash)
    &&& is_printable_part(b.when)
    &&& is_printable_part(b.subject)
}

/// A text without the separator and without white space around it.
pub open spec fn is_printable_part(s: Seq<char>) -> bool {
    trimmed(s) == s && !s.contains(SEP)
}

/// A tip commit that the scan script prints is read back as it was, with every
/// tab and pipe in its subject.
pub proof fn law_tip_commit_is_read_back(b: BriefView)
    requires
        is_printable_brief(b),
    ensures
        brief(brief_text(b)) == Some(b),
{
    let text = brief_text(b);
    let tail = b.when + seq![SEP] + b.subject;
    lemma_trimmed_ends(b.hash);
    assert(text == b.hash + seq![SEP] + tail);
    assert(text[0] == b.hash[0]);
    if b.subject.len() > 0 {
        lemma_trimmed_ends(b.subject);
        assert(text.last() == b.subject.last());
    } else {
        assert(text.last() == SEP);
    }
    lemma_trimmed_already(text);
    lemma_fields_concat(b.hash, SEP, tail);
    lemma_fields_concat(b.when, SEP, b.subject);
    lemma_fields_single(b.hash, SEP);
    lemma_fields_single(b.when, SEP);
    lemma_fields_single(b.subject, SEP);
    let parts = fields(text, SEP);
    assert(parts == seq![b.hash, b.when, b.subject]);
}

/// A repository as the scan script prints it, on one line.
pub open spec fn row(repo: RepoView) -> Seq<char> {
    repo.path + seq!['\t'] + (if repo.bare {
        "1"@
    } else {
        "0"@
    }) + seq!['\t'] + repo.description + seq!['\t'] + match repo.last {
        Some(b) => brief_text(b),
        None => Seq::empty(),
    }
}

/// A repository that can be printed on one line: its path and description hold
/// no tab and have no white space around them, no part holds a line feed, and
/// the path does not look like a remark of the script. The name is the one that
/// the path gives.
pub open spec fn is_printable(repo: RepoView) -> bool {
    &&& repo.path.len() > 0
    &&& !starts_with(repo.path, "<<<"@)
    &&& trimmed(repo.path) == repo.path
    &&& !repo.path.contains('\t')
    &&& !repo.path.contains('\n')
    &&& repo.name == display_name(repo.path, repo.bare)
    &&& trimmed(repo.description) == repo.description
    &&& !repo.description.contains('\t')
    &&& !repo.description.contains('\n')
    &&& repo.last matches Some(b) ==> {
        &&& is_printable_brief(b)
        &&& !b.hash.contains('\n')
        &&& !b.when.contains('\n')
        &&& !b.subject.contains('\n')
    }
}

/// A row that the scan script prints is read back as the repository it tells of.
pub proof fn law_row_is_read_back(repo: RepoView)
    requires
        is_printable(repo),
    ensures
        repo_of(row(repo)) == Some(repo),
{
    reveal_strlit("1");
    reveal_strlit("0");
    let flag = if repo.bare {
        "1"@
    } else {
        "0"@
    };
    let tip = match repo.last {
        Some(b) => brief_text(b),
        None => Seq::empty(),
    };
    let r = row(repo);
    let after_flag = repo.description + seq!['\t'] + tip;
    let after_path = flag + seq!['\t'] + after_flag;
    assert(r == repo.path + seq!['\t'] + after_path);
    assert(!flag.contains('\t')) by {
        assert forall|i: int| 0 <= i < flag.len() implies flag[i] != '\t' by {}
    }
    lemma_fields_up_to_step(repo.path, '\t', after_path, 4);
    lemma_fields_up_to_step(flag, '\t', after_flag, 3);
    lemma_fields_up_to_step(repo.description, '\t', tip, 2);
    let parts = fields_up_to(r, '\t', 4);
    assert(fields_up_to(tip, '\t', 1) == seq![tip]);
    assert(parts == seq![repo.path, flag, repo.description, tip]);
    assert(repo.bare == (flag == "1"@)) by {
        assert("1"@[0] == '1');
        assert("0"@[0] == '0');
    }
    match repo.last {
        Some(b) => {
            law_tip_commit_is_read_back(b);
        },
        None => {
            assert(is_blank(tip));
        },
    }
}

proof fn lemma_row_is_a_line(repo: RepoView)
    requires
        is_printable(repo),
    ensures
        is_line(row(repo)),
        !is_remark(row(repo)),
        trimmed(row(repo)) != "<<<NOGIT"@,
{
    reveal_strlit("1");
    reveal_strlit("0");
    reveal_strlit("<<<");
    reveal_strlit("<<<NOGIT");
    let r = row(repo);
    let flag = if repo.bare {
        "1"@
    } else {
        "0"@
    };
    lemma_trimmed_ends(repo.path);
    assert(r[0] == repo.path[0]);
    lemma_trimmed_keeps_first(r);
    lemma_trimmed_lengths(r);
    assert(!starts_with(r, "<<<"@)) by {
        if starts_with(r, "<<<"@) {
            let n = repo.path.len() as int;
            if n < 3 {
                assert(r[n] == '\t');
                assert(r.take(3)[n] == "<<<"@[n]);
            } else {
                assert(repo.path.take(3) == r.take(3));
            }
        }
    }
    if trimmed(r) == "<<<NOGIT"@ {
        assert(r.take(3) == trimmed(r).take(3));
        assert("<<<NOGIT"@.take(3) == "<<<"@);
    }
    let tip = match repo.last {
        Some(b) => brief_text(b),
        None => Seq::empty(),
    };
    assert(!tip.contains('\n')) by {
        if let Some(b) = repo.last {
            lemma_concat_lacks(b.hash, seq![SEP], '\n');
            lemma_concat_lacks(b.hash + seq![SEP], b.when, '\n');
            lemma_concat_lacks(b.hash + seq![SEP] + b.when, seq![SEP], '\n');
            lemma_concat_lacks(b.hash + seq![SEP] + b.when + seq![SEP], b.subject, '\n');
        }
    }
    let a = repo.path + seq!['\t'];
    let b = a + flag;
    let c = b + seq!['\t'];
    let d = c + repo.description;
    let e = d + seq!['\t'];
    lemma_concat_lacks(repo.path, seq!['\t'], '\n');
    lemma_concat_lacks(a, flag, '\n');
    lemma_concat_lacks(b, seq!['\t'], '\n');
    lemma_concat_lacks(c, repo.description, '\n');
    lemma_concat_lacks(d, seq!['\t'], '\n');
    lemma_concat_lacks(e, tip, '\n');
    if let Some(x) = repo.last {
        if x.subject.len() > 0 {
            lemma_trimmed_ends(x.subject);
            assert(r.last() == x.subject.last());
        } else {
            assert(r.last() == SEP);
        }
    } else {
        assert(r.last() == '\t');
    }
}

pub proof fn lemma_concat_lacks(a: Seq<char>, b: Seq<char>, c: char)
    requires
        !a.contains(c),
        !b.contains(c),
    ensures
        !(a + b).contains(c),
{
    if (a + b).contains(c) {
        let i = choose|i: int| 0 <= i < (a + b).len() && (a + b)[i] == c;
        if i < a.len() {
            assert(a[i] == c);
        } else {
            assert(b[i - a.len()] == c);
        }
    }
}

/// The lines that the scan script prints for `repos`, and the remark that follows
/// when there is no git on the server.
pub open spec fn scan_lines(repos: Seq<RepoView>, no_git: bool) -> Seq<Seq<char>> {
    let rows = repos.map_values(|r: RepoView| row(r));
    if no_git {
        rows.push("<<<NOGIT"@)
    } else {
        rows
    }
}

proof fn lemma_repos_of_rows(repos: Seq<RepoView>)
    requires
        forall|i: int| 0 <= i < repos.len() ==> is_printable(#[trigger] repos[i]),
    ensures
        repos_of(repos.map_values(|r: RepoView| row(r))) == repos,
    decreases repos.len(),
{
    let rows = repos.map_values(|r: RepoView| row(r));
    if repos.len() > 0 {
        let rest = repos.drop_last();
        assert forall|i: int| 0 <= i < rest.len() implies is_printable(#[trigger] rest[i]) by {
            assert(rest[i] == repos[i]);
        }
        lemma_repos_of_rows(rest);
        assert(rows.drop_last() == rest.map_values(|r: RepoView| row(r)));
        assert(is_printable(repos[repos.len() - 1]));
        law_row_is_read_back(repos.last());
        lemma_row_is_a_line(repos.last());
        assert(rest.push(repos.last()) == repos);
    }
}

/// What a scan prints is read back: the repositories, in order, and whether there
/// is git on the server.
pub proof fn law_scan_is_read_back(repos: Seq<RepoView>, no_git: bool)
    requires
        forall|i: int| 0 <= i < repos.len() ==> is_printable(#[trigger] repos[i]),
    ensures
        listing(printed(scan_lines(repos, no_git))) == (ListView { repos, no_git }),
{
    let rows = repos.map_values(|r: RepoView| row(r));
    let lines = scan_lines(repos, no_git);
    reveal_strlit("<<<NOGIT");
    reveal_strlit("<<<");
    lemma_trimmed_already("<<<NOGIT"@);
    assert forall|i: int| 0 <= i < lines.len() implies is_line(#[trigger] lines[i]) by {
        if i < rows.len() {
            assert(is_printable(repos[i]));
            lemma_row_is_a_line(repos[i]);
        } else {
            assert forall|j: int| 0 <= j < "<<<NOGIT"@.len() implies "<<<NOGIT"@[j] != '\n' by {}
        }
    }
    lemma_lines_printed(lines);
    lemma_repos_of_rows(repos);
    assert forall|i: int| 0 <= i < rows.len() implies trimmed(#[trigger] lines[i])
        != "<<<NOGIT"@ by {
        assert(is_printable(repos[i]));
        lemma_row_is_a_line(repos[i]);
    }
    if no_git {
        assert(lines.drop_last() == rows);
        assert(lines.last() == "<<<NOGIT"@);
        assert("<<<NOGIT"@.take(3) == "<<<"@);
        assert(trimmed(lines[rows.len() as int]) == "<<<NOGIT"@);
    }
}

/// The repository at `p/n.git` is called `n`, and so is the working copy at `p/n`,
/// which is listed by its `.git`; so is the one at `p/n` that has no suffix. This
/// holds of every name without a slash that does not itself end with the suffix,
/// also where it holds dots.
pub proof fn law_repository_is_called_by_its_directory(p: Seq<char>, n: Seq<char>)
    requires
        !n.contains('/'),
        !ends_with(n, ".git"@),
    ensures
        display_name(p + "/"@ + n + ".git"@, true) == n,
        display_name(p + "/"@ + n, true) == n,
        display_name(p + "/"@ + n + "/.git"@, false) == n,
{
    reveal_strlit("/");
    reveal_strlit(".git");
    reveal_strlit("/.git");
    assert("/"@ == seq!['/']);
    let bare = n + ".git"@;
    assert(p + "/"@ + n + ".git"@ == p + seq!['/'] + bare);
    assert(!bare.contains('/')) by {
        assert forall|i: int| 0 <= i < ".git"@.len() implies ".git"@[i] != '/' by {}
        lemma_concat_lacks(n, ".git"@, '/');
    }
    law_last_field(p, '/', bare);
    law_last_field(p, '/', n);
    lemma_without_suffix(n, ".git"@);
    let tree = p + "/"@ + n;
    let git = tree + "/.git"@;
    assert(git.skip(git.len() - "/.git"@.len()) == "/.git"@);
    assert(git.take(git.len() - "/.git"@.len()) == tree);
}

/// What the listing calls a repository depends on where it is and nothing else on
/// its line: the one listed at `p/n.git` as bare is called `n`, and the one listed at
/// `p/n/.git` as not bare is called `n`.
pub proof fn law_listed_repository_is_called_by_its_directory(
    line: Seq<char>,
    p: Seq<char>,
    n: Seq<char>,
)
    requires
        !n.contains('/'),
        !ends_with(n, ".git"@),
    ensures
        repo_of(line) matches Some(repo) ==> {
            &&& repo.path == p + "/"@ + n + ".git"@ && repo.bare ==> repo.name == n
            &&& repo.path == p + "/"@ + n && repo.bare ==> repo.name == n
            &&& repo.path == p + "/"@ + n + "/.git"@ && !repo.bare ==> repo.name == n
        },
{
    law_repository_is_called_by_its_directory(p, n);
}

/// White space around the fields of a row does not count.
pub proof fn law_white_space_around_fields_does_not_count(
    repo: RepoView,
    a: Seq<char>,
    b: Seq<char>,
)
    requires
        is_printable(repo),
        repo.last is None,
        forall|i: int| 0 <= i < a.len() ==> is_white_space(#[trigger] a[i]) && a[i] != '\t',
        forall|i: int| 0 <= i < b.len() ==> is_white_space(#[trigger] b[i]) && b[i] != '\t',
    ensures
        repo_of(
            a + repo.path + b + seq!['\t'] + (if repo.bare {
                "1"@
            } else {
                "0"@
            }) + seq!['\t'] + (a + repo.description + b) + seq!['\t'] + a,
        ) == Some(repo),
{
    reveal_strlit("1");
    reveal_strlit("0");
    let flag = if repo.bare {
        "1"@
    } else {
        "0"@
    };
    let path = a + repo.path + b;
    let about = a + repo.description + b;
    lemma_trimmed_ends(repo.path);
    law_trimmed(a, repo.path, b);
    if repo.description.len() > 0 {
        lemma_trimmed_ends(repo.description);
    }
    law_trimmed(a, repo.description, b);
    let none = Seq::<char>::empty();
    law_trimmed(a, none, none);
    assert(a + none + none =~= a);
    assert(!a.contains('\t') && !b.contains('\t'));
    lemma_concat_lacks(a, repo.path, '\t');
    lemma_concat_lacks(a + repo.path, b, '\t');
    lemma_concat_lacks(a, repo.description, '\t');
    lemma_concat_lacks(a + repo.description, b, '\t');
    assert(!flag.contains('\t')) by {
        assert forall|i: int| 0 <= i < flag.len() implies flag[i] != '\t' by {}
    }
    let line = path + seq!['\t'] + flag + seq!['\t'] + about + seq!['\t'] + a;
    let t2 = about + seq!['\t'] + a;
    let t1 = flag + seq!['\t'] + t2;
    assert(line =~= path + seq!['\t'] + t1);
    lemma_fields_up_to_step(path, '\t', t1, 4);
    lemma_fields_up_to_step(flag, '\t', t2, 3);
    lemma_fields_up_to_step(about, '\t', a, 2);
    assert(fields_up_to(a, '\t', 1) == seq![a]);
    assert(fields_up_to(line, '\t', 4) =~= seq![path, flag, about, a]);
    assert(repo.bare == (flag == "1"@)) by {
        assert("1"@[0] == '1');
        assert("0"@[0] == '0');
    }
}

/// A line that is only a path is a bare repository without description and without
/// commits; a line without a path, and a remark, is none.
pub proof fn law_lines_that_are_short(p: Seq<char>, more: Seq<char>, list: Seq<Seq<char>>, a: Seq<char>)
    requires
        p.len() > 0,
        trimmed(p) == p,
        !p.contains('\t'),
        forall|i: int| 0 <= i < a.len() ==> is_white_space(#[trigger] a[i]),
    ensures
        repo_of(p) == Some(
            RepoView {
                path: p,
                name: display_name(p, true),
                description: Seq::empty(),
                bare: true,
                last: None,
            },
        ),
        repo_of(seq!['\t'] + more) is None,
        repo_of(Seq::empty()) is None,
        repos_of(list.push(a + "<<<"@ + more)) == repos_of(list),
{
    reveal_strlit("<<<");
    lemma_before(p, '\t');
    assert(fields_up_to(p, '\t', 4) == seq![p]);
    let none = Seq::<char>::empty();
    assert(!none.contains('\t'));
    assert(none + seq!['\t'] + more =~= seq!['\t'] + more);
    lemma_fields_up_to_step(none, '\t', more, 4);
    assert(trimmed(none) == none);
    lemma_before(none, '\t');
    assert(fields_up_to(none, '\t', 4) == seq![none]);
    let remark = a + "<<<"@ + more;
    lemma_trimmed_start_skips(a, "<<<"@ + more);
    assert(remark =~= a + ("<<<"@ + more));
    assert(("<<<"@ + more).take(3) =~= "<<<"@);
    assert(list.push(remark).drop_last() =~= list);
}

/// White space at the start is skipped.
proof fn lemma_trimmed_start_skips(a: Seq<char>, s: Seq<char>)
    requires
        forall|i: int| 0 <= i < a.len() ==> is_white_space(#[trigger] a[i]),
        s.len() > 0,
        !is_white_space(s[0]),
    ensures
        trimmed_start(a + s) == s,
    decreases a.len(),
{
    if a.len() > 0 {
        let rest = a.skip(1);
        assert forall|i: int| 0 <= i < rest.len() implies is_white_space(#[trigger] rest[i]) by {
            assert(rest[i] == a[i + 1]);
        }
        lemma_trimmed_start_skips(rest, s);
        assert((a + s)[0] == a[0]);
        assert((a + s).skip(1) =~= rest + s);
    } else {
        assert(a + s =~= s);
    }
}

/// A tip commit has a hash: without one it is none. What git does not tell is empty,
/// and white space around the parts does not count.
pub proof fn law_tip_commits_that_are_short(hash: Seq<char>, a: Seq<char>, rest: Seq<char>)
    requires
        hash.len() > 0,
        is_printable_part(hash),
        forall|i: int| 0 <= i < a.len() ==> is_white_space(#[trigger] a[i]),
    ensures
        brief(hash) == Some(
            BriefView { hash, when: Seq::empty(), subject: Seq::empty() },
        ),
        brief(a + hash + a) == brief(hash),
        brief(seq![SEP] + rest) is None,
        brief(a) is None,
        brief(Seq::empty()) is None,
{
    lemma_trimmed_ends(hash);
    lemma_fields_single(hash, SEP);
    law_trimmed(a, hash, a);
    let none = Seq::<char>::empty();
    law_trimmed(a, none, none);
    assert(a + none + none =~= a);
    assert(trimmed(none) == none);
    let s = seq![SEP] + rest;
    lemma_trimmed_keeps_first(s);
    let t = trimmed(s);
    lemma_before_is(t, SEP, 0);
    assert(t.take(0) =~= none);
    assert(fields(t, SEP)[0] == none);
}

/// Every suffix `.git` of a bare repository is taken off its name; and a working copy
/// that is listed by another path than its `.git` is called by that path.
pub proof fn law_name_gives_up_every_suffix(p: Seq<char>, n: Seq<char>, times: nat)
    requires
        !n.contains('/'),
        !ends_with(n, ".git"@),
    ensures
        display_name(p + "/"@ + n + repeated(".git"@, times), true) == n,
        display_name(p + "/"@ + n, false) == n,
{
    reveal_strlit("/");
    reveal_strlit(".git");
    reveal_strlit("/.git");
    assert("/"@ == seq!['/']);
    let name = n + repeated(".git"@, times);
    assert(p + "/"@ + n + repeated(".git"@, times) =~= p + seq!['/'] + name);
    lemma_repeated_lacks(times);
    lemma_concat_lacks(n, repeated(".git"@, times), '/');
    law_last_field(p, '/', name);
    law_last_field(p, '/', n);
    law_without_suffixes(n, ".git"@, times);
    lemma_without_suffix(n, ".git"@);
    let tree = p + "/"@ + n;
    assert(!ends_with(tree, "/.git"@)) by {
        if ends_with(tree, "/.git"@) {
            assert(tree.skip(tree.len() - 5) == "/.git"@);
            if n.len() >= 4 {
                assert forall|i: int| 0 <= i < 4 implies n.skip(n.len() - 4)[i] == ".git"@[i] by {
                    assert(tree.skip(tree.len() - 5)[i + 1] == "/.git"@[i + 1]);
                }
                assert(n.skip(n.len() - 4) =~= ".git"@);
            } else {
                let k = 4 - n.len();
                assert(tree.skip(tree.len() - 5)[k] == "/.git"@[k]);
                assert(tree[tree.len() - 5 + k] == '/');
            }
        }
    }
}

proof fn lemma_repeated_lacks(times: nat)
    ensures
        !repeated(".git"@, times).contains('/'),
    decreases times,
{
    reveal_strlit(".git");
    if times > 0 {
        lemma_repeated_lacks((times - 1) as nat);
        assert(!".git"@.contains('/')) by {
            assert forall|i: int| 0 <= i < ".git"@.len() implies ".git"@[i] != '/' by {}
        }
        lemma_concat_lacks(repeated(".git"@, (times - 1) as nat), ".git"@, '/');
    }
}

/// The directory of a bare repository is its path, and that of a working copy is the one
/// that its `.git` is in.
pub proof fn law_directory_of_a_repository(p: Seq<char>)
    ensures
        display_path(p, true) == p,
        display_path(p + "/.git"@, false) == p,
        !ends_with(p, "/.git"@) ==> display_path(p, false) == p,
{
    let git = p + "/.git"@;
    assert(git.skip(git.len() - "/.git"@.len()) =~= "/.git"@);
    assert(git.take(git.len() - "/.git"@.len()) =~= p);
}

} // verus!
