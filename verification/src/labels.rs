//! What the window says about its state, in words.
use vstd::prelude::*;
use crate::error::{concat2, concat4};
use crate::listing::{display_dir, display_path};
use crate::ssh::{Commit, DetailView, Repo, RepoDetail};
use crate::state::Conn;
use crate::text::{chars_of, decimal, join, joined, number, push_text, text_of, text_option};

verus! {

/// The note when the password of the session is reused for a clone.
pub const NOTE_PASSWORD_HELD: &'static str =
    "This profile logs in with a password, so the clone goes through                              yGit's own SSH transport using the password of this session.";

/// The note when there is no password to reuse.
pub const NOTE_NO_PASSWORD: &'static str =
    "This profile logs in with a password and none is held: connect                              first, then clone.";

/// The state of the connection.
pub fn conn_label(conn: Conn) -> (r: &'static str)
    ensures
        r@ == match conn {
            Conn::Up => "online"@,
            Conn::Connecting => "connecting"@,
            Conn::Idle => "offline"@,
        },
{
    match conn {
        Conn::Up => "online",
        Conn::Connecting => "connecting",
        Conn::Idle => "offline",
    }
}

/// What stands in place of the list while it is empty.
pub fn empty_list_hint(conn: Conn) -> (r: &'static str)
    ensures
        r@ == if conn == Conn::Up {
            "No repositories found. Check the repository roots on the left."@
        } else {
            "Connect to a server to list repositories."@
        },
{
    match conn {
        Conn::Up => "No repositories found. Check the repository roots on the left.",
        _ => "Connect to a server to list repositories.",
    }
}

/// How many repositories the filter lets through.
pub fn shown_label(visible: usize, total: usize) -> (r: String)
    ensures
        r@ == decimal(visible as nat) + "/"@ + decimal(total as nat) + " shown"@,
{
    concat4(number(visible as u64).as_str(), "/", number(total as u64).as_str(), " shown")
}

/// What the clone dialog says about a profile that logs in with a password, and
/// whether that lets the clone start.
pub fn password_note(password_auth: bool, have_password: bool) -> (r: Option<(bool, &'static str)>)
    ensures
        match r {
            None => !password_auth,
            Some((fine, text)) => password_auth && fine == have_password && text@
                == if have_password {
                NOTE_PASSWORD_HELD@
            } else {
                NOTE_NO_PASSWORD@
            },
        },
{
    if !password_auth {
        None
    } else if have_password {
        Some((true, NOTE_PASSWORD_HELD))
    } else {
        Some((false, NOTE_NO_PASSWORD))
    }
}

/// What kind of repository it is.
pub fn kind_label(bare: bool) -> (r: &'static str)
    ensures
        r@ == if bare {
            "bare"@
        } else {
            "working copy"@
        },
{
    if bare {
        "bare"
    } else {
        "working copy"
    }
}

/// What stands in place of a tip commit that is not known.
pub fn no_commit_label(no_git: bool) -> (r: &'static str)
    ensures
        r@ == if no_git {
            "commit unknown - git missing on server"@
        } else {
            "no commits yet (open Details for why)"@
        },
{
    if no_git {
        "commit unknown - git missing on server"
    } else {
        "no commits yet (open Details for why)"
    }
}

/// The directory that a terminal opens in for a repository: the repository itself,
/// or its working copy.
pub fn terminal_dir(repo: &Repo) -> (r: String)
    ensures
        r@ == display_path(repo@.path, repo@.bare),
{
    let path = chars_of(repo.path.as_str());
    text_of(display_dir(path.as_slice(), repo.bare))
}

/// A commit on one line, as it is copied.
pub fn commit_line(c: &Commit) -> (r: String)
    ensures
        r@ == c@.hash + " "@ + c@.date + " "@ + c@.author + " "@ + c@.subject,
{
    let mut line = concat4(c.hash.as_str(), " ", c.date.as_str(), " ");
    push_text(&mut line, c.author.as_str());
    push_text(&mut line, " ");
    push_text(&mut line, c.subject.as_str());
    line
}

/// What is said of a repository's size and `HEAD`.
pub open spec fn size_text(d: DetailView) -> Option<Seq<char>> {
    if d.size.len() > 0 {
        Some("size: "@ + d.size + "  |  HEAD: "@ + d.head)
    } else {
        None
    }
}

/// What is said of a repository's size and `HEAD`; nothing when they are unknown.
pub fn size_label(d: &RepoDetail) -> (r: Option<String>)
    ensures
        text_option(r) == size_text(d@),
{
    if d.size.as_str().is_empty() {
        None
    } else {
        Some(concat4("size: ", d.size.as_str(), "  |  HEAD: ", d.head.as_str()))
    }
}

/// What is said of a repository's branches.
pub open spec fn branches_text(d: DetailView) -> Option<Seq<char>> {
    if d.branches.len() > 0 {
        Some("branches: "@ + joined(d.branches, ", "@))
    } else {
        None
    }
}

/// What is said of a repository's branches; nothing when there are none.
pub fn branches_label(d: &RepoDetail) -> (r: Option<String>)
    ensures
        text_option(r) == branches_text(d@),
{
    if d.branches.len() > 0 {
        Some(concat2("branches: ", join(d.branches.as_slice(), ", ").as_str()))
    } else {
        None
    }
}

/// What git complained about.
pub open spec fn error_text(d: DetailView) -> Option<Seq<char>> {
    if d.error.len() > 0 {
        Some("git said: "@ + d.error)
    } else {
        None
    }
}

/// What git complained about, if it did.
pub fn error_label(d: &RepoDetail) -> (r: Option<String>)
    ensures
        text_option(r) == error_text(d@),
{
    if d.error.as_str().is_empty() {
        None
    } else {
        Some(concat2("git said: ", d.error.as_str()))
    }
}

/// What is said of a repository's commits: how many are shown, or why there are
/// none. Where git complained, the complaint says it.
pub open spec fn commits_text(d: DetailView) -> Option<Seq<char>> {
    if d.commits.len() > 0 {
        Some(
            decimal(d.commits.len()) + if d.truncated {
                " most recent commits"@
            } else {
                " commits"@
            },
        )
    } else if d.error.len() > 0 {
        None
    } else if d.branches.len() == 0 {
        Some("no commits: the repository has no branches yet"@)
    } else {
        Some("no commits reachable from HEAD or any branch"@)
    }
}

/// What is said of a repository's commits.
pub fn commits_label(d: &RepoDetail) -> (r: Option<String>)
    ensures
        text_option(r) == commits_text(d@),
{
    if d.commits.len() > 0 {
        let count = number(d.commits.len() as u64);
        Some(
            concat2(
                count.as_str(),
                if d.truncated {
                    " most recent commits"
                } else {
                    " commits"
                },
            ),
        )
    } else if !d.error.as_str().is_empty() {
        None
    } else if d.branches.len() == 0 {
        Some("no commits: the repository has no branches yet".to_string())
    } else {
        Some("no commits reachable from HEAD or any branch".to_string())
    }
}

/// What is said of the commits starts with how many are shown, and says that there are
/// more exactly if the history was cut off. Without commits the reason is given, unless
/// git gave one.
pub proof fn law_commits_are_counted(d: DetailView)
    ensures
        d.commits.len() > 0 && d.truncated ==> commits_text(d) == Some(
            decimal(d.commits.len()) + " most recent commits"@,
        ),
        d.commits.len() > 0 && !d.truncated ==> commits_text(d) == Some(
            decimal(d.commits.len()) + " commits"@,
        ),
        d.commits.len() == 0 ==> (commits_text(d) is None <==> error_text(d) is Some),
        error_text(d) is Some <==> d.error.len() > 0,
        branches_text(d) is Some <==> d.branches.len() > 0,
        size_text(d) is Some <==> d.size.len() > 0,
        d.error.len() > 0 ==> error_text(d) == Some("git said: "@ + d.error),
        d.size.len() > 0 ==> size_text(d) == Some("size: "@ + d.size + "  |  HEAD: "@ + d.head),
        d.branches.len() == 1 ==> branches_text(d) == Some("branches: "@ + d.branches[0]),
        d.branches.len() == 2 ==> branches_text(d) == Some(
            "branches: "@ + (d.branches[0] + ", "@ + d.branches[1]),
        ),
{
    if d.branches.len() == 2 {
        assert(joined(d.branches.drop_last(), ", "@) == d.branches[0]);
    }
}

} // verus!
