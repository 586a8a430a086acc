//! Cloning a repository to this machine.
use vstd::prelude::*;
use crate::config::{default_profile, AuthKind, Profile, ProfileView};
use crate::error::{concat3, concat4, concat2, outcome, Error, Fault};
use crate::proxy::{
    proxy_profile, EnvView, RequestView, ENV_HOST, ENV_PASSWORD, ENV_PORT, ENV_STRICT, ENV_USER,
    FLAG,
};
use crate::quote::{
    is_word_for, lemma_joined_words, lemma_plain_is_word, sh_command, sh_quote, sh_quoted,
    shell_words,
};
use crate::remote::{text_lossy, utf8_lossy};
use crate::terminal::{
    clone_dir_name, clone_name, git_ssh_command, law_clone_is_called_by_the_repository,
    list_outcome, ssh_command_words,
};
use crate::text::{
    begins_char, chars_of, decimal, ends_with, has_char, is_blank, is_line, is_white_space, joined,
    lemma_lines_printed, lemma_nonblank_already, lemma_parsed_decimal, lemma_trimmed_already, lines,
    lines_of, nonblank, nonblank_pieces, number, printed, same_text, starts_with, starts_with_char, text_of,
    text_option, texts, trim, trimmed,
};

verus! {

/// The folder that a clone goes into: the one that was asked for, or the one that
/// the repository's name gives.
pub open spec fn clone_folder(repo_path: Seq<char>, folder: Seq<char>) -> Result<
    Seq<char>,
    Fault,
> {
    let name = if trimmed(folder).len() == 0 {
        clone_name(repo_path)
    } else {
        trimmed(folder)
    };
    if is_folder_name(name) {
        Ok(name)
    } else {
        Err(Fault::BadFolder(name))
    }
}

/// `name` is one component of a path, and names something of its own.
pub open spec fn is_folder_name(name: Seq<char>) -> bool {
    &&& name.len() > 0
    &&& name != "."@
    &&& name != ".."@
    &&& !name.contains('/')
    &&& !name.contains('\\')
}

/// The arguments of `git clone`. An empty `branch` leaves the choice to the
/// server's `HEAD`.
pub open spec fn clone_arguments(url: Seq<char>, dest: Seq<char>, branch: Seq<char>) -> Result<
    Seq<Seq<char>>,
    Fault,
> {
    let b = trimmed(branch);
    if starts_with_char(b, '-') {
        Err(Fault::BadBranch(b))
    } else if b.len() > 0 {
        Ok(seq!["clone"@, "--progress"@, "--branch"@, b, url, dest])
    } else {
        Ok(seq!["clone"@, "--progress"@, url, dest])
    }
}

/// A branch is handed to git as the value of `--branch`, and git cannot take it for
/// an option; without a branch there is no such argument.
pub proof fn law_branch_cannot_be_an_option(url: Seq<char>, dest: Seq<char>, branch: Seq<char>)
    ensures
        clone_arguments(url, dest, branch) matches Ok(args) ==> {
            if is_blank(branch) {
                args == seq!["clone"@, "--progress"@, url, dest]
            } else {
                args == seq!["clone"@, "--progress"@, "--branch"@, trimmed(branch), url, dest]
                    && trimmed(branch)[0] != '-'
            }
        },
        clone_arguments(url, dest, branch) is Err <==> starts_with_char(trimmed(branch), '-'),
{
}

/// `dest` is `folder` right below `parent`, or `folder` itself where it names a drive
/// of Windows. Nothing is said of a `parent` that is a verbatim path of Windows.
pub open spec fn lands_in(parent: Seq<char>, folder: Seq<char>, dest: Seq<char>) -> bool {
    !starts_with(parent, seq!['\\', '\\', '?', '\\']) ==> {
        ||| dest == parent + seq!['/'] + folder && parent.last() != '/'
        ||| dest == parent + seq!['\\'] + folder && parent.last() != '/'
        ||| dest == parent + folder && (parent.last() == '/' || parent.last() == '\\'
            || parent.last() == ':')
        ||| dest == folder && folder.len() > 1 && folder[1] == ':'
    }
}

/// `std::path::Path::join`, on texts: the path of `folder` in `parent`.
///
/// The path ends with `folder`. It is `parent`, a separator and `folder`; there is
/// no further separator after a slash, nor on Windows after a backslash or the
/// colon of a drive, and a `folder` that names a drive there stands for itself.
/// Which separator is used depends on the machine. Left unsaid is what Windows makes
/// of a `parent` that starts with `\\?\`, whose components it puts together anew.
#[verifier::external_body]
fn join_path(parent: &str, folder: &str) -> (r: String)
    requires
        parent@.len() > 0,
        is_folder_name(folder@),
    ensures
        ends_with(r@, folder@),
        lands_in(parent@, folder@, r@),
{
    std::path::Path::new(parent).join(folder).to_string_lossy().to_string()
}

/// The folder that a clone goes into, or why there is none.
pub fn clone_folder_name(repo_path: &str, folder: &str) -> (r: Result<String, Error>)
    ensures
        outcome(r) == clone_folder(repo_path@, folder@),
{
    let chars = chars_of(folder);
    let asked = trim(chars.as_slice());
    let name = if asked.len() == 0 {
        clone_dir_name(repo_path)
    } else {
        text_of(asked)
    };
    let cs = chars_of(name.as_str());
    if cs.len() == 0 || same_text(name.as_str(), ".") || same_text(name.as_str(), "..") || has_char(
        cs.as_slice(),
        '/',
    ) || has_char(cs.as_slice(), '\\') {
        return Err(Error::BadFolder(name));
    }
    Ok(name)
}

/// The arguments of a `git clone` of `url` into `dest`.
pub fn clone_into(url: &str, dest: &str, branch: &str) -> (r: Result<Vec<String>, Error>)
    ensures
        list_outcome(r) == clone_arguments(url@, dest@, branch@),
{
    let mut args: Vec<String> = vec!["clone".to_string(), "--progress".to_string()];
    let chars = chars_of(branch);
    let b = trim(chars.as_slice());
    if begins_char(b, '-') {
        return Err(Error::BadBranch(text_of(b)));
    }
    if b.len() > 0 {
        args.push("--branch".to_string());
        args.push(text_of(b));
    }
    args.push(url.to_string());
    args.push(dest.to_string());
    proof {
        if b@.len() > 0 {
            assert(texts(args@) == seq!["clone"@, "--progress"@, "--branch"@, b@, url@, dest@]);
        } else {
            assert(texts(args@) == seq!["clone"@, "--progress"@, url@, dest@]);
        }
    }
    Ok(args)
}

/// Where a clone of `repo_path` would land under `parent`, plus its arguments.
///
/// An empty `branch` leaves the choice to the server's `HEAD`.
pub fn clone_args(repo_path: &str, url: &str, parent: &str, folder: &str, branch: &str) -> (r:
    Result<(String, Vec<String>), Error>)
    ensures
        match r {
            Ok((dest, args)) => {
                &&& clone_folder(repo_path@, folder@) is Ok
                &&& parent@.len() > 0
                &&& ends_with(dest@, clone_folder(repo_path@, folder@)->Ok_0)
                &&& clone_arguments(url@, dest@, branch@) == Ok::<Seq<Seq<char>>, Fault>(
                    texts(args@),
                )
            },
            Err(e) => match clone_folder(repo_path@, folder@) {
                Err(bad) => e@ == bad,
                Ok(name) => if parent@.len() == 0 {
                    e@ == Fault::NoDestination
                } else {
                    clone_arguments(url@, name, branch@) == Err::<Seq<Seq<char>>, Fault>(e@)
                },
            },
        },
        r matches Ok((dest, _)) ==> lands_in(
            parent@,
            clone_folder(repo_path@, folder@)->Ok_0,
            dest@,
        ),
{
    let name = match clone_folder_name(repo_path, folder) {
        Err(e) => return Err(e),
        Ok(name) => name,
    };
    if parent.is_empty() {
        return Err(Error::NoDestination);
    }
    let dest = join_path(parent, name.as_str());
    match clone_into(url, dest.as_str(), branch) {
        Err(e) => Err(e),
        Ok(args) => Ok((dest, args)),
    }
}

/// A variable and its value.
pub open spec fn pair_view(pair: (String, String)) -> (Seq<char>, Seq<char>) {
    (pair.0@, pair.1@)
}

/// Variables and their values.
pub open spec fn pair_views(list: Seq<(String, String)>) -> Seq<(Seq<char>, Seq<char>)> {
    list.map_values(|p: (String, String)| pair_view(p))
}

/// The variables that tell the transport where to connect to.
pub open spec fn transport_env(profile: ProfileView, password: Seq<char>) -> Seq<
    (Seq<char>, Seq<char>),
> {
    seq![
        (ENV_HOST@, trimmed(profile.host)),
        (ENV_PORT@, decimal(profile.port as nat)),
        (ENV_USER@, trimmed(profile.user)),
        (
            ENV_STRICT@,
            if profile.strict_host_key {
                "1"@
            } else {
                "0"@
            },
        ),
        (ENV_PASSWORD@, password),
    ]
}

/// What git is given to reach the server: the command, and the variables.
pub open spec fn transport_for(
    profile: ProfileView,
    password: Seq<char>,
    exe: Result<Seq<char>, Seq<char>>,
) -> Result<(Seq<char>, Seq<(Seq<char>, Seq<char>)>), Fault> {
    if profile.auth != AuthKind::Password {
        Ok((sh_command(ssh_command_words(profile)), Seq::empty()))
    } else if password.len() == 0 {
        Err(Fault::NoSessionPassword)
    } else {
        match exe {
            Err(why) => Err(Fault::NoExecutable(why)),
            Ok(exe) => Ok((sh_quoted(exe) + " "@ + FLAG@, transport_env(profile, password))),
        }
    }
}

/// The texts of a path or of the reason why it is unknown.
pub open spec fn exe_view(exe: Result<String, String>) -> Result<Seq<char>, Seq<char>> {
    match exe {
        Ok(s) => Ok(s@),
        Err(s) => Err(s@),
    }
}

/// The transport git should use for this profile.
///
/// A key profile uses the system `ssh`. A password profile uses this very
/// binary in `--ssh-proxy` mode, which authenticates with `russh` and the
/// password the app already holds, because `ssh` has no terminal to ask on.
/// `exe` is the path of this binary, or the reason why it is unknown.
pub fn transport(profile: &Profile, password: &str, exe: Result<String, String>) -> (r: Result<
    (String, Vec<(String, String)>),
    Error,
>)
    ensures
        match r {
            Ok((command, env)) => transport_for(profile@, password@, exe_view(exe)) == Ok::<
                (Seq<char>, Seq<(Seq<char>, Seq<char>)>),
                Fault,
            >((command@, pair_views(env@))),
            Err(e) => transport_for(profile@, password@, exe_view(exe)) == Err::<
                (Seq<char>, Seq<(Seq<char>, Seq<char>)>),
                Fault,
            >(e@),
        },
        r matches Ok((command, _)) ==> shell_words(command@) == Some(
            if profile@.auth == AuthKind::Password {
                seq![exe->Ok_0@, FLAG@]
            } else {
                ssh_command_words(profile@)
            },
        ),
{
    if profile.auth != AuthKind::Password {
        let env: Vec<(String, String)> = Vec::new();
        assert(pair_views(env@) == Seq::<(Seq<char>, Seq<char>)>::empty());
        return Ok((git_ssh_command(profile), env));
    }
    if password.is_empty() {
        return Err(Error::NoSessionPassword);
    }
    let exe = match exe {
        Ok(exe) => exe,
        Err(why) => return Err(Error::NoExecutable(why)),
    };
    let quoted = sh_quote(exe.as_str());
    let command = concat3(quoted.as_str(), " ", FLAG);
    proof {
        lemma_flag_is_a_word();
        reveal_strlit(" ");
        assert(" "@ == seq![' ']);
        let words = seq![exe@, FLAG@];
        let parts = seq![quoted@, FLAG@];
        assert(parts.drop_last() == seq![quoted@]);
        assert(joined(seq![quoted@], seq![' ']) == quoted@);
        assert(joined(parts, seq![' ']) == quoted@ + seq![' '] + FLAG@);
        lemma_joined_words(parts, words);
    }
    let host = chars_of(profile.host.as_str());
    let user = chars_of(profile.user.as_str());
    let env: Vec<(String, String)> = vec![
        (ENV_HOST.to_string(), text_of(trim(host.as_slice()))),
        (ENV_PORT.to_string(), number(profile.port as u64)),
        (ENV_USER.to_string(), text_of(trim(user.as_slice()))),
        (
            ENV_STRICT.to_string(),
            if profile.strict_host_key {
                "1".to_string()
            } else {
                "0".to_string()
            },
        ),
        (ENV_PASSWORD.to_string(), password.to_string()),
    ];
    assert(pair_views(env@) == transport_env(profile@, password@));
    Ok((command, env))
}

proof fn lemma_flag_is_a_word()
    ensures
        is_word_for(FLAG@, FLAG@),
{
    reveal_strlit("--ssh-proxy");
    lemma_plain_is_word(FLAG@);
}

/// The value that `env` gives to the variable `name`: a later one goes before an
/// earlier one.
pub open spec fn looked_up(env: Seq<(Seq<char>, Seq<char>)>, name: Seq<char>) -> Option<Seq<char>>
    decreases env.len(),
{
    if env.len() == 0 {
        None
    } else if env.last().0 == name {
        Some(env.last().1)
    } else {
        looked_up(env.drop_last(), name)
    }
}

/// What the transport finds in its environment.
pub open spec fn env_of(env: Seq<(Seq<char>, Seq<char>)>) -> EnvView {
    EnvView {
        password: looked_up(env, ENV_PASSWORD@),
        host: looked_up(env, ENV_HOST@),
        user: looked_up(env, ENV_USER@),
        port: looked_up(env, ENV_PORT@),
        strict: looked_up(env, ENV_STRICT@),
    }
}

/// The transport of a password profile connects where the profile says, as whom
/// it says, with the password of the session and under the profile's host key
/// policy, whatever git asks for on the command line.
pub proof fn law_transport_reaches_the_server_of_the_profile(
    profile: ProfileView,
    password: Seq<char>,
    req: RequestView,
)
    ensures
        proxy_profile(req, env_of(transport_env(profile, password))) == Ok::<
            (ProfileView, Seq<char>),
            Fault,
        >(
            (
                ProfileView {
                    host: trimmed(profile.host),
                    port: profile.port,
                    user: trimmed(profile.user),
                    auth: AuthKind::Password,
                    strict_host_key: profile.strict_host_key,
                    ..default_profile()
                },
                password,
            ),
        ),
{
    reveal_strlit("YGIT_PROXY_HOST");
    reveal_strlit("YGIT_PROXY_PORT");
    reveal_strlit("YGIT_PROXY_USER");
    reveal_strlit("YGIT_PROXY_STRICT");
    reveal_strlit("YGIT_PROXY_PASSWORD");
    reveal_strlit("1");
    reveal_strlit("0");
    assert(ENV_HOST@[11] == 'H');
    assert(ENV_PORT@[11] == 'P' && ENV_PORT@[12] == 'O');
    assert(ENV_USER@[11] == 'U');
    assert(ENV_STRICT@[11] == 'S');
    assert(ENV_PASSWORD@[11] == 'P' && ENV_PASSWORD@[12] == 'A');
    assert("1"@[0] == '1' && "0"@[0] == '0');
    let env = transport_env(profile, password);
    reveal_with_fuel(looked_up, 6);
    lemma_parsed_decimal(profile.port);
}

/// The text of a list's first item.
pub open spec fn first_of(list: Seq<Seq<char>>) -> Option<Seq<char>> {
    if list.len() > 0 {
        Some(list[0])
    } else {
        None
    }
}

/// The branch to check out when the server's `HEAD` named one that does not
/// exist: the usual default names first, otherwise whatever came along.
pub open spec fn preferred(branches: Seq<Seq<char>>) -> Option<Seq<char>> {
    if branches.contains("main"@) {
        Some("main"@)
    } else if branches.contains("master"@) {
        Some("master"@)
    } else if branches.contains("trunk"@) {
        Some("trunk"@)
    } else if branches.contains("develop"@) {
        Some("develop"@)
    } else {
        first_of(branches)
    }
}

fn has_text(list: &[String], wanted: &str) -> (r: bool)
    ensures
        r == texts(list@).contains(wanted@),
{
    let n: usize = list.len();
    for i in 0..n
        invariant
            n == list@.len(),
            forall|j: int| 0 <= j < i ==> texts(list@)[j] != wanted@,
    {
        if same_text(list[i].as_str(), wanted) {
            assert(texts(list@)[i as int] == wanted@);
            return true;
        }
    }
    false
}

/// Picks the branch to check out when the server's `HEAD` named one that does
/// not exist: the usual default names first, otherwise whatever came along.
pub fn preferred_branch(branches: &[String]) -> (r: Option<String>)
    ensures
        text_option(r) == preferred(texts(branches@)),
{
    if has_text(branches, "main") {
        Some("main".to_string())
    } else if has_text(branches, "master") {
        Some("master".to_string())
    } else if has_text(branches, "trunk") {
        Some("trunk".to_string())
    } else if has_text(branches, "develop") {
        Some("develop".to_string())
    } else if branches.len() > 0 {
        Some(branches[0].clone())
    } else {
        None
    }
}

/// A branch is preferred exactly when there is one, and it is one of them.
pub proof fn law_preferred_branch_is_one_of_them(branches: Seq<Seq<char>>)
    ensures
        preferred(branches) is None <==> branches.len() == 0,
        preferred(branches) matches Some(b) ==> branches.contains(b),
{
}

/// The branches in what git lists of a remote: every line but the one for `HEAD`.
pub open spec fn branches_of(refs: Seq<char>) -> Seq<Seq<char>> {
    nonblank(lines_of(refs)).filter(|l: Seq<char>| l != "HEAD"@)
}

/// The branches in what git lists of a remote.
pub fn remote_branches(refs: &str) -> (r: Vec<String>)
    ensures
        texts(r@) == branches_of(refs@),
{
    let cs = chars_of(refs);
    let names = nonblank_pieces(lines(cs.as_slice()).as_slice());
    let ghost all = texts(names@);
    let ghost keep = |l: Seq<char>| l != "HEAD"@;
    let n: usize = names.len();
    let mut r: Vec<String> = Vec::new();
    assert(all.take(0).filter(keep) == Seq::<Seq<char>>::empty()) by {
        reveal(Seq::filter);
    }
    for i in 0..n
        invariant
            n == names@.len(),
            all == texts(names@),
            keep == |l: Seq<char>| l != "HEAD"@,
            texts(r@) == all.take(i as int).filter(keep),
    {
        proof {
            reveal(Seq::filter);
            assert(all.take(i + 1).drop_last() == all.take(i as int));
        }
        let ghost done = texts(r@);
        if !same_text(names[i].as_str(), "HEAD") {
            r.push(names[i].clone());
            assert(texts(r@) == done.push(all[i as int]));
        }
    }
    assert(all.take(n as int) == all);
    r
}

/// What is still to be done after a clone, so that it has a working tree.
///
/// A repository whose `HEAD` points at a branch that was never pushed (`main`
/// on the server, `master` in the history) clones every object but checks
/// nothing out, so the new directory looks empty apart from `.git`. Git only
/// warns about it, so the checkout is done here, with a note of what happened.
pub enum Checkout {
    /// Ask whether `HEAD` resolves to a commit: then a working tree is there.
    Verify,
    /// Ask which branches there are.
    ListRefs,
    /// Check out a branch.
    Branch(String),
    /// Nothing; the note says what happened.
    Done(String),
}

/// What is still to be done, over texts.
pub enum CheckoutView {
    Verify,
    ListRefs,
    Branch(Seq<char>),
    Done(Seq<char>),
}

impl View for Checkout {
    type V = CheckoutView;

    open spec fn view(&self) -> CheckoutView {
        match self {
            Checkout::Verify => CheckoutView::Verify,
            Checkout::ListRefs => CheckoutView::ListRefs,
            Checkout::Branch(branch) => CheckoutView::Branch(branch@),
            Checkout::Done(note) => CheckoutView::Done(note@),
        }
    }
}

/// How many commands there may still be.
pub open spec fn steps_left(step: CheckoutView) -> nat {
    match step {
        CheckoutView::Verify => 3,
        CheckoutView::ListRefs => 2,
        CheckoutView::Branch(_) => 1,
        CheckoutView::Done(_) => 0,
    }
}

/// The arguments of the git command for a step.
pub open spec fn checkout_command(step: CheckoutView) -> Option<Seq<Seq<char>>> {
    match step {
        CheckoutView::Verify => Some(seq!["rev-parse"@, "--verify"@, "--quiet"@, "HEAD"@]),
        CheckoutView::ListRefs => Some(
            seq!["for-each-ref"@, "--format=%(refname:lstrip=3)"@, "refs/remotes/origin"@],
        ),
        CheckoutView::Branch(branch) => Some(
            seq!["checkout"@, "-B"@, branch, "--track"@, "origin/"@ + branch],
        ),
        CheckoutView::Done(_) => None,
    }
}

/// The note when the repository has no branch to check out.
pub const NOTE_NO_COMMITS: &'static str =
    "\nNothing was checked out: the repository has no commits yet.\n";

/// The start of the note when another branch was checked out.
pub const NOTE_DANGLING_HEAD: &'static str =
    "\nThe server's HEAD names a branch that does not exist, so git checked nothing out; checked out '";

/// What comes next, after the command for a step succeeded or failed and printed
/// `output`.
pub open spec fn checkout_next(step: CheckoutView, ok: bool, output: Seq<char>) -> CheckoutView {
    match step {
        CheckoutView::Verify => if ok {
            CheckoutView::Done(Seq::empty())
        } else {
            CheckoutView::ListRefs
        },
        CheckoutView::ListRefs => match preferred(
            if ok {
                branches_of(output)
            } else {
                Seq::empty()
            },
        ) {
            None => CheckoutView::Done(NOTE_NO_COMMITS@),
            Some(branch) => CheckoutView::Branch(branch),
        },
        CheckoutView::Branch(branch) => if ok {
            CheckoutView::Done(NOTE_DANGLING_HEAD@ + branch + "' instead.\n"@)
        } else {
            CheckoutView::Done(
                "\nNothing was checked out and 'git checkout "@ + branch + "' failed: "@ + trimmed(
                    output,
                ) + "\n"@,
            )
        },
        CheckoutView::Done(note) => CheckoutView::Done(note),
    }
}

impl Checkout {
    /// The first step after a clone.
    pub fn after_clone() -> (r: Checkout)
        ensures
            r@ == CheckoutView::Verify,
    {
        Checkout::Verify
    }

    /// The arguments of the git command to run in the clone, as long as there is
    /// something to do.
    pub fn command(&self) -> (r: Option<Vec<String>>)
        ensures
            match r {
                Some(args) => checkout_command(self@) == Some(texts(args@)),
                None => checkout_command(self@) is None,
            },
    {
        match self {
            Checkout::Verify => {
                let args: Vec<String> = vec![
                    "rev-parse".to_string(),
                    "--verify".to_string(),
                    "--quiet".to_string(),
                    "HEAD".to_string(),
                ];
                assert(texts(args@) == seq!["rev-parse"@, "--verify"@, "--quiet"@, "HEAD"@]);
                Some(args)
            },
            Checkout::ListRefs => {
                let args: Vec<String> = vec![
                    "for-each-ref".to_string(),
                    "--format=%(refname:lstrip=3)".to_string(),
                    "refs/remotes/origin".to_string(),
                ];
                assert(texts(args@) == seq![
                    "for-each-ref"@,
                    "--format=%(refname:lstrip=3)"@,
                    "refs/remotes/origin"@,
                ]);
                Some(args)
            },
            Checkout::Branch(branch) => {
                let args: Vec<String> = vec![
                    "checkout".to_string(),
                    "-B".to_string(),
                    branch.clone(),
                    "--track".to_string(),
                    concat2("origin/", branch.as_str()),
                ];
                assert(texts(args@) == seq![
                    "checkout"@,
                    "-B"@,
                    branch@,
                    "--track"@,
                    "origin/"@ + branch@,
                ]);
                Some(args)
            },
            Checkout::Done(_) => None,
        }
    }

    /// What comes next, after the command of this step.
    pub fn next(self, ok: bool, output: &str) -> (r: Checkout)
        ensures
            r@ == checkout_next(self@, ok, output@),
            self@ is Done || steps_left(r@) < steps_left(self@),
    {
        match self {
            Checkout::Verify => if ok {
                Checkout::Done(String::new())
            } else {
                Checkout::ListRefs
            },
            Checkout::ListRefs => {
                let branches = if ok {
                    remote_branches(output)
                } else {
                    Vec::new()
                };
                assert(texts(branches@) == if ok {
                    branches_of(output@)
                } else {
                    Seq::empty()
                });
                match preferred_branch(branches.as_slice()) {
                    None => Checkout::Done(NOTE_NO_COMMITS.to_string()),
                    Some(branch) => Checkout::Branch(branch),
                }
            },
            Checkout::Branch(branch) => if ok {
                Checkout::Done(concat3(NOTE_DANGLING_HEAD, branch.as_str(), "' instead.\n"))
            } else {
                let cs = chars_of(output);
                let said = text_of(trim(cs.as_slice()));
                let why = concat4(
                    "\nNothing was checked out and 'git checkout ",
                    branch.as_str(),
                    "' failed: ",
                    said.as_str(),
                );
                Checkout::Done(concat2(why.as_str(), "\n"))
            },
            Checkout::Done(note) => Checkout::Done(note),
        }
    }
}

/// A clone whose `HEAD` names no commit still gets a working tree when the server
/// has a branch: the preferred one is checked out, and the note names it.
pub proof fn law_dangling_head_gets_a_working_tree(
    said: Seq<char>,
    refs: Seq<char>,
    output: Seq<char>,
)
    requires
        branches_of(refs).len() > 0,
    ensures
        ({
            let listing = checkout_next(CheckoutView::Verify, false, said);
            let step = checkout_next(listing, true, refs);
            let branch = preferred(branches_of(refs))->0;
            &&& branches_of(refs).contains(branch)
            &&& step == CheckoutView::Branch(branch)
            &&& checkout_command(step) == Some(
                seq!["checkout"@, "-B"@, branch, "--track"@, "origin/"@ + branch],
            )
            &&& checkout_next(step, true, output) == CheckoutView::Done(
                NOTE_DANGLING_HEAD@ + branch + "' instead.\n"@,
            )
        }),
{
    law_preferred_branch_is_one_of_them(branches_of(refs));
}

/// The program and the variables of a `git clone`.
pub struct CloneCommand {
    pub args: Vec<String>,
    pub env: Vec<(String, String)>,
}

/// The variables of a `git clone` that goes through `command`. The transport may
/// not be OpenSSH, so git is told how to call it; and git must never stop for a
/// credential prompt that nobody can see.
pub open spec fn clone_env(command: Seq<char>, extra: Seq<(Seq<char>, Seq<char>)>) -> Seq<
    (Seq<char>, Seq<char>),
> {
    seq![
        ("GIT_SSH_COMMAND"@, command),
        ("GIT_SSH_VARIANT"@, "ssh"@),
        ("GIT_TERMINAL_PROMPT"@, "0"@),
    ] + extra
}

/// Decides whether a clone may start, and how git is run: `dest` and `args` are
/// what [`clone_args`] gave, and the two flags say what is on disk.
pub fn clone_command(
    profile: &Profile,
    parent: &str,
    parent_is_dir: bool,
    dest: &str,
    dest_exists: bool,
    args: Vec<String>,
    password: &str,
    exe: Result<String, String>,
) -> (r: Result<CloneCommand, Error>)
    ensures
        match r {
            Ok(c) => {
                &&& parent_is_dir
                &&& !dest_exists
                &&& c.args == args
                &&& transport_for(profile@, password@, exe_view(exe)) matches Ok((command, extra))
                &&& pair_views(c.env@) == clone_env(command, extra)
            },
            Err(e) => if !parent_is_dir {
                e@ == Fault::NotADirectory(parent@)
            } else if dest_exists {
                e@ == Fault::AlreadyExists(dest@)
            } else {
                transport_for(profile@, password@, exe_view(exe)) == Err::<
                    (Seq<char>, Seq<(Seq<char>, Seq<char>)>),
                    Fault,
                >(e@)
            },
        },
{
    if !parent_is_dir {
        return Err(Error::NotADirectory(parent.to_string()));
    }
    if dest_exists {
        return Err(Error::AlreadyExists(dest.to_string()));
    }
    match transport(profile, password, exe) {
        Err(e) => Err(e),
        Ok((command, extra)) => {
            let ghost extra_views = pair_views(extra@);
            let mut env: Vec<(String, String)> = vec![
                ("GIT_SSH_COMMAND".to_string(), command),
                ("GIT_SSH_VARIANT".to_string(), "ssh".to_string()),
                ("GIT_TERMINAL_PROMPT".to_string(), "0".to_string()),
            ];
            let mut extra = extra;
            env.append(&mut extra);
            assert(pair_views(env@) == clone_env(command@, extra_views));
            Ok(CloneCommand { args, env })
        },
    }
}

/// What a finished `git clone` means: what it printed, or that it failed.
pub fn clone_result(success: bool, status: &str, text: &str) -> (r: Result<String, Error>)
    ensures
        outcome(r) == if success {
            Ok::<Seq<char>, Fault>(text@)
        } else {
            Err(Fault::CloneFailed(status@, trimmed(text@)))
        },
{
    if success {
        Ok(text.to_string())
    } else {
        let cs = chars_of(text);
        Err(Error::CloneFailed(status.to_string(), text_of(trim(cs.as_slice()))))
    }
}

/// What a program wrote to its two outputs, as text.
pub fn output_text(stdout: &[u8], stderr: &[u8]) -> (r: String)
    ensures
        r@ == utf8_lossy(stdout@) + utf8_lossy(stderr@),
{
    concat2(text_lossy(stdout).as_str(), text_lossy(stderr).as_str())
}

/// What a finished `git clone` means, from what it wrote to its two outputs.
pub fn clone_output(success: bool, status: &str, stdout: &[u8], stderr: &[u8]) -> (r: Result<
    String,
    Error,
>)
    ensures
        ({
            let text = utf8_lossy(stdout@) + utf8_lossy(stderr@);
            outcome(r) == if success {
                Ok::<Seq<char>, Fault>(text)
            } else {
                Err(Fault::CloneFailed(status@, trimmed(text)))
            }
        }),
{
    let text = output_text(stdout, stderr);
    clone_result(success, status, text.as_str())
}

/// Of the usual names the earliest that the server has is preferred, in the order
/// `main`, `master`, `trunk`, `develop`; if it has none of them, the first branch is.
pub proof fn law_usual_branches_are_preferred(branches: Seq<Seq<char>>)
    ensures
        branches.contains("main"@) ==> preferred(branches) == Some("main"@),
        !branches.contains("main"@) && branches.contains("master"@) ==> preferred(branches) == Some(
            "master"@,
        ),
        !branches.contains("main"@) && !branches.contains("master"@) && branches.contains("trunk"@)
            ==> preferred(branches) == Some("trunk"@),
        !branches.contains("main"@) && !branches.contains("master"@) && !branches.contains(
            "trunk"@,
        ) && branches.contains("develop"@) ==> preferred(branches) == Some("develop"@),
        !branches.contains("main"@) && !branches.contains("master"@) && !branches.contains(
            "trunk"@,
        ) && !branches.contains("develop"@) && branches.len() > 0 ==> preferred(branches) == Some(
            branches[0],
        ),
{
}

/// What git lists of a remote, one branch on each line, is read back; the line for
/// `HEAD`, wherever it stands, is no branch.
pub proof fn law_remote_branches_are_read_back(a: Seq<Seq<char>>, b: Seq<Seq<char>>)
    requires
        forall|i: int|
            0 <= i < a.len() ==> is_line(#[trigger] a[i]) && a[i].len() > 0 && trimmed(a[i]) == a[i]
                && a[i] != "HEAD"@,
        forall|i: int|
            0 <= i < b.len() ==> is_line(#[trigger] b[i]) && b[i].len() > 0 && trimmed(b[i]) == b[i]
                && b[i] != "HEAD"@,
    ensures
        branches_of(printed(a + b)) == a + b,
        branches_of(printed(a + seq!["HEAD"@] + b)) == a + b,
{
    reveal_strlit("HEAD");
    let keep = |l: Seq<char>| l != "HEAD"@;
    let plain = a + b;
    let all = a + seq!["HEAD"@] + b;
    lemma_trimmed_already("HEAD"@);
    assert(is_line("HEAD"@)) by {
        assert forall|i: int| 0 <= i < "HEAD"@.len() implies "HEAD"@[i] != '\n' by {}
    }
    assert forall|i: int| 0 <= i < plain.len() implies is_line(#[trigger] plain[i])
        && plain[i].len() > 0 && trimmed(plain[i]) == plain[i] by {
        if i < a.len() {
            assert(plain[i] == a[i]);
        } else {
            assert(plain[i] == b[i - a.len()]);
        }
    }
    assert forall|i: int| 0 <= i < all.len() implies is_line(#[trigger] all[i]) && all[i].len() > 0
        && trimmed(all[i]) == all[i] by {
        if i < a.len() {
            assert(all[i] == a[i]);
        } else if i > a.len() {
            assert(all[i] == b[i - a.len() - 1]);
        }
    }
    lemma_lines_printed(plain);
    lemma_lines_printed(all);
    lemma_nonblank_already(plain);
    lemma_nonblank_already(all);
    lemma_filter_keeps(a, keep);
    lemma_filter_keeps(b, keep);
    lemma_filter_keeps(plain, keep);
    Seq::filter_distributes_over_add(a, seq!["HEAD"@], keep);
    Seq::filter_distributes_over_add(a + seq!["HEAD"@], b, keep);
    assert(seq!["HEAD"@].filter(keep) == Seq::<Seq<char>>::empty()) by {
        reveal(Seq::filter);
        assert(seq!["HEAD"@].drop_last() == Seq::<Seq<char>>::empty());
        assert(Seq::<Seq<char>>::empty().filter(keep) == Seq::<Seq<char>>::empty());
    }
    assert(a + Seq::<Seq<char>>::empty() == a);
}

proof fn lemma_filter_keeps(list: Seq<Seq<char>>, keep: spec_fn(Seq<char>) -> bool)
    requires
        forall|i: int| 0 <= i < list.len() ==> keep(#[trigger] list[i]),
    ensures
        list.filter(keep) == list,
    decreases list.len(),
{
    reveal(Seq::filter);
    if list.len() > 0 {
        let head = list.drop_last();
        assert forall|i: int| 0 <= i < head.len() implies keep(#[trigger] head[i]) by {
            assert(head[i] == list[i]);
        }
        lemma_filter_keeps(head, keep);
        assert(keep(list[list.len() - 1]));
        assert(head.push(list.last()) == list);
    }
}

/// A clone goes into the folder that was asked for, or, where none was, into the one
/// that git would make: `n` for the repository `p/n.git`. It is one folder right below
/// the destination: what has a slash or a backslash in it, or is `.` or `..`, is
/// refused.
pub proof fn law_clone_folder(p: Seq<char>, n: Seq<char>, folder: Seq<char>)
    requires
        p.len() > 0 ==> p[0] == '/',
        n.len() > 0,
        !n.contains('/'),
        !n.contains('\\'),
        n != "."@,
        n != ".."@,
        !ends_with(n, ".git"@),
        !is_white_space(n.last()),
    ensures
        is_blank(folder) ==> clone_folder(p + "/"@ + n + ".git"@, folder) == Ok::<Seq<char>, Fault>(
            n,
        ),
        !is_blank(folder) ==> {
            let asked = trimmed(folder);
            let path = p + "/"@ + n + ".git"@;
            if asked == "."@ || asked == ".."@ || asked.contains('/') || asked.contains('\\') {
                clone_folder(path, folder) == Err::<Seq<char>, Fault>(Fault::BadFolder(asked))
            } else {
                clone_folder(path, folder) == Ok::<Seq<char>, Fault>(asked)
            }
        },
{
    law_clone_is_called_by_the_repository(p, n);
}

/// The password of a session is in the variables of the transport and nowhere else:
/// the command that git runs is the same whatever the password is; and a profile that
/// logs in with a key needs none, and sets no variable.
pub proof fn law_password_is_not_on_the_command_line(
    profile: ProfileView,
    a: Seq<char>,
    b: Seq<char>,
    exe: Result<Seq<char>, Seq<char>>,
)
    requires
        a.len() > 0,
        b.len() > 0,
    ensures
        profile.auth == AuthKind::Password ==> (transport_for(profile, a, exe) is Ok <==> exe is Ok),
        profile.auth == AuthKind::Password ==> transport_for(profile, Seq::empty(), exe) is Err,
        transport_for(profile, a, exe) matches Ok((command, env)) ==> {
            &&& transport_for(profile, b, exe) matches Ok((other, _)) && other == command
            &&& profile.auth == AuthKind::Password ==> looked_up(env, "YGIT_PROXY_PASSWORD"@)
                == Some(a)
            &&& profile.auth != AuthKind::Password ==> env.len() == 0
        },
        profile.auth != AuthKind::Password ==> transport_for(profile, a, exe) is Ok
            && transport_for(profile, a, exe) == transport_for(profile, Seq::empty(), exe),
{
}

/// What git finds in its environment: the command of the transport, that it is called
/// like OpenSSH, and that git must not prompt; and what the transport finds there is
/// not changed by it.
pub proof fn law_git_environment(
    command: Seq<char>,
    profile: ProfileView,
    password: Seq<char>,
)
    ensures
        ({
            let env = clone_env(command, transport_env(profile, password));
            &&& looked_up(env, "GIT_SSH_COMMAND"@) == Some(command)
            &&& looked_up(env, "GIT_SSH_VARIANT"@) == Some("ssh"@)
            &&& looked_up(env, "GIT_TERMINAL_PROMPT"@) == Some("0"@)
            &&& env_of(env) == env_of(transport_env(profile, password))
        }),
        ({
            let env = clone_env(command, Seq::empty());
            &&& looked_up(env, "GIT_SSH_COMMAND"@) == Some(command)
            &&& looked_up(env, "GIT_SSH_VARIANT"@) == Some("ssh"@)
            &&& looked_up(env, "GIT_TERMINAL_PROMPT"@) == Some("0"@)
        }),
{
    reveal_strlit("GIT_SSH_COMMAND");
    reveal_strlit("GIT_SSH_VARIANT");
    reveal_strlit("GIT_TERMINAL_PROMPT");
    reveal_strlit("YGIT_PROXY_HOST");
    reveal_strlit("YGIT_PROXY_PORT");
    reveal_strlit("YGIT_PROXY_USER");
    reveal_strlit("YGIT_PROXY_STRICT");
    reveal_strlit("YGIT_PROXY_PASSWORD");
    assert("GIT_SSH_COMMAND"@[8] == 'C' && "GIT_SSH_COMMAND"@[0] == 'G');
    assert("GIT_SSH_VARIANT"@[8] == 'V' && "GIT_SSH_VARIANT"@[0] == 'G');
    assert("GIT_TERMINAL_PROMPT"@[4] == 'T' && "GIT_TERMINAL_PROMPT"@[0] == 'G');
    assert("GIT_SSH_COMMAND"@[4] == 'S' && "GIT_SSH_VARIANT"@[4] == 'S');
    assert(ENV_HOST@[0] == 'Y' && ENV_HOST@[11] == 'H');
    assert(ENV_PORT@[0] == 'Y' && ENV_PORT@[11] == 'P' && ENV_PORT@[12] == 'O');
    assert(ENV_USER@[0] == 'Y' && ENV_USER@[11] == 'U');
    assert(ENV_STRICT@[0] == 'Y' && ENV_STRICT@[11] == 'S');
    assert(ENV_PASSWORD@[0] == 'Y' && ENV_PASSWORD@[11] == 'P' && ENV_PASSWORD@[12] == 'A');
    let head = seq![
        ("GIT_SSH_COMMAND"@, command),
        ("GIT_SSH_VARIANT"@, "ssh"@),
        ("GIT_TERMINAL_PROMPT"@, "0"@),
    ];
    let none = Seq::<(Seq<char>, Seq<char>)>::empty();
    assert(head + none =~= head);
    reveal_with_fuel(looked_up, 9);
}

/// When `HEAD` resolves nothing is left to do and nothing is noted; when it does not,
/// and the branches cannot be listed or there are none, nothing is checked out and a
/// note says so; and when the checkout fails, the note holds the branch and what git
/// said.
pub proof fn law_checkout_ends(
    said: Seq<char>,
    refs: Seq<char>,
    branch: Seq<char>,
    output: Seq<char>,
)
    ensures
        checkout_next(CheckoutView::Verify, true, said) == CheckoutView::Done(Seq::empty()),
        checkout_next(CheckoutView::Verify, false, said) == CheckoutView::ListRefs,
        checkout_next(CheckoutView::ListRefs, false, refs) == CheckoutView::Done(
            "\nNothing was checked out: the repository has no commits yet.\n"@,
        ),
        branches_of(refs).len() == 0 ==> checkout_next(CheckoutView::ListRefs, true, refs)
            == CheckoutView::Done(
            "\nNothing was checked out: the repository has no commits yet.\n"@,
        ),
        checkout_next(CheckoutView::Branch(branch), false, output) == CheckoutView::Done(
            "\nNothing was checked out and 'git checkout "@ + branch + "' failed: "@ + trimmed(output)
                + "\n"@,
        ),
        checkout_command(CheckoutView::Verify) == Some(
            seq!["rev-parse"@, "--verify"@, "--quiet"@, "HEAD"@],
        ),
        checkout_command(CheckoutView::ListRefs) == Some(
            seq!["for-each-ref"@, "--format=%(refname:lstrip=3)"@, "refs/remotes/origin"@],
        ),
        forall|step: CheckoutView, ok: bool, out: Seq<char>|
            checkout_command(step) is Some ==> steps_left(#[trigger] checkout_next(step, ok, out))
                < steps_left(step),
{
}

} // verus!
