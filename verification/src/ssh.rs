//! What the server is asked, and what it answers.
use vstd::prelude::*;
use crate::config::{clone_texts, Profile, ProfileView};
use crate::quote::{
    between, holding, is_word_for, lemma_plain_is_word, lemma_shell_read_concat, shell_read, shell_words,
};
use crate::text::texts;

verus! {

/// How many commits a detail query fetches.
pub const LOG_LIMIT: usize = 50;

/// Field separator used inside git --format strings (ASCII unit separator,
/// written as `%x1f`), so subjects containing tabs or pipes stay intact.
pub const SEP: char = '\x1f';

/// Locates git and defines the `rgit` helper used by the remote scripts.
///
/// DSM does not put every git on the PATH of a non-interactive shell, so the
/// well-known package locations are probed too. `safe.directory` is relaxed
/// because repositories on a NAS are normally owned by another user, which
/// modern git otherwise refuses to read ("detected dubious ownership").
pub const GIT_PREAMBLE: &'static str = "GIT=$(command -v git 2>/dev/null)
if [ -z \"$GIT\" ]; then
  for c in /usr/bin/git /usr/local/bin/git /opt/bin/git \\
           /volume1/@appstore/Git/bin/git /var/packages/Git/target/bin/git; do
    if [ -x \"$c\" ]; then GIT=$c; break; fi
  done
fi
rgit() { d=$1; shift; \"$GIT\" -c safe.directory='*' --git-dir=\"$d\" \"$@\"; }
";

/// The tip commit of a repository, as shown in the repository list.
#[derive(Debug)]
pub struct CommitBrief {
    pub hash: String,
    pub when: String,
    pub subject: String,
}

/// A tip commit, over texts.
pub struct BriefView {
    pub hash: Seq<char>,
    pub when: Seq<char>,
    pub subject: Seq<char>,
}

impl View for CommitBrief {
    type V = BriefView;

    open spec fn view(&self) -> BriefView {
        BriefView { hash: self.hash@, when: self.when@, subject: self.subject@ }
    }
}

impl Clone for CommitBrief {
    fn clone(&self) -> (r: Self)
        ensures
            r@ == self@,
    {
        CommitBrief {
            hash: self.hash.clone(),
            when: self.when.clone(),
            subject: self.subject.clone(),
        }
    }
}

/// The text of an optional tip commit.
pub open spec fn brief_option(b: Option<CommitBrief>) -> Option<BriefView> {
    match b {
        Some(c) => Some(c@),
        None => None,
    }
}

/// One entry of a repository's history.
#[derive(Debug)]
pub struct Commit {
    pub hash: String,
    pub author: String,
    pub date: String,
    pub when: String,
    pub subject: String,
}

/// An entry of a history, over texts.
pub struct CommitView {
    pub hash: Seq<char>,
    pub author: Seq<char>,
    pub date: Seq<char>,
    pub when: Seq<char>,
    pub subject: Seq<char>,
}

impl View for Commit {
    type V = CommitView;

    open spec fn view(&self) -> CommitView {
        CommitView {
            hash: self.hash@,
            author: self.author@,
            date: self.date@,
            when: self.when@,
            subject: self.subject@,
        }
    }
}

impl Clone for Commit {
    fn clone(&self) -> (r: Self)
        ensures
            r@ == self@,
    {
        Commit {
            hash: self.hash.clone(),
            author: self.author.clone(),
            date: self.date.clone(),
            when: self.when.clone(),
            subject: self.subject.clone(),
        }
    }
}

/// The commits of a list, over texts.
pub open spec fn commit_views(list: Seq<Commit>) -> Seq<CommitView> {
    list.map_values(|c: Commit| c@)
}

/// A git repository discovered on the server.
#[derive(Debug)]
pub struct Repo {
    pub path: String,
    pub name: String,
    pub description: String,
    pub bare: bool,
    pub last: Option<CommitBrief>,
}

/// A repository, over texts.
pub struct RepoView {
    pub path: Seq<char>,
    pub name: Seq<char>,
    pub description: Seq<char>,
    pub bare: bool,
    pub last: Option<BriefView>,
}

impl View for Repo {
    type V = RepoView;

    open spec fn view(&self) -> RepoView {
        RepoView {
            path: self.path@,
            name: self.name@,
            description: self.description@,
            bare: self.bare,
            last: brief_option(self.last),
        }
    }
}

impl Clone for Repo {
    fn clone(&self) -> (r: Self)
        ensures
            r@ == self@,
    {
        Repo {
            path: self.path.clone(),
            name: self.name.clone(),
            description: self.description.clone(),
            bare: self.bare,
            last: match &self.last {
                Some(b) => Some(b.clone()),
                None => None,
            },
        }
    }
}

/// The repositories of a list, over texts.
pub open spec fn repo_views(list: Seq<Repo>) -> Seq<RepoView> {
    list.map_values(|r: Repo| r@)
}

/// Outcome of a repository scan.
#[derive(Debug)]
pub struct RepoList {
    pub repos: Vec<Repo>,
    /// Set when git could not be located on the server at all.
    pub no_git: bool,
}

/// Outcome of a scan, over texts.
pub struct ListView {
    pub repos: Seq<RepoView>,
    pub no_git: bool,
}

impl View for RepoList {
    type V = ListView;

    open spec fn view(&self) -> ListView {
        ListView { repos: repo_views(self.repos@), no_git: self.no_git }
    }
}

impl Clone for RepoList {
    fn clone(&self) -> (r: Self)
        ensures
            r@ == self@,
    {
        let mut repos: Vec<Repo> = Vec::new();
        let n: usize = self.repos.len();
        for i in 0..n
            invariant
                n == self.repos@.len(),
                repos@.len() == i,
                forall|j: int| 0 <= j < i ==> (#[trigger] repos@[j])@ == self.repos@[j]@,
        {
            repos.push(self.repos[i].clone());
        }
        assert(repo_views(repos@) == repo_views(self.repos@));
        RepoList { repos, no_git: self.no_git }
    }
}

impl Default for RepoList {
    fn default() -> (r: Self)
        ensures
            r@ == (ListView { repos: Seq::empty(), no_git: false }),
    {
        let r = RepoList { repos: Vec::new(), no_git: false };
        assert(repo_views(r.repos@) == Seq::<RepoView>::empty());
        r
    }
}

/// What a detail query tells of a repository.
#[derive(Debug)]
pub struct RepoDetail {
    pub commits: Vec<Commit>,
    pub branches: Vec<String>,
    pub size: String,
    pub head: String,
    pub truncated: bool,
    /// Why the log is empty, when git itself complained.
    pub error: String,
    /// `git --version` on the server, or the reason git could not be found.
    pub git: String,
}

/// What a detail query tells, over texts.
pub struct DetailView {
    pub commits: Seq<CommitView>,
    pub branches: Seq<Seq<char>>,
    pub size: Seq<char>,
    pub head: Seq<char>,
    pub truncated: bool,
    pub error: Seq<char>,
    pub git: Seq<char>,
}

impl View for RepoDetail {
    type V = DetailView;

    open spec fn view(&self) -> DetailView {
        DetailView {
            commits: commit_views(self.commits@),
            branches: texts(self.branches@),
            size: self.size@,
            head: self.head@,
            truncated: self.truncated,
            error: self.error@,
            git: self.git@,
        }
    }
}

impl Clone for RepoDetail {
    fn clone(&self) -> (r: Self)
        ensures
            r@ == self@,
    {
        let mut commits: Vec<Commit> = Vec::new();
        let n: usize = self.commits.len();
        for i in 0..n
            invariant
                n == self.commits@.len(),
                commits@.len() == i,
                forall|j: int| 0 <= j < i ==> (#[trigger] commits@[j])@ == self.commits@[j]@,
        {
            commits.push(self.commits[i].clone());
        }
        assert(commit_views(commits@) == commit_views(self.commits@));
        RepoDetail {
            commits,
            branches: clone_texts(self.branches.as_slice()),
            size: self.size.clone(),
            head: self.head.clone(),
            truncated: self.truncated,
            error: self.error.clone(),
            git: self.git.clone(),
        }
    }
}

/// A detail query that told nothing.
pub open spec fn no_detail() -> DetailView {
    DetailView {
        commits: Seq::empty(),
        branches: Seq::empty(),
        size: Seq::empty(),
        head: Seq::empty(),
        truncated: false,
        error: Seq::empty(),
        git: Seq::empty(),
    }
}

impl Default for RepoDetail {
    fn default() -> (r: Self)
        ensures
            r@ == no_detail(),
    {
        let r = RepoDetail {
            commits: Vec::new(),
            branches: Vec::new(),
            size: String::new(),
            head: String::new(),
            truncated: false,
            error: String::new(),
            git: String::new(),
        };
        assert(commit_views(r.commits@) == Seq::<CommitView>::empty());
        assert(texts(r.branches@) == Seq::<Seq<char>>::empty());
        r
    }
}

/// Requests sent from the UI thread to the SSH worker.
#[derive(Debug)]
pub enum Cmd {
    Connect { profile: Profile, password: String, passphrase: String },
    ListRepos { roots: Vec<String> },
    Detail { path: String },
    Exec { label: String, script: String },
    CreateRepo { root: String, name: String, description: String, shared: bool },
    DeleteRepo {
        /// The repository directory as reported by the scan.
        path: String,
        /// Roots the path must live under; the server refuses anything else.
        roots: Vec<String>,
        /// For a working copy, delete the whole project directory instead of
        /// just its `.git`.
        whole_tree: bool,
    },
    Disconnect,
}

/// A request, over texts.
pub enum CmdView {
    Connect { profile: ProfileView, password: Seq<char>, passphrase: Seq<char> },
    ListRepos { roots: Seq<Seq<char>> },
    Detail { path: Seq<char> },
    Exec { label: Seq<char>, script: Seq<char> },
    CreateRepo { root: Seq<char>, name: Seq<char>, description: Seq<char>, shared: bool },
    DeleteRepo { path: Seq<char>, roots: Seq<Seq<char>>, whole_tree: bool },
    Disconnect,
}

impl View for Cmd {
    type V = CmdView;

    open spec fn view(&self) -> CmdView {
        match self {
            Cmd::Connect { profile, password, passphrase } => CmdView::Connect {
                profile: profile@,
                password: password@,
                passphrase: passphrase@,
            },
            Cmd::ListRepos { roots } => CmdView::ListRepos { roots: texts(roots@) },
            Cmd::Detail { path } => CmdView::Detail { path: path@ },
            Cmd::Exec { label, script } => CmdView::Exec { label: label@, script: script@ },
            Cmd::CreateRepo { root, name, description, shared } => CmdView::CreateRepo {
                root: root@,
                name: name@,
                description: description@,
                shared: *shared,
            },
            Cmd::DeleteRepo { path, roots, whole_tree } => CmdView::DeleteRepo {
                path: path@,
                roots: texts(roots@),
                whole_tree: *whole_tree,
            },
            Cmd::Disconnect => CmdView::Disconnect,
        }
    }
}

/// Events sent from the SSH worker back to the UI thread.
#[derive(Debug)]
pub enum Evt {
    Log(String),
    Connected { banner: String },
    Disconnected,
    Failed(String),
    Repos(RepoList),
    Detail(String, RepoDetail),
    Output { label: String, text: String },
    Created { path: String },
    Deleted { path: String },
    /// A local `git clone` finished; `dest` is the directory it wrote.
    Cloned { dest: String },
    /// A local `git clone` failed.
    CloneFailed(String),
    Busy(bool),
}

/// An event, over texts.
pub enum EvtView {
    Log(Seq<char>),
    Connected { banner: Seq<char> },
    Disconnected,
    Failed(Seq<char>),
    Repos(ListView),
    Detail(Seq<char>, DetailView),
    Output { label: Seq<char>, text: Seq<char> },
    Created { path: Seq<char> },
    Deleted { path: Seq<char> },
    Cloned { dest: Seq<char> },
    CloneFailed(Seq<char>),
    Busy(bool),
}

impl View for Evt {
    type V = EvtView;

    open spec fn view(&self) -> EvtView {
        match self {
            Evt::Log(line) => EvtView::Log(line@),
            Evt::Connected { banner } => EvtView::Connected { banner: banner@ },
            Evt::Disconnected => EvtView::Disconnected,
            Evt::Failed(why) => EvtView::Failed(why@),
            Evt::Repos(list) => EvtView::Repos(list@),
            Evt::Detail(path, detail) => EvtView::Detail(path@, detail@),
            Evt::Output { label, text } => EvtView::Output { label: label@, text: text@ },
            Evt::Created { path } => EvtView::Created { path: path@ },
            Evt::Deleted { path } => EvtView::Deleted { path: path@ },
            Evt::Cloned { dest } => EvtView::Cloned { dest: dest@ },
            Evt::CloneFailed(why) => EvtView::CloneFailed(why@),
            Evt::Busy(busy) => EvtView::Busy(*busy),
        }
    }
}

/// The events of a list, over texts.
pub open spec fn evt_views(list: Seq<Evt>) -> Seq<EvtView> {
    list.map_values(|e: Evt| e@)
}

/// Where git is looked for and how it is called. First git is taken from the path; only
/// if it is not there, the places where packages put it are tried in turn, and the
/// first that can be executed counts. It is then called on the repository that comes
/// first, with the other arguments behind, and whoever owns the repository.
pub proof fn law_git_is_looked_for()
    ensures
        exists|places: Seq<char>| #[trigger]
            shell_words(places) == Some(
                seq![
                    "/usr/bin/git"@,
                    "/usr/local/bin/git"@,
                    "/opt/bin/git"@,
                    "/volume1/@appstore/Git/bin/git"@,
                    "/var/packages/Git/target/bin/git"@,
                ],
            ) && GIT_PREAMBLE@
                == "GIT=$(command -v git 2>/dev/null)\nif [ -z \"$GIT\" ]; then\n  for c in "@
                    + places
                + "; do\n    if [ -x \"$c\" ]; then GIT=$c; break; fi\n  done\nfi\nrgit() { d=$1; shift; \"$GIT\" -c safe.directory='*' --git-dir=\"$d\" \"$@\"; }\n"@,
{
    lemma_places();
    lemma_preamble_parts();
    let places = "/usr/bin/git /usr/local/bin/git /opt/bin/git \\\n           /volume1/@appstore/Git/bin/git /var/packages/Git/target/bin/git"@;
    assert(shell_words(places) is Some);
}

#[verifier::spinoff_prover]
#[verifier::rlimit(100)]
proof fn lemma_preamble_parts()
    ensures
        GIT_PREAMBLE@
            == "GIT=$(command -v git 2>/dev/null)\nif [ -z \"$GIT\" ]; then\n  for c in "@
            + "/usr/bin/git /usr/local/bin/git /opt/bin/git \\\n           /volume1/@appstore/Git/bin/git /var/packages/Git/target/bin/git"@
            + "; do\n    if [ -x \"$c\" ]; then GIT=$c; break; fi\n  done\nfi\nrgit() { d=$1; shift; \"$GIT\" -c safe.directory='*' --git-dir=\"$d\" \"$@\"; }\n"@,
{
    reveal_strlit("GIT=$(command -v git 2>/dev/null)\nif [ -z \"$GIT\" ]; then\n  for c in ");
    reveal_strlit("/usr/bin/git /usr/local/bin/git /opt/bin/git \\\n           /volume1/@appstore/Git/bin/git /var/packages/Git/target/bin/git");
    reveal_strlit("; do\n    if [ -x \"$c\" ]; then GIT=$c; break; fi\n  done\nfi\nrgit() { d=$1; shift; \"$GIT\" -c safe.directory='*' --git-dir=\"$d\" \"$@\"; }\n");
    reveal_strlit("GIT=$(command -v git 2>/dev/null)\nif [ -z \"$GIT\" ]; then\n  for c in /usr/bin/git /usr/local/bin/git /opt/bin/git \\\n           /volume1/@appstore/Git/bin/git /var/packages/Git/target/bin/git; do\n    if [ -x \"$c\" ]; then GIT=$c; break; fi\n  done\nfi\nrgit() { d=$1; shift; \"$GIT\" -c safe.directory='*' --git-dir=\"$d\" \"$@\"; }\n");
    assert("GIT=$(command -v git 2>/dev/null)\nif [ -z \"$GIT\" ]; then\n  for c in /usr/bin/git /usr/local/bin/git /opt/bin/git \\\n           /volume1/@appstore/Git/bin/git /var/packages/Git/target/bin/git; do\n    if [ -x \"$c\" ]; then GIT=$c; break; fi\n  done\nfi\nrgit() { d=$1; shift; \"$GIT\" -c safe.directory='*' --git-dir=\"$d\" \"$@\"; }\n"@ =~= "GIT=$(command -v git 2>/dev/null)\nif [ -z \"$GIT\" ]; then\n  for c in "@
        + "/usr/bin/git /usr/local/bin/git /opt/bin/git \\\n           /volume1/@appstore/Git/bin/git /var/packages/Git/target/bin/git"@
        + "; do\n    if [ -x \"$c\" ]; then GIT=$c; break; fi\n  done\nfi\nrgit() { d=$1; shift; \"$GIT\" -c safe.directory='*' --git-dir=\"$d\" \"$@\"; }\n"@);
}

/// The shell makes five words of the places where git may be, also over the end of a
/// line.
proof fn lemma_places()
    ensures
        shell_words(
            "/usr/bin/git /usr/local/bin/git /opt/bin/git \\\n           /volume1/@appstore/Git/bin/git /var/packages/Git/target/bin/git"@,
        ) == Some(
            seq![
                "/usr/bin/git"@,
                "/usr/local/bin/git"@,
                "/opt/bin/git"@,
                "/volume1/@appstore/Git/bin/git"@,
                "/var/packages/Git/target/bin/git"@,
            ],
        ),
{
    assert(is_word_for("/usr/bin/git"@, "/usr/bin/git"@)) by {
        reveal_strlit("/usr/bin/git");
        lemma_plain_is_word("/usr/bin/git"@);
    }
    assert(is_word_for("/usr/local/bin/git"@, "/usr/local/bin/git"@)) by {
        reveal_strlit("/usr/local/bin/git");
        lemma_plain_is_word("/usr/local/bin/git"@);
    }
    assert(is_word_for("/opt/bin/git"@, "/opt/bin/git"@)) by {
        reveal_strlit("/opt/bin/git");
        lemma_plain_is_word("/opt/bin/git"@);
    }
    assert(is_word_for("/volume1/@appstore/Git/bin/git"@, "/volume1/@appstore/Git/bin/git"@)) by {
        reveal_strlit("/volume1/@appstore/Git/bin/git");
        lemma_plain_is_word("/volume1/@appstore/Git/bin/git"@);
    }
    assert(is_word_for("/var/packages/Git/target/bin/git"@, "/var/packages/Git/target/bin/git"@)) by {
        reveal_strlit("/var/packages/Git/target/bin/git");
        lemma_plain_is_word("/var/packages/Git/target/bin/git"@);
    }
    lemma_folded_words(
        "/usr/bin/git"@,
        "/usr/local/bin/git"@,
        "/opt/bin/git"@,
        "/volume1/@appstore/Git/bin/git"@,
        "/var/packages/Git/target/bin/git"@,
    );
    lemma_places_parts();
}

/// The places, word by word.
#[verifier::spinoff_prover]
#[verifier::rlimit(60)]
proof fn lemma_places_parts()
    ensures
        "/usr/bin/git /usr/local/bin/git /opt/bin/git \\\n           /volume1/@appstore/Git/bin/git /var/packages/Git/target/bin/git"@
            == folded(
            "/usr/bin/git"@,
            "/usr/local/bin/git"@,
            "/opt/bin/git"@,
            "/volume1/@appstore/Git/bin/git"@,
            "/var/packages/Git/target/bin/git"@,
        ),
{
    reveal_strlit("/usr/bin/git");
    reveal_strlit("/usr/local/bin/git");
    reveal_strlit("/opt/bin/git");
    reveal_strlit("/volume1/@appstore/Git/bin/git");
    reveal_strlit("/var/packages/Git/target/bin/git");
    reveal_strlit("/usr/bin/git /usr/local/bin/git /opt/bin/git \\\n           /volume1/@appstore/Git/bin/git /var/packages/Git/target/bin/git");
    assert("/usr/bin/git /usr/local/bin/git /opt/bin/git \\\n           /volume1/@appstore/Git/bin/git /var/packages/Git/target/bin/git"@ =~= folded(
        "/usr/bin/git"@,
        "/usr/local/bin/git"@,
        "/opt/bin/git"@,
        "/volume1/@appstore/Git/bin/git"@,
        "/var/packages/Git/target/bin/git"@,
    ));
}

/// Five words, the last two on a line of their own.
spec fn folded(
    w0: Seq<char>,
    w1: Seq<char>,
    w2: Seq<char>,
    w3: Seq<char>,
    w4: Seq<char>,
) -> Seq<char> {
    w0 + seq![' '] + w1 + seq![' '] + w2 + seq![' '] + fold() + w3 + seq![' '] + w4
}

/// The end of a line that goes on, and the white space before what follows.
spec fn fold() -> Seq<char> {
    seq!['\\', '\n', ' ', ' ', ' ', ' ', ' ', ' ', ' ', ' ', ' ', ' ', ' ']
}

/// The end of a line that goes on only parts words.
proof fn lemma_fold(words: Seq<Seq<char>>)
    ensures
        shell_read(Some(between(words)), fold()) == Some(between(words)),
{
    let f = fold();
    reveal_with_fuel(shell_read, 14);
}

proof fn lemma_folded_words(
    w0: Seq<char>,
    w1: Seq<char>,
    w2: Seq<char>,
    w3: Seq<char>,
    w4: Seq<char>,
)
    requires
        is_word_for(w0, w0),
        is_word_for(w1, w1),
        is_word_for(w2, w2),
        is_word_for(w3, w3),
        is_word_for(w4, w4),
    ensures
        shell_words(folded(w0, w1, w2, w3, w4)) == Some(seq![w0, w1, w2, w3, w4]),
{
    let none = Seq::<Seq<char>>::empty();
    let start = Some(between(none));
    let blank = seq![' '];
    let l0 = seq![w0];
    let l1 = seq![w0, w1];
    let l2 = seq![w0, w1, w2];
    let l3 = seq![w0, w1, w2, w3];
    let p0 = w0 + blank;
    let p1 = p0 + w1 + blank;
    let p2 = p1 + w2 + blank;
    let p3 = p2 + fold();
    let p4 = p3 + w3 + blank;
    lemma_word_and_blank(Seq::empty(), none, w0);
    assert(Seq::<char>::empty() + w0 + blank =~= p0);
    assert(none.push(w0) =~= l0);
    lemma_word_and_blank(p0, l0, w1);
    assert(l0.push(w1) =~= l1);
    lemma_word_and_blank(p1, l1, w2);
    assert(l1.push(w2) =~= l2);
    lemma_shell_read_concat(start, p2, fold());
    lemma_fold(l2);
    lemma_word_and_blank(p3, l2, w3);
    assert(l2.push(w3) =~= l3);
    lemma_shell_read_concat(start, p4, w4);
    assert(shell_read(Some(between(l3)), w4) == Some(holding(l3, w4)));
    assert(l3.push(w4) =~= seq![w0, w1, w2, w3, w4]);
}

/// One more word and the blank behind it.
proof fn lemma_word_and_blank(before: Seq<char>, words: Seq<Seq<char>>, word: Seq<char>)
    requires
        shell_read(Some(between(Seq::empty())), before) == Some(between(words)),
        is_word_for(word, word),
    ensures
        shell_read(Some(between(Seq::empty())), before + word + seq![' ']) == Some(
            between(words.push(word)),
        ),
{
    let start = Some(between(Seq::empty()));
    lemma_shell_read_concat(start, before, word);
    assert(shell_read(Some(between(words)), word) == Some(holding(words, word)));
    lemma_shell_read_concat(start, before + word, seq![' ']);
    lemma_read_blank(words, word);
}

/// A blank ends a word.
proof fn lemma_read_blank(words: Seq<Seq<char>>, word: Seq<char>)
    ensures
        shell_read(Some(holding(words, word)), seq![' ']) == Some(between(words.push(word))),
{
    assert(seq![' '].drop_last() =~= Seq::empty());
    assert(shell_read(Some(holding(words, word)), seq![' '].drop_last()) == Some(
        holding(words, word),
    ));
}

} // verus!
