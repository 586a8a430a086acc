//! The state of the window: what it shows, and what every event and every action
//! of the user does to it.
use vstd::prelude::*;
use crate::config::{clone_texts, AuthKind, Config, ConfigView, ProfileView};
use crate::dialogs::{
    cmd_option, CloneRepo, CloneRepoView, DeleteRepo, DeleteRepoView, NewRepo, NewRepoView,
};
use crate::error::concat2;
use crate::order::{lowercase, lowercased, to_lowercase};
use crate::ssh::{
    repo_views, Cmd, CmdView, DetailView, Evt, EvtView, ListView, Repo, RepoDetail, RepoView,
};
use crate::text::{
    chars_of, contains, decimal, has_part, is_line, join, joined, lemma_lines_joined,
    lemma_nonblank_already, lemma_trimmed_ends, lines, lines_of, nonblank, nonblank_pieces, number,
    occurs_at, same_text, starts_with, text_option, texts, trimmed,
};

verus! {

/// How many lines of the log are kept.
pub const LOG_LINES: usize = 500;

/// The state of the connection, as the window sees it.
#[derive(Debug, Clone, Copy, PartialEq, Eq, Structural)]
pub enum Conn {
    Idle,
    Connecting,
    Up,
}

/// The state of the window.
pub struct App {
    pub cfg: Config,
    pub password: String,
    /// The password of the live session, kept in memory so a clone can
    /// authenticate without asking again. Never written to disk, and dropped
    /// the moment the session ends.
    pub session_password: String,
    pub passphrase: String,
    pub conn: Conn,
    pub busy: bool,
    pub banner: String,
    pub log: Vec<String>,
    pub repos: Vec<Repo>,
    pub filter: String,
    pub selected: Option<usize>,
    pub detail: Option<(String, RepoDetail)>,
    pub output: Option<(String, String)>,
    pub roots_edit: String,
    pub exec_input: String,
    pub new_repo: Option<NewRepo>,
    pub delete_repo: Option<DeleteRepo>,
    pub clone_repo: Option<CloneRepo>,
    /// Set while a local `git clone` is running.
    pub cloning: bool,
    /// Destination folder of the last clone, offered again next time.
    pub last_clone_parent: Option<String>,
    pub no_git: bool,
    pub status: String,
}

/// The state of the window, over texts.
#[verifier::ext_equal]
pub struct AppView {
    pub cfg: ConfigView,
    pub password: Seq<char>,
    pub session_password: Seq<char>,
    pub passphrase: Seq<char>,
    pub conn: Conn,
    pub busy: bool,
    pub banner: Seq<char>,
    pub log: Seq<Seq<char>>,
    pub repos: Seq<RepoView>,
    pub filter: Seq<char>,
    pub selected: Option<usize>,
    pub detail: Option<(Seq<char>, DetailView)>,
    pub output: Option<(Seq<char>, Seq<char>)>,
    pub roots_edit: Seq<char>,
    pub exec_input: Seq<char>,
    pub new_repo: Option<NewRepoView>,
    pub delete_repo: Option<DeleteRepoView>,
    pub clone_repo: Option<CloneRepoView>,
    pub cloning: bool,
    pub last_clone_parent: Option<Seq<char>>,
    pub no_git: bool,
    pub status: Seq<char>,
}

impl View for App {
    type V = AppView;

    open spec fn view(&self) -> AppView {
        AppView {
            cfg: self.cfg@,
            password: self.password@,
            session_password: self.session_password@,
            passphrase: self.passphrase@,
            conn: self.conn,
            busy: self.busy,
            banner: self.banner@,
            log: texts(self.log@),
            repos: repo_views(self.repos@),
            filter: self.filter@,
            selected: self.selected,
            detail: match self.detail {
                Some((path, d)) => Some((path@, d@)),
                None => None,
            },
            output: match self.output {
                Some((label, text)) => Some((label@, text@)),
                None => None,
            },
            roots_edit: self.roots_edit@,
            exec_input: self.exec_input@,
            new_repo: match self.new_repo {
                Some(dialog) => Some(dialog@),
                None => None,
            },
            delete_repo: match self.delete_repo {
                Some(dialog) => Some(dialog@),
                None => None,
            },
            clone_repo: match self.clone_repo {
                Some(dialog) => Some(dialog@),
                None => None,
            },
            cloning: self.cloning,
            last_clone_parent: text_option(self.last_clone_parent),
            no_git: self.no_git,
            status: self.status@,
        }
    }
}

/// The lines of a log that are kept: the last ones.
pub open spec fn kept(log: Seq<Seq<char>>) -> Seq<Seq<char>> {
    if log.len() > LOG_LINES {
        log.skip(log.len() - LOG_LINES)
    } else {
        log
    }
}

/// The roots written in the editor, one on each line.
pub open spec fn roots_of(text: Seq<char>) -> Seq<Seq<char>> {
    nonblank(lines_of(text))
}

/// Roots as the editor shows them.
pub open spec fn editor_text(roots: Seq<Seq<char>>) -> Seq<char> {
    joined(roots, "\n"@)
}

/// Roots survive the editor: what it shows of a profile's roots is read back as
/// the same roots. Each root is a text of one line that is not blank and has no
/// white space around it.
pub proof fn law_roots_survive_the_editor(roots: Seq<Seq<char>>)
    requires
        forall|i: int|
            0 <= i < roots.len() ==> (#[trigger] roots[i]).len() > 0 && trimmed(roots[i])
                == roots[i] && !roots[i].contains('\n'),
    ensures
        roots_of(editor_text(roots)) == roots,
{
    reveal_strlit("\n");
    assert("\n"@ == seq!['\n']);
    assert forall|i: int| 0 <= i < roots.len() implies is_line(#[trigger] roots[i]) by {
        lemma_trimmed_ends(roots[i]);
    }
    lemma_lines_joined(roots);
    lemma_nonblank_already(roots);
}

impl AppView {
    /// With one more line in the log.
    pub open spec fn logged(self, line: Seq<char>) -> AppView {
        AppView { log: kept(self.log.push(line)), ..self }
    }

    /// With the roots of the editor in the profile.
    pub open spec fn synced(self) -> AppView {
        let profile = ProfileView { repo_roots: roots_of(self.roots_edit), ..self.cfg.current() };
        AppView { cfg: self.cfg.with_current(profile), ..self }
    }

    /// After a rescan was asked for.
    pub open spec fn scanning(self) -> AppView {
        AppView { status: "scanning..."@, ..self.synced() }
    }

    /// The request that a rescan sends.
    pub open spec fn rescan(self) -> CmdView {
        CmdView::ListRepos { roots: self.synced().cfg.current().repo_roots }
    }

    /// With the roots of the selected profile in the editor.
    pub open spec fn showing_roots(self) -> AppView {
        AppView { roots_edit: editor_text(self.cfg.current().repo_roots), ..self }
    }

    /// After an event. Some events make the window rescan.
    pub open spec fn after(self, evt: EvtView) -> (AppView, Option<CmdView>) {
        match evt {
            EvtView::Log(line) => (self.logged(line), None),
            EvtView::Busy(busy) => (AppView { busy, ..self }, None),
            EvtView::Connected { banner } => {
                let up = AppView {
                    conn: Conn::Up,
                    banner,
                    session_password: self.password,
                    password: Seq::empty(),
                    passphrase: Seq::empty(),
                    ..self.logged("connected"@)
                };
                (up.scanning(), Some(up.rescan()))
            },
            EvtView::Disconnected => (
                AppView {
                    conn: Conn::Idle,
                    banner: Seq::empty(),
                    repos: Seq::empty(),
                    selected: None,
                    detail: None,
                    session_password: Seq::empty(),
                    status: "disconnected"@,
                    ..self.logged("disconnected"@)
                },
                None,
            ),
            EvtView::Failed(why) => (
                AppView {
                    conn: if self.conn == Conn::Connecting {
                        Conn::Idle
                    } else {
                        self.conn
                    },
                    status: "error: "@ + why,
                    ..self.logged("ERROR "@ + why)
                },
                None,
            ),
            EvtView::Repos(list) => (
                AppView {
                    status: decimal(list.repos.len()) + if list.no_git {
                        " repositories (git missing on server)"@
                    } else {
                        " repositories"@
                    },
                    no_git: list.no_git,
                    repos: list.repos,
                    selected: None,
                    detail: None,
                    ..self
                },
                None,
            ),
            EvtView::Created { path: _ } => {
                let done = AppView { new_repo: None, ..self };
                (done.scanning(), Some(done.rescan()))
            },
            EvtView::Deleted { path: _ } => {
                let done = AppView { delete_repo: None, ..self };
                (done.scanning(), Some(done.rescan()))
            },
            EvtView::Cloned { dest } => (
                AppView {
                    cloning: false,
                    clone_repo: None,
                    status: "cloned into "@ + dest,
                    ..self
                },
                None,
            ),
            EvtView::CloneFailed(why) => (
                AppView {
                    cloning: false,
                    status: "clone failed: "@ + why,
                    clone_repo: match self.clone_repo {
                        Some(dialog) => Some(CloneRepoView { error: why, ..dialog }),
                        None => None,
                    },
                    ..self.logged("ERROR "@ + why)
                },
                None,
            ),
            EvtView::Detail(path, d) => (
                AppView {
                    clone_repo: match self.clone_repo {
                        Some(dialog) if dialog.path == path => Some(
                            CloneRepoView { branches: d.branches, ..dialog },
                        ),
                        _ => self.clone_repo,
                    },
                    detail: Some((path, d)),
                    ..self
                },
                None,
            ),
            EvtView::Output { label, text } => (
                AppView { output: Some((label, text)), ..self.logged(label + " done"@) },
                None,
            ),
        }
    }

    /// What always holds of the window: there is a profile, and the selected one is
    /// among them; the log is bounded; the selected repository is in the list; and
    /// a session password is held only while the session is up.
    pub open spec fn inv(self) -> bool {
        &&& self.cfg.valid()
        &&& self.log.len() <= LOG_LINES
        &&& self.selected matches Some(i) ==> i < self.repos.len()
        &&& self.session_password.len() > 0 ==> self.conn == Conn::Up
    }
}

/// Every event keeps what always holds: among it, that the password of a session
/// is dropped when the session ends.
pub proof fn law_events_keep_the_invariant(app: AppView, evt: EvtView)
    requires
        app.inv(),
    ensures
        app.after(evt).0.inv(),
{
}

/// Once the session has ended no password is left in the window; and a new
/// session takes the one that was typed, which is then no longer in its field.
pub proof fn law_password_lives_with_the_session(app: AppView, banner: Seq<char>)
    ensures
        app.after(EvtView::Disconnected).0.session_password.len() == 0,
        ({
            let up = app.after(EvtView::Connected { banner }).0;
            up.session_password == app.password && up.password.len() == 0 && up.passphrase.len()
                == 0
        }),
{
}

impl App {
    /// The window as it opens on a configuration.
    pub fn new(cfg: Config) -> (r: App)
        requires
            cfg@.profiles.len() > 0,
        ensures
            r@.cfg == cfg@,
            r@.roots_edit == editor_text(cfg@.current().repo_roots),
            r@.status == "not connected"@,
            r@.conn == Conn::Idle,
            r@.password.len() == 0,
            r@.session_password.len() == 0,
            r@.passphrase.len() == 0,
            r@.banner.len() == 0,
            r@.filter.len() == 0,
            r@.exec_input.len() == 0,
            r@.log.len() == 0,
            r@.repos.len() == 0,
            r@.selected is None,
            r@.detail is None,
            r@.output is None,
            r@.new_repo is None,
            r@.delete_repo is None,
            r@.clone_repo is None,
            r@.last_clone_parent is None,
            !r@.busy,
            !r@.cloning,
            !r@.no_git,
            cfg@.valid() ==> r@.inv(),
    {
        let roots_edit = join(cfg.current().repo_roots.as_slice(), "\n");
        App {
            cfg,
            password: String::new(),
            session_password: String::new(),
            passphrase: String::new(),
            conn: Conn::Idle,
            busy: false,
            banner: String::new(),
            log: Vec::new(),
            repos: Vec::new(),
            filter: String::new(),
            selected: None,
            detail: None,
            output: None,
            roots_edit,
            exec_input: String::new(),
            new_repo: None,
            delete_repo: None,
            clone_repo: None,
            cloning: false,
            last_clone_parent: None,
            no_git: false,
            status: "not connected".to_string(),
        }
    }

    /// Adds a line to the log. The oldest lines go when there are too many.
    pub fn push_log(&mut self, line: String)
        ensures
            final(self)@ == old(self)@.logged(line@),
    {
        let ghost grown = self@.log.push(line@);
        self.log.push(line);
        assert(texts(self.log@) == grown);
        let ghost mut gone: int = 0;
        assert(grown.skip(0) == grown);
        while self.log.len() > LOG_LINES
            invariant
                0 <= gone <= grown.len(),
                texts(self.log@) == grown.skip(gone),
                gone > 0 ==> self.log@.len() >= LOG_LINES,
                gone + self.log@.len() == grown.len(),
                *self == (App { log: self.log, ..*old(self) }),
            decreases self.log@.len(),
        {
            let ghost before = texts(self.log@);
            let _ = self.log.remove(0);
            proof {
                assert(texts(self.log@) == before.skip(1));
                gone = gone + 1;
                assert(before.skip(1) == grown.skip(gone));
            }
        }
    }

    /// Takes the roots of the editor over into the profile.
    pub fn sync_roots(&mut self)
        requires
            old(self)@.cfg.profiles.len() > 0,
        ensures
            final(self)@ == old(self)@.synced(),
    {
        let chars = chars_of(self.roots_edit.as_str());
        let all = lines(chars.as_slice());
        let roots = nonblank_pieces(all.as_slice());
        let profile = self.cfg.current_mut();
        profile.repo_roots = roots;
    }

    /// Asks for a rescan.
    pub fn refresh_repos(&mut self) -> (r: Cmd)
        requires
            old(self)@.cfg.profiles.len() > 0,
        ensures
            final(self)@ == old(self)@.scanning(),
            r@ == old(self)@.rescan(),
    {
        self.sync_roots();
        self.status = "scanning...".to_string();
        Cmd::ListRepos { roots: clone_texts(self.cfg.current().repo_roots.as_slice()) }
    }

    /// Takes in an event, and says what is to be asked of the worker.
    pub fn on_event(&mut self, evt: Evt) -> (r: Option<Cmd>)
        requires
            old(self)@.cfg.profiles.len() > 0,
        ensures
            (final(self)@, cmd_option(r)) == old(self)@.after(evt@),
            old(self)@.inv() ==> final(self)@.inv(),
    {
        match evt {
            Evt::Log(line) => {
                self.push_log(line);
                None
            },
            Evt::Busy(busy) => {
                self.busy = busy;
                None
            },
            Evt::Connected { banner } => {
                self.conn = Conn::Up;
                self.banner = banner;
                self.push_log("connected".to_string());
                self.session_password = self.password.clone();
                self.password = String::new();
                self.passphrase = String::new();
                Some(self.refresh_repos())
            },
            Evt::Disconnected => {
                self.conn = Conn::Idle;
                self.banner = String::new();
                self.repos = Vec::new();
                self.selected = None;
                self.detail = None;
                self.session_password = String::new();
                self.status = "disconnected".to_string();
                self.push_log("disconnected".to_string());
                assert(self@.repos == Seq::<RepoView>::empty());
                None
            },
            Evt::Failed(why) => {
                if self.conn == Conn::Connecting {
                    self.conn = Conn::Idle;
                }
                self.status = concat2("error: ", why.as_str());
                self.push_log(concat2("ERROR ", why.as_str()));
                None
            },
            Evt::Repos(list) => {
                let count = number(list.repos.len() as u64);
                self.status = concat2(
                    count.as_str(),
                    if list.no_git {
                        " repositories (git missing on server)"
                    } else {
                        " repositories"
                    },
                );
                self.no_git = list.no_git;
                self.repos = list.repos;
                self.selected = None;
                self.detail = None;
                None
            },
            Evt::Created { path: _ } => {
                self.new_repo = None;
                Some(self.refresh_repos())
            },
            Evt::Deleted { path: _ } => {
                self.delete_repo = None;
                Some(self.refresh_repos())
            },
            Evt::Cloned { dest } => {
                self.cloning = false;
                self.clone_repo = None;
                self.status = concat2("cloned into ", dest.as_str());
                None
            },
            Evt::CloneFailed(why) => {
                self.cloning = false;
                self.status = concat2("clone failed: ", why.as_str());
                self.push_log(concat2("ERROR ", why.as_str()));
                match self.clone_repo.take() {
                    Some(dialog) => {
                        self.clone_repo = Some(CloneRepo { error: why, ..dialog });
                    },
                    None => {},
                }
                None
            },
            Evt::Detail(path, d) => {
                match self.clone_repo.take() {
                    Some(dialog) => {
                        if same_text(dialog.path.as_str(), path.as_str()) {
                            let branches = clone_texts(d.branches.as_slice());
                            self.clone_repo = Some(CloneRepo { branches, ..dialog });
                        } else {
                            self.clone_repo = Some(dialog);
                        }
                    },
                    None => {},
                }
                self.detail = Some((path, d));
                None
            },
            Evt::Output { label, text } => {
                self.push_log(concat2(label.as_str(), " done"));
                self.output = Some((label, text));
                None
            },
        }
    }
}

/// Row `i` of a list is shown: the filter is empty, or stands in the name, the path
/// or the description. All texts are in lower case.
pub open spec fn row_shown(
    filter: Seq<char>,
    names: Seq<Seq<char>>,
    paths: Seq<Seq<char>>,
    descriptions: Seq<Seq<char>>,
    i: int,
) -> bool {
    ||| filter.len() == 0
    ||| has_part(names[i], filter)
    ||| has_part(paths[i], filter)
    ||| has_part(descriptions[i], filter)
}

/// `rows` are the rows that are shown, in their order.
pub open spec fn are_shown(
    rows: Seq<usize>,
    filter: Seq<char>,
    names: Seq<Seq<char>>,
    paths: Seq<Seq<char>>,
    descriptions: Seq<Seq<char>>,
) -> bool {
    &&& forall|a: int, b: int| 0 <= a < b < rows.len() ==> rows[a] < rows[b]
    &&& forall|i: usize|
        rows.contains(i) <==> i < names.len() && #[trigger] row_shown(
            filter,
            names,
            paths,
            descriptions,
            i as int,
        )
}

/// The rows that the filter lets through. All texts are in lower case.
pub fn shown_rows(
    filter: &str,
    names: &[String],
    paths: &[String],
    descriptions: &[String],
) -> (r: Vec<usize>)
    requires
        names@.len() == paths@.len() == descriptions@.len(),
    ensures
        are_shown(r@, filter@, texts(names@), texts(paths@), texts(descriptions@)),
{
    let wanted = chars_of(filter);
    let mut r: Vec<usize> = Vec::new();
    let n: usize = names.len();
    for i in 0..n
        invariant
            n == names@.len() == paths@.len() == descriptions@.len(),
            wanted@ == filter@,
            forall|a: int, b: int| 0 <= a < b < r@.len() ==> r@[a] < r@[b],
            forall|k: int| 0 <= k < r@.len() ==> r@[k] < i,
            forall|j: usize|
                r@.contains(j) <==> j < i && #[trigger] row_shown(
                    filter@,
                    texts(names@),
                    texts(paths@),
                    texts(descriptions@),
                    j as int,
                ),
    {
        let name = chars_of(names[i].as_str());
        let path = chars_of(paths[i].as_str());
        let description = chars_of(descriptions[i].as_str());
        let shown = wanted.len() == 0 || contains(name.as_slice(), wanted.as_slice()) || contains(
            path.as_slice(),
            wanted.as_slice(),
        ) || contains(description.as_slice(), wanted.as_slice());
        assert(shown == row_shown(
            filter@,
            texts(names@),
            texts(paths@),
            texts(descriptions@),
            i as int,
        ));
        if shown {
            let ghost before = r@;
            r.push(i);
            assert forall|j: usize| r@.contains(j) <==> before.contains(j) || j == i by {
                if before.contains(j) {
                    let k = choose|k: int| 0 <= k < before.len() && before[k] == j;
                    assert(r@[k] == j);
                }
                if j == i {
                    assert(r@[before.len() as int] == j);
                }
            }
        }
    }
    r
}

/// The names of repositories.
pub open spec fn names_of(repos: Seq<RepoView>) -> Seq<Seq<char>> {
    repos.map_values(|r: RepoView| r.name)
}

/// The paths of repositories.
pub open spec fn paths_of(repos: Seq<RepoView>) -> Seq<Seq<char>> {
    repos.map_values(|r: RepoView| r.path)
}

/// The descriptions of repositories.
pub open spec fn descriptions_of(repos: Seq<RepoView>) -> Seq<Seq<char>> {
    repos.map_values(|r: RepoView| r.description)
}

/// An empty filter hides nothing.
pub proof fn law_empty_filter_shows_everything(
    rows: Seq<usize>,
    names: Seq<Seq<char>>,
    paths: Seq<Seq<char>>,
    descriptions: Seq<Seq<char>>,
)
    requires
        are_shown(rows, Seq::empty(), names, paths, descriptions),
        names.len() <= usize::MAX,
    ensures
        rows.len() == names.len(),
        forall|i: int| 0 <= i < rows.len() ==> rows[i] == i,
{
    assert forall|i: int| 0 <= i < rows.len() implies i <= #[trigger] rows[i] < names.len() by {
        lemma_increasing(rows, i);
        assert(rows.contains(rows[i]));
        assert(row_shown(Seq::empty(), names, paths, descriptions, rows[i] as int));
    }
    assert forall|i: int| 0 <= i < names.len() implies i < rows.len() && #[trigger] rows[i]
        == i by {
        lemma_all_there(rows, names, paths, descriptions, i);
    }
    if rows.len() > names.len() {
        assert(names.len() <= rows[names.len() as int]);
    }
    if names.len() > 0 {
        assert(rows[names.len() - 1] == names.len() - 1);
    }
}

proof fn lemma_increasing(rows: Seq<usize>, i: int)
    requires
        forall|a: int, b: int| 0 <= a < b < rows.len() ==> rows[a] < rows[b],
        0 <= i < rows.len(),
    ensures
        i <= rows[i],
    decreases i,
{
    if i > 0 {
        lemma_increasing(rows, i - 1);
        assert(rows[i - 1] < rows[i]);
    }
}

proof fn lemma_all_there(
    rows: Seq<usize>,
    names: Seq<Seq<char>>,
    paths: Seq<Seq<char>>,
    descriptions: Seq<Seq<char>>,
    i: int,
)
    requires
        are_shown(rows, Seq::empty(), names, paths, descriptions),
        0 <= i < names.len() <= usize::MAX,
    ensures
        i < rows.len(),
        rows[i] == i,
    decreases i,
{
    if i > 0 {
        lemma_all_there(rows, names, paths, descriptions, i - 1);
    }
    assert(row_shown(Seq::empty(), names, paths, descriptions, i as usize as int));
    assert(rows.contains(i as usize));
    let k = choose|k: int| 0 <= k < rows.len() && rows[k] == i as usize;
    lemma_increasing(rows, k);
    assert(k <= i);
    if k < i {
        lemma_all_there(rows, names, paths, descriptions, k);
    }
}

/// `at` is the first repository with this path, if there is one.
pub open spec fn is_position(repos: Seq<RepoView>, path: Seq<char>, at: Option<usize>) -> bool {
    match at {
        Some(i) => i < repos.len() && repos[i as int].path == path && forall|j: int|
            0 <= j < i ==> (#[trigger] repos[j]).path != path,
        None => forall|j: int| 0 <= j < repos.len() ==> (#[trigger] repos[j]).path != path,
    }
}

impl App {
    /// The repositories that the filter lets through, without regard to case.
    pub fn visible_repos(&self) -> (r: Vec<usize>)
        ensures
            are_shown(
                r@,
                lowercase(self@.filter),
                lowercased(names_of(self@.repos)),
                lowercased(paths_of(self@.repos)),
                lowercased(descriptions_of(self@.repos)),
            ),
            self@.filter.len() == 0 ==> r@.len() == self@.repos.len() && forall|i: int|
                0 <= i < r@.len() ==> r@[i] == i,
    {
        let filter = to_lowercase(self.filter.as_str());
        let mut names: Vec<String> = Vec::new();
        let mut paths: Vec<String> = Vec::new();
        let mut descriptions: Vec<String> = Vec::new();
        let n: usize = self.repos.len();
        for i in 0..n
            invariant
                n == self.repos@.len(),
                names@.len() == paths@.len() == descriptions@.len() == i,
                forall|j: int|
                    0 <= j < i ==> (#[trigger] names@[j])@ == lowercase(self.repos@[j].name@),
                forall|j: int|
                    0 <= j < i ==> (#[trigger] paths@[j])@ == lowercase(self.repos@[j].path@),
                forall|j: int|
                    0 <= j < i ==> (#[trigger] descriptions@[j])@ == lowercase(
                        self.repos@[j].description@,
                    ),
        {
            names.push(to_lowercase(self.repos[i].name.as_str()));
            paths.push(to_lowercase(self.repos[i].path.as_str()));
            descriptions.push(to_lowercase(self.repos[i].description.as_str()));
        }
        assert(texts(names@) == lowercased(names_of(self@.repos)));
        assert(texts(paths@) == lowercased(paths_of(self@.repos)));
        assert(texts(descriptions@) == lowercased(descriptions_of(self@.repos)));
        let r = shown_rows(
            filter.as_str(),
            names.as_slice(),
            paths.as_slice(),
            descriptions.as_slice(),
        );
        proof {
            if self@.filter.len() == 0 {
                assert(filter@ == Seq::<char>::empty());
                law_empty_filter_shows_everything(
                    r@,
                    texts(names@),
                    texts(paths@),
                    texts(descriptions@),
                );
            }
        }
        r
    }

    /// The profile can be edited: there is no session, and none is being opened.
    pub fn editable(&self) -> (r: bool)
        ensures
            r == (self@.conn == Conn::Idle),
    {
        self.conn == Conn::Idle
    }

    /// There is a session, so the server can be asked for things.
    pub fn connected(&self) -> (r: bool)
        ensures
            r == (self@.conn == Conn::Up),
    {
        self.conn == Conn::Up
    }

    /// The profile in use logs in with a password.
    pub fn password_auth(&self) -> (r: bool)
        requires
            self@.cfg.profiles.len() > 0,
        ensures
            r == (self@.cfg.current().auth == AuthKind::Password),
    {
        self.cfg.current().auth == AuthKind::Password
    }

    /// A session password is held.
    pub fn have_password(&self) -> (r: bool)
        ensures
            r == (self@.session_password.len() > 0),
    {
        !self.session_password.as_str().is_empty()
    }

    fn position(&self, path: &str) -> (r: Option<usize>)
        ensures
            is_position(self@.repos, path@, r),
    {
        let n: usize = self.repos.len();
        for i in 0..n
            invariant
                n == self.repos@.len(),
                forall|j: int| 0 <= j < i ==> (#[trigger] self@.repos[j]).path != path@,
        {
            assert(self@.repos[i as int].path == self.repos@[i as int].path@);
            if same_text(self.repos[i].path.as_str(), path) {
                return Some(i);
            }
        }
        None
    }

    /// Selects the repository at `path` and asks for its details.
    pub fn show_detail(&mut self, path: String) -> (r: Cmd)
        ensures
            final(self)@ == (AppView { selected: final(self)@.selected, ..old(self)@ }),
            is_position(old(self)@.repos, path@, final(self)@.selected),
            r@ == (CmdView::Detail { path: path@ }),
            old(self)@.inv() ==> final(self)@.inv(),
    {
        self.selected = self.position(path.as_str());
        Cmd::Detail { path }
    }
}

/// The log holds the last lines, at most five hundred: the line that was logged is the
/// last one, and the lines before it are as they were, with the oldest gone when there
/// are too many.
pub proof fn law_log_keeps_the_last_lines(app: AppView, line: Seq<char>)
    requires
        app.log.len() <= 500,
    ensures
        ({
            let log = app.logged(line).log;
            &&& log.last() == line
            &&& log.len() == (if app.log.len() < 500 {
                app.log.len() + 1
            } else {
                500
            })
            &&& app.log.len() < 500 ==> log.drop_last() == app.log
            &&& app.log.len() == 500 ==> log.drop_last() == app.log.skip(1)
            &&& app.logged(line) == (AppView { log, ..app })
            &&& app.after(EvtView::Log(line)) == (app.logged(line), None::<CmdView>)
        }),
{
    let all = app.log.push(line);
    if app.log.len() < 500 {
        assert(all.drop_last() =~= app.log);
    } else {
        assert(all.skip(1).drop_last() =~= app.log.skip(1));
    }
}

/// A rescan asks for the roots that stand in the editor, one on each line, and these
/// are then the roots of the profile in use.
pub proof fn law_rescan_asks_for_the_roots_in_the_editor(app: AppView, roots: Seq<Seq<char>>)
    requires
        app.cfg.valid(),
        forall|i: int|
            0 <= i < roots.len() ==> (#[trigger] roots[i]).len() > 0 && trimmed(roots[i])
                == roots[i] && !roots[i].contains('\n'),
        app.roots_edit == joined(roots, "\n"@),
    ensures
        app.rescan() == (CmdView::ListRepos { roots }),
        app.synced().cfg.current().repo_roots == roots,
        app.synced().cfg.current() == (ProfileView { repo_roots: roots, ..app.cfg.current() }),
        app.synced().cfg.selected == app.cfg.selected,
        app.scanning().cfg == app.synced().cfg,
        app.synced().roots_edit == app.roots_edit,
{
    law_roots_survive_the_editor(roots);
}

/// The connection follows the events: it is up once the session is, down when the
/// session has ended, and down again when it could not be opened; a request that fails
/// while the session is up leaves it up.
pub proof fn law_connection_follows_the_events(app: AppView, banner: Seq<char>, why: Seq<char>)
    ensures
        ({
            let up = app.after(EvtView::Connected { banner }).0;
            &&& up.conn == Conn::Up
            &&& up.banner == banner
            &&& app.after(EvtView::Connected { banner }).1 is Some
        }),
        ({
            let down = app.after(EvtView::Disconnected).0;
            &&& down.conn == Conn::Idle
            &&& down.repos.len() == 0
            &&& down.selected is None
            &&& down.detail is None
            &&& down.banner.len() == 0
            &&& app.after(EvtView::Disconnected).1 is None
        }),
        ({
            let failed = app.after(EvtView::Failed(why)).0;
            &&& failed.conn == (if app.conn == Conn::Connecting {
                Conn::Idle
            } else {
                app.conn
            })
            &&& failed.status == "error: "@ + why
            &&& failed.log == kept(app.log.push("ERROR "@ + why))
            &&& failed.repos == app.repos
            &&& failed.session_password == app.session_password
            &&& app.after(EvtView::Failed(why)).1 is None
        }),
        forall|busy: bool|
            (#[trigger] app.after(EvtView::Busy(busy))).0 == (AppView { busy, ..app }),
{
}

/// A listing that arrives is shown as it is, with nothing selected; the status starts
/// with how many repositories there are.
pub proof fn law_listing_is_shown(app: AppView, list: ListView)
    ensures
        ({
            let (shown, cmd) = app.after(EvtView::Repos(list));
            &&& shown.repos == list.repos
            &&& shown.no_git == list.no_git
            &&& shown.selected is None
            &&& shown.detail is None
            &&& cmd is None
            &&& shown.conn == app.conn
            &&& shown.cfg == app.cfg
            &&& starts_with(shown.status, decimal(list.repos.len()) + " repositories"@)
            &&& !list.no_git ==> shown.status == decimal(list.repos.len()) + " repositories"@
            &&& list.no_git ==> shown.status != decimal(list.repos.len()) + " repositories"@
        }),
{
    reveal_strlit(" repositories");
    reveal_strlit(" repositories (git missing on server)");
    let n = decimal(list.repos.len());
    let shown = app.after(EvtView::Repos(list)).0;
    let k = (n + " repositories"@).len() as int;
    assert(" repositories (git missing on server)"@.take(13) =~= " repositories"@);
    assert(shown.status.take(k) =~= n + " repositories"@);
    assert(list.no_git ==> shown.status.len() > k);
}

/// A repository that was created or deleted closes its dialog, and the list is asked
/// for again; other dialogs stay.
pub proof fn law_list_is_asked_for_again(app: AppView, path: Seq<char>)
    ensures
        ({
            let (done, cmd) = app.after(EvtView::Created { path });
            &&& done.new_repo is None
            &&& done.delete_repo == app.delete_repo
            &&& done.clone_repo == app.clone_repo
            &&& cmd == Some(app.rescan())
        }),
        ({
            let (done, cmd) = app.after(EvtView::Deleted { path });
            &&& done.delete_repo is None
            &&& done.new_repo == app.new_repo
            &&& done.clone_repo == app.clone_repo
            &&& cmd == Some(app.rescan())
        }),
{
}

/// A clone that has ended is no longer running: one that worked closes the dialog, and
/// one that failed leaves it open, with the reason in it.
pub proof fn law_clone_ends(app: AppView, dest: Seq<char>, why: Seq<char>)
    ensures
        ({
            let done = app.after(EvtView::Cloned { dest }).0;
            &&& !done.cloning
            &&& done.clone_repo is None
            &&& done.status == "cloned into "@ + dest
        }),
        ({
            let failed = app.after(EvtView::CloneFailed(why)).0;
            &&& !failed.cloning
            &&& failed.clone_repo is Some <==> app.clone_repo is Some
            &&& app.clone_repo matches Some(dialog) ==> failed.clone_repo == Some(
                CloneRepoView { error: why, ..dialog },
            )
            &&& failed.status == "clone failed: "@ + why
        }),
{
}

/// Details that arrive are shown, and the branches in them are offered by the dialog
/// for cloning that repository, and by no other.
pub proof fn law_details_are_shown(app: AppView, path: Seq<char>, d: DetailView)
    ensures
        ({
            let shown = app.after(EvtView::Detail(path, d)).0;
            &&& shown.detail == Some((path, d))
            &&& app.clone_repo matches Some(dialog) ==> {
                &&& dialog.path == path ==> shown.clone_repo == Some(
                    CloneRepoView { branches: d.branches, ..dialog },
                )
                &&& dialog.path != path ==> shown.clone_repo == app.clone_repo
            }
            &&& app.clone_repo is None ==> shown.clone_repo is None
            &&& shown.repos == app.repos
        }),
        forall|label: Seq<char>, text: Seq<char>|
            (#[trigger] app.after(EvtView::Output { label, text })).0.output == Some((label, text)),
{
}

/// A row is shown by its name, by its path or by its description, wherever in it the
/// filter stands; and a longer filter shows no more than its parts do.
pub proof fn law_filter(
    a: Seq<char>,
    filter: Seq<char>,
    b: Seq<char>,
    names: Seq<Seq<char>>,
    paths: Seq<Seq<char>>,
    descriptions: Seq<Seq<char>>,
    i: int,
)
    ensures
        names[i] == a + filter + b || paths[i] == a + filter + b || descriptions[i] == a + filter + b
            ==> row_shown(filter, names, paths, descriptions, i),
        row_shown(a + filter + b, names, paths, descriptions, i) ==> row_shown(
            filter,
            names,
            paths,
            descriptions,
            i,
        ),
        filter.len() > names[i].len() && filter.len() > paths[i].len() && filter.len()
            > descriptions[i].len() ==> !row_shown(filter, names, paths, descriptions, i),
{
    let whole = a + filter + b;
    assert(whole.subrange(a.len() as int, (a.len() + filter.len()) as int) =~= filter);
    assert(occurs_at(whole, filter, a.len() as int));
    lemma_part_of_part(names[i], a, filter, b);
    lemma_part_of_part(paths[i], a, filter, b);
    lemma_part_of_part(descriptions[i], a, filter, b);
}

proof fn lemma_part_of_part(s: Seq<char>, a: Seq<char>, part: Seq<char>, b: Seq<char>)
    ensures
        has_part(s, a + part + b) ==> has_part(s, part),
{
    if has_part(s, a + part + b) {
        let whole = a + part + b;
        let at = choose|at: int| occurs_at(s, whole, at);
        let k = at + a.len();
        assert(s.subrange(k, k + part.len()) =~= part) by {
            assert forall|j: int| 0 <= j < part.len() implies s.subrange(k, k + part.len())[j]
                == part[j] by {
                assert(s.subrange(at, at + whole.len())[a.len() + j] == whole[a.len() + j]);
            }
        }
        assert(occurs_at(s, part, k));
    }
}

/// When another profile is chosen the editor shows its roots, and reading the editor
/// gives them back.
pub proof fn law_editor_shows_the_roots_of_the_profile(app: AppView)
    requires
        forall|i: int|
            0 <= i < app.cfg.current().repo_roots.len() ==> (#[trigger] app.cfg.current().repo_roots[i]).len()
                > 0 && trimmed(app.cfg.current().repo_roots[i]) == app.cfg.current().repo_roots[i]
                && !app.cfg.current().repo_roots[i].contains('\n'),
    ensures
        roots_of(app.showing_roots().roots_edit) == app.cfg.current().repo_roots,
        app.showing_roots().cfg == app.cfg,
{
    law_roots_survive_the_editor(app.cfg.current().repo_roots);
}

} // verus!
