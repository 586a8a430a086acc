//! The worker that serves the requests of the window: which script a request
//! runs on the server, and which events its output becomes.
use vstd::prelude::*;
use crate::create::{create_script, created};
use crate::delete::{delete_script, deletion, is_inside_any, removal};
use crate::detail::{detail, detail_script, inspection, parse_detail};
use crate::error::{concat2, concat3, message, outcome, Error, Fault};
use crate::listing::{
    by_name, is_printable, law_listing_is_by_name, law_scan_is_read_back, list_script, listing,
    read_scan, scan, scan_lines,
};
use crate::ssh::{evt_views, Cmd, CmdView, Evt, EvtView, ListView, RepoView};
use crate::text::{chars_of, decimal, number, printed, text_of, texts, trim, trimmed};

verus! {

/// What a fresh session is asked first; the answer is shown as its banner.
pub const PROBE: &'static str = "uname -a; git --version 2>/dev/null || echo 'git: not found in PATH'";

/// What is logged after a scan when the server has no git.
pub const NOTE_NO_GIT: &'static str = "git was not found on the server, so no commit information                                  could be read (install the Git Server package)";

/// What a request takes.
pub enum Step {
    /// Opening a session.
    Connect,
    /// Closing the session.
    Disconnect,
    /// Running a script on the server.
    Run(String),
    /// Nothing but these events.
    Reply(Vec<Evt>),
}

/// What a request takes, over texts.
pub enum StepView {
    Connect,
    Disconnect,
    Run(Seq<char>),
    Reply(Seq<EvtView>),
}

impl View for Step {
    type V = StepView;

    open spec fn view(&self) -> StepView {
        match self {
            Step::Connect => StepView::Connect,
            Step::Disconnect => StepView::Disconnect,
            Step::Run(script) => StepView::Run(script@),
            Step::Reply(events) => StepView::Reply(evt_views(events@)),
        }
    }
}

/// The script that a request runs, or why it runs none.
pub open spec fn script_of(cmd: CmdView) -> Result<Seq<char>, Fault> {
    match cmd {
        CmdView::ListRepos { roots } => scan(roots),
        CmdView::Detail { path } => Ok(inspection(path)),
        CmdView::Exec { label: _, script } => Ok(script),
        CmdView::CreateRepo { root, name, description, shared } => match created(
            root,
            name,
            description,
            shared,
        ) {
            Ok((_, script)) => Ok(script),
            Err(e) => Err(e),
        },
        CmdView::DeleteRepo { path, roots, whole_tree } => match deletion(path, roots, whole_tree) {
            Ok(target) => Ok(removal(target, whole_tree)),
            Err(e) => Err(e),
        },
        _ => Ok(PROBE@),
    }
}

/// What a failure is introduced with.
pub open spec fn failed_what(cmd: CmdView) -> Seq<char> {
    match cmd {
        CmdView::ListRepos { .. } => "listing failed: "@,
        CmdView::Detail { .. } => "detail failed: "@,
        CmdView::Exec { .. } => "exec failed: "@,
        CmdView::CreateRepo { .. } => "create failed: "@,
        CmdView::DeleteRepo { .. } => "delete failed: "@,
        _ => ""@,
    }
}

/// The events that say that a request failed.
pub open spec fn failure(cmd: CmdView, fault: Fault) -> Seq<EvtView> {
    seq![EvtView::Failed(failed_what(cmd) + message(fault)), EvtView::Busy(false)]
}

/// What a request takes, given whether there is a session.
pub open spec fn planned(cmd: CmdView, connected: bool) -> StepView {
    match cmd {
        CmdView::Connect { .. } => StepView::Connect,
        CmdView::Disconnect => StepView::Disconnect,
        _ => if !connected {
            StepView::Reply(seq![EvtView::Failed("not connected"@), EvtView::Busy(false)])
        } else {
            match script_of(cmd) {
                Ok(script) => StepView::Run(script),
                Err(fault) => StepView::Reply(failure(cmd, fault)),
            }
        },
    }
}

/// The events that tell of a fresh session that answered the probe with `out`.
pub open spec fn greeting(out: Seq<char>) -> Seq<EvtView> {
    seq![EvtView::Connected { banner: trimmed(out) }, EvtView::Busy(false)]
}

/// The events that tell that the session was closed.
pub open spec fn farewell() -> Seq<EvtView> {
    seq![EvtView::Disconnected, EvtView::Busy(false)]
}

/// The events that tell what a script did, given what it printed. A directory that
/// was created or deleted is told by the path that the script was made for: what
/// the script printed may hold remarks of git too.
pub open spec fn success(cmd: CmdView, out: Seq<char>) -> Seq<EvtView> {
    match cmd {
        CmdView::ListRepos { .. } => {
            let list = by_name(listing(out));
            seq![EvtView::Log("found "@ + decimal(list.repos.len()) + " repositories"@)] + (
            if list.no_git {
                seq![EvtView::Log(NOTE_NO_GIT@)]
            } else {
                seq![]
            }) + seq![EvtView::Repos(list), EvtView::Busy(false)]
        },
        CmdView::Detail { path } => seq![EvtView::Detail(path, detail(out)), EvtView::Busy(false)],
        CmdView::Exec { label, script: _ } => seq![
            EvtView::Output { label, text: out },
            EvtView::Busy(false),
        ],
        CmdView::CreateRepo { root, name, description, shared } => match created(
            root,
            name,
            description,
            shared,
        ) {
            Ok((path, _)) => seq![
                EvtView::Log("created "@ + path),
                EvtView::Created { path },
                EvtView::Busy(false),
            ],
            Err(fault) => failure(cmd, fault),
        },
        CmdView::DeleteRepo { path, roots, whole_tree } => match deletion(path, roots, whole_tree) {
            Ok(target) => seq![
                EvtView::Log("deleted "@ + target),
                EvtView::Deleted { path: target },
                EvtView::Busy(false),
            ],
            Err(fault) => failure(cmd, fault),
        },
        CmdView::Connect { .. } => greeting(out),
        CmdView::Disconnect => farewell(),
    }
}

/// The events that tell how a script ended.
pub open spec fn finished(cmd: CmdView, result: Result<Seq<char>, Fault>) -> Seq<EvtView> {
    match result {
        Ok(out) => success(cmd, out),
        Err(fault) => failure(cmd, fault),
    }
}

fn failed_prefix(cmd: &Cmd) -> (r: &'static str)
    ensures
        r@ == failed_what(cmd@),
{
    match cmd {
        Cmd::ListRepos { .. } => "listing failed: ",
        Cmd::Detail { .. } => "detail failed: ",
        Cmd::Exec { .. } => "exec failed: ",
        Cmd::CreateRepo { .. } => "create failed: ",
        Cmd::DeleteRepo { .. } => "delete failed: ",
        _ => "",
    }
}

fn failure_events(cmd: &Cmd, e: &Error) -> (r: Vec<Evt>)
    ensures
        evt_views(r@) == failure(cmd@, e@),
{
    let r: Vec<Evt> = vec![
        Evt::Failed(concat2(failed_prefix(cmd), e.message().as_str())),
        Evt::Busy(false),
    ];
    assert(evt_views(r@) == failure(cmd@, e@));
    r
}

/// The script that a request runs, or why it runs none.
pub fn request_script(cmd: &Cmd) -> (r: Result<String, Error>)
    ensures
        outcome(r) == script_of(cmd@),
{
    match cmd {
        Cmd::ListRepos { roots } => list_script(roots.as_slice()),
        Cmd::Detail { path } => Ok(detail_script(path.as_str())),
        Cmd::Exec { label: _, script } => Ok(script.clone()),
        Cmd::CreateRepo { root, name, description, shared } => match create_script(
            root.as_str(),
            name.as_str(),
            description.as_str(),
            *shared,
        ) {
            Ok((_, script)) => Ok(script),
            Err(e) => Err(e),
        },
        Cmd::DeleteRepo { path, roots, whole_tree } => match delete_script(
            path.as_str(),
            roots.as_slice(),
            *whole_tree,
        ) {
            Ok((_, script)) => Ok(script),
            Err(e) => Err(e),
        },
        _ => Ok(PROBE.to_string()),
    }
}

fn greeting_events(out: &str) -> (r: Vec<Evt>)
    ensures
        evt_views(r@) == greeting(out@),
{
    let chars = chars_of(out);
    let r: Vec<Evt> = vec![
        Evt::Connected { banner: text_of(trim(chars.as_slice())) },
        Evt::Busy(false),
    ];
    assert(evt_views(r@) == greeting(out@));
    r
}

fn farewell_events() -> (r: Vec<Evt>)
    ensures
        evt_views(r@) == farewell(),
{
    let r: Vec<Evt> = vec![Evt::Disconnected, Evt::Busy(false)];
    assert(evt_views(r@) == farewell());
    r
}

fn list_events(out: &str) -> (r: Vec<Evt>)
    ensures
        forall|roots: Seq<Seq<char>>| evt_views(r@) == success(CmdView::ListRepos { roots }, out@),
{
    let list = read_scan(out);
    let ghost view = list@;
    let no_git = list.no_git;
    let count: usize = list.repos.len();
    assert(view.repos.len() == count);
    let mut events: Vec<Evt> = vec![
        Evt::Log(concat3("found ", number(count as u64).as_str(), " repositories")),
    ];
    if no_git {
        events.push(Evt::Log(NOTE_NO_GIT.to_string()));
    }
    events.push(Evt::Repos(list));
    events.push(Evt::Busy(false));
    assert(evt_views(events@) == seq![
        EvtView::Log("found "@ + decimal(view.repos.len()) + " repositories"@),
    ] + (if view.no_git {
        seq![EvtView::Log(NOTE_NO_GIT@)]
    } else {
        seq![]
    }) + seq![EvtView::Repos(view), EvtView::Busy(false)]);
    events
}

fn success_events(cmd: &Cmd, out: &str) -> (r: Vec<Evt>)
    ensures
        evt_views(r@) == success(cmd@, out@),
{
    match cmd {
        Cmd::ListRepos { roots } => {
            assert(cmd@ == (CmdView::ListRepos { roots: texts(roots@) }));
            list_events(out)
        },
        Cmd::Detail { path } => {
            let r: Vec<Evt> = vec![
                Evt::Detail(path.clone(), parse_detail(out)),
                Evt::Busy(false),
            ];
            assert(evt_views(r@) == success(cmd@, out@));
            r
        },
        Cmd::Exec { label, script: _ } => {
            let r: Vec<Evt> = vec![
                Evt::Output { label: label.clone(), text: out.to_string() },
                Evt::Busy(false),
            ];
            assert(evt_views(r@) == success(cmd@, out@));
            r
        },
        Cmd::CreateRepo { root, name, description, shared } => match create_script(
            root.as_str(),
            name.as_str(),
            description.as_str(),
            *shared,
        ) {
            Ok((path, _)) => {
                let r: Vec<Evt> = vec![
                    Evt::Log(concat2("created ", path.as_str())),
                    Evt::Created { path },
                    Evt::Busy(false),
                ];
                assert(evt_views(r@) == success(cmd@, out@));
                r
            },
            Err(e) => failure_events(cmd, &e),
        },
        Cmd::DeleteRepo { path, roots, whole_tree } => match delete_script(
            path.as_str(),
            roots.as_slice(),
            *whole_tree,
        ) {
            Ok((target, _)) => {
                let r: Vec<Evt> = vec![
                    Evt::Log(concat2("deleted ", target.as_str())),
                    Evt::Deleted { path: target },
                    Evt::Busy(false),
                ];
                assert(evt_views(r@) == success(cmd@, out@));
                r
            },
            Err(e) => failure_events(cmd, &e),
        },
        Cmd::Connect { .. } => greeting_events(out),
        Cmd::Disconnect => farewell_events(),
    }
}

/// The worker: whether it holds a session.
pub struct Worker {
    pub connected: bool,
}

impl Worker {
    /// A worker without a session.
    pub fn new() -> (r: Worker)
        ensures
            !r.connected,
    {
        Worker { connected: false }
    }

    /// What is told before a request is looked at: the worker is busy.
    pub fn announce(&self) -> (r: Evt)
        ensures
            r@ == EvtView::Busy(true),
    {
        Evt::Busy(true)
    }

    /// What a request takes.
    pub fn begin(&self, cmd: &Cmd) -> (r: Step)
        ensures
            r@ == planned(cmd@, self.connected),
    {
        match cmd {
            Cmd::Connect { .. } => Step::Connect,
            Cmd::Disconnect => Step::Disconnect,
            _ => {
                if !self.connected {
                    let events: Vec<Evt> = vec![
                        Evt::Failed("not connected".to_string()),
                        Evt::Busy(false),
                    ];
                    assert(evt_views(events@) == seq![
                        EvtView::Failed("not connected"@),
                        EvtView::Busy(false),
                    ]);
                    return Step::Reply(events);
                }
                match request_script(cmd) {
                    Ok(script) => Step::Run(script),
                    Err(e) => Step::Reply(failure_events(cmd, &e)),
                }
            },
        }
    }

    /// The events that tell how the script of a request ended.
    pub fn finish(&self, cmd: &Cmd, result: Result<String, Error>) -> (r: Vec<Evt>)
        ensures
            evt_views(r@) == finished(cmd@, outcome(result)),
    {
        match result {
            Ok(out) => success_events(cmd, out.as_str()),
            Err(e) => failure_events(cmd, &e),
        }
    }

    /// A session was opened, and the probe gave `probe`.
    pub fn session_up(&mut self, probe: Result<String, Error>) -> (r: Vec<Evt>)
        ensures
            final(self).connected,
            evt_views(r@) == greeting(
                match outcome(probe) {
                    Ok(out) => out,
                    Err(fault) => "(probe failed: "@ + message(fault) + ")"@,
                },
            ),
    {
        self.connected = true;
        let banner = match probe {
            Ok(out) => out,
            Err(e) => concat3("(probe failed: ", e.message().as_str(), ")"),
        };
        greeting_events(banner.as_str())
    }

    /// No session could be opened. The worker has none then, whatever it had
    /// before.
    pub fn session_failed(&mut self, e: Error) -> (r: Vec<Evt>)
        ensures
            !final(self).connected,
            evt_views(r@) == seq![EvtView::Failed(message(e@)), EvtView::Busy(false)],
    {
        self.connected = false;
        let r: Vec<Evt> = vec![Evt::Failed(e.message()), Evt::Busy(false)];
        assert(evt_views(r@) == seq![EvtView::Failed(message(e@)), EvtView::Busy(false)]);
        r
    }

    /// The session was closed, if there was one.
    pub fn session_down(&mut self) -> (r: Vec<Evt>)
        ensures
            !final(self).connected,
            evt_views(r@) == farewell(),
    {
        self.connected = false;
        farewell_events()
    }
}

/// Every request is answered: whatever it takes and however it ends, the last
/// event says that the worker is free again, and something was said before that.
pub proof fn law_every_request_is_answered(
    cmd: CmdView,
    connected: bool,
    result: Result<Seq<char>, Fault>,
)
    ensures
        finished(cmd, result).len() >= 2,
        finished(cmd, result).last() == EvtView::Busy(false),
        planned(cmd, connected) matches StepView::Reply(events) ==> events.len() >= 2
            && events.last() == EvtView::Busy(false),
{
}

/// Without a session no script runs: every request but those that open and close
/// the session is answered with `not connected`.
pub proof fn law_nothing_runs_without_a_session(cmd: CmdView)
    requires
        !(cmd is Connect),
        !(cmd is Disconnect),
    ensures
        planned(cmd, false) == StepView::Reply(
            seq![EvtView::Failed("not connected"@), EvtView::Busy(false)],
        ),
{
}

/// A refused deletion runs nothing on the server and is answered with the reason;
/// and a deletion that runs removes a directory inside one of the roots.
pub proof fn law_deletion_runs_only_inside_a_root(
    path: Seq<char>,
    roots: Seq<Seq<char>>,
    whole_tree: bool,
)
    ensures
        ({
            let cmd = CmdView::DeleteRepo { path, roots, whole_tree };
            match deletion(path, roots, whole_tree) {
                Err(fault) => planned(cmd, true) == StepView::Reply(
                    seq![
                        EvtView::Failed("delete failed: "@ + message(fault)),
                        EvtView::Busy(false),
                    ],
                ),
                Ok(target) => planned(cmd, true) == StepView::Run(removal(target, whole_tree))
                    && is_inside_any(target, roots),
            }
        }),
{
}

/// A repository that was created is told by the path that it was created at, and a
/// directory that was deleted by the path that was removed, whatever else the
/// server printed.
pub proof fn law_paths_are_told_without_remarks(
    root: Seq<char>,
    name: Seq<char>,
    description: Seq<char>,
    shared: bool,
    path: Seq<char>,
    roots: Seq<Seq<char>>,
    whole_tree: bool,
    out: Seq<char>,
)
    ensures
        created(root, name, description, shared) matches Ok((p, _)) ==> success(
            CmdView::CreateRepo { root, name, description, shared },
            out,
        ) == seq![
            EvtView::Log("created "@ + p),
            EvtView::Created { path: p },
            EvtView::Busy(false),
        ],
        deletion(path, roots, whole_tree) matches Ok(target) ==> success(
            CmdView::DeleteRepo { path, roots, whole_tree },
            out,
        ) == seq![
            EvtView::Log("deleted "@ + target),
            EvtView::Deleted { path: target },
            EvtView::Busy(false),
        ],
{
}

/// Which script a request runs, with a session: a scan the one that walks its roots,
/// details the one for their path, a command the command itself, and a creation the
/// one that makes the repository.
pub proof fn law_requests_run_their_scripts(
    roots: Seq<Seq<char>>,
    path: Seq<char>,
    label: Seq<char>,
    script: Seq<char>,
    root: Seq<char>,
    name: Seq<char>,
    description: Seq<char>,
    shared: bool,
)
    ensures
        PROBE@ == "uname -a; git --version 2>/dev/null || echo 'git: not found in PATH'"@,
        planned(CmdView::Exec { label, script }, true) == StepView::Run(script),
        planned(CmdView::Detail { path }, true) == StepView::Run(inspection(path)),
        scan(roots) matches Ok(s) ==> planned(CmdView::ListRepos { roots }, true) == StepView::Run(s),
        scan(roots) matches Err(fault) ==> planned(CmdView::ListRepos { roots }, true)
            == StepView::Reply(
            seq![EvtView::Failed("listing failed: "@ + message(fault)), EvtView::Busy(false)],
        ),
        created(root, name, description, shared) matches Ok((_, s)) ==> planned(
            CmdView::CreateRepo { root, name, description, shared },
            true,
        ) == StepView::Run(s),
        created(root, name, description, shared) matches Err(fault) ==> planned(
            CmdView::CreateRepo { root, name, description, shared },
            true,
        ) == StepView::Reply(
            seq![EvtView::Failed("create failed: "@ + message(fault)), EvtView::Busy(false)],
        ),
{
}

/// A scan is answered with the repositories that the server printed, by name; the log
/// says how many there are, and that git is missing exactly if the server said so.
pub proof fn law_scan_is_answered(roots: Seq<Seq<char>>, repos: Seq<RepoView>, no_git: bool)
    requires
        forall|i: int| 0 <= i < repos.len() ==> is_printable(#[trigger] repos[i]),
    ensures
        ({
            let told = success(
                CmdView::ListRepos { roots },
                printed(scan_lines(repos, no_git)),
            );
            let n = told.len();
            &&& n == (if no_git {
                4int
            } else {
                3int
            })
            &&& told[0] == EvtView::Log("found "@ + decimal(repos.len()) + " repositories"@)
            &&& no_git ==> told[1] is Log
            &&& told[n - 2] matches EvtView::Repos(list)
            &&& list.no_git == no_git
            &&& list.repos.len() == repos.len()
            &&& forall|i: int| 0 <= i < repos.len() ==> list.repos.contains(#[trigger] repos[i])
            &&& told[n - 1] == EvtView::Busy(false)
        }),
{
    law_scan_is_read_back(repos, no_git);
    law_listing_is_by_name(ListView { repos, no_git });
}

/// What a command printed is shown as it is, under its label; what was read of a
/// repository is told with its path; and a failure is told with what failed and why.
pub proof fn law_answers_name_what_was_asked(
    label: Seq<char>,
    script: Seq<char>,
    path: Seq<char>,
    out: Seq<char>,
    fault: Fault,
)
    ensures
        finished(CmdView::Exec { label, script }, Ok(out)) == seq![
            EvtView::Output { label, text: out },
            EvtView::Busy(false),
        ],
        finished(CmdView::Detail { path }, Ok(out)) == seq![
            EvtView::Detail(path, detail(out)),
            EvtView::Busy(false),
        ],
        finished(CmdView::Exec { label, script }, Err(fault)) == seq![
            EvtView::Failed("exec failed: "@ + message(fault)),
            EvtView::Busy(false),
        ],
        finished(CmdView::Detail { path }, Err(fault)) == seq![
            EvtView::Failed("detail failed: "@ + message(fault)),
            EvtView::Busy(false),
        ],
        greeting(out) == seq![EvtView::Connected { banner: trimmed(out) }, EvtView::Busy(false)],
        farewell() == seq![EvtView::Disconnected, EvtView::Busy(false)],
{
}

} // verus!
