//! What the user can do in the window, and what is asked of the worker for it.
use vstd::prelude::*;
use crate::clone::{clone_folder, lands_in};
use crate::config::{clone_texts, ConfigView};
use crate::create::repo_name;
use crate::delete::deletion;
use crate::dialogs::{
    cmd_option, fresh_clone_repo, fresh_delete_repo, fresh_new_repo, CloneJob, CloneJobView,
    CloneRepo, CloneRepoView, DeleteRepo, DeleteRepoView, NewRepo, NewRepoView,
};
use crate::error::{concat2, concat3, message, outcome, Error, Fault};
use crate::ssh::{Cmd, CmdView, DetailView};
use crate::state::{App, AppView, Conn};
use crate::terminal::{clone_name, url_of};
use crate::text::{chars_of, ends_with, is_blank, join, same_text, text_of, trim, trimmed};

verus! {

/// What came of saving: `Err` holds the reason why it failed.
pub open spec fn saved_view(saved: Result<(), String>) -> Result<(), Seq<char>> {
    match saved {
        Ok(_) => Ok(()),
        Err(why) => Err(why@),
    }
}

/// What a clone is started with, if it is.
pub open spec fn job_option(job: Option<CloneJob>) -> Option<CloneJobView> {
    match job {
        Some(j) => Some(j@),
        None => None,
    }
}

impl AppView {
    /// After a connection was asked for; `saved` is what came of saving the
    /// configuration before that.
    pub open spec fn connecting(self, saved: Result<(), Seq<char>>) -> AppView {
        let told = match saved {
            Ok(_) => self,
            Err(why) => self.logged("could not save config: "@ + why),
        };
        AppView { conn: Conn::Connecting, status: "connecting..."@, ..told }
    }

    /// After the configuration was to be saved in the file `path`.
    pub open spec fn saved(self, path: Seq<char>, saved: Result<(), Seq<char>>) -> AppView {
        match saved {
            Ok(_) => self.logged("saved "@ + path),
            Err(why) => self.logged("save failed: "@ + why),
        }
    }

    /// After a terminal was to be opened: `Ok` holds what was launched.
    pub open spec fn launched(self, result: Result<Seq<char>, Fault>) -> AppView {
        match result {
            Ok(line) => self.logged("launched: "@ + line),
            Err(fault) => AppView {
                status: "terminal: "@ + message(fault),
                ..self.logged("ERROR "@ + message(fault))
            },
        }
    }

    /// After the dialog for a new repository was submitted.
    pub open spec fn creating(self) -> (AppView, Option<CmdView>) {
        match self.new_repo {
            None => (self, None),
            Some(dialog) => {
                let (after, cmd) = dialog.submitted();
                let shown = AppView { new_repo: Some(after), ..self };
                match cmd {
                    Some(c) => (AppView { status: "creating repository..."@, ..shown }, Some(c)),
                    None => (shown, None),
                }
            },
        }
    }

    /// After the confirmation of a deletion was submitted.
    pub open spec fn deleting(self) -> (AppView, Option<CmdView>) {
        match self.delete_repo {
            None => (self, None),
            Some(dialog) => {
                let (after, sent) = dialog.submitted(self.cfg.current().repo_roots);
                let shown = AppView { delete_repo: Some(after), ..self };
                match sent {
                    Some((target, cmd)) => (
                        AppView {
                            status: "deleting "@ + target + "..."@,
                            ..shown.logged("deleting "@ + target)
                        },
                        Some(cmd),
                    ),
                    None => (shown, None),
                }
            },
        }
    }

    /// The branches of the repository at `path`, when its details are open.
    pub open spec fn known_branches(self, path: Seq<char>) -> Option<Seq<Seq<char>>> {
        match self.detail {
            Some((p, d)) if p == path => Some(d.branches),
            _ => None,
        }
    }

    /// After the dialog for cloning the repository at `path` was opened. The
    /// branches are asked for unless they are already here.
    pub open spec fn opening_clone(self, path: Seq<char>) -> (AppView, Option<CmdView>) {
        let dialog = fresh_clone_repo(self.cfg.current(), path, self.last_clone_parent);
        match self.known_branches(path) {
            Some(branches) => (
                AppView { clone_repo: Some(CloneRepoView { branches, ..dialog }), ..self },
                None,
            ),
            None => (
                AppView { clone_repo: Some(dialog), ..self },
                Some(CmdView::Detail { path }),
            ),
        }
    }

    /// After the dialog for a clone was submitted, when `target` is the directory
    /// that the clone goes into, or why it cannot start. While another clone is
    /// running nothing happens.
    pub open spec fn starting_clone(self, target: Result<Seq<char>, Fault>) -> (
        AppView,
        Option<CloneJobView>,
    ) {
        match self.clone_repo {
            Some(dialog) if !self.cloning => match target {
                Ok(dest) => (
                    AppView {
                        clone_repo: Some(CloneRepoView { error: Seq::empty(), ..dialog }),
                        last_clone_parent: Some(dialog.parent),
                        cloning: true,
                        status: "cloning into "@ + dest + "..."@,
                        ..self.logged(dialog.start_line(dest))
                    },
                    Some(dialog.job()),
                ),
                Err(fault) => (
                    AppView {
                        clone_repo: Some(CloneRepoView { error: message(fault), ..dialog }),
                        ..self
                    },
                    None,
                ),
            },
            _ => (self, None),
        }
    }

    /// After the command in the bottom bar was run; a blank one is not.
    pub open spec fn running(self) -> (AppView, Option<CmdView>) {
        let script = trimmed(self.exec_input);
        if script.len() == 0 {
            (self, None)
        } else {
            (self.logged("$ "@ + script), Some(CmdView::Exec { label: script, script }))
        }
    }
}

impl App {
    /// Asks for a connection with the profile in use. The roots were taken over
    /// from the editor and the configuration was to be saved before; `saved` says
    /// what came of that.
    pub fn connect(&mut self, saved: Result<(), String>) -> (r: Cmd)
        requires
            old(self)@.cfg.profiles.len() > 0,
        ensures
            final(self)@ == old(self)@.connecting(saved_view(saved)),
            r@ == (CmdView::Connect {
                profile: old(self)@.cfg.current(),
                password: old(self)@.password,
                passphrase: old(self)@.passphrase,
            }),
            old(self)@.inv() && old(self)@.conn == Conn::Idle ==> final(self)@.inv(),
    {
        match saved {
            Ok(_) => {},
            Err(why) => self.push_log(concat2("could not save config: ", why.as_str())),
        }
        self.conn = Conn::Connecting;
        self.status = "connecting...".to_string();
        Cmd::Connect {
            profile: self.cfg.current().clone(),
            password: self.password.clone(),
            passphrase: self.passphrase.clone(),
        }
    }

    /// Logs what came of saving the configuration in the file `path`.
    pub fn on_saved(&mut self, path: &str, saved: Result<(), String>)
        ensures
            final(self)@ == old(self)@.saved(path@, saved_view(saved)),
            old(self)@.inv() ==> final(self)@.inv(),
    {
        match saved {
            Ok(_) => self.push_log(concat2("saved ", path)),
            Err(why) => self.push_log(concat2("save failed: ", why.as_str())),
        }
    }

    /// Tells what came of opening a terminal.
    pub fn on_terminal(&mut self, result: Result<String, Error>)
        ensures
            final(self)@ == old(self)@.launched(outcome(result)),
            old(self)@.inv() ==> final(self)@.inv(),
    {
        match result {
            Ok(line) => self.push_log(concat2("launched: ", line.as_str())),
            Err(e) => {
                let text = e.message();
                self.status = concat2("terminal: ", text.as_str());
                self.push_log(concat2("ERROR ", text.as_str()));
            },
        }
    }

    /// Logs that a clone URL was copied.
    pub fn on_copied(&mut self, url: &str)
        ensures
            final(self)@ == old(self)@.logged("copied "@ + url@),
            old(self)@.inv() ==> final(self)@.inv(),
    {
        self.push_log(concat2("copied ", url));
    }

    fn show_roots(&mut self)
        requires
            old(self)@.cfg.profiles.len() > 0,
        ensures
            final(self)@ == old(self)@.showing_roots(),
    {
        self.roots_edit = join(self.cfg.current().repo_roots.as_slice(), "\n");
    }

    /// Selects another profile, and shows its roots in the editor.
    pub fn select_profile(&mut self, index: usize)
        requires
            index < old(self)@.cfg.profiles.len(),
        ensures
            final(self)@ == (AppView {
                cfg: ConfigView { selected: index as int, ..old(self)@.cfg },
                ..old(self)@
            }).showing_roots(),
            old(self)@.inv() ==> final(self)@.inv(),
    {
        self.cfg.selected = index;
        self.show_roots();
    }

    /// Adds a profile, selects it, and shows its roots in the editor.
    pub fn add_profile(&mut self)
        requires
            old(self)@.cfg.profiles.len() < usize::MAX,
        ensures
            final(self)@ == (AppView {
                cfg: old(self)@.cfg.with_new_profile(),
                ..old(self)@
            }).showing_roots(),
            old(self)@.inv() ==> final(self)@.inv(),
    {
        self.cfg.add_profile();
        self.show_roots();
    }

    /// Removes the selected profile and shows the roots of the one that is selected
    /// then. The only profile stays.
    pub fn remove_profile(&mut self)
        requires
            old(self)@.cfg.valid(),
        ensures
            final(self)@ == if old(self)@.cfg.profiles.len() > 1 {
                (AppView { cfg: old(self)@.cfg.without_selected(), ..old(self)@ }).showing_roots()
            } else {
                old(self)@
            },
            old(self)@.inv() ==> final(self)@.inv(),
    {
        if self.cfg.profiles.len() > 1 {
            self.cfg.remove_profile();
            self.show_roots();
        }
    }

    /// Opens the dialog for a new repository.
    pub fn open_new_repo(&mut self)
        requires
            old(self)@.cfg.profiles.len() > 0,
        ensures
            final(self)@ == (AppView {
                new_repo: Some(fresh_new_repo(old(self)@.cfg.current().repo_roots)),
                ..old(self)@
            }),
            old(self)@.inv() ==> final(self)@.inv(),
    {
        self.new_repo = Some(NewRepo::new(self.cfg.current().repo_roots.as_slice()));
    }

    /// Submits the dialog for a new repository.
    pub fn submit_new_repo(&mut self) -> (r: Option<Cmd>)
        ensures
            (final(self)@, cmd_option(r)) == old(self)@.creating(),
            old(self)@.inv() ==> final(self)@.inv(),
    {
        match self.new_repo.take() {
            None => None,
            Some(dialog) => {
                let mut dialog = dialog;
                let cmd = dialog.submit();
                self.new_repo = Some(dialog);
                if cmd.is_some() {
                    self.status = "creating repository...".to_string();
                }
                cmd
            },
        }
    }

    /// Opens the confirmation for deleting a repository of the list.
    pub fn open_delete(&mut self, index: usize)
        requires
            index < old(self)@.repos.len(),
        ensures
            final(self)@ == (AppView {
                delete_repo: Some(fresh_delete_repo(old(self)@.repos[index as int])),
                ..old(self)@
            }),
            old(self)@.inv() ==> final(self)@.inv(),
    {
        self.delete_repo = Some(DeleteRepo::new(&self.repos[index]));
    }

    /// Submits the confirmation of a deletion.
    pub fn submit_delete(&mut self) -> (r: Option<Cmd>)
        requires
            old(self)@.cfg.profiles.len() > 0,
        ensures
            (final(self)@, cmd_option(r)) == old(self)@.deleting(),
            old(self)@.inv() ==> final(self)@.inv(),
    {
        match self.delete_repo.take() {
            None => None,
            Some(dialog) => {
                let mut dialog = dialog;
                let roots = clone_texts(self.cfg.current().repo_roots.as_slice());
                let sent = dialog.submit(roots);
                self.delete_repo = Some(dialog);
                match sent {
                    None => None,
                    Some((target, cmd)) => {
                        self.status = concat3("deleting ", target.as_str(), "...");
                        self.push_log(concat2("deleting ", target.as_str()));
                        Some(cmd)
                    },
                }
            },
        }
    }

    /// Opens the dialog for cloning a repository of the list.
    pub fn open_clone(&mut self, index: usize) -> (r: Option<Cmd>)
        requires
            old(self)@.cfg.profiles.len() > 0,
            index < old(self)@.repos.len(),
        ensures
            (final(self)@, cmd_option(r)) == old(self)@.opening_clone(
                old(self)@.repos[index as int].path,
            ),
            old(self)@.inv() ==> final(self)@.inv(),
    {
        let path = self.repos[index].path.clone();
        let mut dialog = CloneRepo::new(
            self.cfg.current(),
            path.as_str(),
            &self.last_clone_parent,
        );
        let known = match &self.detail {
            Some((p, d)) => if same_text(p.as_str(), path.as_str()) {
                Some(clone_texts(d.branches.as_slice()))
            } else {
                None
            },
            None => None,
        };
        match known {
            Some(branches) => {
                dialog.branches = branches;
                self.clone_repo = Some(dialog);
                None
            },
            None => {
                self.clone_repo = Some(dialog);
                Some(Cmd::Detail { path })
            },
        }
    }

    /// The branches of the repository at `path` are known, as its details are open.
    pub fn branches_loaded(&self, path: &str) -> (r: bool)
        ensures
            r == self@.known_branches(path@) is Some,
    {
        match &self.detail {
            Some((p, _)) => same_text(p.as_str(), path),
            None => false,
        }
    }

    /// Submits the dialog for a clone, when `target` is the directory that the
    /// clone goes into, or why it cannot start.
    pub fn start_clone(&mut self, target: Result<String, Error>) -> (r: Option<CloneJob>)
        ensures
            (final(self)@, job_option(r)) == old(self)@.starting_clone(outcome(target)),
            old(self)@.inv() ==> final(self)@.inv(),
    {
        if self.cloning {
            return None;
        }
        match self.clone_repo.take() {
            None => None,
            Some(dialog) => {
                let mut dialog = dialog;
                match target {
                    Ok(dest) => {
                        dialog.error = String::new();
                        self.last_clone_parent = Some(dialog.parent.clone());
                        self.cloning = true;
                        self.status = concat3("cloning into ", dest.as_str(), "...");
                        self.push_log(dialog.start_line(dest.as_str()));
                        let job = dialog.job();
                        self.clone_repo = Some(dialog);
                        Some(job)
                    },
                    Err(e) => {
                        dialog.error = e.message();
                        self.clone_repo = Some(dialog);
                        None
                    },
                }
            },
        }
    }

    /// Submits the dialog for a clone. Where it can start, it goes into the folder
    /// that the dialog names.
    pub fn submit_clone(&mut self) -> (r: Option<CloneJob>)
        ensures
            ({
                let before = old(self)@;
                match before.clone_repo {
                    None => final(self)@ == before && r is None,
                    Some(dialog) => match dialog.obstacle() {
                        Some(fault) => (final(self)@, job_option(r)) == before.starting_clone(
                            Err::<Seq<char>, Fault>(fault),
                        ),
                        None => exists|dest: Seq<char>|
                            ends_with(dest, clone_folder(dialog.path, dialog.folder)->Ok_0)
                                && lands_in(
                                dialog.parent,
                                clone_folder(dialog.path, dialog.folder)->Ok_0,
                                dest,
                            ) && (final(self)@, job_option(r)) == #[trigger] before.starting_clone(
                                Ok::<Seq<char>, Fault>(dest),
                            ),
                    },
                }
            }),
            old(self)@.inv() ==> final(self)@.inv(),
    {
        let target = match &self.clone_repo {
            None => return None,
            Some(dialog) => dialog.target(),
        };
        self.start_clone(target)
    }

    /// Runs the command in the bottom bar.
    pub fn run_command(&mut self) -> (r: Option<Cmd>)
        ensures
            (final(self)@, cmd_option(r)) == old(self)@.running(),
            old(self)@.inv() ==> final(self)@.inv(),
    {
        let chars = chars_of(self.exec_input.as_str());
        let trimmed_chars = trim(chars.as_slice());
        if trimmed_chars.len() == 0 {
            return None;
        }
        let script = text_of(trimmed_chars);
        self.push_log(concat2("$ ", script.as_str()));
        Some(Cmd::Exec { label: script.clone(), script })
    }

    /// Empties the log and the output below the details.
    pub fn clear_log(&mut self)
        ensures
            final(self)@ == (AppView { log: Seq::empty(), output: None, ..old(self)@ }),
            old(self)@.inv() ==> final(self)@.inv(),
    {
        self.log = Vec::new();
        self.output = None;
    }
}

/// A deletion reaches the worker only after the name was typed back, and with the
/// roots of the profile in use.
pub proof fn law_only_confirmed_deletions_are_sent(app: AppView)
    ensures
        app.deleting().1 matches Some(cmd) ==> {
            &&& app.delete_repo matches Some(dialog) && dialog.confirmed() && cmd
                == (CmdView::DeleteRepo {
                path: dialog.path,
                roots: app.cfg.current().repo_roots,
                whole_tree: dialog.whole_tree,
            })
        },
{
}

/// One clone runs at a time: while one is running, submitting the dialog starts
/// none and changes nothing.
pub proof fn law_one_clone_at_a_time(app: AppView, target: Result<Seq<char>, Fault>)
    requires
        app.cloning,
    ensures
        app.starting_clone(target) == (app, None::<CloneJobView>),
{
}

/// A connection that was asked for is being opened, whether or not the configuration
/// could be saved; where it could not, the log says why.
pub proof fn law_connecting(app: AppView, saved: Result<(), Seq<char>>, why: Seq<char>)
    ensures
        app.connecting(saved).conn == Conn::Connecting,
        app.connecting(saved).cfg == app.cfg,
        app.connecting(saved).password == app.password,
        app.connecting(Ok(())).log == app.log,
        app.log.len() < 500 ==> app.connecting(Err(why)).log == app.log.push(
            "could not save config: "@ + why,
        ),
{
}

/// A new repository is asked for exactly when its name is accepted, and as it stands
/// in the dialog; otherwise the dialog stays and says why.
pub proof fn law_creation_is_asked_for_as_it_stands(app: AppView, dialog: NewRepoView)
    requires
        app.new_repo == Some(dialog),
    ensures
        ({
            let (after, cmd) = app.creating();
            match repo_name(dialog.name) {
                Ok(_) => {
                    &&& cmd == Some(
                        CmdView::CreateRepo {
                            root: dialog.root,
                            name: dialog.name,
                            description: dialog.description,
                            shared: dialog.shared,
                        },
                    )
                    &&& after.new_repo == Some(NewRepoView { error: Seq::empty(), ..dialog })
                },
                Err(fault) => {
                    &&& cmd is None
                    &&& after.new_repo == Some(NewRepoView { error: message(fault), ..dialog })
                    &&& after.status == app.status
                },
            }
        }),
{
}

/// Without a dialog nothing is created, deleted or cloned.
pub proof fn law_nothing_without_a_dialog(app: AppView, target: Result<Seq<char>, Fault>)
    ensures
        app.new_repo is None ==> app.creating() == (app, None::<CmdView>),
        app.delete_repo is None ==> app.deleting() == (app, None::<CmdView>),
        app.clone_repo is None ==> app.starting_clone(target) == (app, None::<CloneJobView>),
{
}

/// A deletion is asked for exactly when the name was typed back and the path may be
/// deleted, and the log names what goes.
pub proof fn law_deletion_is_asked_for(app: AppView, dialog: DeleteRepoView)
    requires
        app.delete_repo == Some(dialog),
    ensures
        ({
            let roots = app.cfg.current().repo_roots;
            let (after, cmd) = app.deleting();
            &&& cmd is Some <==> trimmed(dialog.typed) == dialog.name && deletion(
                dialog.path,
                roots,
                dialog.whole_tree,
            ) is Ok
            &&& cmd is Some ==> after.log.last() == "deleting "@ + deletion(
                dialog.path,
                roots,
                dialog.whole_tree,
            )->Ok_0
        }),
{
}

/// The branches of a repository are asked for when its clone dialog opens, unless its
/// details are open and hold them.
pub proof fn law_clone_dialog_offers_the_branches(app: AppView, path: Seq<char>, d: DetailView)
    ensures
        app.detail is None ==> app.known_branches(path) is None,
        app.detail matches Some((p, _)) ==> (p != path ==> app.known_branches(path) is None),
        app.detail == Some((path, d)) ==> {
            &&& app.opening_clone(path).1 is None
            &&& app.opening_clone(path).0.clone_repo matches Some(dialog)
            &&& dialog.branches == d.branches
            &&& dialog.path == path
        },
        app.known_branches(path) is None ==> {
            &&& app.opening_clone(path).1 == Some(CmdView::Detail { path })
            &&& app.opening_clone(path).0.clone_repo matches Some(dialog)
            &&& dialog.branches.len() == 0
            &&& dialog.path == path
        },
        app.opening_clone(path).0.clone_repo matches Some(dialog) ==> dialog.url == url_of(
            app.cfg.current(),
            path,
        ) && dialog.folder == clone_name(path),
{
}

/// A clone that starts is running, and where it goes is remembered for the next one;
/// one that cannot start is not, and the dialog says why.
pub proof fn law_clone_starts(
    app: AppView,
    dialog: CloneRepoView,
    target: Result<Seq<char>, Fault>,
)
    requires
        app.clone_repo == Some(dialog),
        !app.cloning,
    ensures
        ({
            let (after, job) = app.starting_clone(target);
            match target {
                Ok(dest) => {
                    &&& after.cloning
                    &&& after.last_clone_parent == Some(dialog.parent)
                    &&& job matches Some(j)
                    &&& j.path == dialog.path
                    &&& j.url == dialog.url
                    &&& j.parent == trimmed(dialog.parent)
                    &&& j.folder == dialog.folder
                    &&& j.branch == trimmed(dialog.branch)
                    &&& after.log.last() == dialog.start_line(dest)
                },
                Err(fault) => {
                    &&& !after.cloning
                    &&& job is None
                    &&& after.last_clone_parent == app.last_clone_parent
                    &&& after.clone_repo == Some(CloneRepoView { error: message(fault), ..dialog })
                },
            }
        }),
{
}

/// A command that is typed runs as it was typed, without the white space around it,
/// and its output goes by that name; nothing runs when there is only white space.
pub proof fn law_command_runs_as_typed(app: AppView)
    ensures
        is_blank(app.exec_input) ==> app.running() == (app, None::<CmdView>),
        !is_blank(app.exec_input) ==> {
            &&& app.running().1 == Some(
                CmdView::Exec { label: trimmed(app.exec_input), script: trimmed(app.exec_input) },
            )
            &&& app.running().0.log.last() == "$ "@ + trimmed(app.exec_input)
        },
{
}

/// What came of saving, and of opening a terminal, is in the log; and where a terminal
/// could not be opened the status says so too.
pub proof fn law_outcomes_are_logged(app: AppView, text: Seq<char>, fault: Fault)
    ensures
        app.saved(text, Ok(())).log.last() == "saved "@ + text,
        forall|why: Seq<char>|
            (#[trigger] app.saved(text, Err(why))).log.last() == "save failed: "@ + why,
        app.launched(Ok(text)).log.last() == "launched: "@ + text,
        app.launched(Ok(text)).status == app.status,
        app.launched(Err(fault)).log.last() == "ERROR "@ + message(fault),
        app.launched(Err(fault)).status == "terminal: "@ + message(fault),
{
}

} // verus!
