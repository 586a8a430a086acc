//! The dialogs of the window: creating, deleting and cloning a repository.
use vstd::prelude::*;
use crate::clone::{clone_args, clone_arguments, clone_folder, lands_in};
use crate::config::{Profile, ProfileView};
use crate::create::{clean_path, created, repo_name, script_outcome, validate_repo_name};
use crate::delete::{delete_target, deletion, is_inside_any};
use crate::error::{concat2, concat3, concat4, message, outcome, Error, Fault};
use crate::ssh::{evt_views, Cmd, CmdView, Evt, EvtView, Repo, RepoView};
use crate::terminal::{clone_dir_name, clone_name, clone_url, url_of};
use crate::text::{
    chars_of, ends_with, is_blank, is_white_space, law_trimmed, same, starts_with_char, text_of, text_option, texts, trim, trim_end_matches,
    trimmed, without_suffixes,
};

verus! {

/// The root offered for a new repository when none is configured.
pub const FALLBACK_ROOT: &'static str = "/volume1/git";

/// State of the "create repository" dialog.
#[derive(Debug)]
pub struct NewRepo {
    pub root: String,
    pub name: String,
    pub description: String,
    pub shared: bool,
    pub error: String,
}

/// The "create repository" dialog, over texts.
pub struct NewRepoView {
    pub root: Seq<char>,
    pub name: Seq<char>,
    pub description: Seq<char>,
    pub shared: bool,
    pub error: Seq<char>,
}

impl View for NewRepo {
    type V = NewRepoView;

    open spec fn view(&self) -> NewRepoView {
        NewRepoView {
            root: self.root@,
            name: self.name@,
            description: self.description@,
            shared: self.shared,
            error: self.error@,
        }
    }
}

/// The dialog for a new repository as it opens: in the first root, shared.
pub open spec fn fresh_new_repo(roots: Seq<Seq<char>>) -> NewRepoView {
    NewRepoView {
        root: if roots.len() > 0 {
            roots[0]
        } else {
            FALLBACK_ROOT@
        },
        name: Seq::empty(),
        description: Seq::empty(),
        shared: true,
        error: Seq::empty(),
    }
}

impl NewRepoView {
    /// The path shown as what will be created; empty while the name is no good.
    pub open spec fn preview(self) -> Seq<char> {
        match repo_name(self.name) {
            Ok(dir) => without_suffixes(self.root, seq!['/']) + "/"@ + dir,
            Err(_) => Seq::empty(),
        }
    }

    /// The dialog after it was submitted, and the request that is sent.
    pub open spec fn submitted(self) -> (NewRepoView, Option<CmdView>) {
        match repo_name(self.name) {
            Ok(_) => (
                NewRepoView { error: Seq::empty(), ..self },
                Some(
                    CmdView::CreateRepo {
                        root: self.root,
                        name: self.name,
                        description: self.description,
                        shared: self.shared,
                    },
                ),
            ),
            Err(fault) => (NewRepoView { error: message(fault), ..self }, None),
        }
    }
}

/// The text of a request that may be there.
pub open spec fn cmd_option(cmd: Option<Cmd>) -> Option<CmdView> {
    match cmd {
        Some(c) => Some(c@),
        None => None,
    }
}

impl NewRepo {
    /// The dialog as it opens, when `roots` are the roots of the profile.
    pub fn new(roots: &[String]) -> (r: NewRepo)
        ensures
            r@ == fresh_new_repo(texts(roots@)),
    {
        let root = if roots.len() > 0 {
            assert(texts(roots@)[0] == roots@[0]@);
            roots[0].clone()
        } else {
            FALLBACK_ROOT.to_string()
        };
        NewRepo {
            root,
            name: String::new(),
            description: String::new(),
            shared: true,
            error: String::new(),
        }
    }

    /// What the dialog says about the repository that will be created.
    pub fn preview_line(&self) -> (r: Option<String>)
        ensures
            text_option(r) == if self@.preview().len() == 0 {
                None
            } else {
                Some("will create "@ + self@.preview())
            },
    {
        let path = self.preview();
        if path.as_str().is_empty() {
            None
        } else {
            Some(concat2("will create ", path.as_str()))
        }
    }

    /// The path shown as what will be created; empty while the name is no good.
    pub fn preview(&self) -> (r: String)
        ensures
            r@ == self@.preview(),
    {
        match validate_repo_name(self.name.as_str()) {
            Ok(dir) => {
                let root = chars_of(self.root.as_str());
                let slash: Vec<char> = vec!['/'];
                assert(slash@ == seq!['/']);
                let top = text_of(trim_end_matches(root.as_slice(), slash.as_slice()));
                concat3(top.as_str(), "/", dir.as_str())
            },
            Err(_) => String::new(),
        }
    }

    /// Submits the dialog: a name that is no good is complained about, and any
    /// other goes to the server.
    pub fn submit(&mut self) -> (r: Option<Cmd>)
        ensures
            (final(self)@, cmd_option(r)) == old(self)@.submitted(),
    {
        match validate_repo_name(self.name.as_str()) {
            Ok(_) => {
                self.error = String::new();
                Some(
                    Cmd::CreateRepo {
                        root: self.root.clone(),
                        name: self.name.clone(),
                        description: self.description.clone(),
                        shared: self.shared,
                    },
                )
            },
            Err(e) => {
                self.error = e.message();
                None
            },
        }
    }
}

/// What the dialog shows as the repository that will be created is the one that is
/// created, wherever the root has no white space around it.
pub proof fn law_preview_is_what_is_created(dialog: NewRepoView)
    requires
        trimmed(dialog.root) == dialog.root,
    ensures
        created(dialog.root, dialog.name, dialog.description, dialog.shared) matches Ok((path, _))
            ==> path == dialog.preview(),
{
    assert(clean_path(dialog.root) == without_suffixes(dialog.root, seq!['/']));
}

/// State of the "delete repository" confirmation dialog.
#[derive(Debug)]
pub struct DeleteRepo {
    /// The repository directory as listed by the scan.
    pub path: String,
    /// Repository name, which has to be typed back to confirm.
    pub name: String,
    pub bare: bool,
    /// Working copies only: remove the project directory, not just `.git`.
    pub whole_tree: bool,
    pub typed: String,
    pub error: String,
}

/// The "delete repository" dialog, over texts.
pub struct DeleteRepoView {
    pub path: Seq<char>,
    pub name: Seq<char>,
    pub bare: bool,
    pub whole_tree: bool,
    pub typed: Seq<char>,
    pub error: Seq<char>,
}

impl View for DeleteRepo {
    type V = DeleteRepoView;

    open spec fn view(&self) -> DeleteRepoView {
        DeleteRepoView {
            path: self.path@,
            name: self.name@,
            bare: self.bare,
            whole_tree: self.whole_tree,
            typed: self.typed@,
            error: self.error@,
        }
    }
}

/// The confirmation as it opens: nothing is typed, and of a working copy only the
/// `.git` would go.
pub open spec fn fresh_delete_repo(repo: RepoView) -> DeleteRepoView {
    DeleteRepoView {
        path: repo.path,
        name: repo.name,
        bare: repo.bare,
        whole_tree: false,
        typed: Seq::empty(),
        error: Seq::empty(),
    }
}

impl DeleteRepoView {
    /// The name was typed back.
    pub open spec fn confirmed(self) -> bool {
        trimmed(self.typed) == self.name
    }

    /// What would be removed.
    pub open spec fn target(self, roots: Seq<Seq<char>>) -> Result<Seq<char>, Fault> {
        deletion(self.path, roots, self.whole_tree)
    }

    /// The dialog after it was submitted, and what is removed and the request that
    /// is sent.
    pub open spec fn submitted(self, roots: Seq<Seq<char>>) -> (
        DeleteRepoView,
        Option<(Seq<char>, CmdView)>,
    ) {
        match self.target(roots) {
            Ok(target) => if self.confirmed() {
                (
                    DeleteRepoView { error: Seq::empty(), ..self },
                    Some(
                        (
                            target,
                            CmdView::DeleteRepo {
                                path: self.path,
                                roots,
                                whole_tree: self.whole_tree,
                            },
                        ),
                    ),
                )
            } else {
                (DeleteRepoView { error: "the typed name does not match"@, ..self }, None)
            },
            Err(fault) => (DeleteRepoView { error: message(fault), ..self }, None),
        }
    }
}

/// The texts of a path and a request that may be there.
pub open spec fn removal_option(r: Option<(String, Cmd)>) -> Option<(Seq<char>, CmdView)> {
    match r {
        Some((target, cmd)) => Some((target@, cmd@)),
        None => None,
    }
}

impl DeleteRepo {
    /// The confirmation for `repo`, as it opens.
    pub fn new(repo: &Repo) -> (r: DeleteRepo)
        ensures
            r@ == fresh_delete_repo(repo@),
    {
        DeleteRepo {
            path: repo.path.clone(),
            name: repo.name.clone(),
            bare: repo.bare,
            whole_tree: false,
            typed: String::new(),
            error: String::new(),
        }
    }

    /// The name was typed back.
    pub fn confirmed(&self) -> (r: bool)
        ensures
            r == self@.confirmed(),
    {
        let typed = chars_of(self.typed.as_str());
        let name = chars_of(self.name.as_str());
        same(trim(typed.as_slice()), name.as_slice())
    }

    /// The question that the name answers.
    pub fn prompt(&self) -> (r: String)
        ensures
            r@ == "Type the repository name ("@ + self@.name + ") to confirm:"@,
    {
        concat3("Type the repository name (", self.name.as_str(), ") to confirm:")
    }

    /// What would be removed, or why nothing can be.
    pub fn target(&self, roots: &[String]) -> (r: Result<String, Error>)
        ensures
            outcome(r) == self@.target(texts(roots@)),
    {
        delete_target(self.path.as_str(), roots, self.whole_tree)
    }

    /// Submits the dialog: what is removed and the request for it, once the name
    /// was typed back and the target is allowed.
    pub fn submit(&mut self, roots: Vec<String>) -> (r: Option<(String, Cmd)>)
        ensures
            (final(self)@, removal_option(r)) == old(self)@.submitted(texts(roots@)),
    {
        match self.target(roots.as_slice()) {
            Ok(target) => {
                if self.confirmed() {
                    self.error = String::new();
                    let cmd = Cmd::DeleteRepo {
                        path: self.path.clone(),
                        roots,
                        whole_tree: self.whole_tree,
                    };
                    Some((target, cmd))
                } else {
                    self.error = "the typed name does not match".to_string();
                    None
                }
            },
            Err(e) => {
                self.error = e.message();
                None
            },
        }
    }
}

/// Nothing is deleted without the name having been typed back, nor outside the
/// configured roots.
pub proof fn law_deletion_is_confirmed(dialog: DeleteRepoView, roots: Seq<Seq<char>>)
    ensures
        dialog.submitted(roots).1 matches Some((target, _)) ==> dialog.confirmed() && is_inside_any(
            target,
            roots,
        ),
{
}

/// State of the "clone repository" dialog.
#[derive(Debug)]
pub struct CloneRepo {
    /// The repository directory on the server.
    pub path: String,
    /// The `ssh://` URL git is given.
    pub url: String,
    /// Destination directory on this machine.
    pub parent: String,
    /// Folder created inside `parent`.
    pub folder: String,
    /// Branch to check out; empty follows the server's HEAD.
    pub branch: String,
    /// Branches offered in the dropdown, filled in once the server answers.
    pub branches: Vec<String>,
    pub error: String,
}

/// The "clone repository" dialog, over texts.
#[verifier::ext_equal]
pub struct CloneRepoView {
    pub path: Seq<char>,
    pub url: Seq<char>,
    pub parent: Seq<char>,
    pub folder: Seq<char>,
    pub branch: Seq<char>,
    pub branches: Seq<Seq<char>>,
    pub error: Seq<char>,
}

impl View for CloneRepo {
    type V = CloneRepoView;

    open spec fn view(&self) -> CloneRepoView {
        CloneRepoView {
            path: self.path@,
            url: self.url@,
            parent: self.parent@,
            folder: self.folder@,
            branch: self.branch@,
            branches: texts(self.branches@),
            error: self.error@,
        }
    }
}

/// The dialog for cloning the repository at `path`, as it opens. It starts in the
/// folder that was used last.
pub open spec fn fresh_clone_repo(
    profile: ProfileView,
    path: Seq<char>,
    last_parent: Option<Seq<char>>,
) -> CloneRepoView {
    CloneRepoView {
        path,
        url: url_of(profile, path),
        parent: match last_parent {
            Some(parent) => parent,
            None => Seq::empty(),
        },
        folder: clone_name(path),
        branch: Seq::empty(),
        branches: Seq::empty(),
        error: Seq::empty(),
    }
}

/// What a clone is started with.
#[derive(Debug)]
pub struct CloneJob {
    pub path: String,
    pub url: String,
    pub parent: String,
    pub folder: String,
    pub branch: String,
}

/// What a clone is started with, over texts.
pub struct CloneJobView {
    pub path: Seq<char>,
    pub url: Seq<char>,
    pub parent: Seq<char>,
    pub folder: Seq<char>,
    pub branch: Seq<char>,
}

impl View for CloneJob {
    type V = CloneJobView;

    open spec fn view(&self) -> CloneJobView {
        CloneJobView {
            path: self.path@,
            url: self.url@,
            parent: self.parent@,
            folder: self.folder@,
            branch: self.branch@,
        }
    }
}

impl CloneRepoView {
    /// What the clone is started with.
    pub open spec fn job(self) -> CloneJobView {
        CloneJobView {
            path: self.path,
            url: self.url,
            parent: trimmed(self.parent),
            folder: self.folder,
            branch: trimmed(self.branch),
        }
    }

    /// Why the dialog cannot be submitted as it stands, if it cannot.
    pub open spec fn obstacle(self) -> Option<Fault> {
        match clone_folder(self.path, self.folder) {
            Err(fault) => Some(fault),
            Ok(name) => if self.parent.len() == 0 {
                Some(Fault::NoDestination)
            } else {
                match clone_arguments(self.url, name, self.branch) {
                    Err(fault) => Some(fault),
                    Ok(_) => None,
                }
            },
        }
    }

    /// What the log says when the clone into `dest` starts.
    pub open spec fn start_line(self, dest: Seq<char>) -> Seq<char> {
        "git clone "@ + self.url + " -> "@ + dest + (if is_blank(self.branch) {
            Seq::empty()
        } else {
            " (branch "@ + trimmed(self.branch) + ")"@
        })
    }
}

impl CloneRepo {
    /// The dialog for cloning the repository at `path`, as it opens.
    pub fn new(profile: &Profile, path: &str, last_parent: &Option<String>) -> (r: CloneRepo)
        ensures
            r@ == fresh_clone_repo(profile@, path@, text_option(*last_parent)),
    {
        let r = CloneRepo {
            path: path.to_string(),
            url: clone_url(profile, path),
            parent: match last_parent {
                Some(parent) => parent.clone(),
                None => String::new(),
            },
            folder: clone_dir_name(path),
            branch: String::new(),
            branches: Vec::new(),
            error: String::new(),
        };
        assert(texts(r.branches@) == Seq::<Seq<char>>::empty());
        r
    }

    /// The directory that the clone would go into, or why it cannot start.
    ///
    /// The separator in the directory is that of the machine, so only where it
    /// leads is stated, as for [`clone_args`].
    pub fn target(&self) -> (r: Result<String, Error>)
        ensures
            match r {
                Ok(dest) => {
                    &&& self@.obstacle() is None
                    &&& ends_with(dest@, clone_folder(self@.path, self@.folder)->Ok_0)
                    &&& lands_in(
                        self@.parent,
                        clone_folder(self@.path, self@.folder)->Ok_0,
                        dest@,
                    )
                },
                Err(e) => self@.obstacle() == Some(e@),
            },
    {
        match clone_args(
            self.path.as_str(),
            self.url.as_str(),
            self.parent.as_str(),
            self.folder.as_str(),
            self.branch.as_str(),
        ) {
            Ok((dest, _)) => Ok(dest),
            Err(e) => Err(e),
        }
    }

    /// The clone may start: the target is good, a destination was chosen, no other
    /// clone is running, and a password is at hand where the profile needs one.
    pub fn ready(
        &self,
        target_ok: bool,
        cloning: bool,
        password_auth: bool,
        have_password: bool,
    ) -> (r: bool)
        ensures
            r == (target_ok && !is_blank(self@.parent) && !cloning && (!password_auth
                || have_password)),
    {
        let parent = chars_of(self.parent.as_str());
        target_ok && trim(parent.as_slice()).len() > 0 && !cloning && (!password_auth
            || have_password)
    }

    /// The branch as the dialog shows it.
    pub fn shown_branch(&self) -> (r: String)
        ensures
            r@ == if is_blank(self@.branch) {
                "(server default)"@
            } else {
                self@.branch
            },
    {
        let branch = chars_of(self.branch.as_str());
        if trim(branch.as_slice()).len() == 0 {
            "(server default)".to_string()
        } else {
            self.branch.clone()
        }
    }

    /// What the dialog says about the branches when there are none to choose from.
    pub fn branch_hint(&self, loaded: bool) -> (r: Option<&'static str>)
        ensures
            match r {
                None => self@.branches.len() > 0,
                Some(text) => self@.branches.len() == 0 && text@ == if loaded {
                    "The server reported no branches; leave the branch empty."@
                } else {
                    "reading the branch list from the server..."@
                },
            },
    {
        if self.branches.len() > 0 {
            None
        } else if loaded {
            Some("The server reported no branches; leave the branch empty.")
        } else {
            Some("reading the branch list from the server...")
        }
    }

    /// What the dialog says about the directory `dest` that the clone would go into,
    /// once a destination was chosen.
    pub fn target_line(&self, dest: &str) -> (r: Option<String>)
        ensures
            text_option(r) == if is_blank(self@.parent) {
                None
            } else {
                Some("will clone into "@ + dest@)
            },
    {
        let parent = chars_of(self.parent.as_str());
        if trim(parent.as_slice()).len() == 0 {
            None
        } else {
            Some(concat2("will clone into ", dest))
        }
    }

    /// The directory in which a search for a destination starts: the one that was
    /// chosen, if one was.
    pub fn browse_from(&self) -> (r: Option<String>)
        ensures
            text_option(r) == if is_blank(self@.parent) {
                None
            } else {
                Some(trimmed(self@.parent))
            },
    {
        let parent = chars_of(self.parent.as_str());
        let chosen = trim(parent.as_slice());
        if chosen.len() == 0 {
            None
        } else {
            Some(text_of(chosen))
        }
    }

    /// What the clone is started with.
    pub fn job(&self) -> (r: CloneJob)
        ensures
            r@ == self@.job(),
    {
        let parent = chars_of(self.parent.as_str());
        let branch = chars_of(self.branch.as_str());
        CloneJob {
            path: self.path.clone(),
            url: self.url.clone(),
            parent: text_of(trim(parent.as_slice())),
            folder: self.folder.clone(),
            branch: text_of(trim(branch.as_slice())),
        }
    }

    /// What the log says when the clone into `dest` starts.
    pub fn start_line(&self, dest: &str) -> (r: String)
        ensures
            r@ == self@.start_line(dest@),
    {
        let branch = chars_of(self.branch.as_str());
        let name = trim(branch.as_slice());
        let on = if name.len() == 0 {
            String::new()
        } else {
            concat3(" (branch ", text_of(name).as_str(), ")")
        };
        let line = concat4("git clone ", self.url.as_str(), " -> ", dest);
        concat2(line.as_str(), on.as_str())
    }
}

/// The events that tell how a clone of `url` ended: `Ok` holds the directory and
/// what git printed.
pub open spec fn clone_told(
    url: Seq<char>,
    result: Result<(Seq<char>, Seq<char>), Fault>,
) -> Seq<EvtView> {
    match result {
        Ok((dest, text)) => if is_blank(text) {
            seq![EvtView::Cloned { dest }]
        } else {
            seq![
                EvtView::Output { label: "git clone "@ + url, text },
                EvtView::Cloned { dest },
            ]
        },
        Err(fault) => seq![EvtView::CloneFailed(message(fault))],
    }
}

/// The events that tell how a clone of `url` ended.
pub fn clone_events(url: &str, result: Result<(String, String), Error>) -> (r: Vec<Evt>)
    ensures
        evt_views(r@) == clone_told(url@, script_outcome(result)),
{
    match result {
        Ok((dest, text)) => {
            let chars = chars_of(text.as_str());
            let ghost told = clone_told(url@, Ok::<(Seq<char>, Seq<char>), Fault>((dest@, text@)));
            let r: Vec<Evt> = if trim(chars.as_slice()).len() == 0 {
                vec![Evt::Cloned { dest }]
            } else {
                vec![
                    Evt::Output { label: concat2("git clone ", url), text },
                    Evt::Cloned { dest },
                ]
            };
            assert(evt_views(r@) == told);
            r
        },
        Err(e) => {
            let r: Vec<Evt> = vec![Evt::CloneFailed(e.message())];
            assert(evt_views(r@) == seq![EvtView::CloneFailed(message(e@))]);
            r
        },
    }
}

/// The dialogs as they open. A new repository goes into the first root, and is shared.
/// Of a working copy only the `.git` would be deleted, and nothing is deleted before a
/// name that is not empty was typed. A clone starts from the URL of the repository, in
/// the folder that was used last, on the server's own branch.
pub proof fn law_dialogs_as_they_open(
    roots: Seq<Seq<char>>,
    repo: RepoView,
    profile: ProfileView,
    path: Seq<char>,
    last: Seq<char>,
)
    ensures
        roots.len() > 0 ==> fresh_new_repo(roots).root == roots[0],
        roots.len() == 0 ==> fresh_new_repo(roots).root == "/volume1/git"@,
        fresh_new_repo(roots).shared,
        fresh_new_repo(roots).name.len() == 0,
        fresh_new_repo(roots).submitted().1 is None,
        !fresh_delete_repo(repo).whole_tree,
        fresh_delete_repo(repo).path == repo.path,
        fresh_delete_repo(repo).name == repo.name,
        repo.name.len() > 0 ==> !fresh_delete_repo(repo).confirmed(),
        repo.name.len() > 0 ==> fresh_delete_repo(repo).submitted(roots).1 is None,
        fresh_clone_repo(profile, path, Some(last)).parent == last,
        fresh_clone_repo(profile, path, None).parent.len() == 0,
        fresh_clone_repo(profile, path, None).url == url_of(profile, path),
        fresh_clone_repo(profile, path, None).branch.len() == 0,
        fresh_clone_repo(profile, path, Some(last)).folder == fresh_clone_repo(
            profile,
            path,
            None,
        ).folder,
{
    assert(trimmed(Seq::<char>::empty()) == Seq::<char>::empty());
}

/// The name confirms a deletion exactly if it was typed as it is, but for white space
/// around it: a part of it, or it in another case, does not.
pub proof fn law_typed_name_confirms(
    dialog: DeleteRepoView,
    before: Seq<char>,
    after: Seq<char>,
    roots: Seq<Seq<char>>,
)
    requires
        forall|i: int| 0 <= i < before.len() ==> is_white_space(#[trigger] before[i]),
        forall|i: int| 0 <= i < after.len() ==> is_white_space(#[trigger] after[i]),
        dialog.name.len() > 0,
        !is_white_space(dialog.name[0]),
        !is_white_space(dialog.name.last()),
        dialog.typed == before + dialog.name + after,
        deletion(dialog.path, roots, dialog.whole_tree) is Ok,
    ensures
        dialog.submitted(roots).1 == Some(
            (
                deletion(dialog.path, roots, dialog.whole_tree)->Ok_0,
                CmdView::DeleteRepo { path: dialog.path, roots, whole_tree: dialog.whole_tree },
            ),
        ),
        forall|other: DeleteRepoView|
            trimmed(other.typed) != other.name ==> (#[trigger] other.submitted(roots)).1 is None,
{
    law_trimmed(before, dialog.name, after);
}

/// What keeps a clone from starting: a folder that is no folder name, a destination
/// that was not chosen, or a branch that git would take for an option; nothing else.
pub proof fn law_what_keeps_a_clone_from_starting(dialog: CloneRepoView)
    ensures
        dialog.obstacle() is None <==> clone_folder(dialog.path, dialog.folder) is Ok
            && dialog.parent.len() > 0 && !starts_with_char(trimmed(dialog.branch), '-'),
        clone_folder(dialog.path, dialog.folder) is Ok && dialog.parent.len() == 0
            ==> dialog.obstacle() == Some(Fault::NoDestination),
        clone_folder(dialog.path, dialog.folder) is Ok && dialog.parent.len() > 0
            && starts_with_char(trimmed(dialog.branch), '-') ==> dialog.obstacle() == Some(
            Fault::BadBranch(trimmed(dialog.branch)),
        ),
{
}

/// What the log says of a clone that starts: from where, to where, and which branch,
/// exactly if one was chosen.
pub proof fn law_start_line(dialog: CloneRepoView, dest: Seq<char>)
    ensures
        is_blank(dialog.branch) ==> dialog.start_line(dest) == "git clone "@ + dialog.url + " -> "@
            + dest,
        !is_blank(dialog.branch) ==> dialog.start_line(dest) == "git clone "@ + dialog.url + " -> "@
            + dest + " (branch "@ + trimmed(dialog.branch) + ")"@,
{
    let head = "git clone "@ + dialog.url + " -> "@ + dest;
    assert(head + Seq::<char>::empty() =~= head);
    assert(head + (" (branch "@ + trimmed(dialog.branch) + ")"@) =~= head + " (branch "@ + trimmed(
        dialog.branch,
    ) + ")"@);
}

/// However a clone ends, the last event says so, once: that it worked, and where, or
/// that it failed, and why. What git printed is shown before that, unless it printed
/// nothing.
pub proof fn law_clone_is_told(
    url: Seq<char>,
    dest: Seq<char>,
    text: Seq<char>,
    fault: Fault,
)
    ensures
        ({
            let told = clone_told(url, Ok((dest, text)));
            &&& told.last() == EvtView::Cloned { dest }
            &&& told.len() == (if is_blank(text) {
                1int
            } else {
                2int
            })
            &&& !is_blank(text) ==> told[0] == (EvtView::Output {
                label: "git clone "@ + url,
                text,
            })
        }),
        clone_told(url, Err(fault)) == seq![EvtView::CloneFailed(message(fault))],
{
}

} // verus!
