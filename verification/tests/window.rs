//! The state of the window, its dialogs, and what it says.
use ygit::config::{AuthKind, Config, Profile};
use ygit::dialogs::{clone_events, CloneRepo, DeleteRepo, NewRepo};
use ygit::error::Error;
use ygit::labels::{
    branches_label, commit_line, commits_label, conn_label, empty_list_hint, error_label,
    kind_label, no_commit_label, password_note, shown_label, size_label, terminal_dir,
};
use ygit::ssh::{Cmd, Commit, Evt, Repo, RepoDetail, RepoList};
use ygit::state::{shown_rows, App, Conn, LOG_LINES};

fn app() -> App {
    App::new(Config::restore(None))
}

fn repo(path: &str, name: &str, description: &str) -> Repo {
    Repo {
        path: path.to_string(),
        name: name.to_string(),
        description: description.to_string(),
        bare: true,
        last: None,
    }
}

fn with_repos() -> App {
    let mut a = app();
    let repos = vec![
        repo("/g/Alpha.git", "Alpha", ""),
        repo("/g/beta.git", "beta", "The ALPHA twin"),
        repo("/h/gamma.git", "gamma", ""),
    ];
    assert!(a.on_event(Evt::Repos(RepoList { repos, no_git: false })).is_none());
    a
}

fn commit(hash: &str) -> Commit {
    Commit {
        hash: hash.to_string(),
        author: "Ada".to_string(),
        date: "2026-01-01".to_string(),
        when: "now".to_string(),
        subject: "s".to_string(),
    }
}

#[test]
fn the_window_opens_offline() {
    let a = app();
    assert_eq!(a.status, "not connected");
    assert_eq!(a.roots_edit, "/volume1/git\n/volume1/homes");
    assert!(a.conn == Conn::Idle);
    assert!(a.log.is_empty());
}

#[test]
fn the_log_keeps_its_last_lines() {
    let mut a = app();
    for i in 0..LOG_LINES + 2 {
        a.push_log(i.to_string());
    }
    assert_eq!(a.log.len(), 500);
    assert_eq!(a.log[0], "2");
    assert_eq!(a.log[499], "501");
    a.clear_log();
    assert!(a.log.is_empty());
}

#[test]
fn a_session_takes_the_password_and_drops_it() {
    let mut a = app();
    a.password = "pw".to_string();
    a.passphrase = "pp".to_string();
    a.roots_edit = " /g \r\n\n/h".to_string();
    a.sync_roots();
    match a.connect(Ok(())) {
        Cmd::Connect { profile, password, passphrase } => {
            assert_eq!(profile.repo_roots, vec!["/g", "/h"]);
            assert_eq!((password.as_str(), passphrase.as_str()), ("pw", "pp"));
        }
        _ => panic!("no connection"),
    }
    assert!(a.conn == Conn::Connecting);
    assert_eq!(a.status, "connecting...");
    let next = a.on_event(Evt::Connected { banner: "b".to_string() });
    assert!(matches!(next, Some(Cmd::ListRepos { roots }) if roots == vec!["/g", "/h"]));
    assert!(a.conn == Conn::Up);
    assert_eq!((a.status.as_str(), a.banner.as_str()), ("scanning...", "b"));
    assert_eq!((a.session_password.as_str(), a.password.as_str()), ("pw", ""));
    assert_eq!(a.passphrase, "");
    a.on_event(Evt::Repos(RepoList { repos: vec![repo("/g/a.git", "a", "")], no_git: true }));
    assert_eq!(a.status, "1 repositories (git missing on server)");
    assert!(a.no_git);
    assert!(a.on_event(Evt::Disconnected).is_none());
    assert_eq!(a.session_password, "");
    assert!(a.repos.is_empty());
    assert_eq!(a.log, vec!["connected", "disconnected"]);
}

#[test]
fn a_failed_connection_leaves_the_window_offline() {
    let mut a = app();
    a.connect(Err("disk full".to_string()));
    a.on_event(Evt::Failed("no route".to_string()));
    assert!(a.conn == Conn::Idle);
    assert_eq!(a.status, "error: no route");
    assert_eq!(a.log, vec!["could not save config: disk full", "ERROR no route"]);
    a.conn = Conn::Up;
    a.on_event(Evt::Failed("x".to_string()));
    assert!(a.conn == Conn::Up);
    a.on_event(Evt::Busy(true));
    assert!(a.busy);
    a.on_event(Evt::Log("line".to_string()));
    assert_eq!(a.log[3], "line");
}

#[test]
fn roots_survive_the_editor() {
    let mut a = app();
    let roots = vec!["/a b".to_string(), "/c".to_string()];
    a.cfg.current_mut().repo_roots = roots.clone();
    a.select_profile(0);
    assert_eq!(a.roots_edit, "/a b\n/c");
    a.sync_roots();
    assert_eq!(a.cfg.current().repo_roots, roots);
}

#[test]
fn profiles_come_and_go() {
    let mut a = app();
    a.cfg.current_mut().repo_roots = vec!["/x".to_string()];
    a.add_profile();
    assert_eq!(a.cfg.selected, 1);
    assert_eq!(a.roots_edit, "/volume1/git\n/volume1/homes");
    a.remove_profile();
    assert_eq!(a.cfg.profiles.len(), 1);
    assert_eq!(a.roots_edit, "/x");
    a.remove_profile();
    assert_eq!(a.cfg.profiles.len(), 1);
}

#[test]
fn the_filter_looks_everywhere_without_regard_to_case() {
    let mut a = with_repos();
    assert_eq!(a.status, "3 repositories");
    assert_eq!(a.visible_repos(), vec![0, 1, 2]);
    a.filter = "aLPh".to_string();
    assert_eq!(a.visible_repos(), vec![0, 1]);
    a.filter = "/H/".to_string();
    assert_eq!(a.visible_repos(), vec![2]);
    a.filter = "zzz".to_string();
    assert!(a.visible_repos().is_empty());
    a.repos[0].name = "\u{c4}".to_string();
    a.filter = "\u{e4}".to_string();
    assert_eq!(a.visible_repos(), vec![0]);
    let t = |s: &str| vec![s.to_string()];
    assert_eq!(shown_rows("b", &t("abc"), &t(""), &t("")), vec![0]);
    assert!(shown_rows("B", &t("abc"), &t(""), &t("")).is_empty());
}

#[test]
fn details_select_their_repository() {
    let mut a = with_repos();
    assert!(
        matches!(a.show_detail("/g/beta.git".to_string()), Cmd::Detail { path } if path == "/g/beta.git")
    );
    assert_eq!(a.selected, Some(1));
    a.show_detail("/gone".to_string());
    assert_eq!(a.selected, None);
}

#[test]
fn a_new_repository_is_previewed_and_asked_for() {
    let mut a = app();
    a.open_new_repo();
    let d = a.new_repo.as_mut().unwrap();
    assert_eq!(d.root, "/volume1/git");
    assert!(d.shared);
    assert_eq!(d.preview(), "");
    d.name = "a b".to_string();
    assert!(a.submit_new_repo().is_none());
    assert_eq!(
        a.new_repo.as_ref().unwrap().error,
        "name may only contain letters, digits, '_', '-' and '.'"
    );
    a.new_repo.as_mut().unwrap().name = "p".to_string();
    assert_eq!(a.new_repo.as_ref().unwrap().preview(), "/volume1/git/p.git");
    assert!(
        matches!(a.submit_new_repo(), Some(Cmd::CreateRepo { name, shared: true, .. }) if name == "p")
    );
    assert_eq!(a.status, "creating repository...");
    assert_eq!(a.new_repo.as_ref().unwrap().error, "");
    let next = a.on_event(Evt::Created { path: "/volume1/git/p.git".to_string() });
    assert!(matches!(next, Some(Cmd::ListRepos { .. })));
    assert!(a.new_repo.is_none());
    assert!(a.submit_new_repo().is_none());
    assert_eq!(NewRepo::new(&[]).root, "/volume1/git");
}

#[test]
fn a_deletion_needs_the_typed_name() {
    let mut a = app();
    a.repos = vec![repo("/volume1/git/p.git", "p", ""), repo("/etc/q.git", "q", "")];
    a.open_delete(0);
    assert!(a.submit_delete().is_none());
    assert_eq!(a.delete_repo.as_ref().unwrap().error, "the typed name does not match");
    a.delete_repo.as_mut().unwrap().typed = " p ".to_string();
    assert!(a.delete_repo.as_ref().unwrap().confirmed());
    match a.submit_delete() {
        Some(Cmd::DeleteRepo { path, roots, whole_tree }) => {
            assert_eq!(path, "/volume1/git/p.git");
            assert_eq!(roots, a.cfg.current().repo_roots);
            assert!(!whole_tree);
        }
        _ => panic!("nothing was sent"),
    }
    assert_eq!(a.status, "deleting /volume1/git/p.git...");
    assert_eq!(a.log, vec!["deleting /volume1/git/p.git"]);
    assert!(a.on_event(Evt::Deleted { path: "x".to_string() }).is_some());
    assert!(a.delete_repo.is_none());
    assert!(a.submit_delete().is_none());
    a.open_delete(1);
    a.delete_repo.as_mut().unwrap().typed = "q".to_string();
    assert!(a.submit_delete().is_none());
    assert_eq!(
        a.delete_repo.as_ref().unwrap().error,
        "/etc/q.git is not inside any configured repository root"
    );
    let d = DeleteRepo::new(&a.repos[0]);
    assert_eq!(d.target(&["/volume1/git".to_string()]).unwrap(), "/volume1/git/p.git");
}

#[test]
fn a_clone_goes_where_the_dialog_says() {
    let mut a = with_repos();
    assert!(matches!(a.open_clone(0), Some(Cmd::Detail { path }) if path == "/g/Alpha.git"));
    let mut detail = RepoDetail::default();
    detail.branches = vec!["main".to_string()];
    a.on_event(Evt::Detail("/g/Alpha.git".to_string(), detail));
    assert_eq!(a.clone_repo.as_ref().unwrap().branches, vec!["main"]);
    assert!(a.submit_clone().is_none());
    assert_eq!(a.clone_repo.as_ref().unwrap().error, "choose a destination folder first");
    let d = a.clone_repo.as_mut().unwrap();
    assert_eq!(d.folder, "Alpha");
    d.parent = "/tmp ".to_string();
    d.branch = " dev ".to_string();
    let job = a.submit_clone().unwrap();
    assert_eq!((job.parent.as_str(), job.branch.as_str()), ("/tmp", "dev"));
    assert_eq!(job.folder, "Alpha");
    assert!(a.cloning);
    assert!(a.status.starts_with("cloning into /tmp "));
    assert!(a.status.ends_with("Alpha..."));
    assert_eq!(a.last_clone_parent.as_deref(), Some("/tmp "));
    assert!(a.log[0].ends_with("Alpha (branch dev)"));
    // One clone at a time.
    assert!(a.submit_clone().is_none());
    a.on_event(Evt::CloneFailed("no".to_string()));
    assert!(!a.cloning);
    assert_eq!(a.status, "clone failed: no");
    assert_eq!(a.clone_repo.as_ref().unwrap().error, "no");
    a.on_event(Evt::Cloned { dest: "/tmp/Alpha".to_string() });
    assert!(a.clone_repo.is_none());
    assert_eq!(a.status, "cloned into /tmp/Alpha");
    assert!(a.submit_clone().is_none());
    // The branches are here already, and so is the folder used last.
    assert!(a.open_clone(0).is_none());
    assert_eq!(a.clone_repo.as_ref().unwrap().branches, vec!["main"]);
    assert_eq!(a.clone_repo.as_ref().unwrap().parent, "/tmp ");
}

#[test]
fn a_given_target_starts_the_clone() {
    let mut a = with_repos();
    a.open_clone(1);
    let job = a.start_clone(Ok("/d/beta".to_string())).unwrap();
    assert_eq!(job.path, "/g/beta.git");
    assert_eq!(a.status, "cloning into /d/beta...");
    assert_eq!(a.log, vec!["git clone ssh://@/g/beta.git -> /d/beta"]);
    let mut a = with_repos();
    a.open_clone(1);
    assert!(a.start_clone(Err(Error::NoDestination)).is_none());
    assert!(!a.cloning);
}

#[test]
fn the_clone_dialog_says_when_it_is_ready() {
    let p = Profile { auth: AuthKind::Password, ..Default::default() };
    let mut d = CloneRepo::new(&p, "/g/p.git", &None);
    assert_eq!(d.shown_branch(), "(server default)");
    assert_eq!(d.branch_hint(false), Some("reading the branch list from the server..."));
    assert_eq!(
        d.branch_hint(true),
        Some("The server reported no branches; leave the branch empty.")
    );
    assert!(!d.ready(true, false, true, true));
    d.parent = "/d".to_string();
    d.branch = "b".to_string();
    d.branches = vec!["b".to_string()];
    assert_eq!(d.shown_branch(), "b");
    assert_eq!(d.branch_hint(true), None);
    assert!(d.ready(true, false, true, true));
    assert!(d.ready(true, false, false, false));
    // Without a live session there is no password to reuse.
    assert!(!d.ready(true, false, true, false));
    assert!(!d.ready(true, true, false, false));
    assert!(!d.ready(false, false, false, false));
    assert!(d.target().is_ok());
    d.branch = "-x".to_string();
    assert!(matches!(d.target(), Err(Error::BadBranch(_))));
}

#[test]
fn the_dialogs_say_what_they_would_do() {
    let p = Profile::default();
    let mut d = CloneRepo::new(&p, "/g/p.git", &None);
    assert_eq!(d.target_line("/d/p"), None);
    assert_eq!(d.browse_from(), None);
    d.parent = " /d ".to_string();
    assert_eq!(d.target_line("/d/p").unwrap(), "will clone into /d/p");
    assert_eq!(d.browse_from().unwrap(), "/d");
    let mut n = NewRepo::new(&["/g/".to_string()]);
    assert_eq!(n.preview_line(), None);
    n.name = "p".to_string();
    assert_eq!(n.preview_line().unwrap(), "will create /g/p.git");
    let r = repo("/g/p.git", "p", "");
    assert_eq!(DeleteRepo::new(&r).prompt(), "Type the repository name (p) to confirm:");
    assert!(password_note(false, true).is_none());
    assert!(matches!(password_note(true, true), Some((true, t)) if t.contains("own SSH transport")));
    assert!(matches!(password_note(true, false), Some((false, t)) if t.contains("none is held")));
}

#[test]
fn the_window_knows_what_is_possible() {
    let mut a = app();
    assert!(a.editable() && !a.connected());
    assert!(!a.password_auth() && !a.have_password());
    a.cfg.current_mut().auth = AuthKind::Password;
    a.password = "pw".to_string();
    a.on_event(Evt::Connected { banner: String::new() });
    assert!(!a.editable() && a.connected());
    assert!(a.password_auth() && a.have_password());
    assert!(!a.branches_loaded("/p"));
    a.on_event(Evt::Detail("/p".to_string(), RepoDetail::default()));
    assert!(a.branches_loaded("/p"));
    assert!(!a.branches_loaded("/q"));
}

#[test]
fn the_end_of_a_clone_becomes_events() {
    let events = clone_events("u", Ok(("/d".to_string(), "text".to_string())));
    assert!(
        matches!(&events[0], Evt::Output { label, text } if label == "git clone u" && text == "text")
    );
    assert!(matches!(&events[1], Evt::Cloned { dest } if dest == "/d"));
    let events = clone_events("u", Ok(("/d".to_string(), " \n".to_string())));
    assert_eq!(events.len(), 1);
    let events = clone_events("u", Err(Error::NoDestination));
    assert!(matches!(&events[0], Evt::CloneFailed(e) if e == "choose a destination folder first"));
}

#[test]
fn commands_are_trimmed_and_blank_ones_ignored() {
    let mut a = app();
    a.exec_input = "  ".to_string();
    assert!(a.run_command().is_none());
    a.exec_input = " git --version ".to_string();
    match a.run_command() {
        Some(Cmd::Exec { label, script }) => {
            assert_eq!(label, "git --version");
            assert_eq!(script, "git --version");
        }
        _ => panic!("not run"),
    }
    assert_eq!(a.log, vec!["$ git --version"]);
    a.on_event(Evt::Output { label: "l".to_string(), text: "t".to_string() });
    assert_eq!(a.log[1], "l done");
    assert_eq!(a.output, Some(("l".to_string(), "t".to_string())));
}

#[test]
fn other_actions_are_logged() {
    let mut a = app();
    a.on_saved("/c.json", Ok(()));
    a.on_saved("/c.json", Err("full".to_string()));
    a.on_copied("ssh://x");
    a.on_terminal(Ok("ssh x".to_string()));
    assert_eq!(
        a.log,
        vec!["saved /c.json", "save failed: full", "copied ssh://x", "launched: ssh x"]
    );
    a.on_terminal(Err(Error::UserOrHostUnset));
    assert_eq!(a.status, "terminal: set user and host before opening a terminal");
    assert_eq!(a.log[4], "ERROR set user and host before opening a terminal");
}

#[test]
fn the_labels_are_exact() {
    assert_eq!(conn_label(Conn::Up), "online");
    assert_eq!(conn_label(Conn::Connecting), "connecting");
    assert_eq!(conn_label(Conn::Idle), "offline");
    assert_eq!(
        empty_list_hint(Conn::Up),
        "No repositories found. Check the repository roots on the left."
    );
    assert_eq!(empty_list_hint(Conn::Idle), "Connect to a server to list repositories.");
    assert_eq!(shown_label(3, 120), "3/120 shown");
    assert_eq!((kind_label(true), kind_label(false)), ("bare", "working copy"));
    assert_eq!(no_commit_label(true), "commit unknown - git missing on server");
    assert_eq!(no_commit_label(false), "no commits yet (open Details for why)");
    let mut r = repo("/h/w/.git", "w", "");
    assert_eq!(terminal_dir(&r), "/h/w/.git");
    r.bare = false;
    assert_eq!(terminal_dir(&r), "/h/w");
    assert_eq!(commit_line(&commit("ab")), "ab 2026-01-01 Ada s");
}

#[test]
fn the_details_are_put_in_words() {
    let mut d = RepoDetail::default();
    assert_eq!(size_label(&d), None);
    assert_eq!(branches_label(&d), None);
    assert_eq!(error_label(&d), None);
    assert_eq!(
        commits_label(&d).unwrap(),
        "no commits: the repository has no branches yet"
    );
    d.branches = vec!["main".to_string(), "dev".to_string()];
    assert_eq!(branches_label(&d).unwrap(), "branches: main, dev");
    assert_eq!(commits_label(&d).unwrap(), "no commits reachable from HEAD or any branch");
    d.error = "fatal".to_string();
    assert_eq!(error_label(&d).unwrap(), "git said: fatal");
    assert_eq!(commits_label(&d), None);
    d.size = "1K".to_string();
    d.head = "main".to_string();
    assert_eq!(size_label(&d).unwrap(), "size: 1K  |  HEAD: main");
    d.commits = vec![commit("a"), commit("b")];
    assert_eq!(commits_label(&d).unwrap(), "2 commits");
    d.truncated = true;
    assert_eq!(commits_label(&d).unwrap(), "2 most recent commits");
}
