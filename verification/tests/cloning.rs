//! Cloning to this machine, and opening terminals on it.
use std::path::Path;

use ygit::clone::{
    clone_args, clone_command, clone_into, clone_output, clone_result, preferred_branch,
    remote_branches, Checkout,
};
use ygit::config::{AuthKind, Profile};
use ygit::error::Error;
use ygit::quote::{sh_quote, shell_join};
use ygit::terminal::{
    clone_dir_name, clone_url, command_line, git_ssh_command, macos_script, open_ssh, ssh_args,
    unix_terminals, windows_line, windows_tab,
};
use ygit::windows::{win_join, win_quote};

fn texts(list: &[&str]) -> Vec<String> {
    list.iter().map(|s| s.to_string()).collect()
}

#[test]
fn clone_folder_defaults_to_the_repository_name() {
    assert_eq!(clone_dir_name("/volume1/git/proj.git"), "proj");
    assert_eq!(clone_dir_name("/volume1/git/proj.git/"), "proj");
    assert_eq!(clone_dir_name("/volume1/homes/me/proj/.git"), "proj");
}

#[test]
fn clone_args_reject_a_path_as_folder_name() {
    let parent = "/tmp/dest";
    for bad in ["..", ".", "a/b", "a\\b"] {
        assert!(
            clone_args("/volume1/git/p.git", "ssh://x/p.git", parent, bad, "").is_err(),
            "accepted {bad:?}"
        );
    }
    let (dest, args) = clone_args("/volume1/git/p.git", "ssh://x/p.git", parent, "", "").unwrap();
    assert_eq!(Path::new(&dest), Path::new(parent).join("p"));
    assert_eq!(args[0], "clone");
    assert_eq!(args[2], "ssh://x/p.git");
}

#[test]
fn a_branch_is_passed_to_git_and_cannot_be_an_option() {
    let parent = "/tmp/dest";
    let (_, args) = clone_args("/volume1/git/p.git", "ssh://x/p.git", parent, "", "dev").unwrap();
    assert_eq!(args[2], "--branch");
    assert_eq!(args[3], "dev");
    assert!(
        clone_args("/volume1/git/p.git", "ssh://x/p.git", parent, "", "--upload-pack=evil")
            .is_err()
    );
}

#[test]
fn the_default_branch_is_preferred_over_whatever_comes_first() {
    let branches = |l: &[&str]| l.iter().map(|s| s.to_string()).collect::<Vec<_>>();
    assert_eq!(
        preferred_branch(&branches(&["dev", "master", "main"])).as_deref(),
        Some("main")
    );
    assert_eq!(
        preferred_branch(&branches(&["dev", "master"])).as_deref(),
        Some("master")
    );
    assert_eq!(preferred_branch(&branches(&["topic"])).as_deref(), Some("topic"));
    assert_eq!(preferred_branch(&[]), None);
}

#[test]
fn ssh_command_carries_port_key_and_host_policy() {
    let mut p = Profile {
        port: 2222,
        key_path: r"C:\keys\my key".to_string(),
        ..Default::default()
    };
    let cmd = git_ssh_command(&p);
    assert!(cmd.contains("-p 2222"));
    assert!(cmd.contains(r"'C:\keys\my key'"));
    assert!(cmd.contains("BatchMode=yes"));
    assert!(cmd.contains("StrictHostKeyChecking=accept-new"));

    p.strict_host_key = true;
    assert!(git_ssh_command(&p).contains("StrictHostKeyChecking=yes"));
}

#[test]
fn the_ssh_command_of_git_is_exact() {
    let p = Profile { key_path: " /k ".to_string(), strict_host_key: true, ..Default::default() };
    assert_eq!(
        git_ssh_command(&p),
        "ssh -p 22 -o BatchMode=yes -i /k -o IdentitiesOnly=yes -o StrictHostKeyChecking=yes"
    );
}

#[test]
fn words_are_quoted_for_the_shell_when_they_need_it() {
    assert_eq!(sh_quote("a=b@c:/d.e_f-g"), "a=b@c:/d.e_f-g");
    assert_eq!(sh_quote(""), "''");
    assert_eq!(sh_quote("a b"), "'a b'");
    assert_eq!(sh_quote("it's"), r"'it'\''s'");
    // Letters and digits beyond ASCII need no quotes.
    assert_eq!(sh_quote("caf\u{e9}\u{661}"), "caf\u{e9}\u{661}");
    assert_eq!(sh_quote("\u{2603}"), "'\u{2603}'");
    assert_eq!(shell_join(&texts(&["a", "b c", "d=e", "it's"])), r"a 'b c' 'd=e' 'it'\''s'");
}

#[test]
fn arguments_are_quoted_for_windows_when_they_need_it() {
    assert_eq!(win_quote("plain"), "plain");
    assert_eq!(win_quote(""), "\"\"");
    assert_eq!(win_quote("a b"), "\"a b\"");
    assert_eq!(win_quote("a\"b"), "\"a\\\"b\"");
    assert_eq!(win_quote("a b\\"), "\"a b\\\\\"");
    assert_eq!(win_quote("a\\\"b"), "\"a\\\\\\\"b\"");
    assert_eq!(win_quote("c:\\x"), "c:\\x");
    assert_eq!(win_join(&texts(&["a", "b c"])), "a \"b c\"");
}

#[test]
fn the_clone_url_names_the_port_only_when_it_is_unusual() {
    let mut p = Profile { host: "nas".to_string(), user: "me".to_string(), ..Default::default() };
    assert_eq!(clone_url(&p, "/g/p.git"), "ssh://me@nas/g/p.git");
    p.port = 2222;
    assert_eq!(clone_url(&p, "/g/p.git"), "ssh://me@nas:2222/g/p.git");
}

#[test]
fn clone_directories_have_odd_corners() {
    assert_eq!(clone_dir_name(""), "");
    // Like git, one suffix is taken off.
    assert_eq!(clone_dir_name("/volume1/git/proj.git.git"), "proj.git");
    assert_eq!(clone_dir_name("/g/p.git/.git"), "p");
    assert_eq!(clone_dir_name("/g/p.git.git/.git"), "p.git");
    assert_eq!(clone_dir_name("/g/p/.git/.git"), "p");
    assert_eq!(clone_dir_name("/.git"), "");
}

#[test]
fn each_refused_clone_has_its_reason() {
    let bad = |folder: &str, parent: &str, branch: &str| {
        clone_args("/g/p.git", "ssh://x", parent, folder, branch).err().unwrap().message()
    };
    assert_eq!(bad("a/b", "/d", ""), "'a/b' is not a valid folder name");
    assert_eq!(bad("", "", ""), "choose a destination folder first");
    assert_eq!(bad("", "/d", " -x "), "'-x' is not a valid branch name");
    assert!(matches!(clone_args("/.git", "u", "/d", "", ""), Err(Error::BadFolder(_))));
}

#[test]
fn the_arguments_of_a_clone_are_exact() {
    assert_eq!(
        clone_into("ssh://x", "/d/p", "").unwrap(),
        texts(&["clone", "--progress", "ssh://x", "/d/p"])
    );
    assert_eq!(
        clone_into("ssh://x", "/d/p", " dev ").unwrap(),
        texts(&["clone", "--progress", "--branch", "dev", "ssh://x", "/d/p"])
    );
    let (dest, args) = clone_args("/g/p.git", "ssh://x", "/tmp/", " q ", "").unwrap();
    assert!(dest.ends_with('q'));
    assert!(dest.starts_with("/tmp/"));
    assert_eq!(args[3], dest);
}

#[test]
fn a_clone_lands_below_its_parent_whatever_the_parent_holds() {
    for parent in ["/tmp/a:b", "/tmp/a\\b", "C:\\Users\\me", "D:/x/", "/", "a:"] {
        let (dest, args) = clone_args("/g/p.git", "ssh://x", parent, "", "").unwrap();
        assert_eq!(Path::new(&dest), Path::new(parent).join("p"));
        assert!(dest.starts_with(parent));
        assert_eq!(args[3], dest);
    }
    let (dest, _) = clone_args("/g/p.git", "ssh://x", "/tmp", "a:b", "").unwrap();
    assert_eq!(Path::new(&dest), Path::new("/tmp").join("a:b"));
}

#[test]
fn a_clone_starts_only_into_a_new_folder_of_a_directory() {
    let p = Profile::default();
    let go = |is_dir: bool, exists: bool| {
        clone_command(&p, "/d", is_dir, "/d/p", exists, texts(&["clone"]), "", Ok("e".to_string()))
    };
    assert_eq!(go(false, true).err().unwrap().message(), "/d is not a directory");
    assert_eq!(go(true, true).err().unwrap().message(), "/d/p already exists");
    let c = go(true, false).ok().unwrap();
    assert_eq!(c.args, texts(&["clone"]));
    let names: Vec<&str> = c.env.iter().map(|(k, _)| k.as_str()).collect();
    assert_eq!(names, vec!["GIT_SSH_COMMAND", "GIT_SSH_VARIANT", "GIT_TERMINAL_PROMPT"]);
    assert_eq!(c.env[1].1, "ssh");
    assert_eq!(c.env[2].1, "0");
}

#[test]
fn a_password_clone_hands_the_password_over_in_the_environment() {
    let p = Profile { auth: AuthKind::Password, ..Default::default() };
    let c = clone_command(&p, "/d", true, "/d/p", false, vec![], "pw", Ok("e".to_string()))
        .ok()
        .unwrap();
    assert_eq!(c.env.len(), 8);
    assert_eq!(c.env[0].1, "e --ssh-proxy");
    assert_eq!(c.env[7].1, "pw");
    assert!(clone_command(&p, "/d", true, "/d/p", false, vec![], "", Ok("e".to_string())).is_err());
}

#[test]
fn the_end_of_a_clone_is_told() {
    assert_eq!(clone_result(true, "exit status: 0", " ok ").unwrap(), " ok ");
    assert_eq!(
        clone_result(false, "exit status: 128", " no \n").err().unwrap().message(),
        "git clone failed (exit status: 128): no"
    );
    // Bytes that are no UTF-8 are shown as a replacement character.
    assert_eq!(clone_output(true, "", b"a\xff", "\u{e9}".as_bytes()).unwrap(), "a\u{fffd}\u{e9}");
}

#[test]
fn a_dangling_head_is_checked_out() {
    let step = Checkout::after_clone();
    assert_eq!(step.command().unwrap(), texts(&["rev-parse", "--verify", "--quiet", "HEAD"]));
    let step = step.next(false, "");
    assert_eq!(
        step.command().unwrap(),
        texts(&["for-each-ref", "--format=%(refname:lstrip=3)", "refs/remotes/origin"])
    );
    let step = step.next(true, "HEAD\n dev \n\nmaster\n");
    assert_eq!(
        step.command().unwrap(),
        texts(&["checkout", "-B", "master", "--track", "origin/master"])
    );
    let failed = Checkout::Branch("x".to_string()).next(false, " why \n");
    let step = step.next(true, "");
    assert!(step.command().is_none());
    match (step, failed) {
        (Checkout::Done(note), Checkout::Done(sorry)) => {
            assert_eq!(
                note,
                "\nThe server's HEAD names a branch that does not exist, so git checked nothing out; checked out 'master' instead.\n"
            );
            assert_eq!(
                sorry,
                "\nNothing was checked out and 'git checkout x' failed: why\n"
            );
        }
        _ => panic!("not done"),
    }
}

#[test]
fn a_good_or_an_empty_clone_needs_no_checkout() {
    assert!(matches!(Checkout::after_clone().next(true, "x"), Checkout::Done(n) if n.is_empty()));
    let none = "\nNothing was checked out: the repository has no commits yet.\n";
    assert!(matches!(Checkout::ListRefs.next(true, "HEAD\n"), Checkout::Done(n) if n == none));
    assert!(matches!(Checkout::ListRefs.next(false, "main\n"), Checkout::Done(n) if n == none));
    assert_eq!(remote_branches("HEAD\r\n a\nb"), texts(&["a", "b"]));
}

#[test]
fn the_arguments_of_a_terminal_session_are_exact() {
    let mut p = Profile { host: "nas".to_string(), user: "me".to_string(), ..Default::default() };
    assert_eq!(ssh_args(&p, None), texts(&["-p", "22", "me@nas"]));
    p.key_path = " /k ".to_string();
    assert_eq!(
        open_ssh(&p, Some("/it's")).unwrap(),
        texts(&[
            "-p",
            "22",
            "-i",
            "/k",
            "-t",
            "me@nas",
            r"cd '/it'\''s' && exec ${SHELL:-/bin/sh} -l || exec /bin/sh -l",
        ])
    );
    p.user = " ".to_string();
    assert_eq!(
        open_ssh(&p, None).err().unwrap().message(),
        "set user and host before opening a terminal"
    );
}

#[test]
fn terminals_run_one_shell_line() {
    let line = command_line("ssh", &texts(&["-p", "22", "a b"]));
    assert_eq!(line, "ssh -p 22 'a b'");
    let list = unix_terminals(&line);
    assert_eq!(list.len(), 6);
    assert_eq!(list[0].program, "x-terminal-emulator");
    assert_eq!(list[0].args, texts(&["-e", "sh", "-c", "ssh -p 22 'a b'"]));
    assert_eq!(list[1].args[0], "--");
    assert_eq!(list[5].program, "xterm");
    assert_eq!(macos_script("x"), "tell application \"Terminal\" to do script \"x\"");
    assert_eq!(
        macos_script("cd '\\''a\"'"),
        "tell application \"Terminal\" to do script \"cd '\\\\''a\\\"'\""
    );
    assert_eq!(windows_line("ssh", &texts(&["a b"])), "ssh \"a b\"");
    let tab = windows_tab("ssh", &texts(&["-p", "22"]));
    assert_eq!(tab.program, "wt.exe");
    assert_eq!(tab.args, texts(&["new-tab", "ssh", "-p", "22"]));
    assert_eq!(
        Error::NoTerminal(line).message(),
        "no terminal emulator found; run manually: ssh -p 22 'a b'"
    );
    assert_eq!(
        Error::NotStarted("ssh".to_string(), "gone".to_string()).message(),
        "could not start ssh: gone"
    );
    assert_eq!(
        Error::GitNotStarted("gone".to_string()).message(),
        "could not start git (is it installed?): gone"
    );
}
