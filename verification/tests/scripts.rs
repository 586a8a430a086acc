//! The scripts that run on the server, and what is read from their output.
use ygit::create::{create_script, validate_repo_name};
use ygit::delete::{delete_script, delete_target};
use ygit::detail::{detail_script, parse_commit, parse_detail};
use ygit::error::Error;
use ygit::listing::{list_script, parse_brief, parse_repo_lines, read_scan, sort_repos};
use ygit::quote::shq;
use ygit::ssh::{Repo, GIT_PREAMBLE, LOG_LIMIT, SEP};

fn why<T>(r: Result<T, Error>) -> String {
    match r {
        Ok(_) => panic!("no error"),
        Err(e) => e.message(),
    }
}

#[test]
fn names_are_normalised_and_checked() {
    assert_eq!(validate_repo_name("foo").unwrap(), "foo.git");
    assert_eq!(validate_repo_name(" bar.git ").unwrap(), "bar.git");
    for bad in ["", "../evil", ".hidden", "-rf", "a/b", "x;rm -rf /", "a..b"] {
        assert!(validate_repo_name(bad).is_err(), "accepted {bad:?}");
    }
}

#[test]
fn script_quotes_hostile_input() {
    let (path, script) =
        create_script("/volume1/git", "proj", "it's a 'test'; rm -rf /", true).unwrap();
    assert_eq!(path, "/volume1/git/proj.git");
    assert!(script.contains("'/volume1/git/proj.git'"));
    assert!(script.contains("--shared=group"));
    // Single quotes in the description must be escaped, not closed, so the
    // shell never sees `; rm -rf /` outside quotes.
    assert!(script.contains(r"'it'\''s a '\''test'\''; rm -rf /'"));
}

#[test]
fn list_output_is_parsed() {
    let sep = SEP;
    let out = format!(
        "/volume1/git/a.git\t1\tthe a repo\tab12cd{sep}2 days ago{sep}fix: tabs\tand pipes|\n             /volume1/homes/me/proj/.git\t0\t\t\n             \n"
    );
    let repos = parse_repo_lines(&out).repos;
    assert_eq!(repos.len(), 2);

    assert_eq!(repos[0].name, "a");
    assert!(repos[0].bare);
    assert_eq!(repos[0].description, "the a repo");
    let last = repos[0].last.as_ref().unwrap();
    assert_eq!(last.hash, "ab12cd");
    assert_eq!(last.when, "2 days ago");
    // The subject keeps everything after the separator, tabs included.
    assert_eq!(last.subject, "fix: tabs\tand pipes|");

    assert_eq!(repos[1].name, "proj");
    assert!(!repos[1].bare);
    assert!(repos[1].last.is_none());
}

#[test]
fn missing_git_is_reported() {
    let list = parse_repo_lines("/volume1/git/a.git\t1\t\t\n<<<NOGIT\n");
    assert!(list.no_git);
    assert_eq!(list.repos.len(), 1);
    assert!(list.repos[0].last.is_none());
}

#[test]
fn git_diagnostics_become_an_error_not_a_commit() {
    let out = "<<<LOG\nfatal: detected dubious ownership in repository at '/volume1/git/a.git'\n<<<BRANCHES\nmain\n<<<HEAD\nref: refs/heads/main\n<<<SIZE\n1.0M\n<<<GIT\ngit version 2.39.5\n";
    let d = parse_detail(out);
    assert!(d.commits.is_empty());
    assert!(d.error.contains("dubious ownership"));
    assert_eq!(d.git, "git version 2.39.5");
    assert_eq!(d.branches, vec!["main"]);
}

#[test]
fn detail_output_is_parsed_and_capped() {
    let sep = SEP;
    let mut out = String::from("<<<LOG\n");
    for i in 0..(LOG_LIMIT + 1) {
        out.push_str(&format!(
            "h{i}{sep}Ada{sep}2026-01-0{d}T00:00:00+00:00{sep}{i} days ago{sep}commit {i}\n",
            d = i % 9 + 1
        ));
    }
    out.push_str("<<<BRANCHES\nmain\ndev\n<<<HEAD\nref: refs/heads/main\n<<<SIZE\n4.0K\n");

    let d = parse_detail(&out);
    assert_eq!(d.commits.len(), LOG_LIMIT);
    assert!(d.truncated);
    assert_eq!(d.commits[0].hash, "h0");
    assert_eq!(d.commits[0].author, "Ada");
    assert_eq!(d.commits[0].subject, "commit 0");
    assert_eq!(d.branches, vec!["main", "dev"]);
    assert_eq!(d.head, "main");
    assert_eq!(d.size, "4.0K");
}

#[test]
fn empty_roots_are_rejected() {
    assert!(list_script(&[]).is_err());
    assert!(list_script(&["   ".to_string()]).is_err());
}

#[test]
fn root_must_be_absolute() {
    assert!(create_script("relative/path", "x", "", false).is_err());
}

#[test]
fn delete_only_touches_repositories_under_a_root() {
    let roots = vec!["/volume1/git".to_string(), "/volume1/homes/".to_string()];

    assert_eq!(
        delete_target("/volume1/git/a.git", &roots, false).unwrap(),
        "/volume1/git/a.git"
    );
    // A working copy deletes its .git by default, the project dir on demand.
    assert_eq!(
        delete_target("/volume1/homes/me/proj/.git", &roots, false).unwrap(),
        "/volume1/homes/me/proj/.git"
    );
    assert_eq!(
        delete_target("/volume1/homes/me/proj/.git", &roots, true).unwrap(),
        "/volume1/homes/me/proj"
    );

    for bad in [
        "",
        "relative/a.git",
        "/",
        "/volume1/git",            // the root itself
        "/volume1/gitolite/a.git", // shares a prefix but is not inside
        "/etc",
        "/volume1/git/../../etc",
    ] {
        assert!(delete_target(bad, &roots, false).is_err(), "accepted {bad:?}");
    }
    // A bare repository has no working tree to delete.
    assert!(delete_target("/volume1/git/a.git", &roots, true).is_err());
}

#[test]
fn delete_script_quotes_and_verifies() {
    let roots = vec!["/volume1/git".to_string()];
    let (target, script) = delete_script("/volume1/git/it's.git", &roots, false).unwrap();
    assert_eq!(target, "/volume1/git/it's.git");
    assert!(script.contains(r"d='/volume1/git/it'\''s.git'"));
    assert!(script.contains("not a git repository"));
    assert!(script.contains("rm -rf -- \"$d\""));

    let (target, script) = delete_script("/volume1/git/proj/.git", &roots, true).unwrap();
    assert_eq!(target, "/volume1/git/proj");
    assert!(script.contains("not a working copy"));
}

#[test]
fn each_bad_name_has_its_reason() {
    assert_eq!(why(validate_repo_name("  ")), "name is empty");
    assert_eq!(why(validate_repo_name(".hidden")), "name may not start with '.' or '-'");
    assert_eq!(why(validate_repo_name("-rf")), "name may not start with '.' or '-'");
    assert_eq!(
        why(validate_repo_name("a b")),
        "name may only contain letters, digits, '_', '-' and '.'"
    );
    assert_eq!(why(validate_repo_name("a..b")), "name may not contain '..'");
    assert_eq!(validate_repo_name("A-1_b.c").unwrap(), "A-1_b.c.git");
    // Letters outside ASCII are not among the name characters.
    assert!(matches!(validate_repo_name("caf\u{e9}"), Err(Error::NameCharacters)));
}

#[test]
fn the_creation_script_is_exact() {
    let (path, script) = create_script(" /srv/git// ", "p.git", "  d ", false).unwrap();
    assert_eq!(path, "/srv/git/p.git");
    assert_eq!(
        script,
        "d='/srv/git/p.git'\ncommand -v git >/dev/null 2>&1 || { echo 'git is not installed on the server (install the Git Server package)'; exit 4; }\n[ -d '/srv/git' ] || { echo 'root directory does not exist'; exit 5; }\nif [ -e \"$d\" ]; then echo 'a file or repository with that name already exists'; exit 6; fi\nmkdir \"$d\" || { echo 'could not create the directory (permissions?)'; exit 7; }\ngit init --bare  \"$d\" >/dev/null || { rmdir \"$d\" 2>/dev/null; echo 'git init --bare failed'; exit 8; }\nprintf '%s\n' 'd' > \"$d/description\"\necho \"$d\""
    );
    assert_eq!(why(create_script("/", "p", "", false)), "root must be an absolute path");
    assert_eq!(why(create_script("/srv", "", "", false)), "name is empty");
}

#[test]
fn each_refused_deletion_has_its_reason() {
    let roots = vec!["/volume1/git".to_string()];
    assert_eq!(why(delete_target("a.git", &roots, false)), "repository path must be absolute");
    assert_eq!(
        why(delete_target("/volume1/git/./a", &roots, false)),
        "repository path may not contain '.' or '..'"
    );
    assert_eq!(
        why(delete_target("/volume1/git/a.git", &roots, true)),
        "only a working copy has a working tree"
    );
    assert_eq!(
        why(delete_target("/.git", &roots, true)),
        "refusing to delete the filesystem root"
    );
    assert_eq!(
        why(delete_target("/etc/x", &roots, false)),
        "/etc/x is not inside any configured repository root"
    );
}

#[test]
fn a_root_is_never_deleted_itself() {
    let roots = vec!["/volume1/git/".to_string()];
    assert!(delete_target("/volume1/git/.git", &roots, true).is_err());
    assert!(delete_target("/volume1/git//.git", &roots, true).is_err());
    assert!(delete_target("/volume1/git/", &roots, false).is_err());
    assert_eq!(
        delete_target("/volume1/git/.git", &roots, false).unwrap(),
        "/volume1/git/.git"
    );
}

#[test]
fn a_created_repository_can_be_deleted_again() {
    let (path, _) = create_script("/volume1/git/", "proj", "", true).unwrap();
    let roots = vec!["/volume1/git/".to_string()];
    assert_eq!(delete_target(&path, &roots, false).unwrap(), path);
}

#[test]
fn the_scan_walks_the_quoted_roots() {
    let script = list_script(&[" /a b ".to_string(), "".to_string(), "/it's".to_string()]).unwrap();
    assert!(script.starts_with(GIT_PREAMBLE));
    assert!(script.contains(r"'/a b' '/it'\''s'"));
    assert_eq!(why(list_script(&[])), "no repository roots configured");
}

#[test]
fn the_detail_script_names_the_repository() {
    let script = detail_script("/volume1/git/it's.git");
    assert!(script.contains(r"'/volume1/git/it'\''s.git'"));
    assert!(script.contains("<<<LOG"));
    assert_eq!(shq("it's"), r"'it'\''s'");
}

#[test]
fn a_tip_commit_is_read_back() {
    let line = format!("ab{SEP}now{SEP}subject | with\ttab");
    let c = parse_brief(&line).unwrap();
    assert_eq!((c.hash.as_str(), c.when.as_str()), ("ab", "now"));
    assert_eq!(c.subject, "subject | with\ttab");
    assert!(parse_brief("").is_none());
    assert!(parse_brief(&format!("{SEP}now{SEP}x")).is_none());
}

#[test]
fn a_commit_is_read_back() {
    let line = format!("ab{SEP}Ada{SEP}2026-01-01{SEP}now{SEP}one{SEP}two");
    let c = parse_commit(&line).unwrap();
    assert_eq!(c.hash, "ab");
    assert_eq!(c.author, "Ada");
    assert_eq!(c.date, "2026-01-01");
    assert_eq!(c.when, "now");
    assert_eq!(c.subject, "one");
    assert!(parse_commit("  ").is_none());
}

#[test]
fn a_scan_is_ordered_by_name_without_regard_to_case() {
    let out = "/g/b.git\t1\t\t\n/g/C.git\t1\t\t\n/g/A.git\t1\t\t\n/h/a.git\t1\t\t\n";
    let list = read_scan(out);
    let paths: Vec<&str> = list.repos.iter().map(|r| r.path.as_str()).collect();
    assert_eq!(paths, vec!["/g/A.git", "/h/a.git", "/g/b.git", "/g/C.git"]);
    assert!(!list.no_git);
}

#[test]
fn upper_case_beyond_ascii_is_lowered_too() {
    // Lower case of the first name is U+00E4, which stands before U+00E5.
    let out = "/g/\u{e5}.git\t1\t\t\n/g/\u{c4}.git\t1\t\t\n";
    let names: Vec<String> = read_scan(out).repos.iter().map(|r| r.name.clone()).collect();
    assert_eq!(names, vec!["\u{c4}", "\u{e5}"]);
}

#[test]
fn equal_keys_keep_their_order() {
    let repo = |path: &str| Repo {
        path: path.to_string(),
        name: "n".to_string(),
        description: String::new(),
        bare: true,
        last: None,
    };
    let repos = vec![repo("1"), repo("2"), repo("3")];
    let keys = vec!["b".to_string(), "a".to_string(), "b".to_string()];
    let paths: Vec<String> = sort_repos(&repos, &keys).iter().map(|r| r.path.clone()).collect();
    assert_eq!(paths, vec!["2", "1", "3"]);
}

#[test]
fn a_short_log_is_not_truncated() {
    let out = format!("<<<LOG\nab{SEP}Ada{SEP}d{SEP}w{SEP}s\nwarning: x\n\n warning: y \n<<<HEAD\nabc\n<<<OTHER\nzzz\n");
    let d = parse_detail(&out);
    assert_eq!(d.commits.len(), 1);
    assert!(!d.truncated);
    assert_eq!(d.error, "warning: x\nwarning: y");
    assert_eq!(d.head, "abc");
    assert_eq!(d.size, "");
    assert!(d.branches.is_empty());
    assert_eq!(parse_detail("").commits.len(), 0);
}

#[test]
fn only_the_full_mark_is_a_remark() {
    let list = parse_repo_lines("<g/a.git\t1\t\t\n<<h/b.git\t1\t\t\n<<<c\t1\t\t\n");
    assert_eq!(list.repos.len(), 2);
    let d = parse_detail("<<<BRANCHES\n<b\n<<c\n<<<GIT\n\n");
    assert_eq!(d.branches, vec!["<b", "<<c"]);
    assert_eq!(d.git, "");
}

#[test]
fn rows_of_a_scan_may_be_short() {
    let list = parse_repo_lines("/g/a.git\n\t1\n   <<<other\n/h/w/.git\t0\r\n");
    assert!(!list.no_git);
    assert_eq!(list.repos.len(), 2);
    assert!(list.repos[0].bare);
    assert_eq!(list.repos[0].description, "");
    assert_eq!(list.repos[1].name, "w");
    assert!(!list.repos[1].bare);
}
