//! The system `ssh` client on this machine: how it is opened in a terminal, and how
//! git calls it.
use vstd::prelude::*;
use vstd::slice::slice_subrange;
use crate::config::{Profile, ProfileView};
use crate::create::{clean, clean_path, law_clean_path};
use crate::error::{concat3, concat4, Error, Fault};
use crate::quote::{
    is_plain_argument, is_plain_word, is_word_for, join_quoted, law_single_quoted_is_one_word, sh_command, sh_join, sh_quoted, shell_join,
    shell_words, shq, single_quoted,
};
use crate::text::{
    before, chars_of, decimal, ends, ends_with, is_blank, is_white_space, joined, last_field, last_piece,
    law_last_field, lemma_before_is, lemma_decimal_value, lemma_parsed_decimal,
    lemma_trimmed_already, lemma_without_suffix, number, parsed_u16,
    push_text, repeated, same, starts_with, text_of, texts, trim, trim_end_matches, trimmed, without_suffixes,
};
use crate::windows::{win_join, win_quoted};

verus! {

/// The arguments of the system `ssh` client for an interactive session.
pub open spec fn ssh_arguments(profile: ProfileView, cd: Option<Seq<char>>) -> Seq<Seq<char>> {
    let key = trimmed(profile.key_path);
    seq!["-p"@, decimal(profile.port as nat)] + (if key.len() > 0 {
        seq!["-i"@, key]
    } else {
        Seq::empty()
    }) + match cd {
        Some(dir) => seq![
            "-t"@,
            profile.user + "@"@ + profile.host,
            "cd "@ + single_quoted(dir) + " && exec ${SHELL:-/bin/sh} -l || exec /bin/sh -l"@,
        ],
        None => seq![profile.user + "@"@ + profile.host],
    }
}

/// The text of an optional borrowed text.
pub open spec fn str_option(s: Option<&str>) -> Option<Seq<char>> {
    match s {
        Some(t) => Some(t@),
        None => None,
    }
}

/// Builds the argument list for the system `ssh` client.
/// When `cd` is given the shell starts inside that directory.
pub fn ssh_args(profile: &Profile, cd: Option<&str>) -> (r: Vec<String>)
    ensures
        texts(r@) == ssh_arguments(profile@, str_option(cd)),
{
    let mut args: Vec<String> = vec!["-p".to_string(), number(profile.port as u64)];
    let key_chars = chars_of(profile.key_path.as_str());
    let key = trim(key_chars.as_slice());
    if key.len() > 0 {
        args.push("-i".to_string());
        args.push(text_of(key));
    }
    let login = concat3(profile.user.as_str(), "@", profile.host.as_str());
    match cd {
        Some(dir) => {
            args.push("-t".to_string());
            args.push(login);
            args.push(
                concat3(
                    "cd ",
                    shq(dir).as_str(),
                    " && exec ${SHELL:-/bin/sh} -l || exec /bin/sh -l",
                ),
            );
        },
        None => {
            args.push(login);
        },
    }
    assert(texts(args@) == ssh_arguments(profile@, str_option(cd)));
    args
}

/// The texts of a list, or why there is none.
pub open spec fn list_outcome(r: Result<Vec<String>, Error>) -> Result<Seq<Seq<char>>, Fault> {
    match r {
        Ok(list) => Ok(texts(list@)),
        Err(e) => Err(e@),
    }
}

/// The arguments with which `ssh` opens an interactive session in a new terminal
/// window.
pub fn open_ssh(profile: &Profile, cd: Option<&str>) -> (r: Result<Vec<String>, Error>)
    ensures
        list_outcome(r) == if is_blank(profile@.host) || is_blank(profile@.user) {
            Err::<Seq<Seq<char>>, Fault>(Fault::UserOrHostUnset)
        } else {
            Ok(ssh_arguments(profile@, str_option(cd)))
        },
{
    let host = chars_of(profile.host.as_str());
    let user = chars_of(profile.user.as_str());
    if trim(host.as_slice()).len() == 0 || trim(user.as_slice()).len() == 0 {
        return Err(Error::UserOrHostUnset);
    }
    Ok(ssh_args(profile, cd))
}

/// `program` with its arguments, as one line for the shell.
pub open spec fn shell_line(program: Seq<char>, args: Seq<Seq<char>>) -> Seq<char> {
    program + " "@ + joined(args.map_values(|s: Seq<char>| join_quoted(s)), seq![' '])
}

/// `program` with its arguments, as one line for the shell.
pub fn command_line(program: &str, args: &[String]) -> (r: String)
    ensures
        r@ == shell_line(program@, texts(args@)),
        forall|i: int|
            0 <= i < args@.len() && is_plain_argument(args@[i]@) ==> #[trigger] join_quoted(
                args@[i]@,
            ) == args@[i]@,
{
    concat3(program, " ", shell_join(args).as_str())
}

/// A program and its arguments.
pub struct Launch {
    pub program: String,
    pub args: Vec<String>,
}

/// A program and its arguments, over texts.
pub struct LaunchView {
    pub program: Seq<char>,
    pub args: Seq<Seq<char>>,
}

impl View for Launch {
    type V = LaunchView;

    open spec fn view(&self) -> LaunchView {
        LaunchView { program: self.program@, args: texts(self.args@) }
    }
}

/// A terminal emulator that runs the shell line `full`.
pub open spec fn terminal_launch(terminal: Seq<char>, option: Seq<char>, full: Seq<char>) -> LaunchView {
    LaunchView { program: terminal, args: seq![option, "sh"@, "-c"@, full] }
}

/// The terminal emulators to try for the shell line `full`, the first first.
pub open spec fn terminal_launches(full: Seq<char>) -> Seq<LaunchView> {
    seq![
        terminal_launch("x-terminal-emulator"@, "-e"@, full),
        terminal_launch("gnome-terminal"@, "--"@, full),
        terminal_launch("konsole"@, "-e"@, full),
        terminal_launch("alacritty"@, "-e"@, full),
        terminal_launch("kitty"@, "-e"@, full),
        terminal_launch("xterm"@, "-e"@, full),
    ]
}

/// The programs to start, over texts.
pub open spec fn launch_views(list: Seq<Launch>) -> Seq<LaunchView> {
    list.map_values(|l: Launch| l@)
}

fn terminal(name: &str, option: &str, full: &str) -> (r: Launch)
    ensures
        r@ == terminal_launch(name@, option@, full@),
{
    let args: Vec<String> = vec![
        option.to_string(),
        "sh".to_string(),
        "-c".to_string(),
        full.to_string(),
    ];
    assert(texts(args@) == seq![option@, "sh"@, "-c"@, full@]);
    Launch { program: name.to_string(), args }
}

/// The terminal emulators of a Unix desktop that can run the shell line `full`.
/// The first one that starts will do.
pub fn unix_terminals(full: &str) -> (r: Vec<Launch>)
    ensures
        launch_views(r@) == terminal_launches(full@),
{
    let r: Vec<Launch> = vec![
        terminal("x-terminal-emulator", "-e", full),
        terminal("gnome-terminal", "--", full),
        terminal("konsole", "-e", full),
        terminal("alacritty", "-e", full),
        terminal("kitty", "-e", full),
        terminal("xterm", "-e", full),
    ];
    assert(launch_views(r@) == terminal_launches(full@));
    r
}

/// `s` as it stands inside the quotes of an AppleScript text: each backslash and
/// each quote has a backslash before it.
pub open spec fn script_escaped(s: Seq<char>) -> Seq<char>
    decreases s.len(),
{
    if s.len() == 0 {
        Seq::empty()
    } else if s.last() == '\\' || s.last() == '"' {
        script_escaped(s.drop_last()) + seq!['\\', s.last()]
    } else {
        script_escaped(s.drop_last()) + seq![s.last()]
    }
}

/// What AppleScript reads of a text whose opening quote stands before `s`: the
/// characters up to the closing quote, where one after a backslash stands for
/// itself.
pub open spec fn script_text(s: Seq<char>) -> Seq<char>
    decreases s.len(),
{
    if s.len() == 0 || s[0] == '"' {
        Seq::empty()
    } else if s[0] == '\\' && s.len() > 1 {
        seq![s[1]] + script_text(s.skip(2))
    } else {
        seq![s[0]] + script_text(s.skip(1))
    }
}

proof fn lemma_script_text(s: Seq<char>, rest: Seq<char>)
    ensures
        script_text(script_escaped(s) + rest) == s + script_text(rest),
    decreases s.len(),
{
    if s.len() == 0 {
        assert(script_escaped(s) + rest == rest);
        assert(s + script_text(rest) == script_text(rest));
    } else {
        let head = s.drop_last();
        let c = s.last();
        let last = if c == '\\' || c == '"' {
            seq!['\\', c]
        } else {
            seq![c]
        };
        let tail = last + rest;
        lemma_script_text(head, tail);
        assert(script_escaped(s) + rest == script_escaped(head) + tail);
        if c == '\\' || c == '"' {
            assert(tail.skip(2) == rest);
        } else {
            assert(tail.skip(1) == rest);
        }
        assert(script_text(tail) == seq![c] + script_text(rest));
        assert(head + (seq![c] + script_text(rest)) == s + script_text(rest));
    }
}

/// AppleScript reads the text back, whatever it holds.
pub proof fn law_script_text_is_read_back(s: Seq<char>)
    ensures
        script_text(script_escaped(s) + "\""@) == s,
{
    reveal_strlit("\"");
    lemma_script_text(s, "\""@);
    assert(s + Seq::<char>::empty() == s);
}

/// The script with which macOS opens the shell line `full` in its terminal.
pub fn macos_script(full: &str) -> (r: String)
    ensures
        r@ == "tell application \"Terminal\" to do script \""@ + script_escaped(full@) + "\""@,
{
    let line = chars_of(full);
    let n: usize = line.len();
    let mut escaped = String::new();
    for i in 0..n
        invariant
            n == line@.len(),
            escaped@ == script_escaped(line@.take(i as int)),
    {
        let c = line[i];
        proof {
            assert(line@.take(i + 1).drop_last() == line@.take(i as int));
        }
        if c == '\\' || c == '"' {
            escaped.push('\\');
        }
        escaped.push(c);
        assert(escaped@ == script_escaped(line@.take(i + 1)));
    }
    assert(line@.take(n as int) == line@);
    concat3("tell application \"Terminal\" to do script \"", escaped.as_str(), "\"")
}

/// `program` with its arguments, as one Windows command line.
pub fn windows_line(program: &str, args: &[String]) -> (r: String)
    ensures
        r@ == program@ + " "@ + joined(
            texts(args@).map_values(|a: Seq<char>| win_quoted(a)),
            seq![' '],
        ),
{
    concat3(program, " ", win_join(args).as_str())
}

/// How Windows Terminal opens `program` in a new tab.
pub fn windows_tab(program: &str, args: &[String]) -> (r: Launch)
    ensures
        r@ == (LaunchView {
            program: "wt.exe"@,
            args: seq!["new-tab"@, program@] + texts(args@),
        }),
{
    let mut all: Vec<String> = vec!["new-tab".to_string(), program.to_string()];
    let n: usize = args.len();
    for i in 0..n
        invariant
            n == args@.len(),
            texts(all@) == seq!["new-tab"@, program@] + texts(args@).take(i as int),
    {
        let ghost done = texts(all@);
        all.push(args[i].clone());
        assert(texts(all@) == done.push(args@[i as int]@));
        assert(texts(args@).take(i + 1) == texts(args@).take(i as int).push(args@[i as int]@));
    }
    assert(texts(args@).take(n as int) == texts(args@));
    Launch { program: "wt.exe".to_string(), args: all }
}

/// The clone URL for a repository living at `path` on the server.
pub open spec fn url_of(profile: ProfileView, path: Seq<char>) -> Seq<char> {
    "ssh://"@ + profile.user + "@"@ + profile.host + (if profile.port == 22 {
        Seq::empty()
    } else {
        ":"@ + decimal(profile.port as nat)
    }) + path
}

/// The clone URL for a repository living at `path` on the server.
pub fn clone_url(profile: &Profile, path: &str) -> (r: String)
    ensures
        r@ == url_of(profile@, path@),
{
    let mut r = concat4("ssh://", profile.user.as_str(), "@", profile.host.as_str());
    if profile.port != 22 {
        push_text(&mut r, ":");
        push_text(&mut r, number(profile.port as u64).as_str());
        assert(r@ == "ssh://"@ + profile@.user + "@"@ + profile@.host + (":"@ + decimal(
            profile@.port as nat,
        )));
    } else {
        assert(r@ == "ssh://"@ + profile@.user + "@"@ + profile@.host + Seq::<char>::empty());
    }
    push_text(&mut r, path);
    r
}

/// `name` without the one `.git` that ends it, if one does.
pub open spec fn project_name(name: Seq<char>) -> Seq<char> {
    if ends_with(name, ".git"@) {
        name.take(name.len() - ".git"@.len())
    } else {
        name
    }
}

/// The directory name `git clone` would create for a repository path: that of the
/// repository, or of the project whose `.git` it is, without the suffix of a bare
/// repository. Like git, it takes off one such suffix.
pub open spec fn clone_name(repo_path: Seq<char>) -> Seq<char> {
    let path = clean_path(repo_path);
    let base = last_field(path, '/');
    if base == ".git"@ {
        project_name(last_field(without_suffixes(path, "/.git"@), '/'))
    } else {
        project_name(base)
    }
}

fn project_chars(name: &[char]) -> (r: &[char])
    ensures
        r@ == project_name(name@),
{
    let git = chars_of(".git");
    if ends(name, git.as_slice()) {
        slice_subrange(name, 0, name.len() - git.len())
    } else {
        name
    }
}

/// The directory name `git clone` would create for a repository path.
pub fn clone_dir_name(repo_path: &str) -> (r: String)
    ensures
        r@ == clone_name(repo_path@),
{
    let chars = chars_of(repo_path);
    let path = clean(chars.as_slice());
    let base = last_piece(path, '/');
    let git = chars_of(".git");
    if same(base, git.as_slice()) {
        // A working copy: name the clone after the project directory.
        let suffix = chars_of("/.git");
        let parent = trim_end_matches(path, suffix.as_slice());
        return text_of(project_chars(last_piece(parent, '/')));
    }
    text_of(project_chars(base))
}

/// The words of the `GIT_SSH_COMMAND` for a key profile.
pub open spec fn ssh_command_words(profile: ProfileView) -> Seq<Seq<char>> {
    let key = trimmed(profile.key_path);
    seq!["ssh"@, "-p"@, decimal(profile.port as nat), "-o"@, "BatchMode=yes"@] + (if key.len() > 0 {
        seq!["-i"@, key, "-o"@, "IdentitiesOnly=yes"@]
    } else {
        Seq::empty()
    }) + seq![
        "-o"@,
        if profile.strict_host_key {
            "StrictHostKeyChecking=yes"@
        } else {
            "StrictHostKeyChecking=accept-new"@
        },
    ]
}

/// Builds the `GIT_SSH_COMMAND` for a key profile: the system `ssh` with the
/// profile's port, key and host key policy.
///
/// `BatchMode=yes` keeps git from hanging on a prompt no one can answer: the
/// clone runs without a terminal, so a key passphrase could never be typed.
/// Password profiles do not come through here at all; they use the app's own
/// transport (see [`proxy`](crate::proxy)).
pub fn git_ssh_command(profile: &Profile) -> (r: String)
    ensures
        r@ == sh_command(ssh_command_words(profile@)),
        shell_words(r@) == Some(ssh_command_words(profile@)),
        ({
            let words = shell_words(r@)->0;
            &&& words[0] == "ssh"@
            &&& words[1] == "-p"@
            &&& parsed_u16(words[2]) == Some(profile@.port)
            &&& option_values(words, "-p"@) == seq![words[2]]
        }),
        forall|i: int|
            0 <= i < ssh_command_words(profile@).len() && is_plain_word(
                ssh_command_words(profile@)[i],
            ) ==> #[trigger] sh_quoted(ssh_command_words(profile@)[i]) == ssh_command_words(
                profile@,
            )[i],
{
    let mut parts: Vec<String> = vec![
        "ssh".to_string(),
        "-p".to_string(),
        number(profile.port as u64),
        "-o".to_string(),
        "BatchMode=yes".to_string(),
    ];
    let key_chars = chars_of(profile.key_path.as_str());
    let key = trim(key_chars.as_slice());
    if key.len() > 0 {
        parts.push("-i".to_string());
        parts.push(text_of(key));
        // Do not let an agent key shadow the one the profile names.
        parts.push("-o".to_string());
        parts.push("IdentitiesOnly=yes".to_string());
    }
    parts.push("-o".to_string());
    parts.push(
        if profile.strict_host_key {
            "StrictHostKeyChecking=yes".to_string()
        } else {
            "StrictHostKeyChecking=accept-new".to_string()
        },
    );
    assert(texts(parts@) == ssh_command_words(profile@));
    let r = sh_join(parts.as_slice());
    proof {
        law_git_calls_ssh_with_the_profile(profile@);
        let words = ssh_command_words(profile@);
        assert forall|i: int| 0 <= i < words.len() && is_plain_word(
            words[i],
        ) implies #[trigger] sh_quoted(words[i]) == words[i] by {
            assert(texts(parts@)[i] == parts@[i]@);
            assert(sh_quoted(parts@[i]@) == parts@[i]@);
        }
    }
    r
}

/// What stands behind each `option` in a row of options that each have a value.
pub open spec fn option_values(words: Seq<Seq<char>>, option: Seq<char>) -> Seq<Seq<char>>
    decreases words.len(),
{
    if words.len() < 2 {
        Seq::empty()
    } else {
        let rest = option_values(words.take(words.len() - 2), option);
        if words[words.len() - 2] == option {
            rest.push(words.last())
        } else {
            rest
        }
    }
}

/// The options of `ssh` that git gets are different.
proof fn lemma_options_differ()
    ensures
        "-p"@ != "-o"@,
        "-p"@ != "-i"@,
        "-o"@ != "-i"@,
{
    reveal_strlit("-p");
    reveal_strlit("-o");
    reveal_strlit("-i");
    assert("-p"@[1] == 'p');
    assert("-o"@[1] == 'o');
    assert("-i"@[1] == 'i');
}

/// What git is told to call, for every key profile, whether or not it names a key:
/// `ssh` with options that each have a value. The port is the profile's own, given
/// once. The key is the one that the profile names, given exactly if it names one,
/// and then no other is tried. There is never a prompt. A host key must be known
/// already if the profile is strict, and may be new if it is not.
pub proof fn law_git_calls_ssh_with_the_profile(profile: ProfileView)
    ensures
        ({
            let words = ssh_command_words(profile);
            let key = trimmed(profile.key_path);
            &&& words.len() % 2 == 1
            &&& words[0] == "ssh"@
            &&& words[1] == "-p"@
            &&& parsed_u16(words[2]) == Some(profile.port)
            &&& option_values(words, "-p"@) == seq![words[2]]
            &&& option_values(words, "-i"@) == if is_blank(profile.key_path) {
                seq![]
            } else {
                seq![key]
            }
            &&& option_values(words, "-o"@).contains("BatchMode=yes"@)
            &&& option_values(words, "-o"@).contains("IdentitiesOnly=yes"@) == !is_blank(
                profile.key_path,
            )
            &&& option_values(words, "-o"@).contains("StrictHostKeyChecking=yes"@)
                == profile.strict_host_key
            &&& option_values(words, "-o"@).contains("StrictHostKeyChecking=accept-new"@)
                == !profile.strict_host_key
            &&& forall|i: int|
                0 <= i < words.len() && i % 2 == 1 ==> (#[trigger] words[i] == "-p"@ || words[i]
                    == "-i"@ || words[i] == "-o"@)
        }),
{
    let words = ssh_command_words(profile);
    let key = trimmed(profile.key_path);
    lemma_options_differ();
    lemma_parsed_decimal(profile.port);
    let policy = if profile.strict_host_key {
        "StrictHostKeyChecking=yes"@
    } else {
        "StrictHostKeyChecking=accept-new"@
    };
    reveal_strlit("BatchMode=yes");
    reveal_strlit("IdentitiesOnly=yes");
    reveal_strlit("StrictHostKeyChecking=yes");
    reveal_strlit("StrictHostKeyChecking=accept-new");
    assert("BatchMode=yes"@[0] == 'B');
    assert("IdentitiesOnly=yes"@[0] == 'I');
    assert("StrictHostKeyChecking=yes"@[0] == 'S');
    assert("StrictHostKeyChecking=accept-new"@[0] == 'S');
    assert("StrictHostKeyChecking=yes"@.len() != "StrictHostKeyChecking=accept-new"@.len());
    reveal_with_fuel(option_values, 7);
    if key.len() > 0 {
        let values = seq!["BatchMode=yes"@, "IdentitiesOnly=yes"@, policy];
        assert(option_values(words, "-o"@) =~= values);
        assert(option_values(words, "-i"@) =~= seq![key]);
        assert(option_values(words, "-p"@) =~= seq![words[2]]);
        assert(values[0] == "BatchMode=yes"@);
        assert(values[1] == "IdentitiesOnly=yes"@);
        assert(values[2] == policy);
    } else {
        let values = seq!["BatchMode=yes"@, policy];
        assert(option_values(words, "-o"@) =~= values);
        assert(option_values(words, "-i"@) =~= seq![]);
        assert(option_values(words, "-p"@) =~= seq![words[2]]);
        assert(values[0] == "BatchMode=yes"@);
        assert(values[1] == policy);
    }
}

/// Profiles with different ports make git call `ssh` differently.
pub proof fn law_git_port_is_told(a: ProfileView, b: ProfileView)
    requires
        a.port != b.port,
    ensures
        ssh_command_words(a) != ssh_command_words(b),
{
    law_git_calls_ssh_with_the_profile(a);
    law_git_calls_ssh_with_the_profile(b);
}

/// What `ssh` is told for an interactive session: the profile's own port, given first
/// and once; the key that the profile names, exactly if it names one; and last the
/// login, `user@host`. To start in a directory a terminal is asked for, and one more
/// argument changes into it: the shell that reads it takes the directory as one word,
/// whatever it holds.
pub proof fn law_session_goes_where_the_profile_says(profile: ProfileView, dir: Seq<char>)
    ensures
        ({
            let plain = ssh_arguments(profile, None);
            let there = ssh_arguments(profile, Some(dir));
            let login = profile.user + "@"@ + profile.host;
            let key = trimmed(profile.key_path);
            let n = if is_blank(profile.key_path) {
                2int
            } else {
                4int
            };
            &&& plain[0] == "-p"@
            &&& parsed_u16(plain[1]) == Some(profile.port)
            &&& !is_blank(profile.key_path) ==> plain[2] == "-i"@ && plain[3] == key
            &&& plain.len() == n + 1
            &&& plain[n] == login
            &&& there.len() == n + 3
            &&& there.take(n) == plain.take(n)
            &&& there[n] == "-t"@
            &&& there[n + 1] == login
            &&& exists|word: Seq<char>|
                is_word_for(word, dir) && there[n + 2] == "cd "@ + word
                    + " && exec ${SHELL:-/bin/sh} -l || exec /bin/sh -l"@
        }),
{
    lemma_parsed_decimal(profile.port);
    law_single_quoted_is_one_word(dir);
    let plain = ssh_arguments(profile, None);
    let there = ssh_arguments(profile, Some(dir));
    let n = if is_blank(profile.key_path) {
        2int
    } else {
        4int
    };
    assert(there.take(n) =~= plain.take(n));
    assert(there[n + 2] == "cd "@ + single_quoted(dir)
        + " && exec ${SHELL:-/bin/sh} -l || exec /bin/sh -l"@);
}

/// What a URL of the form `ssh://user@host:port/path` says, where the port may be
/// left out and is then 22: the user, the host, the port and the path.
pub open spec fn url_parts(url: Seq<char>) -> Option<(Seq<char>, Seq<char>, u16, Seq<char>)> {
    let rest = url.skip("ssh://"@.len() as int);
    let slash = before(rest, '/') as int;
    let authority = rest.take(slash);
    let at = before(authority, '@') as int;
    let place = authority.skip(at + 1);
    let colon = before(place, ':') as int;
    if !starts_with(url, "ssh://"@) || at >= authority.len() {
        None
    } else if colon >= place.len() {
        Some((authority.take(at), place, 22u16, rest.skip(slash)))
    } else {
        match parsed_u16(place.skip(colon + 1)) {
            Some(port) => Some((authority.take(at), place.take(colon), port, rest.skip(slash))),
            None => None,
        }
    }
}

/// The clone URL names the profile's user, host and port and the repository's path:
/// whoever reads it gets them back. The user holds no `@` and no slash, the host no
/// slash and no colon, and the path is absolute.
pub proof fn law_clone_url_is_read_back(profile: ProfileView, path: Seq<char>)
    requires
        !profile.user.contains('@'),
        !profile.user.contains('/'),
        !profile.host.contains('/'),
        !profile.host.contains(':'),
        path.len() > 0,
        path[0] == '/',
    ensures
        url_parts(url_of(profile, path)) == Some(
            (profile.user, profile.host, profile.port, path),
        ),
{
    reveal_strlit("ssh://");
    reveal_strlit("@");
    reveal_strlit(":");
    let url = url_of(profile, path);
    let rest = url.skip("ssh://"@.len() as int);
    let digits = decimal(profile.port as nat);
    let port = if profile.port == 22 {
        Seq::empty()
    } else {
        ":"@ + digits
    };
    let authority = profile.user + "@"@ + profile.host + port;
    assert(url.take("ssh://"@.len() as int) =~= "ssh://"@);
    assert(rest =~= authority + path);
    lemma_decimal_value(profile.port as nat);
    lemma_parsed_decimal(profile.port);
    assert forall|j: int| 0 <= j < authority.len() implies rest[j] != '/' by {
        assert(rest[j] == authority[j]);
        let u = profile.user.len() as int;
        let h = profile.host.len() as int;
        if j < u {
            assert(authority[j] == profile.user[j]);
        } else if j == u {
            assert(authority[j] == '@');
        } else if j < u + 1 + h {
            assert(authority[j] == profile.host[j - u - 1]);
        } else {
            assert(authority[j] == port[j - u - 1 - h]);
            if j > u + 1 + h {
                assert(port[j - u - 1 - h] == digits[j - u - 2 - h]);
                assert('0' <= digits[j - u - 2 - h] <= '9');
            }
        }
    }
    lemma_before_is(rest, '/', authority.len() as int);
    assert(rest.take(authority.len() as int) =~= authority);
    assert(rest.skip(authority.len() as int) =~= path);
    assert forall|j: int| 0 <= j < profile.user.len() implies authority[j] != '@' by {
        assert(authority[j] == profile.user[j]);
    }
    lemma_before_is(authority, '@', profile.user.len() as int);
    assert(authority.take(profile.user.len() as int) =~= profile.user);
    let place = authority.skip(profile.user.len() as int + 1);
    assert(place =~= profile.host + port);
    assert forall|j: int| 0 <= j < profile.host.len() implies place[j] != ':' by {
        assert(place[j] == profile.host[j]);
    }
    if profile.port == 22 {
        assert(place =~= profile.host);
    } else {
        assert(place[profile.host.len() as int] == ':');
    }
    lemma_before_is(place, ':', profile.host.len() as int);
    assert(place.take(profile.host.len() as int) =~= profile.host);
    if profile.port != 22 {
        assert(place.skip(profile.host.len() as int + 1) =~= digits);
    }
}

/// What git calls the clone of `p/n.git`, of `p/n`, and of the working copy `p/n`
/// that is listed by its `.git`: `n`, whatever dots it holds.
pub proof fn law_clone_is_called_by_the_repository(p: Seq<char>, n: Seq<char>)
    requires
        p.len() > 0 ==> p[0] == '/',
        n.len() > 0,
        !n.contains('/'),
        !ends_with(n, ".git"@),
        !is_white_space(n.last()),
    ensures
        clone_name(p + "/"@ + n + ".git"@) == n,
        clone_name(p + "/"@ + n) == n,
        clone_name(p + "/"@ + n + "/.git"@) == n,
{
    reveal_strlit("/");
    reveal_strlit(".git");
    reveal_strlit("/.git");
    assert("/"@ == seq!['/']);
    let plain = p + "/"@ + n;
    let bare = plain + ".git"@;
    let git = plain + "/.git"@;
    lemma_clean(plain);
    lemma_clean(bare);
    lemma_clean(git);
    let name = n + ".git"@;
    assert(bare =~= p + seq!['/'] + name);
    assert(!name.contains('/')) by {
        assert forall|i: int| 0 <= i < name.len() implies name[i] != '/' by {
            if i < n.len() {
                assert(name[i] == n[i]);
            } else {
                assert(name[i] == ".git"@[i - n.len()]);
            }
        }
    }
    law_last_field(p, '/', name);
    law_last_field(p, '/', n);
    assert(name != ".git"@);
    assert(n != ".git"@) by {
        if n == ".git"@ {
            assert(n.skip(0) =~= n);
        }
    }
    assert(name.skip(name.len() - ".git"@.len()) =~= ".git"@);
    assert(name.take(name.len() - ".git"@.len()) =~= n);
    assert(!".git"@.contains('/')) by {
        assert forall|i: int| 0 <= i < ".git"@.len() implies ".git"@[i] != '/' by {}
    }
    assert("/.git"@ =~= seq!['/'] + ".git"@);
    assert(git =~= plain + seq!['/'] + ".git"@);
    law_last_field(plain, '/', ".git"@);
    assert(!ends_with(plain, "/.git"@)) by {
        if ends_with(plain, "/.git"@) {
            assert(plain.skip(plain.len() - 5) == "/.git"@);
            if n.len() >= 4 {
                assert(n.skip(n.len() - 4) =~= ".git"@) by {
                    assert forall|i: int| 0 <= i < 4 implies n.skip(n.len() - 4)[i] == ".git"@[i] by {
                        assert(plain.skip(plain.len() - 5)[i + 1] == "/.git"@[i + 1]);
                    }
                }
            } else {
                let k = 4 - n.len();
                assert(plain.skip(plain.len() - 5)[k] == "/.git"@[k]);
                assert(plain[plain.len() - 5 + k] == '/');
            }
        }
    }
    lemma_without_suffix(plain, "/.git"@);
}

proof fn lemma_clean(path: Seq<char>)
    requires
        path.len() > 0,
        path[0] == '/',
        path.last() != '/',
        !is_white_space(path.last()),
    ensures
        clean_path(path) == path,
{
    lemma_trimmed_already(path);
    if ends_with(path, seq!['/']) {
        assert(path.skip(path.len() - 1)[0] == path.last());
    }
}

/// Every terminal emulator is made to run the one line, by a shell, and each is tried
/// once.
pub proof fn law_terminals_run_the_line(full: Seq<char>)
    ensures
        terminal_launches(full).map_values(|launch: LaunchView| launch.program) == seq![
            "x-terminal-emulator"@,
            "gnome-terminal"@,
            "konsole"@,
            "alacritty"@,
            "kitty"@,
            "xterm"@,
        ],
        forall|i: int|
            0 <= i < terminal_launches(full).len() ==> {
                let launch = #[trigger] terminal_launches(full)[i];
                &&& launch.args.len() == 4
                &&& launch.args[0] == (if launch.program == "gnome-terminal"@ {
                    "--"@
                } else {
                    "-e"@
                })
                &&& launch.args[1] == "sh"@
                &&& launch.args[2] == "-c"@
                &&& launch.args[3] == full
            },
        forall|i: int, j: int|
            0 <= i < j < terminal_launches(full).len() ==> #[trigger] terminal_launches(
                full,
            )[i].program != #[trigger] terminal_launches(full)[j].program,
{
    reveal_strlit("x-terminal-emulator");
    reveal_strlit("gnome-terminal");
    reveal_strlit("konsole");
    reveal_strlit("alacritty");
    reveal_strlit("kitty");
    reveal_strlit("xterm");
    assert("x-terminal-emulator"@.len() == 19);
    assert("gnome-terminal"@.len() == 14);
    assert("konsole"@.len() == 7);
    assert("alacritty"@.len() == 9);
    assert("kitty"@.len() == 5);
    assert("xterm"@.len() == 5);
    assert("kitty"@[0] == 'k');
    assert("xterm"@[0] == 'x');
}

/// Like git, the name of a clone gives up one suffix and no more; and slashes at the end
/// of the path, and white space around it, do not count.
pub proof fn law_clone_name_gives_up_one_suffix(
    p: Seq<char>,
    n: Seq<char>,
    before: Seq<char>,
    slashes: nat,
    after: Seq<char>,
)
    requires
        p.len() > 0 ==> p[0] == '/',
        n.len() > 0,
        !n.contains('/'),
        forall|i: int| 0 <= i < before.len() ==> is_white_space(#[trigger] before[i]),
        forall|i: int| 0 <= i < after.len() ==> is_white_space(#[trigger] after[i]),
    ensures
        clone_name(p + "/"@ + n + ".git"@ + ".git"@) == n + ".git"@,
        clone_name(before + (p + "/"@ + n + ".git"@ + repeated("/"@, slashes)) + after) == clone_name(
            p + "/"@ + n + ".git"@,
        ),
{
    reveal_strlit("/");
    reveal_strlit(".git");
    assert("/"@ == seq!['/']);
    let path = p + "/"@ + n + ".git"@ + ".git"@;
    let name = n + ".git"@ + ".git"@;
    lemma_clean(path);
    assert(path =~= p + seq!['/'] + name);
    assert(!name.contains('/')) by {
        assert forall|i: int| 0 <= i < name.len() implies name[i] != '/' by {
            if i < n.len() {
                assert(name[i] == n[i]);
            } else if i < n.len() + 4 {
                assert(name[i] == ".git"@[i - n.len()]);
            } else {
                assert(name[i] == ".git"@[i - n.len() - 4]);
            }
        }
    }
    law_last_field(p, '/', name);
    assert(name.skip(name.len() - ".git"@.len()) =~= ".git"@);
    assert(name.take(name.len() - ".git"@.len()) =~= n + ".git"@);
    let r = p + "/"@ + n + ".git"@;
    assert(r[0] == '/');
    law_clean_path(before, r, slashes, after);
    lemma_clean(r);
}

} // verus!
