//! A stand-in for the `ssh` client, used as git's transport.
//!
//! `git clone` runs without a terminal, so OpenSSH can never ask for a
//! password. When the profile authenticates with one, the app points
//! `GIT_SSH_COMMAND` at itself (`ygit --ssh-proxy`) instead. This module speaks
//! the command line git expects, knows where the connection goes, and says what
//! to do with each thing that arrives while git's data is piped through.
use vstd::prelude::*;
use crate::config::{default_profile, AuthKind, Profile, ProfileView};
use crate::error::{concat2, message, Error, Fault};
use crate::ssh::{Evt, EvtView};
use crate::text::{
    lemma_before_is,
    before, begins_char, chars_of, find, join, joined, parse_u16, parsed_u16, same_text,
    starts_with_char, text_of, text_option, texts,
};
use vstd::slice::slice_subrange;

verus! {

/// Flag that turns this process into the git transport.
pub const FLAG: &'static str = "--ssh-proxy";

/// Environment variables carrying the connection details to the child.
pub const ENV_HOST: &'static str = "YGIT_PROXY_HOST";

pub const ENV_PORT: &'static str = "YGIT_PROXY_PORT";

pub const ENV_USER: &'static str = "YGIT_PROXY_USER";

pub const ENV_STRICT: &'static str = "YGIT_PROXY_STRICT";

/// The session password. It lives in the child's environment only, which on
/// the supported platforms this user alone can read.
pub const ENV_PASSWORD: &'static str = "YGIT_PROXY_PASSWORD";

/// ssh options that take a separate value, so the value is never mistaken for
/// the host name. The glued form `-p2222` carries its own value.
pub open spec fn takes_value(arg: Seq<char>) -> bool {
    arg.len() == 2 && arg[0] == '-' && is_value_letter(arg[1])
}

/// The letters of the ssh options that take a value.
pub open spec fn is_value_letter(c: char) -> bool {
    ||| c == 'B'
    ||| c == 'b'
    ||| c == 'c'
    ||| c == 'D'
    ||| c == 'E'
    ||| c == 'e'
    ||| c == 'F'
    ||| c == 'I'
    ||| c == 'i'
    ||| c == 'J'
    ||| c == 'L'
    ||| c == 'l'
    ||| c == 'm'
    ||| c == 'O'
    ||| c == 'o'
    ||| c == 'p'
    ||| c == 'Q'
    ||| c == 'R'
    ||| c == 'S'
    ||| c == 'W'
    ||| c == 'w'
}

/// The host and remote command git asked for.
#[derive(Debug, PartialEq, Eq)]
pub struct Request {
    pub user: Option<String>,
    pub host: String,
    pub command: String,
}

/// What git asked for, over texts.
pub struct RequestView {
    pub user: Option<Seq<char>>,
    pub host: Seq<char>,
    pub command: Seq<char>,
}

impl View for Request {
    type V = RequestView;

    open spec fn view(&self) -> RequestView {
        RequestView { user: text_option(self.user), host: self.host@, command: self.command@ }
    }
}

/// The position of the first argument from `i` on that is neither an option nor
/// the value of one.
pub open spec fn host_index(args: Seq<Seq<char>>, i: int) -> int
    decreases
            if i < args.len() {
                args.len() - i
            } else {
                0
            },
{
    if i >= args.len() {
        args.len() as int
    } else if !starts_with_char(args[i], '-') {
        i
    } else if takes_value(args[i]) {
        host_index(args, i + 2)
    } else {
        host_index(args, i + 1)
    }
}

/// The user and the host that `user@host` or `host` names.
pub open spec fn user_and_host(target: Seq<char>) -> (Option<Seq<char>>, Seq<char>) {
    let at = before(target, '@') as int;
    if at < target.len() {
        (Some(target.take(at)), target.skip(at + 1))
    } else {
        (None, target)
    }
}

/// What an ssh-style command line asks for.
pub open spec fn request(args: Seq<Seq<char>>) -> Result<RequestView, Fault> {
    let h = host_index(args, 0);
    if h >= args.len() {
        Err(Fault::NoHostArgument)
    } else if h + 1 >= args.len() {
        Err(Fault::NoCommandArgument)
    } else {
        let (user, host) = user_and_host(args[h]);
        Ok(RequestView { user, host, command: joined(args.skip(h + 1), " "@) })
    }
}

fn value_flag(arg: &[char]) -> (r: bool)
    ensures
        r == takes_value(arg@),
{
    if arg.len() != 2 || arg[0] != '-' {
        return false;
    }
    let c = arg[1];
    c == 'B' || c == 'b' || c == 'c' || c == 'D' || c == 'E' || c == 'e' || c == 'F' || c == 'I'
        || c == 'i' || c == 'J' || c == 'L' || c == 'l' || c == 'm' || c == 'O' || c == 'o' || c
        == 'p' || c == 'Q' || c == 'R' || c == 'S' || c == 'W' || c == 'w'
}

/// Parses the ssh-style command line git hands to the transport.
pub fn parse_args(args: &[String]) -> (r: Result<Request, Error>)
    ensures
        match r {
            Ok(req) => request(texts(args@)) == Ok::<RequestView, Fault>(req@),
            Err(e) => request(texts(args@)) == Err::<RequestView, Fault>(e@),
        },
{
    let ghost all = texts(args@);
    let n: usize = args.len();
    let mut i: usize = 0;
    while i < n
        invariant_except_break
            host_index(all, 0) == host_index(all, i as int),
        invariant
            n == args@.len(),
            all == texts(args@),
            i <= n,
        ensures
            host_index(all, 0) == i,
        decreases n - i,
    {
        let arg = chars_of(args[i].as_str());
        assert(arg@ == all[i as int]);
        if !begins_char(arg.as_slice(), '-') {
            break;
        }
        if value_flag(arg.as_slice()) {
            // `-p 2222`: the value goes with its option.
            assert(n - i < 2 ==> host_index(all, i + 2) == host_index(all, n as int));
            i = if n - i >= 2 {
                i + 2
            } else {
                n
            };
        } else {
            i = i + 1;
        }
    }
    if i >= n {
        return Err(Error::NoHostArgument);
    }
    if n - i <= 1 {
        return Err(Error::NoCommandArgument);
    }
    let target = chars_of(args[i].as_str());
    let at: usize = find(target.as_slice(), '@');
    let (user, host) = if at < target.len() {
        (
            Some(text_of(slice_subrange(target.as_slice(), 0, at))),
            text_of(slice_subrange(target.as_slice(), at + 1, target.len())),
        )
    } else {
        (None, args[i].clone())
    };
    let rest = slice_subrange(args, i + 1, n);
    assert(texts(rest@) == all.skip(i + 1));
    assert((text_option(user), host@) == user_and_host(all[i as int]));
    Ok(Request { user, host, command: join(rest, " ") })
}

proof fn lemma_host_index_shifted(head: Seq<Seq<char>>, rest: Seq<Seq<char>>, i: int)
    requires
        i >= 0,
    ensures
        host_index(head + rest, head.len() + i) == head.len() + host_index(rest, i),
    decreases
            if i < rest.len() {
                rest.len() - i
            } else {
                0
            },
{
    if i < rest.len() {
        assert((head + rest)[head.len() + i] == rest[i]);
        if starts_with_char(rest[i], '-') {
            if takes_value(rest[i]) {
                lemma_host_index_shifted(head, rest, i + 2);
            } else {
                lemma_host_index_shifted(head, rest, i + 1);
            }
        }
    }
}

/// The value of an option is never mistaken for the host: an option in front, with
/// its value if it takes one, changes nothing of what is asked for.
pub proof fn law_options_are_skipped(option: Seq<char>, value: Seq<char>, rest: Seq<Seq<char>>)
    requires
        starts_with_char(option, '-'),
    ensures
        takes_value(option) ==> request(seq![option, value] + rest) == request(rest),
        !takes_value(option) ==> request(seq![option] + rest) == request(rest),
{
    let head = if takes_value(option) {
        seq![option, value]
    } else {
        seq![option]
    };
    let all = head + rest;
    assert(all[0] == option);
    lemma_host_index_shifted(head, rest, 0);
    let h = host_index(rest, 0);
    lemma_host_index_bounds(rest, 0);
    if h < rest.len() {
        assert(all[head.len() + h] == rest[h]);
        assert(all.skip(head.len() + h + 1) == rest.skip(h + 1));
    }
}

proof fn lemma_host_index_bounds(args: Seq<Seq<char>>, i: int)
    requires
        0 <= i,
    ensures
        0 <= host_index(args, i) <= args.len(),
    decreases
            if i < args.len() {
                args.len() - i
            } else {
                0
            },
{
    if i < args.len() && starts_with_char(args[i], '-') {
        if takes_value(args[i]) {
            lemma_host_index_bounds(args, i + 2);
        } else {
            lemma_host_index_bounds(args, i + 1);
        }
    }
}

/// The variables that the app sets for the transport, as far as they are set.
#[derive(Debug)]
pub struct ProxyEnv {
    pub password: Option<String>,
    pub host: Option<String>,
    pub user: Option<String>,
    pub port: Option<String>,
    pub strict: Option<String>,
}

/// The variables, over texts.
pub struct EnvView {
    pub password: Option<Seq<char>>,
    pub host: Option<Seq<char>>,
    pub user: Option<Seq<char>>,
    pub port: Option<Seq<char>>,
    pub strict: Option<Seq<char>>,
}

impl View for ProxyEnv {
    type V = EnvView;

    open spec fn view(&self) -> EnvView {
        EnvView {
            password: text_option(self.password),
            host: text_option(self.host),
            user: text_option(self.user),
            port: text_option(self.port),
            strict: text_option(self.strict),
        }
    }
}

/// `first`, or `second` where there is no first.
pub open spec fn either<T>(first: Option<T>, second: Option<T>) -> Option<T> {
    match first {
        Some(t) => Some(t),
        None => second,
    }
}

/// The profile and the password for the transport: the variables go before what
/// git asked for, and the port is 22 unless a variable holds another one.
pub open spec fn proxy_profile(req: RequestView, env: EnvView) -> Result<
    (ProfileView, Seq<char>),
    Fault,
> {
    match (env.password, either(env.user, req.user)) {
        (None, _) => Err(Fault::PasswordNotSet),
        (Some(_), None) => Err(Fault::NoUser),
        (Some(password), Some(user)) => Ok(
            (
                ProfileView {
                    host: either(env.host, Some(req.host))->0,
                    port: match env.port {
                        Some(p) => match parsed_u16(p) {
                            Some(port) => port,
                            None => 22,
                        },
                        None => 22,
                    },
                    user,
                    auth: AuthKind::Password,
                    strict_host_key: env.strict == Some("1"@),
                    ..default_profile()
                },
                password,
            ),
        ),
    }
}

/// Builds the profile for the proxy from the environment and git's arguments.
pub fn profile_from_env(req: &Request, env: ProxyEnv) -> (r: Result<(Profile, String), Error>)
    ensures
        match r {
            Ok((profile, password)) => proxy_profile(req@, env@) == Ok::<
                (ProfileView, Seq<char>),
                Fault,
            >((profile@, password@)),
            Err(e) => proxy_profile(req@, env@) == Err::<(ProfileView, Seq<char>), Fault>(e@),
        },
{
    let password = match env.password {
        Some(p) => p,
        None => return Err(Error::PasswordNotSet),
    };
    let host = match env.host {
        Some(h) => h,
        None => req.host.clone(),
    };
    let user = match env.user {
        Some(u) => u,
        None => match &req.user {
            Some(u) => u.clone(),
            None => return Err(Error::NoUser),
        },
    };
    let port: u16 = match env.port {
        Some(p) => match parse_u16(chars_of(p.as_str()).as_slice()) {
            Some(port) => port,
            None => 22,
        },
        None => 22,
    };
    let strict = match env.strict {
        Some(s) => same_text(s.as_str(), "1"),
        None => false,
    };
    let mut profile = Profile::default();
    profile.host = host;
    profile.port = port;
    profile.user = user;
    profile.auth = AuthKind::Password;
    profile.strict_host_key = strict;
    Ok((profile, password))
}

/// The exit code of the transport, and what it prints when it fails. Git shows
/// the transport's stderr verbatim.
pub fn exit_code(outcome: &Result<i32, Error>) -> (r: (i32, Option<String>))
    ensures
        match outcome {
            Ok(code) => r.0 == code && r.1 is None,
            Err(e) => r.0 == 255 && text_option(r.1) == Some("ygit ssh proxy: "@ + message(e@)),
        },
{
    match outcome {
        Ok(code) => (*code, None),
        Err(e) => (255, Some(concat2("ygit ssh proxy: ", e.message().as_str()))),
    }
}

/// What the transport prints of an event: the progress of the connection, which
/// git passes through, and nothing else.
pub fn progress_line(event: &Evt) -> (r: Option<String>)
    ensures
        text_option(r) == match event@ {
            EvtView::Log(line) => Some("ygit: "@ + line),
            _ => None,
        },
{
    match event {
        Evt::Log(line) => Some(concat2("ygit: ", line.as_str())),
        _ => None,
    }
}

/// What arrives on the SSH channel.
pub enum ChannelEvent {
    Data(Vec<u8>),
    ExtendedData(Vec<u8>),
    ExitStatus(u32),
    /// The server has closed the channel, or sent the end of its data.
    Ended,
    /// Anything else the protocol knows.
    Other,
}

/// What the transport does next.
pub enum PipeAction {
    /// Send git's data to the server.
    Send(Vec<u8>),
    /// Tell the server that git has no more data.
    SendEof,
    /// Hand the server's data to git.
    Stdout(Vec<u8>),
    /// Show what the server says about errors.
    Stderr(Vec<u8>),
    /// Leave.
    Stop,
    /// Wait for what comes next.
    Wait,
}

/// The transport while it pipes: the exit code so far, and whether git's input
/// has ended.
#[derive(Clone, Copy)]
pub struct Pipe {
    pub code: i32,
    pub sent_eof: bool,
}

/// Where the transport stands after something arrived from git (`None` is the end
/// of its data).
pub open spec fn after_input(pipe: Pipe, data: Option<Vec<u8>>) -> Pipe {
    match data {
        Some(_) => pipe,
        None => Pipe { sent_eof: true, ..pipe },
    }
}

/// Where the transport stands after something arrived from the server.
pub open spec fn after_channel(pipe: Pipe, event: ChannelEvent) -> Pipe {
    match event {
        ChannelEvent::ExitStatus(status) => Pipe { code: status as i32, ..pipe },
        _ => pipe,
    }
}

impl Pipe {
    /// Nothing has arrived.
    pub fn new() -> (r: Pipe)
        ensures
            r == (Pipe { code: 0, sent_eof: false }),
    {
        Pipe { code: 0, sent_eof: false }
    }

    /// Whether git's input is still to be read.
    pub fn wants_input(&self) -> (r: bool)
        ensures
            r == !self.sent_eof,
    {
        !self.sent_eof
    }

    /// Data from git, or the end of it.
    pub fn on_input(&mut self, data: Option<Vec<u8>>) -> (r: PipeAction)
        ensures
            *final(self) == after_input(*old(self), data),
            r == match data {
                Some(bytes) => PipeAction::Send(bytes),
                None => PipeAction::SendEof,
            },
    {
        match data {
            Some(bytes) => PipeAction::Send(bytes),
            None => {
                self.sent_eof = true;
                PipeAction::SendEof
            },
        }
    }

    /// Something from the server.
    pub fn on_channel(&mut self, event: ChannelEvent) -> (r: PipeAction)
        ensures
            *final(self) == after_channel(*old(self), event),
            r == match event {
                ChannelEvent::Data(bytes) => PipeAction::Stdout(bytes),
                ChannelEvent::ExtendedData(bytes) => PipeAction::Stderr(bytes),
                ChannelEvent::ExitStatus(_) => PipeAction::Wait,
                ChannelEvent::Ended => PipeAction::Stop,
                ChannelEvent::Other => PipeAction::Wait,
            },
    {
        match event {
            ChannelEvent::Data(bytes) => PipeAction::Stdout(bytes),
            ChannelEvent::ExtendedData(bytes) => PipeAction::Stderr(bytes),
            ChannelEvent::ExitStatus(status) => {
                self.code = #[verifier::truncate]
                (status as i32);
                PipeAction::Wait
            },
            ChannelEvent::Ended => PipeAction::Stop,
            ChannelEvent::Other => PipeAction::Wait,
        }
    }
}

/// Where the transport stands after the server has sent `events`. It leaves at the
/// end of the channel or of its data, and does not see what comes after that.
pub open spec fn after_events(pipe: Pipe, events: Seq<ChannelEvent>) -> Pipe
    decreases events.len(),
{
    if events.len() == 0 || events[0] is Ended {
        pipe
    } else {
        after_events(after_channel(pipe, events[0]), events.skip(1))
    }
}

/// Git gets the last exit status that the server sent before the channel or its data
/// ended: what came before that status does not change it, and neither does what
/// comes after it.
pub proof fn law_last_status_is_the_exit_code(
    pipe: Pipe,
    earlier: Seq<ChannelEvent>,
    status: u32,
    later: Seq<ChannelEvent>,
)
    requires
        forall|i: int| 0 <= i < earlier.len() ==> !(#[trigger] earlier[i] is Ended),
        forall|i: int|
            0 <= i < later.len() && #[trigger] later[i] is ExitStatus ==> exists|j: int|
                0 <= j < i && #[trigger] later[j] is Ended,
    ensures
        after_events(pipe, earlier.push(ChannelEvent::ExitStatus(status)) + later).code
            == status as i32,
    decreases earlier.len(),
{
    let all = earlier.push(ChannelEvent::ExitStatus(status)) + later;
    if earlier.len() == 0 {
        assert(all.skip(1) == later);
        assert(all[0] == ChannelEvent::ExitStatus(status));
        lemma_status_stays(after_channel(pipe, all[0]), later);
    } else {
        let rest = earlier.skip(1);
        assert forall|i: int| 0 <= i < rest.len() implies !(#[trigger] rest[i] is Ended) by {
            assert(rest[i] == earlier[i + 1]);
        }
        assert(all[0] == earlier[0]);
        assert(all.skip(1) == rest.push(ChannelEvent::ExitStatus(status)) + later);
        law_last_status_is_the_exit_code(after_channel(pipe, earlier[0]), rest, status, later);
    }
}

proof fn lemma_status_stays(pipe: Pipe, events: Seq<ChannelEvent>)
    requires
        forall|i: int|
            0 <= i < events.len() && #[trigger] events[i] is ExitStatus ==> exists|j: int|
                0 <= j < i && #[trigger] events[j] is Ended,
    ensures
        after_events(pipe, events).code == pipe.code,
    decreases events.len(),
{
    if events.len() > 0 && !(events[0] is Ended) {
        let rest = events.skip(1);
        assert forall|i: int| 0 <= i < rest.len() && #[trigger] rest[i] is ExitStatus implies exists|
            j: int,
        |
            0 <= j < i && #[trigger] rest[j] is Ended by {
            assert(events[i + 1] is ExitStatus);
            let j = choose|j: int| 0 <= j < i + 1 && #[trigger] events[j] is Ended;
            assert(rest[j - 1] is Ended);
        }
        lemma_status_stays(after_channel(pipe, events[0]), rest);
    }
}

/// Which options of `ssh` take a value of their own: exactly those that its manual
/// says do. An option with its value glued on takes none.
pub proof fn law_which_options_take_a_value(c: char, more: Seq<char>)
    ensures
        takes_value(seq!['-', c]) <==> "BbcDEeFIiJLlmOopQRSWw"@.contains(c),
        more.len() > 0 ==> !takes_value(seq!['-', c] + more),
{
    reveal_strlit("BbcDEeFIiJLlmOopQRSWw");
    let letters = "BbcDEeFIiJLlmOopQRSWw"@;
    if is_value_letter(c) {
        assert(letters[0] == 'B' && letters[1] == 'b' && letters[2] == 'c' && letters[3] == 'D'
            && letters[4] == 'E' && letters[5] == 'e' && letters[6] == 'F' && letters[7] == 'I'
            && letters[8] == 'i' && letters[9] == 'J' && letters[10] == 'L' && letters[11] == 'l'
            && letters[12] == 'm' && letters[13] == 'O' && letters[14] == 'o' && letters[15] == 'p'
            && letters[16] == 'Q' && letters[17] == 'R' && letters[18] == 'S' && letters[19] == 'W'
            && letters[20] == 'w');
    }
}

/// `user@host` names the user and the host, and `host` alone the host.
pub proof fn law_user_and_host(user: Seq<char>, host: Seq<char>)
    requires
        !user.contains('@'),
    ensures
        user_and_host(user + "@"@ + host) == (Some(user), host),
        !host.contains('@') ==> user_and_host(host) == (None::<Seq<char>>, host),
{
    reveal_strlit("@");
    let target = user + "@"@ + host;
    assert forall|j: int| 0 <= j < user.len() implies target[j] != '@' by {
        assert(target[j] == user[j]);
    }
    lemma_before_is(target, '@', user.len() as int);
    assert(target.take(user.len() as int) =~= user);
    assert(target.skip(user.len() as int + 1) =~= host);
    if !host.contains('@') {
        assert forall|j: int| 0 <= j < host.len() implies host[j] != '@' by {
            assert(host.contains(host[j]));
        }
        lemma_before_is(host, '@', host.len() as int);
    }
}

/// What git asks of its transport, in the form in which it calls `ssh`: a port, or
/// none, the login, and the command in one argument or in several. The login is taken
/// apart and the command is put together again, with one blank between its words.
pub proof fn law_request_of_git(
    port: Seq<char>,
    user: Seq<char>,
    host: Seq<char>,
    command: Seq<char>,
    word: Seq<char>,
)
    requires
        !user.contains('@'),
        !starts_with_char(user + "@"@ + host, '-'),
    ensures
        ({
            let asked = Ok::<RequestView, Fault>(RequestView { user: Some(user), host, command });
            &&& request(seq![user + "@"@ + host, command]) == asked
            &&& request(seq!["-p"@, port, user + "@"@ + host, command]) == asked
            &&& request(seq!["-o"@, port, "-p"@, port, user + "@"@ + host, command]) == asked
        }),
        request(seq![user + "@"@ + host, command, word]) == Ok::<RequestView, Fault>(
            RequestView { user: Some(user), host, command: command + " "@ + word },
        ),
        request(seq![user + "@"@ + host]) == Err::<RequestView, Fault>(Fault::NoCommandArgument),
        request(seq!["-p"@, port]) == Err::<RequestView, Fault>(Fault::NoHostArgument),
        request(seq![]) == Err::<RequestView, Fault>(Fault::NoHostArgument),
{
    reveal_strlit("-p");
    reveal_strlit("-o");
    law_user_and_host(user, host);
    let login = user + "@"@ + host;
    let plain = seq![login, command];
    assert(plain.skip(1) =~= seq![command]);
    assert(joined(seq![command], " "@) == command);
    let with_port = seq!["-p"@, port] + plain;
    law_options_are_skipped("-p"@, port, plain);
    assert(with_port =~= seq!["-p"@, port, login, command]);
    law_options_are_skipped("-o"@, port, with_port);
    assert(seq!["-o"@, port] + with_port =~= seq!["-o"@, port, "-p"@, port, login, command]);
    let long = seq![login, command, word];
    assert(long.skip(1) =~= seq![command, word]);
    assert(seq![command, word].drop_last() =~= seq![command]);
    assert(joined(seq![command, word], " "@) == command + " "@ + word);
    let none = Seq::<Seq<char>>::empty();
    law_options_are_skipped("-p"@, port, none);
    assert(seq!["-p"@, port] + none =~= seq!["-p"@, port]);
}

/// Where no variable is set but the password, the transport connects as git asks, to
/// port 22, and trusts a new host key; without a password, or a user, it does not
/// connect at all. A variable that is set goes before what git asks, and a port that
/// is no number counts as 22.
pub proof fn law_transport_without_variables(
    req: RequestView,
    password: Seq<char>,
    env: EnvView,
)
    ensures
        ({
            let bare = EnvView {
                password: Some(password),
                host: None,
                user: None,
                port: None,
                strict: None,
            };
            match req.user {
                Some(user) => {
                    &&& proxy_profile(req, bare) matches Ok((profile, with))
                    &&& with == password
                    &&& profile.user == user
                    &&& profile.host == req.host
                    &&& profile.port == 22
                    &&& profile.auth == AuthKind::Password
                    &&& !profile.strict_host_key
                },
                None => proxy_profile(req, bare) == Err::<(ProfileView, Seq<char>), Fault>(
                    Fault::NoUser,
                ),
            }
        }),
        env.password is None ==> proxy_profile(req, env) == Err::<(ProfileView, Seq<char>), Fault>(
            Fault::PasswordNotSet,
        ),
        proxy_profile(req, env) matches Ok((profile, with)) ==> {
            &&& env.password == Some(with)
            &&& env.user matches Some(user) ==> profile.user == user
            &&& env.host matches Some(host) ==> profile.host == host
            &&& env.host is None ==> profile.host == req.host
            &&& env.port matches Some(p) ==> (parsed_u16(p) is None ==> profile.port == 22)
                && (parsed_u16(p) matches Some(port) ==> profile.port == port)
            &&& profile.strict_host_key <==> env.strict == Some("1"@)
        },
{
}

/// What git sends goes to the server until git has no more; then the end is told, once
/// git's input is no longer read, and the exit code is not touched by it.
pub proof fn law_input_ends_once(pipe: Pipe, data: Option<Vec<u8>>)
    ensures
        after_input(pipe, data).code == pipe.code,
        data is Some ==> after_input(pipe, data) == pipe,
        data is None ==> after_input(pipe, data).sent_eof,
{
}

/// The command is every argument behind the login, with one blank between neighbours.
pub proof fn law_command_is_all_that_follows(login: Seq<char>, words: Seq<Seq<char>>)
    requires
        !starts_with_char(login, '-'),
        words.len() > 0,
    ensures
        request(seq![login] + words) matches Ok(asked) && asked.command == joined(words, " "@)
            && (asked.user, asked.host) == user_and_host(login),
{
    let all = seq![login] + words;
    assert(all[0] == login);
    assert(all.skip(1) =~= words);
}

} // verus!
