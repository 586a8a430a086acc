//! The git transport: its command line, its environment and its pipe.
use ygit::clone::transport;
use ygit::config::{AuthKind, Profile};
use ygit::error::Error;
use ygit::proxy::{
    exit_code, parse_args, profile_from_env, progress_line, ChannelEvent, Pipe, PipeAction,
    ProxyEnv, Request, ENV_HOST, ENV_PASSWORD, ENV_PORT, ENV_STRICT, ENV_USER,
};
use ygit::ssh::Evt;

fn args(list: &[&str]) -> Vec<String> {
    list.iter().map(|s| s.to_string()).collect()
}

fn no_env() -> ProxyEnv {
    ProxyEnv { password: None, host: None, user: None, port: None, strict: None }
}

fn request(user: Option<&str>) -> Request {
    Request {
        user: user.map(|u| u.to_string()),
        host: "nas".to_string(),
        command: "git-upload-pack '/p.git'".to_string(),
    }
}

#[test]
fn option_values_are_not_taken_for_the_host() {
    let r = parse_args(&args(&[
        "-p",
        "2222",
        "-o",
        "SendEnv=GIT_PROTOCOL",
        "nas.local",
        "git-upload-pack '/volume1/git/p.git'",
    ]))
    .unwrap();
    assert_eq!(r.host, "nas.local");
    assert_eq!(r.user, None);
    assert_eq!(r.command, "git-upload-pack '/volume1/git/p.git'");
}

#[test]
fn user_is_split_off_the_host() {
    let r = parse_args(&args(&["me@nas.local", "git-upload-pack", "/p.git"])).unwrap();
    assert_eq!(r.user.as_deref(), Some("me"));
    assert_eq!(r.host, "nas.local");
    // A command split over several arguments is rejoined.
    assert_eq!(r.command, "git-upload-pack /p.git");
}

#[test]
fn a_missing_host_or_command_is_an_error() {
    assert!(parse_args(&args(&[])).is_err());
    assert!(parse_args(&args(&["nas.local"])).is_err());
}

#[test]
fn a_missing_host_and_a_missing_command_are_told_apart() {
    assert!(matches!(parse_args(&args(&["-p", "22"])), Err(Error::NoHostArgument)));
    assert!(matches!(parse_args(&args(&["-p22", "nas"])), Err(Error::NoCommandArgument)));
    assert_eq!(
        parse_args(&args(&[])).err().unwrap().message(),
        "no host in the ssh arguments"
    );
    assert_eq!(
        parse_args(&args(&["nas"])).err().unwrap().message(),
        "no remote command in the ssh arguments"
    );
}

#[test]
fn options_are_skipped_whatever_their_values() {
    let plain = parse_args(&args(&["nas", "cmd"])).unwrap();
    let with = parse_args(&args(&["-l", "-x", "-4", "nas", "cmd"])).unwrap();
    assert_eq!(plain.host, with.host);
    assert_eq!(plain.command, with.command);
    // After the host, a dash starts no option.
    let r = parse_args(&args(&["nas", "-p", "22"])).unwrap();
    assert_eq!(r.command, "-p 22");
}

#[test]
fn the_environment_goes_before_the_arguments() {
    let env = ProxyEnv {
        password: Some("secret".to_string()),
        host: Some("other".to_string()),
        user: Some("ada".to_string()),
        port: Some("2222".to_string()),
        strict: Some("1".to_string()),
    };
    let (p, password) = profile_from_env(&request(Some("me")), env).unwrap();
    assert_eq!((p.host.as_str(), p.user.as_str(), p.port), ("other", "ada", 2222));
    assert!(p.strict_host_key);
    assert!(p.auth == AuthKind::Password);
    assert_eq!(password, "secret");
}

#[test]
fn what_the_environment_leaves_out_is_filled_in() {
    let env = ProxyEnv {
        password: Some(String::new()),
        port: Some("65536".to_string()),
        strict: Some("yes".to_string()),
        ..no_env()
    };
    let (p, _) = profile_from_env(&request(Some("me")), env).unwrap();
    assert_eq!((p.host.as_str(), p.user.as_str(), p.port), ("nas", "me", 22));
    assert!(!p.strict_host_key);
}

#[test]
fn a_missing_password_or_user_is_an_error() {
    let e = profile_from_env(&request(None), no_env()).err().unwrap();
    assert_eq!(e.message(), "YGIT_PROXY_PASSWORD is not set; start the clone from the app");
    let env = ProxyEnv { password: Some("x".to_string()), ..no_env() };
    let e = profile_from_env(&request(None), env).err().unwrap();
    assert_eq!(e.message(), "no user for the connection");
}

#[test]
fn the_transport_of_a_password_profile_reaches_its_server() {
    let profile = Profile {
        host: " nas ".to_string(),
        port: 2222,
        user: "ada".to_string(),
        auth: AuthKind::Password,
        strict_host_key: true,
        ..Default::default()
    };
    let (command, env) = transport(&profile, "pw", Ok("/opt/my apps/ygit".to_string())).unwrap();
    assert_eq!(command, "'/opt/my apps/ygit' --ssh-proxy");
    let get = |name: &str| env.iter().find(|(k, _)| k == name).map(|(_, v)| v.clone());
    assert_eq!(get(ENV_HOST).as_deref(), Some("nas"));
    assert_eq!(get(ENV_PORT).as_deref(), Some("2222"));
    assert_eq!(get(ENV_USER).as_deref(), Some("ada"));
    assert_eq!(get(ENV_STRICT).as_deref(), Some("1"));
    assert_eq!(get(ENV_PASSWORD).as_deref(), Some("pw"));

    let back = ProxyEnv {
        password: get(ENV_PASSWORD),
        host: get(ENV_HOST),
        user: get(ENV_USER),
        port: get(ENV_PORT),
        strict: get(ENV_STRICT),
    };
    let (p, password) = profile_from_env(&request(None), back).unwrap();
    assert_eq!((p.host.as_str(), p.port, p.user.as_str()), ("nas", 2222, "ada"));
    assert!(p.strict_host_key);
    assert_eq!(password, "pw");
}

#[test]
fn a_password_profile_needs_a_password_and_the_program() {
    let profile = Profile { auth: AuthKind::Password, ..Default::default() };
    assert_eq!(
        transport(&profile, "", Ok("x".to_string())).err().unwrap().message(),
        "this profile logs in with a password; connect first so the clone can reuse it"
    );
    assert_eq!(
        transport(&profile, "pw", Err("gone".to_string())).err().unwrap().message(),
        "cannot locate ygit itself: gone"
    );
    // A key profile asks for neither.
    let (command, env) = transport(&Profile::default(), "", Err("gone".to_string())).unwrap();
    assert_eq!(command, "ssh -p 22 -o BatchMode=yes -o StrictHostKeyChecking=accept-new");
    assert!(env.is_empty());
}

#[test]
fn the_pipe_passes_data_on_and_keeps_the_last_status() {
    let mut pipe = Pipe::new();
    assert!(pipe.wants_input());
    assert!(matches!(pipe.on_input(Some(vec![1])), PipeAction::Send(b) if b == vec![1]));
    assert!(matches!(pipe.on_input(None), PipeAction::SendEof));
    assert!(!pipe.wants_input());
    assert!(matches!(pipe.on_channel(ChannelEvent::Data(vec![2])), PipeAction::Stdout(b) if b == vec![2]));
    assert!(matches!(pipe.on_channel(ChannelEvent::ExtendedData(vec![3])), PipeAction::Stderr(b) if b == vec![3]));
    assert!(matches!(pipe.on_channel(ChannelEvent::ExitStatus(1)), PipeAction::Wait));
    assert!(matches!(pipe.on_channel(ChannelEvent::Other), PipeAction::Wait));
    assert!(matches!(pipe.on_channel(ChannelEvent::ExitStatus(7)), PipeAction::Wait));
    assert!(matches!(pipe.on_channel(ChannelEvent::Ended), PipeAction::Stop));
    assert_eq!(pipe.code, 7);
}

#[test]
fn the_pipe_stops_at_the_end_of_the_data() {
    let mut pipe = Pipe::new();
    pipe.on_channel(ChannelEvent::ExitStatus(4));
    assert!(matches!(pipe.on_channel(ChannelEvent::Ended), PipeAction::Stop));
    assert_eq!(pipe.code, 4);
}

#[test]
fn a_status_beyond_the_signed_range_wraps() {
    let mut pipe = Pipe::new();
    pipe.on_channel(ChannelEvent::ExitStatus(u32::MAX));
    assert_eq!(pipe.code, -1);
}

#[test]
fn a_failure_of_the_transport_is_255() {
    assert_eq!(exit_code(&Ok(3)), (3, None));
    let (code, line) = exit_code(&Err(Error::NoUser));
    assert_eq!(code, 255);
    assert_eq!(line.unwrap(), "ygit ssh proxy: no user for the connection");
    assert_eq!(progress_line(&Evt::Log("hi".to_string())).unwrap(), "ygit: hi");
    assert!(progress_line(&Evt::Disconnected).is_none());
}
