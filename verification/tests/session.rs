//! The session with the server: trust, login, commands, and the worker.
use ygit::auth::{
    check_profile, default_key_names, handshake_error, password_result, plan_login, KeyRing, Login,
};
use ygit::config::{AuthKind, Config, Profile};
use ygit::error::Error;
use ygit::hostkey::{learned, names_certificate, Client, HostKey, KeyVerdict};
use ygit::proxy::ChannelEvent;
use ygit::remote::{command_result, Capture};
use ygit::ssh::{Cmd, Evt};
use ygit::worker::{Step, Worker, PROBE};

fn client(strict: bool) -> Client {
    Client { host: "nas".to_string(), port: 22, strict }
}

fn fp() -> String {
    "SHA256:x".to_string()
}

fn profile(auth: AuthKind, key_path: &str) -> Profile {
    Profile {
        host: "nas".to_string(),
        user: "me".to_string(),
        auth,
        key_path: key_path.to_string(),
        ..Default::default()
    }
}

#[test]
fn a_changed_key_is_always_rejected() {
    for strict in [false, true] {
        let (verdict, line) =
            client(strict).check_server_key(&HostKey::Mismatch(fp(), "changed".to_string()));
        assert!(verdict == KeyVerdict::Reject);
        assert_eq!(
            line.unwrap(),
            "HOST KEY MISMATCH for nas:22 (SHA256:x): changed - refusing to connect"
        );
        let (verdict, line) = client(strict).check_server_key(&HostKey::Known(fp()));
        assert!(verdict == KeyVerdict::Accept);
        assert_eq!(line.unwrap(), "host key known (SHA256:x)");
        let (verdict, line) = client(strict).check_server_key(&HostKey::Certificate);
        assert!(verdict == KeyVerdict::Reject);
        assert_eq!(line.unwrap(), "host presented a certificate; rejected");
    }
}

#[test]
fn an_unknown_key_is_learned_unless_strict() {
    let (verdict, line) = client(false).check_server_key(&HostKey::Unknown(fp()));
    assert!(verdict == KeyVerdict::Learn);
    assert!(line.is_none());
    let (verdict, line) = client(true).check_server_key(&HostKey::Unknown(fp()));
    assert!(verdict == KeyVerdict::Reject);
    assert_eq!(
        line.unwrap(),
        "host key SHA256:x not in known_hosts and strict mode is on; rejected"
    );
    assert_eq!(
        learned("SHA256:x", &Ok(())),
        "new host key SHA256:x trusted and written to known_hosts"
    );
    assert_eq!(
        learned("SHA256:x", &Err("disk full".to_string())),
        "could not record host key SHA256:x: disk full"
    );
}

/// An Ed25519 key in the encoding of the protocol.
fn encoded_key() -> Vec<u8> {
    let mut bytes = vec![0, 0, 0, 11];
    bytes.extend_from_slice(b"ssh-ed25519");
    bytes.extend_from_slice(&[0, 0, 0, 32]);
    bytes.extend_from_slice(&[
        0xb3, 0x3e, 0xae, 0xf3, 0x7e, 0xa2, 0xdf, 0x7c, 0xaa, 0x01, 0x0d, 0xef, 0xde, 0xa3, 0x4e,
        0x24, 0x1f, 0x65, 0xf1, 0xb5, 0x29, 0xa4, 0xf4, 0x3e, 0xd1, 0x43, 0x27, 0xf5, 0xc5, 0x4a,
        0xab, 0x62,
    ]);
    bytes
}

#[test]
fn a_key_is_told_by_its_fingerprint() {
    let print = "SHA256:UCUiLr7Pjs9wFFJMDByLgc3NrtdU344OgUM45wZPcIQ";
    let bytes = encoded_key();
    assert!(matches!(HostKey::presented(Some(&bytes), Ok(true)), HostKey::Known(fp) if fp == print));
    assert!(
        matches!(HostKey::presented(Some(&bytes), Ok(false)), HostKey::Unknown(fp) if fp == print)
    );
    assert!(matches!(
        HostKey::presented(Some(&bytes), Err("changed".to_string())),
        HostKey::Mismatch(fp, why) if fp == print && why == "changed"
    ));
    assert!(matches!(HostKey::presented(None, Ok(true)), HostKey::Certificate));
    assert!(matches!(HostKey::presented(Some(b"junk"), Ok(true)), HostKey::Certificate));
    assert!(matches!(HostKey::recorded(Some(fp()), Ok(true)), HostKey::Known(_)));
}

/// A certificate whose signature key is a certificate again, `depth` times.
fn nested_certificate(label: &str, depth: usize) -> Vec<u8> {
    fn field(out: &mut Vec<u8>, bytes: &[u8]) {
        out.extend_from_slice(&(bytes.len() as u32).to_be_bytes());
        out.extend_from_slice(bytes);
    }
    let mut inner = encoded_key();
    for _ in 0..depth {
        let mut v = Vec::new();
        field(&mut v, label.as_bytes());
        field(&mut v, b"");
        field(&mut v, &[0; 32]);
        v.extend_from_slice(&[0; 8]);
        v.extend_from_slice(&1u32.to_be_bytes());
        field(&mut v, b"");
        field(&mut v, b"");
        v.extend_from_slice(&[0; 8]);
        v.extend_from_slice(&[0xff; 8]);
        field(&mut v, b"");
        field(&mut v, b"");
        field(&mut v, b"");
        field(&mut v, &inner);
        let mut signature = Vec::new();
        field(&mut signature, b"ssh-ed25519");
        field(&mut signature, &[0; 64]);
        field(&mut v, &signature);
        inner = v;
    }
    inner
}

#[test]
fn a_deeply_nested_certificate_is_no_plain_key() {
    let deep = nested_certificate("ssh-ed25519-cert-v01@openssh.com", 2000);
    assert!(matches!(HostKey::presented(Some(&deep), Ok(true)), HostKey::Certificate));
}

#[test]
fn a_certificate_is_no_plain_key_whatever_its_label() {
    for label in ["ssh-ed25519-cert-v01@openssh.com", "-cert-v01@openssh.com", "x-cert-v01@y"] {
        let bytes = nested_certificate(label, 1);
        assert!(names_certificate(&bytes));
        assert!(matches!(HostKey::presented(Some(&bytes), Ok(true)), HostKey::Certificate));
        assert!(!names_certificate(&bytes[..4 + label.len() - 1]));
    }
    assert!(!names_certificate(&encoded_key()));
    assert!(!names_certificate(b""));
    // The mark counts in the label only.
    let mut key = Vec::new();
    for part in [b"key@host".as_slice(), b"-cert-v01@"] {
        key.extend_from_slice(&(part.len() as u32).to_be_bytes());
        key.extend_from_slice(part);
    }
    assert!(!names_certificate(&key));
    assert!(matches!(HostKey::presented(Some(&key), Ok(true)), HostKey::Known(_)));
}

#[test]
fn a_connection_needs_a_host_and_a_user() {
    let mut p = profile(AuthKind::Key, "");
    assert_eq!(check_profile(&p).unwrap(), "connecting to me@nas:22");
    p.user = " ".to_string();
    assert_eq!(check_profile(&p).err().unwrap().message(), "user is empty");
    p.host = "\t".to_string();
    assert_eq!(check_profile(&p).err().unwrap().message(), "host is empty");
    p.host = "nas".to_string();
    assert_eq!(
        handshake_error(&p, "refused").message(),
        "tcp/ssh handshake to nas:22: refused"
    );
}

#[test]
fn a_password_login_needs_a_password() {
    let p = profile(AuthKind::Password, "");
    assert!(matches!(plan_login(&p, "pw", "", &[]), Ok(Login::Password)));
    assert_eq!(
        plan_login(&p, "", "", &[]).err().unwrap().message(),
        "password auth selected but no password entered"
    );
    assert_eq!(password_result(true).unwrap(), "authenticated with password");
    assert_eq!(password_result(false).err().unwrap().message(), "password rejected by server");
}

fn ring(p: &Profile, passphrase: &str, usual: &[String]) -> KeyRing {
    match plan_login(p, "", passphrase, usual) {
        Ok(Login::Keys(ring)) => ring,
        _ => panic!("no keys"),
    }
}

#[test]
fn the_keys_are_tried_in_order_and_the_last_failure_is_told() {
    let usual = vec!["/a".to_string(), "/b".to_string()];
    let p = profile(AuthKind::Key, "  ");
    let mut keys = ring(&p, "", &usual);
    assert!(keys.passphrase.is_none());
    assert_eq!(keys.next_key().unwrap(), "/a");
    keys.unreadable("no such file");
    assert_eq!(keys.next_key().unwrap(), "/b");
    keys.rejected();
    assert!(keys.next_key().is_none());
    assert_eq!(keys.failure().message(), "/b: key rejected");
    assert_eq!(KeyRing::accepted("/b"), "authenticated with /b");

    let mut keys = ring(&p, "", &usual[..1]);
    keys.unreadable("no such file");
    assert_eq!(keys.failure().message(), "/a: no such file");
    assert_eq!(ring(&p, "", &usual).failure().message(), "public key auth failed");
}

#[test]
fn a_named_key_is_the_only_one_tried() {
    let p = profile(AuthKind::Key, " /mine ");
    let keys = ring(&p, "pp", &["/a".to_string()]);
    assert_eq!(keys.candidates, vec!["/mine"]);
    assert_eq!(keys.passphrase.as_deref(), Some("pp"));
    let none = plan_login(&profile(AuthKind::Key, ""), "", "", &[]);
    assert_eq!(
        none.err().unwrap().message(),
        "no private key found; set one in the profile or use password auth"
    );
    assert_eq!(default_key_names(), vec!["id_ed25519", "id_ecdsa", "id_rsa"]);
}

#[test]
fn a_command_keeps_both_outputs_and_its_status() {
    let mut c = Capture::new();
    assert!(c.on_event(ChannelEvent::Data(b"a".to_vec())));
    assert!(c.on_event(ChannelEvent::Other));
    assert!(c.on_event(ChannelEvent::ExtendedData(b"\xffb".to_vec())));
    assert!(c.on_event(ChannelEvent::ExitStatus(0)));
    assert!(!c.on_event(ChannelEvent::Ended));
    assert_eq!(c.finish().unwrap(), "a\u{fffd}b");
    let mut c = Capture::new();
    c.on_event(ChannelEvent::Data(b" no \n".to_vec()));
    c.on_event(ChannelEvent::ExitStatus(6));
    assert_eq!(c.finish().err().unwrap().message(), "remote exit 6: no");
    assert_eq!(command_result(None, " x ").unwrap(), " x ");
}

fn list() -> Cmd {
    Cmd::ListRepos { roots: vec!["/g".to_string()] }
}

#[test]
fn without_a_session_nothing_runs() {
    let w = Worker::new();
    assert!(matches!(w.announce(), Evt::Busy(true)));
    match w.begin(&list()) {
        Step::Reply(events) => {
            assert_eq!(events.len(), 2);
            assert!(matches!(&events[0], Evt::Failed(e) if e == "not connected"));
            assert!(matches!(events[1], Evt::Busy(false)));
        }
        _ => panic!("ran"),
    }
    assert!(matches!(w.begin(&Cmd::Disconnect), Step::Disconnect));
}

#[test]
fn a_session_comes_and_goes() {
    let mut w = Worker::new();
    let events = w.session_up(Ok(" Linux nas \n".to_string()));
    assert!(w.connected);
    assert!(matches!(&events[0], Evt::Connected { banner } if banner == "Linux nas"));
    assert!(matches!(w.begin(&list()), Step::Run(_)));
    let events = w.session_up(Err(Error::RemoteExit(1, "x".to_string())));
    assert!(
        matches!(&events[0], Evt::Connected { banner } if banner == "(probe failed: remote exit 1: x)")
    );
    let events = w.session_failed(Error::HostEmpty);
    assert!(!w.connected);
    assert!(matches!(&events[0], Evt::Failed(e) if e == "host is empty"));
    assert!(matches!(events[1], Evt::Busy(false)));
    let events = w.session_down();
    assert!(matches!(events[0], Evt::Disconnected));
    assert!(PROBE.starts_with("uname -a"));
}

#[test]
fn a_scan_is_told_with_its_count() {
    let w = Worker { connected: true };
    let events = w.finish(&list(), Ok("/g/b.git\t1\t\t\n/g/a.git\t1\t\t\n<<<NOGIT\n".to_string()));
    assert_eq!(events.len(), 4);
    assert!(matches!(&events[0], Evt::Log(l) if l == "found 2 repositories"));
    assert!(matches!(&events[1], Evt::Log(l) if l.starts_with("git was not found on the server")));
    assert!(matches!(&events[2], Evt::Repos(l) if l.no_git && l.repos[0].name == "a"));
    assert!(matches!(events[3], Evt::Busy(false)));
    let events = w.finish(&list(), Err(Error::RemoteExit(2, "x".to_string())));
    assert!(matches!(&events[0], Evt::Failed(e) if e == "listing failed: remote exit 2: x"));
}

#[test]
fn a_creation_and_a_deletion_are_told_with_their_paths() {
    let w = Worker { connected: true };
    let create = Cmd::CreateRepo {
        root: "/g".to_string(),
        name: "p".to_string(),
        description: String::new(),
        shared: false,
    };
    let hint = "hint: Using 'master' as the name for the initial branch\n/g/p.git\n";
    for out in ["/g/p.git\n", "", hint] {
        let events = w.finish(&create, Ok(out.to_string()));
        assert!(matches!(&events[0], Evt::Log(l) if l == "created /g/p.git"));
        assert!(matches!(&events[1], Evt::Created { path } if path == "/g/p.git"));
        assert!(matches!(events[2], Evt::Busy(false)));
    }
    let delete = |path: &str| Cmd::DeleteRepo {
        path: path.to_string(),
        roots: vec!["/g".to_string()],
        whole_tree: false,
    };
    for out in ["/g/p.git\n", "", "warning: x\n/g/p.git\n"] {
        let events = w.finish(&delete("/g/p.git"), Ok(out.to_string()));
        assert!(matches!(&events[0], Evt::Log(l) if l == "deleted /g/p.git"));
        assert!(matches!(&events[1], Evt::Deleted { path } if path == "/g/p.git"));
    }
    match w.begin(&delete("/etc")) {
        Step::Reply(events) => assert!(matches!(
            &events[0],
            Evt::Failed(e)
                if e == "delete failed: /etc is not inside any configured repository root"
        )),
        _ => panic!("ran"),
    }
}

#[test]
fn details_and_commands_are_told_under_their_names() {
    let w = Worker { connected: true };
    let detail = Cmd::Detail { path: "/g/p.git".to_string() };
    let events = w.finish(&detail, Ok("<<<SIZE\n1K\n".to_string()));
    assert!(matches!(&events[0], Evt::Detail(p, d) if p == "/g/p.git" && d.size == "1K"));
    let exec = Cmd::Exec { label: "l".to_string(), script: "uptime".to_string() };
    assert!(matches!(w.begin(&exec), Step::Run(s) if s == "uptime"));
    let events = w.finish(&exec, Ok(" up ".to_string()));
    assert!(
        matches!(&events[0], Evt::Output { label, text } if label == "l" && text == " up ")
    );
    let events = w.finish(&exec, Err(Error::Outside("lost".to_string())));
    assert!(matches!(&events[0], Evt::Failed(e) if e == "exec failed: lost"));
    let events = w.finish(&detail, Err(Error::Outside("lost".to_string())));
    assert!(matches!(&events[0], Evt::Failed(e) if e == "detail failed: lost"));
}

#[test]
fn a_configuration_always_has_a_current_profile() {
    let c = Config::restore(None);
    assert_eq!(c.profiles.len(), 1);
    assert_eq!(c.current().name, "synology");
    assert_eq!(c.current().port, 22);
    assert_eq!(c.current().repo_roots, vec!["/volume1/git", "/volume1/homes"]);
    let mut stored = Config::restore(None);
    stored.add_profile();
    assert_eq!(stored.current().name, "profile 2");
    stored.selected = 9;
    assert_eq!(stored.current().name, "profile 2");
    stored.current_mut().host = "h".to_string();
    assert_eq!(stored.profiles[1].host, "h");
    let mut c = Config::restore(Some(stored));
    assert_eq!(c.selected, 0);
    c.remove_profile();
    assert_eq!(c.profiles.len(), 1);
    c.remove_profile();
    assert_eq!(c.profiles.len(), 1);
    assert_eq!(c.clone().current().name, "profile 2");
}
