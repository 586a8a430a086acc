//! Logging in: with the password, or with the private keys one after another.
use vstd::prelude::*;
use crate::config::{clone_texts, AuthKind, Profile, ProfileView};
use crate::error::{concat2, concat4, outcome, Error, Fault};
use crate::text::{
    chars_of, decimal, is_blank, last_field, law_last_field, lemma_decimal_value,
    lemma_parsed_decimal, number, parsed_u16, push_text, starts_with, text_of, text_option, texts, trim, trimmed,
};

verus! {

/// The private keys tried in order when the profile does not name one, as they
/// are called in `~/.ssh`.
pub open spec fn usual_keys() -> Seq<Seq<char>> {
    seq!["id_ed25519"@, "id_ecdsa"@, "id_rsa"@]
}

/// The names of the private keys tried in order when the profile does not name
/// one.
pub fn default_key_names() -> (r: Vec<String>)
    ensures
        texts(r@) == usual_keys(),
{
    let r: Vec<String> = vec![
        "id_ed25519".to_string(),
        "id_ecdsa".to_string(),
        "id_rsa".to_string(),
    ];
    assert(texts(r@) == usual_keys());
    r
}

/// `user@host:port`.
pub open spec fn address(profile: ProfileView) -> Seq<char> {
    profile.user + "@"@ + profile.host + ":"@ + decimal(profile.port as nat)
}

/// What is logged before a connection is opened, or why it cannot be.
pub fn check_profile(profile: &Profile) -> (r: Result<String, Error>)
    ensures
        outcome(r) == if is_blank(profile@.host) {
            Err::<Seq<char>, Fault>(Fault::HostEmpty)
        } else if is_blank(profile@.user) {
            Err(Fault::UserEmpty)
        } else {
            Ok("connecting to "@ + address(profile@))
        },
{
    let host = chars_of(profile.host.as_str());
    if trim(host.as_slice()).len() == 0 {
        return Err(Error::HostEmpty);
    }
    let user = chars_of(profile.user.as_str());
    if trim(user.as_slice()).len() == 0 {
        return Err(Error::UserEmpty);
    }
    let mut at = concat4(profile.user.as_str(), "@", profile.host.as_str(), ":");
    push_text(&mut at, number(profile.port as u64).as_str());
    Ok(concat2("connecting to ", at.as_str()))
}

/// Why no connection came about, when `why` is what went wrong.
pub fn handshake_error(profile: &Profile, why: &str) -> (r: Error)
    ensures
        r@ == Fault::Outside(
            "tcp/ssh handshake to "@ + profile@.host + ":"@ + decimal(profile@.port as nat) + ": "@
                + why@,
        ),
{
    let mut text = concat4(
        "tcp/ssh handshake to ",
        profile.host.as_str(),
        ":",
        number(profile.port as u64).as_str(),
    );
    push_text(&mut text, ": ");
    push_text(&mut text, why);
    Error::Outside(text)
}

/// The private keys to try, the one whose turn it is, and what became of the one
/// before it.
pub struct KeyRing {
    pub candidates: Vec<String>,
    pub tried: usize,
    pub passphrase: Option<String>,
    pub last: Option<Error>,
}

/// The private keys, over texts.
pub struct RingView {
    pub candidates: Seq<Seq<char>>,
    pub tried: int,
    pub passphrase: Option<Seq<char>>,
    pub last: Option<Fault>,
}

impl View for KeyRing {
    type V = RingView;

    open spec fn view(&self) -> RingView {
        RingView {
            candidates: texts(self.candidates@),
            tried: self.tried as int,
            passphrase: text_option(self.passphrase),
            last: match self.last {
                Some(e) => Some(e@),
                None => None,
            },
        }
    }
}

/// `fault` says that the key at `path` could not be read or was not accepted.
pub open spec fn blames(fault: Fault, path: Seq<char>) -> bool {
    match fault {
        Fault::KeyUnreadable(p, _) => p == path,
        Fault::KeyRejected(p) => p == path,
        _ => false,
    }
}

impl RingView {
    /// There is a key to try, and the last failure is that of the key before the
    /// one whose turn it is.
    pub open spec fn valid(self) -> bool {
        &&& self.candidates.len() > 0
        &&& 0 <= self.tried <= self.candidates.len()
        &&& if self.tried == 0 {
            self.last is None
        } else {
            self.last is Some && blames(self.last->0, self.candidates[self.tried - 1])
        }
    }

    /// The key whose turn it is.
    pub open spec fn turn(self) -> Option<Seq<char>> {
        if self.tried < self.candidates.len() {
            Some(self.candidates[self.tried])
        } else {
            None
        }
    }

    /// With the key whose turn it was behind it.
    pub open spec fn after(self, failure: Fault) -> RingView {
        RingView { tried: self.tried + 1, last: Some(failure), ..self }
    }
}

/// How to log in.
pub enum Login {
    Password,
    Keys(KeyRing),
}

/// How to log in, over texts.
pub enum LoginView {
    Password,
    Keys(RingView),
}

impl View for Login {
    type V = LoginView;

    open spec fn view(&self) -> LoginView {
        match self {
            Login::Password => LoginView::Password,
            Login::Keys(ring) => LoginView::Keys(ring@),
        }
    }
}

/// The keys to try: the one the profile names, or else the usual ones that are
/// there.
pub open spec fn candidates(profile: ProfileView, usual: Seq<Seq<char>>) -> Seq<Seq<char>> {
    if is_blank(profile.key_path) {
        usual
    } else {
        seq![trimmed(profile.key_path)]
    }
}

/// How a profile logs in.
pub open spec fn login(
    profile: ProfileView,
    password: Seq<char>,
    passphrase: Seq<char>,
    usual: Seq<Seq<char>>,
) -> Result<LoginView, Fault> {
    match profile.auth {
        AuthKind::Password => if password.len() == 0 {
            Err(Fault::PasswordMissing)
        } else {
            Ok(LoginView::Password)
        },
        AuthKind::Key => if candidates(profile, usual).len() == 0 {
            Err(Fault::NoKey)
        } else {
            Ok(
                LoginView::Keys(
                    RingView {
                        candidates: candidates(profile, usual),
                        tried: 0,
                        passphrase: if passphrase.len() == 0 {
                            None
                        } else {
                            Some(passphrase)
                        },
                        last: None,
                    },
                ),
            )
        },
    }
}

/// Decides how to log in. `usual` are the usual private keys that are there.
pub fn plan_login(profile: &Profile, password: &str, passphrase: &str, usual: &[String]) -> (r:
    Result<Login, Error>)
    ensures
        match r {
            Ok(l) => login(profile@, password@, passphrase@, texts(usual@)) == Ok::<
                LoginView,
                Fault,
            >(l@),
            Err(e) => login(profile@, password@, passphrase@, texts(usual@)) == Err::<
                LoginView,
                Fault,
            >(e@),
        },
        r matches Ok(Login::Keys(ring)) ==> ring@.valid(),
{
    match profile.auth {
        AuthKind::Password => {
            if password.is_empty() {
                return Err(Error::PasswordMissing);
            }
            Ok(Login::Password)
        },
        AuthKind::Key => {
            let key_chars = chars_of(profile.key_path.as_str());
            let key = trim(key_chars.as_slice());
            let list = if key.len() == 0 {
                clone_texts(usual)
            } else {
                let one: Vec<String> = vec![text_of(key)];
                assert(texts(one@) == seq![key@]);
                one
            };
            assert(texts(list@) == candidates(profile@, texts(usual@)));
            assert(texts(list@).len() == list@.len());
            if list.len() == 0 {
                return Err(Error::NoKey);
            }
            let passphrase = if passphrase.is_empty() {
                None
            } else {
                Some(passphrase.to_string())
            };
            Ok(Login::Keys(KeyRing { candidates: list, tried: 0, passphrase, last: None }))
        },
    }
}

/// What the server's answer to the password means: what is logged, or the error.
pub fn password_result(success: bool) -> (r: Result<String, Error>)
    ensures
        outcome(r) == if success {
            Ok::<Seq<char>, Fault>("authenticated with password"@)
        } else {
            Err(Fault::PasswordRejected)
        },
{
    if success {
        Ok("authenticated with password".to_string())
    } else {
        Err(Error::PasswordRejected)
    }
}

impl KeyRing {
    /// The key whose turn it is; none when every key has been tried.
    pub fn next_key(&self) -> (r: Option<&String>)
        ensures
            match r {
                Some(path) => self@.turn() == Some(path@),
                None => self@.turn() is None,
            },
    {
        if self.tried < self.candidates.len() {
            assert(texts(self.candidates@)[self.tried as int] == self.candidates@[self.tried as int]@);
            Some(&self.candidates[self.tried])
        } else {
            None
        }
    }

    /// The key whose turn it is could not be read.
    pub fn unreadable(&mut self, why: &str)
        requires
            old(self)@.valid(),
            old(self)@.turn() is Some,
        ensures
            final(self)@ == old(self)@.after(Fault::KeyUnreadable(old(self)@.turn()->0, why@)),
            final(self)@.valid(),
    {
        assert(self.tried < self.candidates.len());
        let path = self.candidates[self.tried].clone();
        assert(texts(self.candidates@)[self.tried as int] == path@);
        self.last = Some(Error::KeyUnreadable(path, why.to_string()));
        self.tried = self.tried + 1;
    }

    /// The server did not accept the key whose turn it is.
    pub fn rejected(&mut self)
        requires
            old(self)@.valid(),
            old(self)@.turn() is Some,
        ensures
            final(self)@ == old(self)@.after(Fault::KeyRejected(old(self)@.turn()->0)),
            final(self)@.valid(),
    {
        assert(self.tried < self.candidates.len());
        let path = self.candidates[self.tried].clone();
        assert(texts(self.candidates@)[self.tried as int] == path@);
        self.last = Some(Error::KeyRejected(path));
        self.tried = self.tried + 1;
    }

    /// What is logged when the server accepted the key at `path`.
    pub fn accepted(path: &str) -> (r: String)
        ensures
            r@ == "authenticated with "@ + path@,
    {
        concat2("authenticated with ", path)
    }

    /// Why no key worked: what became of the last one that was tried.
    pub fn failure(self) -> (r: Error)
        requires
            self@.valid(),
        ensures
            r@ == match self@.last {
                Some(fault) => fault,
                None => Fault::KeyFailed,
            },
            self@.tried > 0 ==> blames(r@, self@.candidates[self@.tried - 1]),
    {
        match self.last {
            Some(e) => e,
            None => Error::KeyFailed,
        }
    }
}

/// The login as it is shown ends with the profile's port, behind the user and the host.
pub proof fn law_address_names_the_port(profile: ProfileView)
    ensures
        starts_with(address(profile), profile.user + "@"@ + profile.host + ":"@),
        parsed_u16(last_field(address(profile), ':')) == Some(profile.port),
{
    reveal_strlit(":");
    let head = profile.user + "@"@ + profile.host;
    let digits = decimal(profile.port as nat);
    lemma_parsed_decimal(profile.port);
    lemma_decimal_value(profile.port as nat);
    assert(!digits.contains(':')) by {
        assert forall|i: int| 0 <= i < digits.len() implies digits[i] != ':' by {
            assert('0' <= digits[i] <= '9');
        }
    }
    assert(":"@ == seq![':']);
    law_last_field(head, ':', digits);
    let start = head + ":"@;
    assert(address(profile).take(start.len() as int) =~= start);
}

/// With which keys a key profile logs in, and in which order. A profile that names a
/// key uses that one and no other. A profile that names none tries the usual keys in
/// their order, of which the one for Ed25519 is the first and the one for RSA the
/// last; each is tried once, and there is nothing to try when none is there. A
/// passphrase counts only if it is not empty.
pub proof fn law_keys_are_tried_in_order(
    profile: ProfileView,
    password: Seq<char>,
    passphrase: Seq<char>,
    usual: Seq<Seq<char>>,
    failure: Fault,
)
    requires
        profile.auth == AuthKind::Key,
    ensures
        usual_keys() == seq!["id_ed25519"@, "id_ecdsa"@, "id_rsa"@],
        !is_blank(profile.key_path) ==> {
            &&& login(profile, password, passphrase, usual) matches Ok(LoginView::Keys(ring))
            &&& ring.turn() == Some(trimmed(profile.key_path))
            &&& ring.after(failure).turn() is None
        },
        is_blank(profile.key_path) && usual.len() == 0 ==> login(
            profile,
            password,
            passphrase,
            usual,
        ) == Err::<LoginView, Fault>(Fault::NoKey),
        is_blank(profile.key_path) && usual.len() > 0 ==> {
            &&& login(profile, password, passphrase, usual) matches Ok(LoginView::Keys(ring))
            &&& ring.turn() == Some(usual[0])
            &&& ring.after(failure).turn() == (if usual.len() > 1 {
                Some(usual[1])
            } else {
                None
            })
            &&& ring.after(failure).after(failure).turn() == (if usual.len() > 2 {
                Some(usual[2])
            } else {
                None
            })
        },
        login(profile, password, passphrase, usual) matches Ok(LoginView::Keys(ring)) ==> {
            &&& ring.passphrase == (if passphrase.len() == 0 {
                None
            } else {
                Some(passphrase)
            })
            &&& ring.last is None
            &&& ring.after(failure).last == Some(failure)
        },
{
}

/// A profile that logs in with a password uses no key, and needs a password.
pub proof fn law_password_profiles_use_the_password(
    profile: ProfileView,
    password: Seq<char>,
    passphrase: Seq<char>,
    usual: Seq<Seq<char>>,
)
    requires
        profile.auth == AuthKind::Password,
    ensures
        password.len() > 0 ==> login(profile, password, passphrase, usual) == Ok::<LoginView, Fault>(
            LoginView::Password,
        ),
        password.len() == 0 ==> login(profile, password, passphrase, usual) == Err::<
            LoginView,
            Fault,
        >(Fault::PasswordMissing),
{
}

} // verus!
