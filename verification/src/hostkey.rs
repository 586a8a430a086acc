//! Whether a server is trusted: its host key, and what is known of it.
use vstd::prelude::*;
use crate::error::{concat3, concat4};
use crate::text::{decimal, number, push_text, text_option};

verus! {

/// What a server showed, held against `known_hosts`. The keys are told by their
/// fingerprints.
#[derive(Debug)]
pub enum HostKey {
    /// A certificate, or something else in place of a plain key.
    Certificate,
    /// The key that is recorded for this server.
    Known(String),
    /// A key, where none is recorded.
    Unknown(String),
    /// Another key than the recorded one, or records that cannot be read: the
    /// fingerprint, and the reason.
    Mismatch(String, String),
}

/// What a server showed, over texts.
pub enum HostKeyView {
    Certificate,
    Known(Seq<char>),
    Unknown(Seq<char>),
    Mismatch(Seq<char>, Seq<char>),
}

impl View for HostKey {
    type V = HostKeyView;

    open spec fn view(&self) -> HostKeyView {
        match self {
            HostKey::Certificate => HostKeyView::Certificate,
            HostKey::Known(fp) => HostKeyView::Known(fp@),
            HostKey::Unknown(fp) => HostKeyView::Unknown(fp@),
            HostKey::Mismatch(fp, why) => HostKeyView::Mismatch(fp@, why@),
        }
    }
}

/// What `russh` prints as the fingerprint of a public key that is encoded as these
/// bytes.
pub uninterp spec fn fingerprint_of(key: Seq<u8>) -> Option<Seq<char>>;

/// The mark `-cert-v01@`, which is in the label of every certificate and of no plain
/// key.
pub open spec fn certificate_mark() -> Seq<u8> {
    seq![0x2d, 0x63, 0x65, 0x72, 0x74, 0x2d, 0x76, 0x30, 0x31, 0x40]
}

/// Where the label of an encoded key ends: its length stands in the first four
/// bytes, the most significant one first, and the label follows.
pub open spec fn label_end(key: Seq<u8>) -> int {
    4 + key[0] * 0x100_0000 + key[1] * 0x1_0000 + key[2] * 0x100 + key[3]
}

/// The mark of certificates stands at `at` in the label of an encoded key.
pub open spec fn is_marked_at(key: Seq<u8>, at: int) -> bool {
    4 <= at && at + 10 <= label_end(key) && key.subrange(at, at + 10) == certificate_mark()
}

/// The label says that what is encoded here is a certificate.
pub open spec fn is_certificate(key: Seq<u8>) -> bool {
    4 <= key.len() && label_end(key) <= key.len() && exists|at: int| is_marked_at(key, at)
}

fn has_mark(key: &[u8], at: usize) -> (r: bool)
    requires
        at + 10 <= key@.len(),
    ensures
        r == (key@.subrange(at as int, at + 10) == certificate_mark()),
{
    let r = key[at] == 0x2d && key[at + 1] == 0x63 && key[at + 2] == 0x65 && key[at + 3] == 0x72
        && key[at + 4] == 0x74 && key[at + 5] == 0x2d && key[at + 6] == 0x76 && key[at + 7] == 0x30
        && key[at + 8] == 0x31 && key[at + 9] == 0x40;
    proof {
        let part = key@.subrange(at as int, at + 10);
        if r {
            assert(part == certificate_mark());
        } else if part == certificate_mark() {
            assert(part[0] == 0x2d && part[1] == 0x63 && part[2] == 0x65 && part[3] == 0x72);
            assert(part[4] == 0x74 && part[5] == 0x2d && part[6] == 0x76 && part[7] == 0x30);
            assert(part[8] == 0x31 && part[9] == 0x40);
        }
    }
    r
}

/// Whether the label says that what is encoded here is a certificate.
pub fn names_certificate(key: &[u8]) -> (r: bool)
    ensures
        r == is_certificate(key@),
{
    if key.len() < 4 {
        return false;
    }
    let length: u64 = key[0] as u64 * 0x100_0000 + key[1] as u64 * 0x1_0000 + key[2] as u64 * 0x100
        + key[3] as u64;
    if length > (key.len() - 4) as u64 {
        return false;
    }
    let end: usize = 4 + length as usize;
    assert(end == label_end(key@));
    let mut at: usize = 4;
    while end - at >= 10
        invariant
            4 <= at <= end <= key@.len(),
            end == label_end(key@),
            forall|i: int| i < at ==> !is_marked_at(key@, i),
        decreases end - at,
    {
        if has_mark(key, at) {
            assert(is_marked_at(key@, at as int));
            return true;
        }
        at = at + 1;
    }
    false
}

/// `russh::keys::PublicKey::fingerprint`, with the default hash, as text. The key
/// comes in the encoding of the SSH protocol, which `parse_public_key` of
/// `russh::keys::key` reads; there is no fingerprint where that fails. Certificates
/// are left out: there are some that can be read and have no fingerprint. The result
/// depends on the bytes alone.
#[verifier::external_body]
fn fingerprint(key: &[u8]) -> (r: Option<String>)
    requires
        !is_certificate(key@),
    ensures
        text_option(r) == fingerprint_of(key@),
{
    match russh::keys::key::parse_public_key(key) {
        Ok(k) => Some(k.fingerprint(Default::default()).to_string()),
        Err(_) => None,
    }
}

/// What a server showed, given the fingerprint of its key, where it showed a plain
/// one, and what `known_hosts` says of that key: whether it is recorded for this
/// server, or why it cannot be the right one.
pub open spec fn shown_key(
    fingerprint: Option<Seq<char>>,
    known: Result<bool, Seq<char>>,
) -> HostKeyView {
    match fingerprint {
        None => HostKeyView::Certificate,
        Some(fp) => match known {
            Ok(true) => HostKeyView::Known(fp),
            Ok(false) => HostKeyView::Unknown(fp),
            Err(why) => HostKeyView::Mismatch(fp, why),
        },
    }
}

/// What `known_hosts` says, over texts.
pub open spec fn known_view(known: Result<bool, String>) -> Result<bool, Seq<char>> {
    match known {
        Ok(yes) => Ok(yes),
        Err(why) => Err(why@),
    }
}

impl HostKey {
    /// What a server showed, when `fingerprint` is that of its key.
    pub fn recorded(fingerprint: Option<String>, known: Result<bool, String>) -> (r: HostKey)
        ensures
            r@ == shown_key(text_option(fingerprint), known_view(known)),
    {
        match fingerprint {
            None => HostKey::Certificate,
            Some(fp) => match known {
                Ok(true) => HostKey::Known(fp),
                Ok(false) => HostKey::Unknown(fp),
                Err(why) => HostKey::Mismatch(fp, why),
            },
        }
    }

    /// What a server showed: the encoded key, or nothing where it showed a
    /// certificate. A certificate that comes as a key is a certificate all the same.
    /// `known` is what `known_hosts` says of the key.
    pub fn presented(key: Option<&[u8]>, known: Result<bool, String>) -> (r: HostKey)
        ensures
            r@ == shown_key(
                match key {
                    Some(bytes) => if is_certificate(bytes@) {
                        None
                    } else {
                        fingerprint_of(bytes@)
                    },
                    None => None,
                },
                known_view(known),
            ),
    {
        let fp = match key {
            Some(bytes) => if names_certificate(bytes) {
                None
            } else {
                fingerprint(bytes)
            },
            None => None,
        };
        HostKey::recorded(fp, known)
    }
}

/// What becomes of the connection.
#[derive(Debug, Clone, Copy, PartialEq, Eq, Structural)]
pub enum KeyVerdict {
    /// It goes on.
    Accept,
    /// It goes on, and the key is recorded.
    Learn,
    /// It ends.
    Reject,
}

/// The verdict on a host key. `strict` refuses servers that are not known.
pub open spec fn verdict(key: HostKeyView, strict: bool) -> KeyVerdict {
    match key {
        HostKeyView::Certificate => KeyVerdict::Reject,
        HostKeyView::Known(_) => KeyVerdict::Accept,
        HostKeyView::Unknown(_) => if strict {
            KeyVerdict::Reject
        } else {
            KeyVerdict::Learn
        },
        HostKeyView::Mismatch(_, _) => KeyVerdict::Reject,
    }
}

/// A key that changed is always rejected, and so is a certificate; an unknown key is
/// trusted and recorded, unless the profile is strict, which rejects it; and a known
/// key is accepted either way.
pub proof fn law_trust_on_first_use(fp: Seq<char>, why: Seq<char>, strict: bool)
    ensures
        verdict(HostKeyView::Mismatch(fp, why), strict) == KeyVerdict::Reject,
        verdict(HostKeyView::Certificate, strict) == KeyVerdict::Reject,
        verdict(HostKeyView::Unknown(fp), true) == KeyVerdict::Reject,
        verdict(HostKeyView::Unknown(fp), false) == KeyVerdict::Learn,
        verdict(HostKeyView::Known(fp), strict) == KeyVerdict::Accept,
{
}

/// The server that is being connected to.
#[derive(Debug)]
pub struct Client {
    pub host: String,
    pub port: u16,
    pub strict: bool,
}

/// What is logged of a verdict; of a key that is to be recorded, nothing is said
/// before that was tried.
pub open spec fn verdict_line(
    host: Seq<char>,
    port: u16,
    strict: bool,
    key: HostKeyView,
) -> Option<Seq<char>> {
    match key {
        HostKeyView::Certificate => Some("host presented a certificate; rejected"@),
        HostKeyView::Known(fp) => Some("host key known ("@ + fp + ")"@),
        HostKeyView::Unknown(fp) => if strict {
            Some(
                "host key "@ + fp
                    + " not in known_hosts and strict mode is on; rejected"@,
            )
        } else {
            None
        },
        HostKeyView::Mismatch(fp, why) => Some(
            "HOST KEY MISMATCH for "@ + host + ":"@ + decimal(port as nat) + " ("@ + fp + "): "@
                + why + " - refusing to connect"@,
        ),
    }
}

impl Client {
    /// Decides on the key of the server, and says what is logged.
    pub fn check_server_key(&self, key: &HostKey) -> (r: (KeyVerdict, Option<String>))
        ensures
            r.0 == verdict(key@, self.strict),
            text_option(r.1) == verdict_line(self.host@, self.port, self.strict, key@),
    {
        match key {
            HostKey::Certificate => (
                KeyVerdict::Reject,
                Some("host presented a certificate; rejected".to_string()),
            ),
            HostKey::Known(fp) => (
                KeyVerdict::Accept,
                Some(concat3("host key known (", fp.as_str(), ")")),
            ),
            HostKey::Unknown(fp) => if self.strict {
                (
                    KeyVerdict::Reject,
                    Some(
                        concat3(
                            "host key ",
                            fp.as_str(),
                            " not in known_hosts and strict mode is on; rejected",
                        ),
                    ),
                )
            } else {
                (KeyVerdict::Learn, None)
            },
            HostKey::Mismatch(fp, why) => {
                let mut line = concat4(
                    "HOST KEY MISMATCH for ",
                    self.host.as_str(),
                    ":",
                    number(self.port as u64).as_str(),
                );
                push_text(&mut line, " (");
                push_text(&mut line, fp.as_str());
                push_text(&mut line, "): ");
                push_text(&mut line, why.as_str());
                push_text(&mut line, " - refusing to connect");
                (KeyVerdict::Reject, Some(line))
            },
        }
    }
}

/// What is logged after an unknown key was to be recorded. The connection goes on
/// either way.
pub fn learned(fingerprint: &str, recorded: &Result<(), String>) -> (r: String)
    ensures
        r@ == match recorded {
            Ok(_) => "new host key "@ + fingerprint@ + " trusted and written to known_hosts"@,
            Err(why) => "could not record host key "@ + fingerprint@ + ": "@ + why@,
        },
{
    match recorded {
        Ok(_) => concat3("new host key ", fingerprint, " trusted and written to known_hosts"),
        Err(why) => concat4("could not record host key ", fingerprint, ": ", why.as_str()),
    }
}

/// What becomes of a connection, from what the server showed and what `known_hosts`
/// says: a certificate ends it; a key that is recorded lets it go on; a key that does
/// not agree with the record ends it, strict or not; and a new one is recorded, unless
/// the profile is strict. A connection that ends is never silent.
pub proof fn law_host_keys_are_held_to_the_record(
    fp: Seq<char>,
    known: Result<bool, Seq<char>>,
    why: Seq<char>,
    strict: bool,
    host: Seq<char>,
    port: u16,
)
    ensures
        verdict(shown_key(None, known), strict) == KeyVerdict::Reject,
        verdict(shown_key(Some(fp), Ok(true)), strict) == KeyVerdict::Accept,
        verdict(shown_key(Some(fp), Err(why)), strict) == KeyVerdict::Reject,
        verdict(shown_key(Some(fp), Ok(false)), true) == KeyVerdict::Reject,
        verdict(shown_key(Some(fp), Ok(false)), false) == KeyVerdict::Learn,
        verdict(shown_key(Some(fp), known), strict) == KeyVerdict::Reject ==> verdict_line(
            host,
            port,
            strict,
            shown_key(Some(fp), known),
        ) is Some,
        verdict_line(host, port, strict, shown_key(Some(fp), Err(why))) == Some(
            "HOST KEY MISMATCH for "@ + host + ":"@ + decimal(port as nat) + " ("@ + fp + "): "@ + why
                + " - refusing to connect"@,
        ),
        verdict_line(host, port, strict, shown_key(Some(fp), Ok(true))) == Some(
            "host key known ("@ + fp + ")"@,
        ),
{
}

} // verus!
