//! What can go wrong, and how it is said.
use vstd::prelude::*;
use crate::text::{decimal, ends_with, number, push_text, starts_with};

verus! {

/// Why a request was refused or failed.
#[derive(Debug)]
pub enum Error {
    /// A repository name is blank.
    NameEmpty,
    /// A repository name starts with a dot or a dash.
    NameStart,
    /// A repository name holds a character that is not allowed.
    NameCharacters,
    /// A repository name holds two dots in a row.
    NameDots,
    /// No root is left to scan.
    NoRoots,
    /// The root of a new repository is not an absolute path.
    RootNotAbsolute,
    /// The repository to delete is not given by an absolute path.
    PathNotAbsolute,
    /// The repository to delete is given by a path with `.` or `..` in it.
    PathDots,
    /// A bare repository has no working tree to delete.
    NoWorkingTree,
    /// The directory to delete is the root of the file system.
    FilesystemRoot,
    /// The directory to delete is not inside a configured root.
    OutsideRoots(String),
    /// The ssh arguments name no host.
    NoHostArgument,
    /// The ssh arguments hold no remote command.
    NoCommandArgument,
    /// The transport was started without a password.
    PasswordNotSet,
    /// The transport was started without a user.
    NoUser,
    /// The profile has no host.
    HostEmpty,
    /// The profile has no user.
    UserEmpty,
    /// Password authentication without a password.
    PasswordMissing,
    /// The server did not accept the password.
    PasswordRejected,
    /// There is no private key to try.
    NoKey,
    /// A private key could not be read.
    KeyUnreadable(String, String),
    /// The server did not accept a private key.
    KeyRejected(String),
    /// No private key was accepted.
    KeyFailed,
    /// A terminal needs a user and a host.
    UserOrHostUnset,
    /// A clone cannot go into a folder of this name.
    BadFolder(String),
    /// No folder was chosen for the clone.
    NoDestination,
    /// Git would take this branch name for an option.
    BadBranch(String),
    /// A clone with a password needs a live session.
    NoSessionPassword,
    /// The path of the running program is unknown.
    NoExecutable(String),
    /// The clone's parent folder is not a directory.
    NotADirectory(String),
    /// Something is already where the clone would go.
    AlreadyExists(String),
    /// Git could not be started.
    GitNotStarted(String),
    /// `git clone` failed: its status and what it printed.
    CloneFailed(String, String),
    /// A remote command failed: its exit status and what it printed.
    RemoteExit(u32, String),
    /// A program could not be started.
    NotStarted(String, String),
    /// There is no terminal emulator for this command.
    NoTerminal(String),
    /// A failure that something outside reported.
    Outside(String),
}

/// The errors, over texts.
pub enum Fault {
    NameEmpty,
    NameStart,
    NameCharacters,
    NameDots,
    NoRoots,
    RootNotAbsolute,
    PathNotAbsolute,
    PathDots,
    NoWorkingTree,
    FilesystemRoot,
    OutsideRoots(Seq<char>),
    NoHostArgument,
    NoCommandArgument,
    PasswordNotSet,
    NoUser,
    HostEmpty,
    UserEmpty,
    PasswordMissing,
    PasswordRejected,
    NoKey,
    KeyUnreadable(Seq<char>, Seq<char>),
    KeyRejected(Seq<char>),
    KeyFailed,
    UserOrHostUnset,
    BadFolder(Seq<char>),
    NoDestination,
    BadBranch(Seq<char>),
    NoSessionPassword,
    NoExecutable(Seq<char>),
    NotADirectory(Seq<char>),
    AlreadyExists(Seq<char>),
    GitNotStarted(Seq<char>),
    CloneFailed(Seq<char>, Seq<char>),
    RemoteExit(u32, Seq<char>),
    NotStarted(Seq<char>, Seq<char>),
    NoTerminal(Seq<char>),
    Outside(Seq<char>),
}

impl View for Error {
    type V = Fault;

    open spec fn view(&self) -> Fault {
        match self {
            Error::NameEmpty => Fault::NameEmpty,
            Error::NameStart => Fault::NameStart,
            Error::NameCharacters => Fault::NameCharacters,
            Error::NameDots => Fault::NameDots,
            Error::NoRoots => Fault::NoRoots,
            Error::RootNotAbsolute => Fault::RootNotAbsolute,
            Error::PathNotAbsolute => Fault::PathNotAbsolute,
            Error::PathDots => Fault::PathDots,
            Error::NoWorkingTree => Fault::NoWorkingTree,
            Error::FilesystemRoot => Fault::FilesystemRoot,
            Error::OutsideRoots(target) => Fault::OutsideRoots(target@),
            Error::NoHostArgument => Fault::NoHostArgument,
            Error::NoCommandArgument => Fault::NoCommandArgument,
            Error::PasswordNotSet => Fault::PasswordNotSet,
            Error::NoUser => Fault::NoUser,
            Error::HostEmpty => Fault::HostEmpty,
            Error::UserEmpty => Fault::UserEmpty,
            Error::PasswordMissing => Fault::PasswordMissing,
            Error::PasswordRejected => Fault::PasswordRejected,
            Error::NoKey => Fault::NoKey,
            Error::KeyUnreadable(path, why) => Fault::KeyUnreadable(path@, why@),
            Error::KeyRejected(path) => Fault::KeyRejected(path@),
            Error::KeyFailed => Fault::KeyFailed,
            Error::UserOrHostUnset => Fault::UserOrHostUnset,
            Error::BadFolder(folder) => Fault::BadFolder(folder@),
            Error::NoDestination => Fault::NoDestination,
            Error::BadBranch(branch) => Fault::BadBranch(branch@),
            Error::NoSessionPassword => Fault::NoSessionPassword,
            Error::NoExecutable(why) => Fault::NoExecutable(why@),
            Error::NotADirectory(path) => Fault::NotADirectory(path@),
            Error::AlreadyExists(path) => Fault::AlreadyExists(path@),
            Error::GitNotStarted(why) => Fault::GitNotStarted(why@),
            Error::CloneFailed(status, output) => Fault::CloneFailed(status@, output@),
            Error::RemoteExit(code, output) => Fault::RemoteExit(*code, output@),
            Error::NotStarted(program, why) => Fault::NotStarted(program@, why@),
            Error::NoTerminal(command) => Fault::NoTerminal(command@),
            Error::Outside(why) => Fault::Outside(why@),
        }
    }
}

/// The text of a result.
pub open spec fn outcome(r: Result<String, Error>) -> Result<Seq<char>, Fault> {
    match r {
        Ok(s) => Ok(s@),
        Err(e) => Err(e@),
    }
}

/// How an error is said.
pub open spec fn message(fault: Fault) -> Seq<char> {
    match fault {
        Fault::NameEmpty => "name is empty"@,
        Fault::NameStart => "name may not start with '.' or '-'"@,
        Fault::NameCharacters => "name may only contain letters, digits, '_', '-' and '.'"@,
        Fault::NameDots => "name may not contain '..'"@,
        Fault::NoRoots => "no repository roots configured"@,
        Fault::RootNotAbsolute => "root must be an absolute path"@,
        Fault::PathNotAbsolute => "repository path must be absolute"@,
        Fault::PathDots => "repository path may not contain '.' or '..'"@,
        Fault::NoWorkingTree => "only a working copy has a working tree"@,
        Fault::FilesystemRoot => "refusing to delete the filesystem root"@,
        Fault::OutsideRoots(target) => target
            + " is not inside any configured repository root"@,
        Fault::NoHostArgument => "no host in the ssh arguments"@,
        Fault::NoCommandArgument => "no remote command in the ssh arguments"@,
        Fault::PasswordNotSet => "YGIT_PROXY_PASSWORD is not set; start the clone from the app"@,
        Fault::NoUser => "no user for the connection"@,
        Fault::HostEmpty => "host is empty"@,
        Fault::UserEmpty => "user is empty"@,
        Fault::PasswordMissing => "password auth selected but no password entered"@,
        Fault::PasswordRejected => "password rejected by server"@,
        Fault::NoKey => "no private key found; set one in the profile or use password auth"@,
        Fault::KeyUnreadable(path, why) => path + ": "@ + why,
        Fault::KeyRejected(path) => path + ": key rejected"@,
        Fault::KeyFailed => "public key auth failed"@,
        Fault::UserOrHostUnset => "set user and host before opening a terminal"@,
        Fault::BadFolder(folder) => "'"@ + folder + "' is not a valid folder name"@,
        Fault::NoDestination => "choose a destination folder first"@,
        Fault::BadBranch(branch) => "'"@ + branch + "' is not a valid branch name"@,
        Fault::NoSessionPassword =>
            "this profile logs in with a password; connect first so the clone can reuse it"@,
        Fault::NoExecutable(why) => "cannot locate ygit itself: "@ + why,
        Fault::NotADirectory(path) => path + " is not a directory"@,
        Fault::AlreadyExists(path) => path + " already exists"@,
        Fault::GitNotStarted(why) => "could not start git (is it installed?): "@ + why,
        Fault::CloneFailed(status, output) => "git clone failed ("@ + status + "): "@ + output,
        Fault::RemoteExit(code, output) => "remote exit "@ + decimal(code as nat) + ": "@
            + output,
        Fault::NotStarted(program, why) => "could not start "@ + program + ": "@ + why,
        Fault::NoTerminal(command) => "no terminal emulator found; run manually: "@ + command,
        Fault::Outside(why) => why,
    }
}

/// `a` and `b`, one after the other.
pub fn concat2(a: &str, b: &str) -> (r: String)
    ensures
        r@ == a@ + b@,
{
    let mut r = a.to_string();
    push_text(&mut r, b);
    r
}

/// `a`, `b` and `c`, one after the other.
pub fn concat3(a: &str, b: &str, c: &str) -> (r: String)
    ensures
        r@ == a@ + b@ + c@,
{
    let mut r = concat2(a, b);
    push_text(&mut r, c);
    r
}

/// `a`, `b`, `c` and `d`, one after the other.
pub fn concat4(a: &str, b: &str, c: &str, d: &str) -> (r: String)
    ensures
        r@ == a@ + b@ + c@ + d@,
{
    let mut r = concat3(a, b, c);
    push_text(&mut r, d);
    r
}

impl Error {
    /// How the error is said.
    pub fn message(&self) -> (r: String)
        ensures
            r@ == message(self@),
    {
        match self {
            Error::NameEmpty => "name is empty".to_string(),
            Error::NameStart => "name may not start with '.' or '-'".to_string(),
            Error::NameCharacters =>
                "name may only contain letters, digits, '_', '-' and '.'".to_string(),
            Error::NameDots => "name may not contain '..'".to_string(),
            Error::NoRoots => "no repository roots configured".to_string(),
            Error::RootNotAbsolute => "root must be an absolute path".to_string(),
            Error::PathNotAbsolute => "repository path must be absolute".to_string(),
            Error::PathDots => "repository path may not contain '.' or '..'".to_string(),
            Error::NoWorkingTree => "only a working copy has a working tree".to_string(),
            Error::FilesystemRoot => "refusing to delete the filesystem root".to_string(),
            Error::OutsideRoots(target) => concat2(
                target.as_str(),
                " is not inside any configured repository root",
            ),
            Error::NoHostArgument => "no host in the ssh arguments".to_string(),
            Error::NoCommandArgument => "no remote command in the ssh arguments".to_string(),
            Error::PasswordNotSet =>
                "YGIT_PROXY_PASSWORD is not set; start the clone from the app".to_string(),
            Error::NoUser => "no user for the connection".to_string(),
            Error::HostEmpty => "host is empty".to_string(),
            Error::UserEmpty => "user is empty".to_string(),
            Error::PasswordMissing =>
                "password auth selected but no password entered".to_string(),
            Error::PasswordRejected => "password rejected by server".to_string(),
            Error::NoKey =>
                "no private key found; set one in the profile or use password auth".to_string(),
            Error::KeyUnreadable(path, why) => concat3(path.as_str(), ": ", why.as_str()),
            Error::KeyRejected(path) => concat2(path.as_str(), ": key rejected"),
            Error::KeyFailed => "public key auth failed".to_string(),
            Error::UserOrHostUnset => "set user and host before opening a terminal".to_string(),
            Error::BadFolder(folder) => concat3(
                "'",
                folder.as_str(),
                "' is not a valid folder name",
            ),
            Error::NoDestination => "choose a destination folder first".to_string(),
            Error::BadBranch(branch) => concat3(
                "'",
                branch.as_str(),
                "' is not a valid branch name",
            ),
            Error::NoSessionPassword =>
                "this profile logs in with a password; connect first so the clone can reuse it".to_string(),
            Error::NoExecutable(why) => concat2("cannot locate ygit itself: ", why.as_str()),
            Error::NotADirectory(path) => concat2(path.as_str(), " is not a directory"),
            Error::AlreadyExists(path) => concat2(path.as_str(), " already exists"),
            Error::GitNotStarted(why) => concat2(
                "could not start git (is it installed?): ",
                why.as_str(),
            ),
            Error::CloneFailed(status, output) => concat4(
                "git clone failed (",
                status.as_str(),
                "): ",
                output.as_str(),
            ),
            Error::RemoteExit(code, output) => concat4(
                "remote exit ",
                number(*code as u64).as_str(),
                ": ",
                output.as_str(),
            ),
            Error::NotStarted(program, why) => concat4(
                "could not start ",
                program.as_str(),
                ": ",
                why.as_str(),
            ),
            Error::NoTerminal(command) => concat2(
                "no terminal emulator found; run manually: ",
                command.as_str(),
            ),
            Error::Outside(why) => why.clone(),
        }
    }
}

/// An error that is about something names it, and one that has a reason ends with it.
pub proof fn law_messages_name_what_is_wrong(a: Seq<char>, b: Seq<char>, code: u32)
    ensures
        starts_with(message(Fault::OutsideRoots(a)), a),
        starts_with(message(Fault::NotADirectory(a)), a),
        starts_with(message(Fault::AlreadyExists(a)), a),
        starts_with(message(Fault::KeyRejected(a)), a),
        starts_with(message(Fault::KeyUnreadable(a, b)), a),
        ends_with(message(Fault::KeyUnreadable(a, b)), b),
        starts_with(message(Fault::BadFolder(a)), "'"@ + a + "'"@),
        starts_with(message(Fault::BadBranch(a)), "'"@ + a + "'"@),
        ends_with(message(Fault::NoExecutable(a)), a),
        ends_with(message(Fault::GitNotStarted(a)), a),
        ends_with(message(Fault::NoTerminal(a)), a),
        ends_with(message(Fault::CloneFailed(a, b)), a + "): "@ + b),
        ends_with(message(Fault::RemoteExit(code, b)), decimal(code as nat) + ": "@ + b),
        ends_with(message(Fault::NotStarted(a, b)), a + ": "@ + b),
        message(Fault::Outside(a)) == a,
{
    reveal_strlit("'");
    reveal_strlit("' is not a valid folder name");
    reveal_strlit("' is not a valid branch name");
    let q = "'"@ + a + "'"@;
    assert(message(Fault::OutsideRoots(a)).take(a.len() as int) =~= a);
    assert(message(Fault::NotADirectory(a)).take(a.len() as int) =~= a);
    assert(message(Fault::AlreadyExists(a)).take(a.len() as int) =~= a);
    assert(message(Fault::KeyRejected(a)).take(a.len() as int) =~= a);
    assert(message(Fault::KeyUnreadable(a, b)).take(a.len() as int) =~= a);
    let m = message(Fault::KeyUnreadable(a, b));
    assert(m.skip(m.len() - b.len()) =~= b);
    assert(message(Fault::BadFolder(a)).take(q.len() as int) =~= q);
    assert(message(Fault::BadBranch(a)).take(q.len() as int) =~= q);
    let m = message(Fault::NoExecutable(a));
    assert(m.skip(m.len() - a.len()) =~= a);
    let m = message(Fault::GitNotStarted(a));
    assert(m.skip(m.len() - a.len()) =~= a);
    let m = message(Fault::NoTerminal(a));
    assert(m.skip(m.len() - a.len()) =~= a);
    let t = a + "): "@ + b;
    let m = message(Fault::CloneFailed(a, b));
    assert(m.skip(m.len() - t.len()) =~= t);
    let t = decimal(code as nat) + ": "@ + b;
    let m = message(Fault::RemoteExit(code, b));
    assert(m.skip(m.len() - t.len()) =~= t);
    let t = a + ": "@ + b;
    let m = message(Fault::NotStarted(a, b));
    assert(m.skip(m.len() - t.len()) =~= t);
}

} // verus!
