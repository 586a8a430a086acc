//! Profiles: where to connect to, as whom, and what to scan there.
use vstd::prelude::*;
use crate::error::concat2;
use crate::text::{decimal, number, texts};

verus! {

/// How a profile logs in.
#[derive(Debug, Clone, Copy, PartialEq, Eq, Structural)]
pub enum AuthKind {
    Key,
    Password,
}

impl Default for AuthKind {
    fn default() -> (r: Self)
        ensures
            r == AuthKind::Key,
    {
        AuthKind::Key
    }
}

/// One server.
#[derive(Debug)]
pub struct Profile {
    pub name: String,
    pub host: String,
    pub port: u16,
    pub user: String,
    pub auth: AuthKind,
    /// Path to a private key. Empty means "try the usual ~/.ssh candidates".
    pub key_path: String,
    /// Directories on the server that are scanned for git repositories.
    pub repo_roots: Vec<String>,
    /// Refuse to connect when the host key is unknown or changed.
    pub strict_host_key: bool,
}

/// A profile, over texts.
pub struct ProfileView {
    pub name: Seq<char>,
    pub host: Seq<char>,
    pub port: u16,
    pub user: Seq<char>,
    pub auth: AuthKind,
    pub key_path: Seq<char>,
    pub repo_roots: Seq<Seq<char>>,
    pub strict_host_key: bool,
}

impl View for Profile {
    type V = ProfileView;

    open spec fn view(&self) -> ProfileView {
        ProfileView {
            name: self.name@,
            host: self.host@,
            port: self.port,
            user: self.user@,
            auth: self.auth,
            key_path: self.key_path@,
            repo_roots: texts(self.repo_roots@),
            strict_host_key: self.strict_host_key,
        }
    }
}

/// The profile that a fresh configuration starts with.
pub open spec fn default_profile() -> ProfileView {
    ProfileView {
        name: "synology"@,
        host: Seq::empty(),
        port: 22,
        user: Seq::empty(),
        auth: AuthKind::Key,
        key_path: Seq::empty(),
        repo_roots: seq!["/volume1/git"@, "/volume1/homes"@],
        strict_host_key: false,
    }
}

impl Default for Profile {
    fn default() -> (r: Self)
        ensures
            r@ == default_profile(),
    {
        let r = Profile {
            name: "synology".to_string(),
            host: String::new(),
            port: 22,
            user: String::new(),
            auth: AuthKind::Key,
            key_path: String::new(),
            repo_roots: vec!["/volume1/git".to_string(), "/volume1/homes".to_string()],
            strict_host_key: false,
        };
        assert(texts(r.repo_roots@) == seq!["/volume1/git"@, "/volume1/homes"@]);
        r
    }
}

/// A copy of a list of texts.
pub fn clone_texts(list: &[String]) -> (r: Vec<String>)
    ensures
        texts(r@) == texts(list@),
{
    let mut r: Vec<String> = Vec::new();
    let n: usize = list.len();
    for i in 0..n
        invariant
            n == list@.len(),
            r@.len() == i,
            forall|j: int| 0 <= j < i ==> (#[trigger] r@[j])@ == list@[j]@,
    {
        r.push(list[i].clone());
    }
    assert(texts(r@) == texts(list@));
    r
}

impl Clone for Profile {
    fn clone(&self) -> (r: Self)
        ensures
            r@ == self@,
    {
        Profile {
            name: self.name.clone(),
            host: self.host.clone(),
            port: self.port,
            user: self.user.clone(),
            auth: self.auth,
            key_path: self.key_path.clone(),
            repo_roots: clone_texts(self.repo_roots.as_slice()),
            strict_host_key: self.strict_host_key,
        }
    }
}

/// All profiles, and the one in use.
#[derive(Debug)]
pub struct Config {
    pub profiles: Vec<Profile>,
    pub selected: usize,
}

/// A configuration, over texts.
pub struct ConfigView {
    pub profiles: Seq<ProfileView>,
    pub selected: int,
}

/// The profiles of a list, over texts.
pub open spec fn profile_views(list: Seq<Profile>) -> Seq<ProfileView> {
    list.map_values(|p: Profile| p@)
}

impl View for Config {
    type V = ConfigView;

    open spec fn view(&self) -> ConfigView {
        ConfigView { profiles: profile_views(self.profiles@), selected: self.selected as int }
    }
}

impl Clone for Config {
    fn clone(&self) -> (r: Self)
        ensures
            r@ == self@,
    {
        let mut profiles: Vec<Profile> = Vec::new();
        let n: usize = self.profiles.len();
        for i in 0..n
            invariant
                n == self.profiles@.len(),
                profiles@.len() == i,
                forall|j: int| 0 <= j < i ==> (#[trigger] profiles@[j])@ == self.profiles@[j]@,
        {
            profiles.push(self.profiles[i].clone());
        }
        assert(profile_views(profiles@) == profile_views(self.profiles@));
        Config { profiles, selected: self.selected }
    }
}

impl ConfigView {
    /// There is a profile, and the selected one is among them.
    pub open spec fn valid(self) -> bool {
        0 <= self.selected < self.profiles.len()
    }

    /// The profile in use: the selected one, or the last one when the selection
    /// is past the end.
    pub open spec fn index(self) -> int {
        if self.selected < self.profiles.len() {
            self.selected
        } else {
            self.profiles.len() - 1
        }
    }

    /// The profile in use.
    pub open spec fn current(self) -> ProfileView {
        self.profiles[self.index()]
    }

    /// With `profile` in place of the profile in use.
    pub open spec fn with_current(self, profile: ProfileView) -> ConfigView {
        ConfigView { profiles: self.profiles.update(self.index(), profile), ..self }
    }

    /// With a fresh profile at the end, which is then the selected one.
    pub open spec fn with_new_profile(self) -> ConfigView {
        let fresh = ProfileView {
            name: "profile "@ + decimal(self.profiles.len() + 1),
            ..default_profile()
        };
        ConfigView { profiles: self.profiles.push(fresh), selected: self.profiles.len() as int }
    }

    /// Without the selected profile; the first one is then selected.
    pub open spec fn without_selected(self) -> ConfigView {
        ConfigView { profiles: self.profiles.remove(self.selected), selected: 0 }
    }
}

/// What a stored configuration becomes when it is loaded: it has at least one
/// profile, and the selection is one of them. `None` stands for a file that is
/// not there or cannot be read.
pub open spec fn restored(stored: Option<ConfigView>) -> ConfigView {
    let profiles = match stored {
        Some(c) if c.profiles.len() > 0 => c.profiles,
        _ => seq![default_profile()],
    };
    let selected = match stored {
        Some(c) if c.selected < profiles.len() => c.selected,
        _ => 0,
    };
    ConfigView { profiles, selected }
}

impl Default for Config {
    fn default() -> (r: Self)
        ensures
            r@ == (ConfigView { profiles: Seq::empty(), selected: 0 }),
    {
        let r = Config { profiles: Vec::new(), selected: 0 };
        assert(profile_views(r.profiles@) == Seq::<ProfileView>::empty());
        r
    }
}

impl Config {
    /// Completes a configuration that was read from disk.
    pub fn restore(stored: Option<Config>) -> (r: Config)
        ensures
            r@ == restored(
                match stored {
                    Some(c) => Some(c@),
                    None => None,
                },
            ),
            r@.valid(),
    {
        let mut r = match stored {
            Some(c) => c,
            None => Config::default(),
        };
        if r.profiles.len() == 0 {
            r.profiles.push(Profile::default());
            assert(r@.profiles == seq![default_profile()]);
        }
        if r.selected >= r.profiles.len() {
            r.selected = 0;
        }
        r
    }

    fn current_index(&self) -> (r: usize)
        requires
            self.profiles@.len() > 0,
        ensures
            r == self@.index(),
            r < self.profiles@.len(),
    {
        if self.selected < self.profiles.len() {
            self.selected
        } else {
            self.profiles.len() - 1
        }
    }

    /// The profile in use.
    pub fn current(&self) -> (r: &Profile)
        requires
            self.profiles@.len() > 0,
        ensures
            r@ == self@.current(),
    {
        &self.profiles[self.current_index()]
    }

    /// The profile in use, to be changed.
    pub fn current_mut(&mut self) -> (r: &mut Profile)
        requires
            old(self).profiles@.len() > 0,
        ensures
            r@ == old(self)@.current(),
            final(self)@ == old(self)@.with_current(final(r)@),
    {
        let idx: usize = self.current_index();
        assert forall|p: Profile| #[trigger]
            profile_views(self.profiles@.update(idx as int, p)) == profile_views(
                self.profiles@,
            ).update(idx as int, p@) by {}
        &mut self.profiles[idx]
    }

    /// Adds a fresh profile and selects it.
    pub fn add_profile(&mut self)
        requires
            old(self).profiles@.len() < usize::MAX,
        ensures
            final(self)@ == old(self)@.with_new_profile(),
            final(self)@.valid(),
    {
        let mut p = Profile::default();
        p.name = concat2("profile ", number((self.profiles.len() + 1) as u64).as_str());
        self.profiles.push(p);
        self.selected = self.profiles.len() - 1;
        assert(final(self)@.profiles == old(self)@.with_new_profile().profiles);
    }

    /// Removes the selected profile, unless it is the only one.
    pub fn remove_profile(&mut self)
        requires
            old(self)@.valid(),
        ensures
            old(self)@.profiles.len() > 1 ==> final(self)@ == old(self)@.without_selected(),
            old(self)@.profiles.len() <= 1 ==> final(self)@ == old(self)@,
            final(self)@.valid(),
    {
        if self.profiles.len() > 1 {
            let idx: usize = self.selected;
            self.profiles.remove(idx);
            self.selected = 0;
            assert(self@.profiles == old(self)@.without_selected().profiles);
        }
    }
}

/// A profile that was changed is the one in use, and the others are as they were.
pub proof fn law_only_the_profile_in_use_changes(cfg: ConfigView, profile: ProfileView)
    requires
        cfg.profiles.len() > 0,
        cfg.selected >= 0,
    ensures
        cfg.with_current(profile).current() == profile,
        cfg.with_current(profile).selected == cfg.selected,
        cfg.with_current(profile).profiles.len() == cfg.profiles.len(),
        forall|i: int|
            0 <= i < cfg.profiles.len() && i != cfg.index() ==> #[trigger] cfg.with_current(
                profile,
            ).profiles[i] == cfg.profiles[i],
        cfg.selected < cfg.profiles.len() ==> cfg.current() == cfg.profiles[cfg.selected],
        cfg.selected >= cfg.profiles.len() ==> cfg.current() == cfg.profiles.last(),
{
}

/// A profile that was added is the last one and in use; it has a number of its own in
/// its name, connects to port 22 with a key, and the others are as they were. When it
/// is removed again, the others are left, and the first is in use.
pub proof fn law_added_profile_can_be_removed(cfg: ConfigView)
    requires
        cfg.valid(),
    ensures
        ({
            let more = cfg.with_new_profile();
            &&& more.valid()
            &&& more.profiles.len() == cfg.profiles.len() + 1
            &&& more.current() == more.profiles.last()
            &&& more.current().port == 22
            &&& more.current().auth == AuthKind::Key
            &&& more.current().host.len() == 0
            &&& more.current().name == "profile "@ + decimal(cfg.profiles.len() + 1)
            &&& more.profiles.drop_last() == cfg.profiles
            &&& more.without_selected().profiles == cfg.profiles
            &&& more.without_selected().current() == cfg.profiles[0]
        }),
{
    let more = cfg.with_new_profile();
    assert(more.profiles.drop_last() =~= cfg.profiles);
    assert(more.profiles.remove(more.selected) =~= cfg.profiles);
}

/// A configuration that is valid is restored as it is, so restoring twice is
/// restoring once; one that has no profile gets one; and one whose selection is past
/// the end keeps its profiles, and the first is in use.
pub proof fn law_restoring(stored: Option<ConfigView>)
    requires
        stored matches Some(c) ==> c.selected >= 0,
    ensures
        restored(stored).valid(),
        restored(Some(restored(stored))) == restored(stored),
        stored matches Some(c) ==> {
            &&& c.valid() ==> restored(stored) == c
            &&& c.profiles.len() > 0 ==> restored(stored).profiles == c.profiles
            &&& c.profiles.len() > 0 && c.selected >= c.profiles.len() ==> restored(
                stored,
            ).current() == c.profiles[0]
        },
        stored is None ==> {
            let only = restored(stored).current();
            &&& restored(stored).profiles.len() == 1
            &&& only.port == 22
            &&& only.auth == AuthKind::Key
            &&& !only.strict_host_key
            &&& only.host.len() == 0
            &&& only.user.len() == 0
            &&& only.repo_roots == seq!["/volume1/git"@, "/volume1/homes"@]
        },
{
}

/// When a profile is removed the others are left, in their order.
pub proof fn law_removing_a_profile_keeps_the_others(cfg: ConfigView)
    requires
        cfg.valid(),
        cfg.profiles.len() > 1,
    ensures
        cfg.without_selected().valid(),
        cfg.without_selected().profiles == cfg.profiles.take(cfg.selected) + cfg.profiles.skip(
            cfg.selected + 1,
        ),
        cfg.without_selected().selected == 0,
{
    assert(cfg.profiles.remove(cfg.selected) =~= cfg.profiles.take(cfg.selected)
        + cfg.profiles.skip(cfg.selected + 1));
}

} // verus!
