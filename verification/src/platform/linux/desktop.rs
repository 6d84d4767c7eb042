//! Which desktop environment runs, and which secret store goes with it.
use crate::platform::reply;
use crate::text;
use crate::text::{from_chars, split, str_contains, str_eq, to_chars, trim, Cut};
use vstd::prelude::*;
use vstd::string::*;

verus! {

pub const XDG_CURRENT_DESKTOP: &'static str = "XDG_CURRENT_DESKTOP";

pub const DESKTOP_SESSION: &'static str = "DESKTOP_SESSION";

pub const GNOME_DESKTOP_SESSION_ID: &'static str = "GNOME_DESKTOP_SESSION_ID";

pub const KDE_FULL_SESSION: &'static str = "KDE_FULL_SESSION";

pub const KDE_SESSION_VERSION: &'static str = "KDE_SESSION_VERSION";

/// A secret store.
#[derive(Clone, Copy, Debug, PartialEq, Eq, Structural)]
pub enum LinuxSecretBackend {
    SecretService,
    KWallet(KWalletService),
}

/// A desktop environment, as far as the choice of a secret store depends on it.
#[derive(Clone, Copy, Debug, PartialEq, Eq, Structural)]
pub enum DesktopEnvironment {
    Other,
    Kde3,
    Kde4,
    Kde5,
    Kde6,
}

/// A generation of KDE's wallet daemon.
#[derive(Clone, Copy, Debug, PartialEq, Eq, Structural)]
pub enum KWalletService {
    Legacy,
    KWallet5,
    KWallet6,
}

/// What the environment says of the desktop. A variable that is set but is not Unicode has no
/// value here.
pub struct DesktopEnv {
    pub xdg_current_desktop: Option<String>,
    pub desktop_session: Option<String>,
    pub has_gnome_desktop_session_id: bool,
    pub has_kde_full_session: bool,
    pub has_kde_session_version: bool,
    pub kde_session_version: Option<String>,
}

/// Whether a name in `XDG_CURRENT_DESKTOP` is that of a desktop other than KDE.
pub open spec fn other_desktop(name: Seq<char>) -> bool {
    ||| name == "Unity"@
    ||| name == "Deepin"@
    ||| name == "GNOME"@
    ||| name == "X-Cinnamon"@
    ||| name == "Pantheon"@
    ||| name == "XFCE"@
    ||| name == "UKUI"@
    ||| name == "LXQt"@
    ||| name == "COSMIC"@
}

/// The generation of KDE, by `KDE_SESSION_VERSION`.
pub open spec fn kde_by_version(version: Option<Seq<char>>) -> DesktopEnvironment {
    match version {
        Some(version) => {
            let version = text::trimmed(version, Cut::Whitespace);
            if version == "5"@ {
                DesktopEnvironment::Kde5
            } else if version == "6"@ {
                DesktopEnvironment::Kde6
            } else {
                DesktopEnvironment::Kde4
            }
        },
        None => DesktopEnvironment::Kde4,
    }
}

/// The desktop that the first known name stands for.
pub open spec fn desktop_by_names(names: Seq<Seq<char>>, kde: DesktopEnvironment) -> Option<
    DesktopEnvironment,
>
    decreases names.len(),
{
    if names.len() == 0 {
        None
    } else {
        let name = text::trimmed(names[0], Cut::Whitespace);
        if other_desktop(name) {
            Some(DesktopEnvironment::Other)
        } else if name == "KDE"@ {
            Some(kde)
        } else {
            desktop_by_names(names.drop_first(), kde)
        }
    }
}

/// The old KDE that runs where only `KDE_SESSION_VERSION` can tell.
pub open spec fn old_kde(has_version: bool) -> DesktopEnvironment {
    if has_version {
        DesktopEnvironment::Kde4
    } else {
        DesktopEnvironment::Kde3
    }
}

/// The desktop that `DESKTOP_SESSION` stands for.
pub open spec fn desktop_by_session(session: Seq<char>, has_version: bool) -> Option<
    DesktopEnvironment,
> {
    let session = text::trimmed(session, Cut::Whitespace);
    if session == "deepin"@ || session == "gnome"@ || session == "mate"@ || session == "ukui"@ {
        Some(DesktopEnvironment::Other)
    } else if session == "kde4"@ || session == "kde-plasma"@ {
        Some(DesktopEnvironment::Kde4)
    } else if session == "kde"@ {
        Some(old_kde(has_version))
    } else if session == "xubuntu"@ || text::occurs(session, "xfce"@) {
        Some(DesktopEnvironment::Other)
    } else {
        None
    }
}

/// The desktop that the environment speaks of: by `XDG_CURRENT_DESKTOP`, or else by
/// `DESKTOP_SESSION`, or else by the variables of GNOME and of old KDE.
pub open spec fn desktop_of(env: DesktopEnv) -> DesktopEnvironment {
    let by_names = match env.xdg_current_desktop {
        Some(names) => desktop_by_names(
            text::pieces(names@, ':'),
            kde_by_version(reply::maybe_string(env.kde_session_version)),
        ),
        None => None,
    };
    let by_session = match env.desktop_session {
        Some(session) => desktop_by_session(session@, env.has_kde_session_version),
        None => None,
    };
    if by_names is Some {
        by_names->0
    } else if by_session is Some {
        by_session->0
    } else if env.has_gnome_desktop_session_id {
        DesktopEnvironment::Other
    } else if env.has_kde_full_session {
        old_kde(env.has_kde_session_version)
    } else {
        DesktopEnvironment::Other
    }
}

/// The wallet daemon of a desktop.
pub open spec fn wallet_of(desktop: DesktopEnvironment) -> KWalletService {
    match desktop {
        DesktopEnvironment::Kde6 => KWalletService::KWallet6,
        DesktopEnvironment::Kde5 => KWalletService::KWallet5,
        _ => KWalletService::Legacy,
    }
}

/// The secret store of a desktop: KDE's wallet from its fourth generation on.
pub open spec fn backend_of(desktop: DesktopEnvironment) -> LinuxSecretBackend {
    match desktop {
        DesktopEnvironment::Other | DesktopEnvironment::Kde3 => LinuxSecretBackend::SecretService,
        _ => LinuxSecretBackend::KWallet(wallet_of(desktop)),
    }
}

/// The name of a daemon.
pub open spec fn wallet_daemon(service: KWalletService) -> Seq<char> {
    match service {
        KWalletService::Legacy => "kwalletd"@,
        KWalletService::KWallet5 => "kwalletd5"@,
        KWalletService::KWallet6 => "kwalletd6"@,
    }
}

impl KWalletService {
    /// The service's name on the bus.
    pub fn service_name(self) -> (name: &'static str)
        ensures
            name@ == (match self {
                KWalletService::Legacy => "org.kde.kwalletd"@,
                KWalletService::KWallet5 => "org.kde.kwalletd5"@,
                KWalletService::KWallet6 => "org.kde.kwalletd6"@,
            }),
    {
        match self {
            Self::Legacy => "org.kde.kwalletd",
            Self::KWallet5 => "org.kde.kwalletd5",
            Self::KWallet6 => "org.kde.kwalletd6",
        }
    }

    /// The path of the service's object.
    pub fn path(self) -> (path: &'static str)
        ensures
            path@ == (match self {
                KWalletService::Legacy => "/modules/kwalletd"@,
                KWalletService::KWallet5 => "/modules/kwalletd5"@,
                KWalletService::KWallet6 => "/modules/kwalletd6"@,
            }),
    {
        match self {
            Self::Legacy => "/modules/kwalletd",
            Self::KWallet5 => "/modules/kwalletd5",
            Self::KWallet6 => "/modules/kwalletd6",
        }
    }

    /// The daemon's name.
    pub fn daemon_name(self) -> (name: &'static str)
        ensures
            name@ == wallet_daemon(self),
            name@ == (match self {
                KWalletService::Legacy => "kwalletd"@,
                KWalletService::KWallet5 => "kwalletd5"@,
                KWalletService::KWallet6 => "kwalletd6"@,
            }),
    {
        match self {
            Self::Legacy => "kwalletd",
            Self::KWallet5 => "kwalletd5",
            Self::KWallet6 => "kwalletd6",
        }
    }
}

/// A text without whitespace at either end.
fn trimmed_string(s: &[char]) -> (out: String)
    ensures
        out@ == text::trimmed(s@, Cut::Whitespace),
{
    from_chars(trim(s, Cut::Whitespace))
}

/// The generation of KDE, by `KDE_SESSION_VERSION`.
pub fn detect_kde_env_from_session_version(kde_session_version: &Option<String>) -> (kde:
    DesktopEnvironment)
    ensures
        kde == kde_by_version(reply::maybe_string(*kde_session_version)),
{
    match kde_session_version {
        Some(version) => {
            let chars = to_chars(version.as_str());
            let version = trimmed_string(chars.as_slice());
            if str_eq(version.as_str(), "5") {
                DesktopEnvironment::Kde5
            } else if str_eq(version.as_str(), "6") {
                DesktopEnvironment::Kde6
            } else {
                DesktopEnvironment::Kde4
            }
        },
        None => DesktopEnvironment::Kde4,
    }
}

/// Whether a name is that of a desktop other than KDE.
fn is_other_desktop(name: &str) -> (yes: bool)
    ensures
        yes == other_desktop(name@),
{
    str_eq(name, "Unity") || str_eq(name, "Deepin") || str_eq(name, "GNOME") || str_eq(
        name,
        "X-Cinnamon",
    ) || str_eq(name, "Pantheon") || str_eq(name, "XFCE") || str_eq(name, "UKUI") || str_eq(
        name,
        "LXQt",
    ) || str_eq(name, "COSMIC")
}

/// The desktop that the first known name stands for.
fn detect_by_names(names: &str, kde: DesktopEnvironment) -> (desktop: Option<DesktopEnvironment>)
    ensures
        desktop == desktop_by_names(text::pieces(names@, ':'), kde),
{
    let parts = split(to_chars(names).as_slice(), ':');
    let ghost all = parts@.map_values(|w: Vec<char>| w@);
    let mut i: usize = 0;
    assert(all.skip(0) =~= all);
    while i < parts.len()
        invariant
            i <= parts@.len(),
            all == parts@.map_values(|w: Vec<char>| w@),
            all == text::pieces(names@, ':'),
            desktop_by_names(all, kde) == desktop_by_names(all.skip(i as int), kde),
        decreases parts@.len() - i,
    {
        assert(all[i as int] == parts@[i as int]@);
        let name = trimmed_string(parts[i].as_slice());
        if is_other_desktop(name.as_str()) {
            return Some(DesktopEnvironment::Other);
        }
        if str_eq(name.as_str(), "KDE") {
            return Some(kde);
        }
        assert(all.skip(i as int).drop_first() =~= all.skip(i + 1));
        i += 1;
    }
    None
}

/// The old KDE that runs where only `KDE_SESSION_VERSION` can tell.
fn detect_old_kde(has_version: bool) -> (desktop: DesktopEnvironment)
    ensures
        desktop == old_kde(has_version),
{
    if has_version {
        DesktopEnvironment::Kde4
    } else {
        DesktopEnvironment::Kde3
    }
}

/// The desktop that `DESKTOP_SESSION` stands for.
fn detect_by_session(session: &str, has_version: bool) -> (desktop: Option<DesktopEnvironment>)
    ensures
        desktop == desktop_by_session(session@, has_version),
{
    let chars = to_chars(session);
    let session = trimmed_string(chars.as_slice());
    let s = session.as_str();
    if str_eq(s, "deepin") || str_eq(s, "gnome") || str_eq(s, "mate") || str_eq(s, "ukui") {
        Some(DesktopEnvironment::Other)
    } else if str_eq(s, "kde4") || str_eq(s, "kde-plasma") {
        Some(DesktopEnvironment::Kde4)
    } else if str_eq(s, "kde") {
        Some(detect_old_kde(has_version))
    } else if str_eq(s, "xubuntu") || str_contains(s, "xfce") {
        Some(DesktopEnvironment::Other)
    } else {
        None
    }
}

/// The desktop that the environment speaks of.
pub fn detect_desktop_environment(env: &DesktopEnv) -> (desktop: DesktopEnvironment)
    ensures
        desktop == desktop_of(*env),
{
    if let Some(names) = &env.xdg_current_desktop {
        let kde = detect_kde_env_from_session_version(&env.kde_session_version);
        if let Some(desktop) = detect_by_names(names.as_str(), kde) {
            return desktop;
        }
    }
    if let Some(session) = &env.desktop_session {
        if let Some(desktop) = detect_by_session(session.as_str(), env.has_kde_session_version) {
            return desktop;
        }
    }
    if env.has_gnome_desktop_session_id {
        return DesktopEnvironment::Other;
    }
    if env.has_kde_full_session {
        return detect_old_kde(env.has_kde_session_version);
    }
    DesktopEnvironment::Other
}

/// The wallet daemon that goes with the environment's desktop.
pub fn detect_kwallet_service(env: &DesktopEnv) -> (service: KWalletService)
    ensures
        service == wallet_of(desktop_of(*env)),
{
    match detect_desktop_environment(env) {
        DesktopEnvironment::Kde6 => KWalletService::KWallet6,
        DesktopEnvironment::Kde5 => KWalletService::KWallet5,
        DesktopEnvironment::Other | DesktopEnvironment::Kde3 | DesktopEnvironment::Kde4 => {
            KWalletService::Legacy
        },
    }
}

/// The secret store that goes with the environment's desktop.
pub fn linux_secret_backend(env: &DesktopEnv) -> (backend: LinuxSecretBackend)
    ensures
        backend == backend_of(desktop_of(*env)),
{
    match detect_desktop_environment(env) {
        DesktopEnvironment::Kde4 | DesktopEnvironment::Kde5 | DesktopEnvironment::Kde6 => {
            LinuxSecretBackend::KWallet(detect_kwallet_service(env))
        },
        DesktopEnvironment::Other | DesktopEnvironment::Kde3 => {
            LinuxSecretBackend::SecretService
        },
    }
}

/// Where a secret is kept on Linux.
#[derive(Clone, Copy, Debug, PartialEq, Eq, Structural)]
pub enum LinuxSecretStore {
    FlatpakPortal,
    SecretService,
    KWallet(KWalletService),
}

/// Whether the process runs within Flatpak, by whether `/.flatpak-info` exists.
pub fn is_flatpak(flatpak_info_exists: bool) -> (yes: bool)
    ensures
        yes == flatpak_info_exists,
{
    flatpak_info_exists
}

/// Where a secret is kept: within Flatpak behind the portal, otherwise in the desktop's store.
pub open spec fn store_of(in_flatpak: bool, env: DesktopEnv) -> LinuxSecretStore {
    if in_flatpak {
        LinuxSecretStore::FlatpakPortal
    } else {
        match backend_of(desktop_of(env)) {
            LinuxSecretBackend::SecretService => LinuxSecretStore::SecretService,
            LinuxSecretBackend::KWallet(service) => LinuxSecretStore::KWallet(service),
        }
    }
}

/// KDE's wallet is used only outside Flatpak and only on KDE from its fourth generation on, and its
/// daemon is that of the desktop's generation.
pub proof fn law_wallet_goes_with_kde(in_flatpak: bool, env: DesktopEnv, service: KWalletService)
    ensures
        store_of(in_flatpak, env) == LinuxSecretStore::KWallet(service) <==> {
            &&& !in_flatpak
            &&& desktop_of(env) is Kde4 || desktop_of(env) is Kde5 || desktop_of(env) is Kde6
            &&& service == wallet_of(desktop_of(env))
        },
{
}

/// Where a secret is loaded from.
pub fn load_secret(flatpak_info_exists: bool, env: &DesktopEnv) -> (store: LinuxSecretStore)
    ensures
        store == store_of(flatpak_info_exists, *env),
{
    if is_flatpak(flatpak_info_exists) {
        return LinuxSecretStore::FlatpakPortal;
    }
    match linux_secret_backend(env) {
        LinuxSecretBackend::SecretService => LinuxSecretStore::SecretService,
        LinuxSecretBackend::KWallet(service) => LinuxSecretStore::KWallet(service),
    }
}

/// Where a secret is stored: where it will be loaded from.
pub fn store_secret(flatpak_info_exists: bool, env: &DesktopEnv) -> (store: LinuxSecretStore)
    ensures
        store == store_of(flatpak_info_exists, *env),
{
    load_secret(flatpak_info_exists, env)
}

/// Names that stand for no desktop are passed over.
proof fn lemma_unknown_names_are_passed_over(
    names: Seq<Seq<char>>,
    at: int,
    kde: DesktopEnvironment,
)
    requires
        0 <= at <= names.len(),
        forall|j: int|
            0 <= j < at ==> !other_desktop(text::trimmed(#[trigger] names[j], Cut::Whitespace))
                && text::trimmed(names[j], Cut::Whitespace) != "KDE"@,
    ensures
        desktop_by_names(names, kde) == desktop_by_names(names.skip(at), kde),
    decreases at,
{
    if at > 0 {
        let rest = names.drop_first();
        assert(names[0] == names[0]);
        assert forall|j: int| 0 <= j < at - 1 implies !other_desktop(
            text::trimmed(#[trigger] rest[j], Cut::Whitespace),
        ) && text::trimmed(rest[j], Cut::Whitespace) != "KDE"@ by {
            assert(rest[j] == names[j + 1]);
        }
        lemma_unknown_names_are_passed_over(rest, at - 1, kde);
        assert(rest.skip(at - 1) =~= names.skip(at));
    } else {
        assert(names.skip(0) =~= names);
    }
}

/// The first name in `XDG_CURRENT_DESKTOP` that is known decides, whatever else is set: `KDE` stands
/// for the generation that `KDE_SESSION_VERSION` gives, which is the fourth unless it is `5` or `6`,
/// and each of the other known names for no KDE at all.
pub proof fn law_first_known_name_decides(env: DesktopEnv, names: Seq<Seq<char>>, at: int)
    requires
        env.xdg_current_desktop matches Some(all) && names == text::pieces(all@, ':'),
        0 <= at < names.len(),
        forall|j: int|
            0 <= j < at ==> ({
                let name = text::trimmed(#[trigger] names[j], Cut::Whitespace);
                &&& name != "KDE"@ && name != "Unity"@ && name != "Deepin"@ && name != "GNOME"@
                &&& name != "X-Cinnamon"@ && name != "Pantheon"@ && name != "XFCE"@
                &&& name != "UKUI"@ && name != "LXQt"@ && name != "COSMIC"@
            }),
    ensures
        text::trimmed(names[at], Cut::Whitespace) == "KDE"@ ==> desktop_of(env) == (
        match env.kde_session_version {
            Some(version) => if text::trimmed(version@, Cut::Whitespace) == "5"@ {
                DesktopEnvironment::Kde5
            } else if text::trimmed(version@, Cut::Whitespace) == "6"@ {
                DesktopEnvironment::Kde6
            } else {
                DesktopEnvironment::Kde4
            },
            None => DesktopEnvironment::Kde4,
        }),
        ({
            let name = text::trimmed(names[at], Cut::Whitespace);
            ||| name == "Unity"@ || name == "Deepin"@ || name == "GNOME"@
            ||| name == "X-Cinnamon"@ || name == "Pantheon"@ || name == "XFCE"@
            ||| name == "UKUI"@ || name == "LXQt"@ || name == "COSMIC"@
        }) ==> desktop_of(env) is Other,
{
    let kde = kde_by_version(reply::maybe_string(env.kde_session_version));
    lemma_unknown_names_are_passed_over(names, at, kde);
    assert(names.skip(at)[0] == names[at]);
    reveal_strlit("KDE");
    reveal_strlit("Unity");
    reveal_strlit("Deepin");
    reveal_strlit("GNOME");
    reveal_strlit("X-Cinnamon");
    reveal_strlit("Pantheon");
    reveal_strlit("XFCE");
    reveal_strlit("UKUI");
    reveal_strlit("LXQt");
    reveal_strlit("COSMIC");
    assert("KDE"@.len() == 3);
    assert("Unity"@.len() == 5 && "Deepin"@.len() == 6 && "GNOME"@.len() == 5);
    assert("X-Cinnamon"@.len() == 10 && "Pantheon"@.len() == 8 && "XFCE"@.len() == 4);
    assert("UKUI"@.len() == 4 && "LXQt"@.len() == 4 && "COSMIC"@.len() == 6);
}

/// Where `XDG_CURRENT_DESKTOP` is not set or names no known desktop, `DESKTOP_SESSION` decides if it
/// is known; where that does not either, GNOME's own variable and then old KDE's do. Nothing set at
/// all is no KDE.
pub proof fn law_session_decides_without_a_name(env: DesktopEnv, session: Option<Seq<char>>)
    requires
        env.xdg_current_desktop matches Some(all) ==> forall|j: int|
            0 <= j < text::pieces(all@, ':').len() ==> ({
                let name = text::trimmed(#[trigger] text::pieces(all@, ':')[j], Cut::Whitespace);
                &&& name != "KDE"@ && name != "Unity"@ && name != "Deepin"@ && name != "GNOME"@
                &&& name != "X-Cinnamon"@ && name != "Pantheon"@ && name != "XFCE"@
                &&& name != "UKUI"@ && name != "LXQt"@ && name != "COSMIC"@
            }),
        session == (match env.desktop_session {
            Some(s) => Some(text::trimmed(s@, Cut::Whitespace)),
            None => None,
        }),
    ensures
        session matches Some(s) ==> {
            &&& s == "deepin"@ || s == "gnome"@ || s == "mate"@ || s == "ukui"@ || s == "xubuntu"@
                ==> desktop_of(env) is Other
            &&& s == "kde4"@ || s == "kde-plasma"@ ==> desktop_of(env) is Kde4
            &&& s == "kde"@ ==> desktop_of(env) == (if env.has_kde_session_version {
                DesktopEnvironment::Kde4
            } else {
                DesktopEnvironment::Kde3
            })
            &&& text::occurs(s, "xfce"@) && s != "kde4"@ && s != "kde-plasma"@ && s != "kde"@
                ==> desktop_of(env) is Other
        },
        session is None || (session matches Some(s) && s != "deepin"@ && s != "gnome"@ && s
            != "mate"@ && s != "ukui"@ && s != "xubuntu"@ && s != "kde4"@ && s != "kde-plasma"@
            && s != "kde"@ && !text::occurs(s, "xfce"@)) ==> desktop_of(env) == (
        if env.has_gnome_desktop_session_id || !env.has_kde_full_session {
            DesktopEnvironment::Other
        } else if env.has_kde_session_version {
            DesktopEnvironment::Kde4
        } else {
            DesktopEnvironment::Kde3
        }),
{
    if let Some(all) = env.xdg_current_desktop {
        let names = text::pieces(all@, ':');
        let kde = kde_by_version(reply::maybe_string(env.kde_session_version));
        lemma_unknown_names_are_passed_over(names, names.len() as int, kde);
        assert(names.skip(names.len() as int) =~= seq![]);
    }
    reveal_strlit("deepin");
    reveal_strlit("gnome");
    reveal_strlit("mate");
    reveal_strlit("ukui");
    reveal_strlit("xubuntu");
    reveal_strlit("kde4");
    reveal_strlit("kde-plasma");
    reveal_strlit("kde");
    assert("deepin"@[0] == 'd' && "gnome"@[0] == 'g' && "mate"@[0] == 'm' && "ukui"@[0] == 'u');
    assert("xubuntu"@[0] == 'x' && "kde4"@[0] == 'k' && "kde-plasma"@[0] == 'k' && "kde"@[0]
        == 'k');
    assert("kde4"@.len() == 4 && "kde-plasma"@.len() == 10 && "kde"@.len() == 3);
}

/// Within Flatpak a secret is behind the portal, whatever the desktop is. Otherwise it is in KDE's
/// wallet on KDE from the fourth generation on, each with its own daemon, and with the Secret
/// Service everywhere else.
pub proof fn law_store_goes_with_the_desktop(env: DesktopEnv)
    ensures
        store_of(true, env) == LinuxSecretStore::FlatpakPortal,
        store_of(false, env) == (match desktop_of(env) {
            DesktopEnvironment::Other => LinuxSecretStore::SecretService,
            DesktopEnvironment::Kde3 => LinuxSecretStore::SecretService,
            DesktopEnvironment::Kde4 => LinuxSecretStore::KWallet(KWalletService::Legacy),
            DesktopEnvironment::Kde5 => LinuxSecretStore::KWallet(KWalletService::KWallet5),
            DesktopEnvironment::Kde6 => LinuxSecretStore::KWallet(KWalletService::KWallet6),
        }),
        backend_of(desktop_of(env)) is KWallet <==> store_of(false, env) is KWallet,
{
}

} // verus!
