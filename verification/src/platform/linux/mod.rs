//! Linux: login sessions, displays, commands and secret stores.
pub mod command;
pub mod desktop;
pub mod display;
pub mod display_server;
pub mod kwallet;
pub mod portal;
pub mod seat;
pub mod secret_service;
pub mod session;
pub mod shell;

pub use self::command::{
    find_cmd_path, get_home_dir_trusted, is_kde, is_kde_session, run_cmds, run_cmds_trim_newline,
    run_loginctl, shell_command, system_message, Distro, DISPLAY_DESKTOP_KDE, KDE_DAEMON_CMD,
    NAME_CMD, SESSION_ID_CMD, VERSION_ID_CMD,
};
pub use self::desktop::{
    detect_desktop_environment, detect_kwallet_service, is_flatpak, linux_secret_backend,
    load_secret, store_secret, DesktopEnv, DesktopEnvironment, KWalletService,
    LinuxSecretBackend, LinuxSecretStore, XDG_CURRENT_DESKTOP,
};
pub use self::display::{get_wayland_displays, WaylandDisplayInfo};
pub use self::display_server::get_display_server;
pub use self::kwallet::{load_kwallet_secret_store_key, store_kwallet_secret_store_key};
pub use self::portal::{
    derive_flatpak_secret, load_flatpak_secret_store_key, retrieve_flatpak_portal_secret,
    store_flatpak_secret_store_key,
};
pub use self::seat::{get_values_of_seat0, get_values_of_seat0_with_gdm_wayland};
pub use self::secret_service::{load_secret_store_key, store_secret_store_key};
pub use self::session::{
    get_display_server_of_session, is_active, is_active_and_seat0, is_desktop_wayland,
    is_gdm_user, is_session_locked, is_x11_or_headless, loginctl_args, SessionQuery,
    DISPLAY_SERVER_WAYLAND, DISPLAY_SERVER_X11,
};
pub use self::shell::shell_quote;
