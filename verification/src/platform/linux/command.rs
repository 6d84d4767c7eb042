//! The commands that are run, and what is made of their output.
use crate::platform::command_line;
use crate::platform::command_line::{command, CommandLine, CommandView};
use crate::text;
use crate::text::{from_chars, from_utf8_lossy, str_eq, to_chars, trim, Cut};
use vstd::prelude::*;
use vstd::string::*;

verus! {

pub const DISPLAY_DESKTOP_KDE: &'static str = "KDE";

/// Gives the name of the distribution.
pub const NAME_CMD: &'static str = "awk -F'=' '/^NAME=/ {print $2}' /etc/os-release";

/// Gives the version of the distribution.
pub const VERSION_ID_CMD: &'static str = "awk -F'=' '/^VERSION_ID=/ {print $2}' /etc/os-release";

/// Finds the daemon of a KDE session.
pub const KDE_DAEMON_CMD: &'static str = "pgrep -f kded[0-9]+";

/// Gives the session that the process belongs to.
pub const SESSION_ID_CMD: &'static str = "cat /proc/self/sessionid";

/// The shell, given as `sh`, run on a command.
pub fn shell_command(sh: &str, cmds: &str) -> (line: CommandLine)
    ensures
        line@.program == sh@,
        line@.args == seq!["-c"@, cmds@],
{
    let args: Vec<&str> = vec!["-c", cmds];
    assert(command_line::slices_view(args@) =~= seq!["-c"@, cmds@]);
    command(sh, args.as_slice())
}

/// Texts put together with a space between each two.
pub open spec fn joined(parts: Seq<Seq<char>>) -> Seq<char>
    decreases parts.len(),
{
    if parts.len() == 0 {
        seq![]
    } else if parts.len() == 1 {
        parts[0]
    } else {
        joined(parts.drop_last()) + seq![' '] + parts.last()
    }
}

/// Puts texts together with a space between each two.
fn join(parts: &[&str]) -> (out: String)
    ensures
        out@ == joined(command_line::slices_view(parts@)),
{
    let mut out = String::new();
    let mut i: usize = 0;
    while i < parts.len()
        invariant
            i <= parts@.len(),
            out@ == joined(command_line::slices_view(parts@.take(i as int))),
        decreases parts@.len() - i,
    {
        let ghost before = command_line::slices_view(parts@.take(i as int));
        if i > 0 {
            out.push(' ');
        }
        let part: &str = parts[i];
        out.append(part);
        i += 1;
        let ghost after = command_line::slices_view(parts@.take(i as int));
        assert(after =~= before.push(part@));
        assert(after.drop_last() =~= before);
        assert(out@ =~= joined(after));
    }
    assert(parts@.take(i as int) =~= parts@);
    out
}

/// The ways to run `loginctl`, in the order in which they are tried. Within Flatpak it is first
/// tried on the host, where it is given as one command line.
pub open spec fn loginctl_ways(
    in_flatpak: bool,
    loginctl: Seq<char>,
    args: Option<Seq<Seq<char>>>,
) -> Seq<CommandView> {
    let direct = CommandView {
        program: loginctl,
        args: match args {
            Some(a) => a,
            None => seq![],
        },
    };
    if in_flatpak {
        seq![
            CommandView {
                program: "flatpak-spawn"@,
                args: seq![
                    "--host"@,
                    match args {
                        Some(a) => loginctl + seq![' '] + joined(a),
                        None => loginctl,
                    },
                ],
            },
            direct,
        ]
    } else {
        seq![direct]
    }
}

/// The ways to run `loginctl`, in the order in which they are tried: the next one only where the
/// one before could not be run at all.
pub fn run_loginctl(in_flatpak: bool, loginctl: &str, args: Option<&[&str]>) -> (commands: Vec<
    CommandLine,
>)
    ensures
        command_line::commands_view(commands@) == loginctl_ways(
            in_flatpak,
            loginctl@,
            match args {
                Some(a) => Some(command_line::slices_view(a@)),
                None => None,
            },
        ),
{
    let mut commands: Vec<CommandLine> = Vec::new();
    let none: Vec<&str> = Vec::new();
    let given: &[&str] = match args {
        Some(a) => a,
        None => none.as_slice(),
    };
    if in_flatpak {
        let mut line = loginctl.to_owned();
        if let Some(a) = args {
            line.push(' ');
            line.append(join(a).as_str());
        }
        let host: Vec<&str> = vec!["--host", line.as_str()];
        commands.push(command("flatpak-spawn", host.as_slice()));
        assert(command_line::slices_view(host@) =~= seq!["--host"@, line@]);
        assert(line@ =~= match args {
            Some(a) => loginctl@ + seq![' '] + joined(command_line::slices_view(a@)),
            None => loginctl@,
        });
    }
    commands.push(command(loginctl, given));
    proof {
        if args is None {
            assert(command_line::slices_view(given@) =~= seq![]);
        }
        let given_args = match args {
            Some(a) => Some(command_line::slices_view(a@)),
            None => None,
        };
        let ways = loginctl_ways(in_flatpak, loginctl@, given_args);
        assert(command_line::commands_view(commands@).len() == ways.len());
        assert(commands@.last()@ == ways.last());
        if in_flatpak {
            assert(commands@[0]@.args =~= ways[0].args);
        }
        assert(command_line::commands_view(commands@) =~= ways);
    }
    commands
}

/// For how many seconds a message is shown; zero is for ever.
pub open spec fn message_timeout(forever: bool) -> Seq<char> {
    if forever {
        "0"@
    } else {
        "3"@
    }
}

/// The commands that show a message.
pub open spec fn message_ways(title: Seq<char>, msg: Seq<char>, forever: bool) -> Seq<
    CommandView,
> {
    seq![
        CommandView { program: "notify-send"@, args: seq![title, msg] },
        CommandView {
            program: "zenity"@,
            args: seq![
                "--info"@,
                "--timeout"@,
                message_timeout(forever),
                "--title"@,
                title,
                "--text"@,
                msg,
            ],
        },
        CommandView { program: "kdialog"@, args: seq!["--title"@, title, "--msgbox"@, msg] },
        CommandView {
            program: "xmessage"@,
            args: seq!["-center"@, "-timeout"@, message_timeout(forever), title, msg],
        },
    ]
}

/// The commands that show a message. One that can be run is enough; which one is tried first does
/// not matter.
pub fn system_message(title: &str, msg: &str, forever: bool) -> (commands: Vec<CommandLine>)
    ensures
        command_line::commands_view(commands@) == message_ways(title@, msg@, forever),
{
    let timeout: &str = if forever {
        "0"
    } else {
        "3"
    };
    let notify: Vec<&str> = vec![title, msg];
    let zenity: Vec<&str> = vec!["--info", "--timeout", timeout, "--title", title, "--text", msg];
    let kdialog: Vec<&str> = vec!["--title", title, "--msgbox", msg];
    let xmessage: Vec<&str> = vec!["-center", "-timeout", timeout, title, msg];
    let mut commands: Vec<CommandLine> = Vec::new();
    commands.push(command("notify-send", notify.as_slice()));
    commands.push(command("zenity", zenity.as_slice()));
    commands.push(command("kdialog", kdialog.as_slice()));
    commands.push(command("xmessage", xmessage.as_slice()));
    proof {
        let ways = message_ways(title@, msg@, forever);
        assert(command_line::slices_view(notify@) =~= ways[0].args);
        assert(command_line::slices_view(zenity@) =~= ways[1].args);
        assert(command_line::slices_view(kdialog@) =~= ways[2].args);
        assert(command_line::slices_view(xmessage@) =~= ways[3].args);
        assert(command_line::commands_view(commands@) =~= ways);
    }
    commands
}

/// The path of a command: in `/bin`, or else in `/usr/bin`, or else where `which` finds it. Where
/// none of these has it, it is its name.
pub open spec fn cmd_path(
    cmd: Seq<char>,
    in_bin: bool,
    in_usr_bin: bool,
    which: Option<Seq<char>>,
) -> Seq<char> {
    if in_bin {
        "/bin/"@ + cmd
    } else if in_usr_bin {
        "/usr/bin/"@ + cmd
    } else {
        match which {
            Some(out) => text::trimmed(out, Cut::Whitespace),
            None => cmd,
        }
    }
}

/// A text without whitespace at either end.
fn trimmed_text(s: &str) -> (out: String)
    ensures
        out@ == text::trimmed(s@, Cut::Whitespace),
{
    let chars = to_chars(s);
    from_chars(trim(chars.as_slice(), Cut::Whitespace))
}

/// The path of a command, by whether it is in `/bin` or `/usr/bin` and, where it is in neither, by
/// what `which` wrote if it found it.
pub fn find_cmd_path(cmd: &str, in_bin: bool, in_usr_bin: bool, which: Option<&[u8]>) -> (path:
    String)
    ensures
        path@ == cmd_path(
            cmd@,
            in_bin,
            in_usr_bin,
            match text::maybe_slice(which) {
                Some(out) => Some(text::text_of(out)),
                None => None,
            },
        ),
{
    if in_bin {
        return "/bin/".to_owned().concat(cmd);
    }
    if in_usr_bin {
        return "/usr/bin/".to_owned().concat(cmd);
    }
    match which {
        Some(out) => {
            let out = from_utf8_lossy(out);
            trimmed_text(out.as_str())
        },
        None => cmd.to_owned(),
    }
}

/// The name and the version of the distribution.
pub struct Distro {
    pub name: String,
    pub version_id: String,
}

/// A value of `/etc/os-release`, without whitespace and then without quotes around it.
pub open spec fn release_value(line: Option<Seq<char>>) -> Seq<char> {
    match line {
        Some(line) => text::trimmed(text::trimmed(line, Cut::Whitespace), Cut::Only('"')),
        None => seq![],
    }
}

/// A value of `/etc/os-release`.
fn release_text(line: Option<&str>) -> (out: String)
    ensures
        out@ == release_value(text::maybe_text(line)),
{
    match line {
        Some(line) => {
            let chars = to_chars(line);
            from_chars(trim(trim(chars.as_slice(), Cut::Whitespace), Cut::Only('"')))
        },
        None => String::new(),
    }
}

impl Distro {
    /// The distribution, by what `NAME_CMD` and `VERSION_ID_CMD` wrote, where they could be run.
    pub fn new(name: Option<&str>, version_id: Option<&str>) -> (distro: Self)
        ensures
            distro.name@ == release_value(text::maybe_text(name)),
            distro.version_id@ == release_value(text::maybe_text(version_id)),
    {
        Self { name: release_text(name), version_id: release_text(version_id) }
    }
}

/// Whether the environment's `XDG_CURRENT_DESKTOP` is KDE.
pub fn is_kde(xdg_current_desktop: Option<&str>) -> (yes: bool)
    ensures
        yes == (text::maybe_text(xdg_current_desktop) == Some("KDE"@)),
{
    match xdg_current_desktop {
        Some(desktop) => str_eq(desktop, DISPLAY_DESKTOP_KDE),
        None => false,
    }
}

/// Whether a KDE session runs, by what `KDE_DAEMON_CMD` wrote.
pub fn is_kde_session(stdout: Option<&[u8]>) -> (yes: bool)
    ensures
        yes == (text::maybe_slice(stdout) matches Some(out) && out.len() > 0),
{
    match stdout {
        Some(out) => out.len() > 0,
        None => false,
    }
}

/// A text without a line feed at its end.
pub open spec fn without_newline(s: Seq<char>) -> Seq<char> {
    if s.len() > 0 && s.last() == '\n' {
        s.drop_last()
    } else {
        s
    }
}

/// The output of a command without a line feed at its end.
pub fn trim_newline(out: &str) -> (trimmed: String)
    ensures
        trimmed@ == without_newline(out@),
{
    let chars = to_chars(out);
    let n: usize = chars.len();
    if n > 0 && chars[n - 1] == '\n' {
        let front = vstd::slice::slice_subrange(chars.as_slice(), 0, n - 1);
        assert(front@ =~= out@.drop_last());
        from_chars(front)
    } else {
        from_chars(chars.as_slice())
    }
}

/// The text that a command wrote, as it wrote it. Most commands end it with a line feed, which then
/// is the last character here too; where a command writes none, there is none.
pub fn run_cmds(stdout: &[u8]) -> (out: String)
    ensures
        out@ == text::text_of(stdout@),
{
    from_utf8_lossy(stdout)
}

/// The text that a command wrote, without a line feed at its end.
pub fn run_cmds_trim_newline(stdout: &[u8]) -> (out: String)
    ensures
        out@ == without_newline(text::text_of(stdout@)),
{
    let out = run_cmds(stdout);
    trim_newline(out.as_str())
}

/// The home directory of a user, by the user database. It must be a directory.
pub fn get_home_dir_trusted<P>(home: Option<P>, is_dir: bool) -> (out: Option<P>)
    ensures
        out == (if is_dir {
            home
        } else {
            None
        }),
{
    match home {
        Some(home) => {
            if is_dir {
                Some(home)
            } else {
                None
            }
        },
        None => None,
    }
}

/// `loginctl` is run with its arguments as they are. Only within Flatpak it is first tried on the
/// host, by one argument in which a space stands before each of them.
pub proof fn law_loginctl_keeps_its_arguments(
    in_flatpak: bool,
    loginctl: Seq<char>,
    args: Seq<Seq<char>>,
    first: Seq<char>,
)
    ensures
        loginctl_ways(false, loginctl, Some(args)).len() == 1,
        loginctl_ways(true, loginctl, Some(args)).len() == 2,
        loginctl_ways(in_flatpak, loginctl, Some(args)).last().program == loginctl,
        loginctl_ways(in_flatpak, loginctl, Some(args)).last().args == args,
        loginctl_ways(in_flatpak, loginctl, None).last().program == loginctl,
        loginctl_ways(in_flatpak, loginctl, None).last().args.len() == 0,
        loginctl_ways(in_flatpak, loginctl, None).len() == loginctl_ways(
            in_flatpak,
            loginctl,
            Some(args),
        ).len(),
        loginctl_ways(true, loginctl, Some(args))[0].program == "flatpak-spawn"@,
        loginctl_ways(true, loginctl, None)[0].program == "flatpak-spawn"@,
        loginctl_ways(true, loginctl, None)[0].args == seq!["--host"@, loginctl],
        loginctl_ways(true, loginctl, Some(seq![first]))[0].args == seq![
            "--host"@,
            loginctl + seq![' '] + first,
        ],
        args.len() > 0 ==> loginctl_ways(true, loginctl, Some(args.push(first)))[0].args == seq![
            "--host"@,
            loginctl_ways(true, loginctl, Some(args))[0].args[1] + seq![' '] + first,
        ],
{
    assert(args.push(first).drop_last() =~= args);
    if args.len() > 0 {
        assert(loginctl + seq![' '] + joined(args.push(first)) =~= (loginctl + seq![' '] + joined(
            args,
        )) + seq![' '] + first);
    }
}

/// Each way to show a message shows its title and its text; it stays for three seconds, or for ever
/// if that is asked for, where the command can be told so.
pub proof fn law_messages_show_title_and_text(title: Seq<char>, msg: Seq<char>, forever: bool)
    ensures
        message_ways(title, msg, forever).len() == 4,
        message_ways(title, msg, forever)[0].program == "notify-send"@,
        message_ways(title, msg, forever)[0].args == seq![title, msg],
        message_ways(title, msg, forever)[1].program == "zenity"@,
        message_ways(title, msg, forever)[1].args == seq![
            "--info"@,
            "--timeout"@,
            if forever {
                "0"@
            } else {
                "3"@
            },
            "--title"@,
            title,
            "--text"@,
            msg,
        ],
        message_ways(title, msg, forever)[2].program == "kdialog"@,
        message_ways(title, msg, forever)[2].args == seq!["--title"@, title, "--msgbox"@, msg],
        message_ways(title, msg, forever)[3].program == "xmessage"@,
        message_ways(title, msg, forever)[3].args == seq![
            "-center"@,
            "-timeout"@,
            if forever {
                "0"@
            } else {
                "3"@
            },
            title,
            msg,
        ],
{
}

/// A command that is in `/bin` is run from there, and one that is only in `/usr/bin` from there,
/// whatever `which` says; otherwise what `which` wrote is its path, and without that its own name.
pub proof fn law_commands_are_found_in_order(
    cmd: Seq<char>,
    in_usr_bin: bool,
    which: Option<Seq<char>>,
)
    ensures
        cmd_path(cmd, true, in_usr_bin, which) == "/bin/"@ + cmd,
        cmd_path(cmd, false, true, which) == "/usr/bin/"@ + cmd,
        which matches Some(out) ==> cmd_path(cmd, false, false, which) == text::trimmed(
            out,
            Cut::Whitespace,
        ),
        which is None ==> cmd_path(cmd, false, false, which) == cmd,
{
}

/// A value of the release file is what stands between its quotes, whatever whitespace is around
/// them; a value without quotes stands as it is, and what could not be read is empty.
pub proof fn law_release_values_lose_their_quotes(
    value: Seq<char>,
    quotes: nat,
    spaces: nat,
)
    requires
        value.len() > 0,
        value[0] != '"' && !text::whitespace(value[0]),
        value.last() != '"' && !text::whitespace(value.last()),
    ensures
        release_value(
            Some(
                Seq::new(spaces, |i: int| ' ') + (Seq::new(quotes, |i: int| '"') + value + Seq::new(
                    quotes,
                    |i: int| '"',
                )) + seq!['\n'],
            ),
        ) == value,
        release_value(None).len() == 0,
{
    let around = Seq::new(quotes, |i: int| '"');
    let quoted = around + value + around;
    let line = Seq::new(spaces, |i: int| ' ') + quoted + seq!['\n'];
    assert(text::whitespace(' ') && text::whitespace('\n') && !text::whitespace('"'));
    text::law_trimming_cuts_both_ends(line, spaces as int, line.len() - 1, Cut::Whitespace);
    assert(line.subrange(spaces as int, line.len() - 1) =~= quoted);
    text::law_trimming_cuts_both_ends(
        quoted,
        quotes as int,
        (quotes + value.len()) as int,
        Cut::Only('"'),
    );
    assert(quoted.subrange(quotes as int, (quotes + value.len()) as int) =~= value);
}

/// One line feed at the end is taken off, and no more; a text that ends otherwise stays as it is.
pub proof fn law_one_line_feed_is_taken_off(s: Seq<char>)
    ensures
        without_newline(s.push('\n')) == s,
        s.len() > 0 && s.last() != '\n' ==> without_newline(s) == s,
        without_newline(Seq::<char>::empty()).len() == 0,
{
    assert(s.push('\n').drop_last() =~= s);
}

} // verus!
