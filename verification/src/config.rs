//! The persisted connection settings and where the app keeps its files.
use vstd::prelude::*;
use crate::text::{chars_of, copy_str, push_str, str_eq};

verus! {

/// Whether `c` separates path components: `/`, and on Windows also `\`.
pub open spec fn is_separator(c: char, windows: bool) -> bool {
    c == '/' || (windows && c == '\\')
}

/// Whether `base` is a bare Windows drive such as `C:`, after which
/// `Path::join` adds no separator.
pub open spec fn is_bare_drive(base: Seq<char>, windows: bool) -> bool {
    &&& windows
    &&& base.len() == 2
    &&& base[1] == ':'
    &&& (('a' <= base[0] <= 'z') || ('A' <= base[0] <= 'Z'))
}

/// The path `base` extended by the relative component `part`, as
/// `Path::join` builds it: no separator is added after an empty base, a
/// base that already ends with a separator, or a bare Windows drive;
/// otherwise the platform's separator (`\` on Windows, `/` elsewhere).
pub open spec fn join_path(base: Seq<char>, part: Seq<char>, windows: bool) -> Seq<char> {
    if base.len() == 0 || is_separator(base.last(), windows) || is_bare_drive(base, windows) {
        base + part
    } else if windows {
        base + "\\"@ + part
    } else {
        base + "/"@ + part
    }
}

/// Extends the path `base` by the relative component `part`, with the
/// separators of Windows when `windows` holds and of Unix otherwise.
pub fn join_path_str(base: &str, part: &str, windows: bool) -> (r: String)
    ensures
        r@ == join_path(base@, part@, windows),
{
    let v = chars_of(base);
    let n = v.len();
    let mut r = copy_str(base);
    let no_sep = n == 0 || v[n - 1] == '/' || (windows && v[n - 1] == '\\') || (windows && n == 2
        && v[1] == ':' && (('a' <= v[0] && v[0] <= 'z') || ('A' <= v[0] && v[0] <= 'Z')));
    if !no_sep {
        if windows {
            push_str(&mut r, "\\");
        } else {
            push_str(&mut r, "/");
        }
    }
    push_str(&mut r, part);
    proof {
        reveal_strlit("\\");
        reveal_strlit("/");
        if n > 0 {
            assert(v@.last() == v@[n - 1]);
        }
    }
    r
}

/// The home directory used for the settings file: `$HOME`, or on Windows
/// `%USERPROFILE%` when `$HOME` is unset.
pub fn config_home(windows: bool, home: Option<&str>, user_profile: Option<&str>) -> (r: Option<String>)
    ensures
        home matches Some(h) ==> r matches Some(x) && x@ == h@,
        home is None && windows ==> match user_profile {
            Some(u) => r matches Some(x) && x@ == u@,
            None => r is None,
        },
        home is None && !windows ==> r is None,
{
    match home {
        Some(h) => Some(copy_str(h)),
        None => if windows {
            match user_profile {
                Some(u) => Some(copy_str(u)),
                None => None,
            }
        } else {
            None
        },
    }
}

/// The data directory of the memory file on operating system `os`: `$HOME`
/// on macOS, `$HOME/.config` on Linux, `%APPDATA%` on Windows, `$HOME`
/// elsewhere.
pub fn data_dir(os: &str, home: Option<&str>, app_data: Option<&str>) -> (r: Option<String>)
    ensures
        os@ == "windows"@ ==> match app_data {
            Some(a) => r matches Some(x) && x@ == a@,
            None => r is None,
        },
        os@ == "linux"@ ==> match home {
            Some(h) => r matches Some(x) && x@ == join_path(h@, ".config"@, false),
            None => r is None,
        },
        os@ != "windows"@ && os@ != "linux"@ ==> match home {
            Some(h) => r matches Some(x) && x@ == h@,
            None => r is None,
        },
{
    proof {
        reveal_strlit("windows");
        reveal_strlit("linux");
        assert("windows"@.len() != "linux"@.len());
    }
    if str_eq(os, "windows") {
        match app_data {
            Some(a) => Some(copy_str(a)),
            None => None,
        }
    } else if str_eq(os, "linux") {
        match home {
            Some(h) => Some(join_path_str(h, ".config", false)),
            None => None,
        }
    } else {
        match home {
            Some(h) => Some(copy_str(h)),
            None => None,
        }
    }
}

/// Connection settings to the Hermes server.
pub struct RetanaConfig {
    /// Hermes server SSH connection
    pub hermes_host: String,
    pub hermes_port: u16,
    pub hermes_user: String,
    /// Path to SSH private key (None = use default ~/.ssh/id_*)
    pub hermes_key: Option<String>,
    /// Reverse tunnel config
    pub tunnel_remote_port: u16,
    pub tunnel_local_port: u16,
    /// Auto-connect on startup
    pub auto_connect: bool,
}

impl Default for RetanaConfig {
    /// The settings written when there is no settings file.
    fn default() -> (r: RetanaConfig)
        ensures
            r.hermes_host@ == "115.159.116.195"@,
            r.hermes_port == 22,
            r.hermes_user@ == "ubuntu"@,
            r.hermes_key is None,
            r.tunnel_remote_port == 9000,
            r.tunnel_local_port == 9000,
            r.auto_connect,
    {
        RetanaConfig {
            hermes_host: copy_str("115.159.116.195"),
            hermes_port: 22,
            hermes_user: copy_str("ubuntu"),
            hermes_key: None,
            tunnel_remote_port: 9000,
            tunnel_local_port: 9000,
            auto_connect: true,
        }
    }
}

impl RetanaConfig {
    /// The path of the settings file under the home directory `home` (the
    /// working directory when there is none): `<home>/.retana/config.yaml`,
    /// with the separators of Windows when `windows` holds.
    pub fn config_path(home: Option<&str>, windows: bool) -> (r: String)
        ensures
            r@ == join_path(
                join_path(
                    match home {
                        Some(h) => h@,
                        None => "."@,
                    },
                    ".retana"@,
                    windows,
                ),
                "config.yaml"@,
                windows,
            ),
    {
        let base = match home {
            Some(h) => copy_str(h),
            None => copy_str("."),
        };
        let dir = join_path_str(base.as_str(), ".retana", windows);
        join_path_str(dir.as_str(), "config.yaml", windows)
    }
}

} // verus!
