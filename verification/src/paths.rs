//! Default locations of the configuration, state, themes and socket.
use vstd::prelude::*;

verus! {

/// A relative path appended to a base path, as `Path::join` does on Unix.
pub open spec fn join_path(base: Seq<char>, rel: Seq<char>) -> Seq<char> {
    if base.len() == 0 || base.last() == '/' {
        base + rel
    } else {
        base + seq!['/'] + rel
    }
}

/// Appends a relative path to a base path; `rel` must not start with `/`.
pub fn join(base: &str, rel: &str) -> (r: String)
    requires
        rel@.len() == 0 || rel@[0] != '/',
    ensures
        r@ == join_path(base@, rel@),
{
    let mut r = String::from_str(base);
    let n = base.unicode_len();
    if n > 0 && base.get_char(n - 1) != '/' {
        r.append("/");
        proof {
            reveal_strlit("/");
        }
    }
    r.append(rel);
    proof {
        reveal_strlit("/");
        assert(r@ =~= join_path(base@, rel@));
    }
    r
}

/// The base directory from an optional variable, else `home` joined with `fallback`,
/// else the current directory.
pub open spec fn base_dir(var: Option<Seq<char>>, home: Option<Seq<char>>, fallback: Seq<char>) -> Seq<char> {
    match var {
        Some(v) => v,
        None => match home {
            Some(h) => join_path(h, fallback),
            None => "."@,
        },
    }
}

pub open spec fn opt_view(v: Option<&str>) -> Option<Seq<char>> {
    match v {
        Some(s) => Some(s@),
        None => None,
    }
}

fn base_of(var: Option<&str>, home: Option<&str>, fallback: &str) -> (r: String)
    requires
        fallback@.len() == 0 || fallback@[0] != '/',
    ensures
        r@ == base_dir(opt_view(var), opt_view(home), fallback@),
{
    match var {
        Some(v) => String::from_str(v),
        None => match home {
            Some(h) => join(h, fallback),
            None => String::from_str("."),
        },
    }
}

/// The default configuration file: under `$XDG_CONFIG_HOME`, else `$HOME/.config`, else
/// the current directory, at `aurora-wall/config.conf`.
pub fn default_config_path(xdg_config_home: Option<&str>, home: Option<&str>) -> (p: String)
    ensures
        p@ == join_path(
            join_path(base_dir(opt_view(xdg_config_home), opt_view(home), ".config"@), "aurora-wall"@),
            "config.conf"@,
        ),
{
    proof {
        reveal_strlit(".config");
        reveal_strlit("aurora-wall");
        reveal_strlit("config.conf");
    }
    let base = base_of(xdg_config_home, home, ".config");
    let dir = join(base.as_str(), "aurora-wall");
    join(dir.as_str(), "config.conf")
}

/// The default state file: under `$XDG_STATE_HOME`, else `$HOME/.local/state`, else the
/// current directory, at `aurora-wall/state.conf`.
pub fn default_state_path(xdg_state_home: Option<&str>, home: Option<&str>) -> (p: String)
    ensures
        p@ == join_path(
            join_path(
                base_dir(opt_view(xdg_state_home), opt_view(home), ".local/state"@),
                "aurora-wall"@,
            ),
            "state.conf"@,
        ),
{
    proof {
        reveal_strlit(".local/state");
        reveal_strlit("aurora-wall");
        reveal_strlit("state.conf");
    }
    let base = base_of(xdg_state_home, home, ".local/state");
    let dir = join(base.as_str(), "aurora-wall");
    join(dir.as_str(), "state.conf")
}

/// A directory under `$HOME`, or under the current directory when `$HOME` is unset.
fn home_dir_path(home: Option<&str>, rel: &str) -> (p: String)
    requires
        rel@.len() == 0 || rel@[0] != '/',
    ensures
        p@ == join_path(
            match opt_view(home) {
                Some(h) => h,
                None => "."@,
            },
            rel@,
        ),
{
    match home {
        Some(h) => join(h, rel),
        None => join(".", rel),
    }
}

/// The default wallpaper library directory.
pub fn default_library_dir(home: Option<&str>) -> (p: String)
    ensures
        p@ == join_path(
            match opt_view(home) {
                Some(h) => h,
                None => "."@,
            },
            ".local/share/aurora-wall/wallpapers"@,
        ),
{
    proof {
        reveal_strlit(".local/share/aurora-wall/wallpapers");
    }
    home_dir_path(home, ".local/share/aurora-wall/wallpapers")
}

/// The default directory of the generated GRUB theme.
pub fn default_grub_theme_dir(home: Option<&str>) -> (p: String)
    ensures
        p@ == join_path(
            match opt_view(home) {
                Some(h) => h,
                None => "."@,
            },
            ".local/share/aurora-wall/grub-theme"@,
        ),
{
    proof {
        reveal_strlit(".local/share/aurora-wall/grub-theme");
    }
    home_dir_path(home, ".local/share/aurora-wall/grub-theme")
}

/// The default directory of the generated Plymouth theme.
pub fn default_plymouth_theme_dir(home: Option<&str>) -> (p: String)
    ensures
        p@ == join_path(
            match opt_view(home) {
                Some(h) => h,
                None => "."@,
            },
            ".local/share/aurora-wall/plymouth-theme"@,
        ),
{
    proof {
        reveal_strlit(".local/share/aurora-wall/plymouth-theme");
    }
    home_dir_path(home, ".local/share/aurora-wall/plymouth-theme")
}

/// The path of the control socket.
#[derive(Debug, Clone, PartialEq, Eq)]
pub struct SocketPath(String);

impl SocketPath {
    /// The socket under `$XDG_RUNTIME_DIR`, else under `/tmp`.
    pub fn from_runtime_dir(runtime_dir: Option<&str>) -> (s: SocketPath)
        ensures
            s.path_view() == join_path(
                match opt_view(runtime_dir) {
                    Some(d) => d,
                    None => "/tmp"@,
                },
                "aurora-wall.sock"@,
            ),
    {
        proof {
            reveal_strlit("aurora-wall.sock");
        }
        let p = match runtime_dir {
            Some(d) => join(d, "aurora-wall.sock"),
            None => join("/tmp", "aurora-wall.sock"),
        };
        SocketPath(p)
    }

    pub closed spec fn path_view(&self) -> Seq<char> {
        self.0@
    }

    pub fn as_path(&self) -> (p: &str)
        ensures
            p@ == self.path_view(),
    {
        self.0.as_str()
    }
}

} // verus!
