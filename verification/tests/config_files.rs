use aurora_wall::backend::{LoopMode, ScalingMode, TransitionMode, WallpaperKind, WallpaperSpec};
use aurora_wall::config::{parse_bool, parse_config, parse_wallpaper, AppConfig};
use aurora_wall::failure::{Failure, FailureKind};

fn image(output: &str, path: &str) -> WallpaperSpec {
    WallpaperSpec {
        output: output.to_string(),
        kind: WallpaperKind::Image,
        path: path.to_string(),
        scaling: ScalingMode::Fit,
        transition: TransitionMode::Fade,
        muted: true,
        loop_mode: LoopMode::Infinite,
    }
}

fn video(output: &str, path: &str) -> WallpaperSpec {
    WallpaperSpec {
        output: output.to_string(),
        kind: WallpaperKind::Video,
        path: path.to_string(),
        scaling: ScalingMode::Fill,
        transition: TransitionMode::Instant,
        muted: false,
        loop_mode: LoopMode::Once,
    }
}

#[test]
fn defaults_keep_library_dir() {
    let c = AppConfig::defaults("/home/u/.local/share/aurora-wall/wallpapers");
    assert_eq!(c.target_family, "cross-desktop-linux");
    assert_eq!(c.preferred_backend, "hyprland");
    assert!(c.restore_on_login);
    assert_eq!(c.library_dir, "/home/u/.local/share/aurora-wall/wallpapers");
    assert!(c.wallpapers.is_empty());
}

#[test]
fn render_is_exact() {
    let mut c = AppConfig::defaults("/lib");
    c.restore_on_login = false;
    c.wallpapers.push(image("eDP-1", "/w/a.png"));
    c.wallpapers.push(video("HDMI-A-1", "/w/b.mp4"));
    assert_eq!(
        c.render(),
        "# aurora-wall config\nbackend=hyprland\nrestore_on_login=false\nlibrary_dir=/lib\n\
wallpaper=eDP-1|image|/w/a.png|fit|fade|muted|infinite\n\
wallpaper=HDMI-A-1|video|/w/b.mp4|fill|none|unmuted|once\n"
    );
}

#[test]
fn saved_config_reads_back() {
    let mut c = AppConfig::defaults("/lib");
    c.wallpapers.push(image("eDP-1", "/w/a b.png"));
    c.wallpapers.push(video("DP-2", "/w/=eq.mp4"));
    let text = c.render();
    let back = parse_config(&text, "/other").unwrap();
    assert_eq!(back, c);
}

#[test]
fn parse_reads_keys_and_ignores_others() {
    let raw = "  # comment\n\nunknown=1\r\nrestore_on_login = NO \nlibrary_dir=  /x/y  \nbackend= hyprland\n";
    let c = parse_config(raw, "/default").unwrap();
    assert!(!c.restore_on_login);
    assert_eq!(c.library_dir, "/x/y");
    assert!(c.wallpapers.is_empty());
}

#[test]
fn parse_errors_name_the_line() {
    assert_eq!(
        parse_config("backend=hyprland\nno equals here\n", "/d"),
        Err(Failure { kind: FailureKind::InvalidData, message: "invalid config line 2: no equals here".to_string() })
    );
    assert_eq!(
        parse_config("backend=sway", "/d"),
        Err(Failure {
            kind: FailureKind::InvalidData,
            message: "only backend=hyprland is supported in version 1".to_string()
        })
    );
    assert_eq!(
        parse_config("restore_on_login=maybe", "/d").unwrap_err().message,
        "invalid boolean value: maybe"
    );
    assert_eq!(
        parse_config("\n\n\nwallpaper=a|b", "/d").unwrap_err().message,
        "invalid wallpaper entry on line 4: wallpaper requires 7 pipe-separated fields"
    );
}

#[test]
fn wallpaper_entry_errors() {
    assert_eq!(parse_wallpaper("o|GIF|p|fill|fade|muted|once"), Err("unsupported wallpaper kind: gif".to_string()));
    assert_eq!(parse_wallpaper("o|image|p|zoom|fade|muted|once"), Err("invalid scaling mode".to_string()));
    assert_eq!(parse_wallpaper("o|image|p|fill|wipe|muted|once"), Err("invalid transition mode".to_string()));
    assert_eq!(parse_wallpaper("o|image|p|fill|fade|loud|once"), Err("mute field must be muted or unmuted".to_string()));
    assert_eq!(parse_wallpaper("o|image|p|fill|fade|muted|never"), Err("invalid loop mode".to_string()));
    let w = parse_wallpaper(" eDP-1 | Video | /v.mp4 | CENTER | None | Unmuted | Once ").unwrap();
    assert_eq!(w.output, "eDP-1");
    assert_eq!(w.kind, WallpaperKind::Video);
    assert_eq!(w.path, "/v.mp4");
    assert_eq!(w.scaling, ScalingMode::Center);
    assert_eq!(w.transition, TransitionMode::Instant);
    assert!(!w.muted);
    assert_eq!(w.loop_mode, LoopMode::Once);
}

#[test]
fn booleans() {
    assert_eq!(parse_bool("YES"), Some(true));
    assert_eq!(parse_bool("1"), Some(true));
    assert_eq!(parse_bool("False"), Some(false));
    assert_eq!(parse_bool(" true"), None);
}

#[test]
fn load_or_default_cases() {
    let missing: Result<String, Failure> = Err(Failure { kind: FailureKind::NotFound, message: "gone".to_string() });
    let c = AppConfig::load_or_default(missing, "/lib").unwrap();
    assert_eq!(c, AppConfig::defaults("/lib"));
    let denied: Result<String, Failure> = Err(Failure { kind: FailureKind::PermissionDenied, message: "denied".to_string() });
    assert_eq!(AppConfig::load_or_default(denied.clone(), "/lib"), Err(denied.unwrap_err()));
    let ok = AppConfig::load_or_default(Ok("restore_on_login=0\n".to_string()), "/lib").unwrap();
    assert!(!ok.restore_on_login);
}

#[test]
fn blank_and_comment_lines_change_nothing() {
    let raw = "restore_on_login=no\nwallpaper=eDP-1|image|/a.png|fit|fade|muted|infinite\n";
    let padded = "\n   \n# note = x\nrestore_on_login=no\n\t\n  # wallpaper=bad\nwallpaper=eDP-1|image|/a.png|fit|fade|muted|infinite\n\n";
    assert_eq!(parse_config(raw, "/l"), parse_config(padded, "/l"));
    assert!(parse_config(padded, "/l").is_ok());
    let bad = "restore_on_login=maybe\n";
    let bad_padded = "# c\n\nrestore_on_login=maybe\n";
    assert!(parse_config(bad, "/l").is_err());
    assert!(parse_config(bad_padded, "/l").is_err());
}
