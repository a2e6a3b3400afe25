use aurora_wall::paths::{
    default_config_path, default_grub_theme_dir, default_library_dir, default_plymouth_theme_dir,
    default_state_path, join, SocketPath,
};
use aurora_wall::state::{AppliedState, RestorePolicy};

#[test]
fn state_round_trip() {
    let s = AppliedState::new("hyprland", 3);
    let text = s.render();
    assert_eq!(text, "last_applied_backend=hyprland\napplied_items=3\n");
    assert_eq!(AppliedState::parse(&text), s);
}

#[test]
fn state_parse_tolerates_noise() {
    let s = AppliedState::parse("# c\napplied_items = +12\nfoo\nlast_applied_backend = x11 \n");
    assert_eq!(s.last_applied_backend, "x11");
    assert_eq!(s.applied_items, 12);
    let bad = AppliedState::parse("applied_items=-1\n");
    assert_eq!(bad.applied_items, 0);
    assert_eq!(bad.last_applied_backend, "");
    let huge = AppliedState::parse("applied_items=99999999999999999999999\n");
    assert_eq!(huge.applied_items, 0);
    assert_eq!(AppliedState::parse("applied_items=18446744073709551615").applied_items, usize::MAX);
    let snap = AppliedState::parse(
        "last_applied_backend=hyprland\napplied_items=2\nwallpaper=eDP-1|image|/a.png|fit|fade|muted|once\nwallpaper=bad\n",
    );
    assert_eq!(snap.applied_items, 2);
    assert_eq!(snap.wallpapers.len(), 1);
    assert_eq!(snap.wallpapers[0].output, "eDP-1");
    assert_eq!(snap.wallpapers[0].path, "/a.png");
    assert_eq!(
        snap.render(),
        "last_applied_backend=hyprland\napplied_items=2\nwallpaper=eDP-1|image|/a.png|fit|fade|muted|once\n"
    );
    assert_eq!(AppliedState::parse(&snap.render()), snap);
}

#[test]
fn restore_policy() {
    assert_eq!(RestorePolicy::default(), RestorePolicy::LastKnownGood);
    assert_eq!(RestorePolicy::LastKnownGood.as_str(), "last-known-good");
    assert_eq!(RestorePolicy::Disabled.as_str(), "disabled");
}

#[test]
fn path_joining() {
    assert_eq!(join("/a", "b"), "/a/b");
    assert_eq!(join("/a/", "b"), "/a/b");
    assert_eq!(join("", "b"), "b");
}

#[test]
fn default_paths() {
    assert_eq!(default_config_path(Some("/xdg"), Some("/home/u")), "/xdg/aurora-wall/config.conf");
    assert_eq!(default_config_path(None, Some("/home/u")), "/home/u/.config/aurora-wall/config.conf");
    assert_eq!(default_config_path(None, None), "./aurora-wall/config.conf");
    assert_eq!(default_state_path(None, Some("/h")), "/h/.local/state/aurora-wall/state.conf");
    assert_eq!(default_state_path(Some("/s/"), None), "/s/aurora-wall/state.conf");
    assert_eq!(default_library_dir(Some("/h")), "/h/.local/share/aurora-wall/wallpapers");
    assert_eq!(default_library_dir(None), "./.local/share/aurora-wall/wallpapers");
    assert_eq!(default_grub_theme_dir(Some("/h")), "/h/.local/share/aurora-wall/grub-theme");
    assert_eq!(default_plymouth_theme_dir(Some("/h")), "/h/.local/share/aurora-wall/plymouth-theme");
    assert_eq!(SocketPath::from_runtime_dir(Some("/run/user/1000")).as_path(), "/run/user/1000/aurora-wall.sock");
    assert_eq!(SocketPath::from_runtime_dir(None).as_path(), "/tmp/aurora-wall.sock");
}
