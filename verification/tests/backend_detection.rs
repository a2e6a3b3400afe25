use aurora_wall::backend::{
    BackendKind, LoopMode, RuntimeEnvironment, ScalingMode, TransitionMode, WallpaperKind,
    WallpaperSpec, DesktopBackend, HyprlandBackend, WaylandBackend, X11Backend, WallpaperBackend,
};

fn env(
    desktop_session: Option<&str>,
    current_desktop: Option<&str>,
    wayland_display: Option<&str>,
    display: Option<&str>,
    signature: Option<&str>,
) -> RuntimeEnvironment {
    RuntimeEnvironment {
        desktop_session: desktop_session.map(|s| s.to_string()),
        current_desktop: current_desktop.map(|s| s.to_string()),
        wayland_display: wayland_display.map(|s| s.to_string()),
        display: display.map(|s| s.to_string()),
        hyprland_instance_signature: signature.map(|s| s.to_string()),
    }
}

#[test]
fn detects_hyprland_over_generic_wayland() {
    let env = RuntimeEnvironment {
        desktop_session: Some("hyprland".to_string()),
        current_desktop: Some("Hyprland".to_string()),
        wayland_display: Some("wayland-1".to_string()),
        display: None,
        hyprland_instance_signature: Some("abc".to_string()),
    };

    assert_eq!(env.detect_backend(None), BackendKind::Hyprland);
    assert!(env.is_live_session_ready(BackendKind::Hyprland));
}

#[test]
fn falls_back_to_detected_backend_when_preference_is_unavailable() {
    let env = RuntimeEnvironment {
        desktop_session: None,
        current_desktop: None,
        wayland_display: None,
        display: Some(":0".to_string()),
        hyprland_instance_signature: None,
    };

    assert_eq!(env.detect_backend(Some("hyprland")), BackendKind::X11);
    assert!(env.is_live_session_ready(BackendKind::X11));
}

#[test]
fn preferred_backend_wins_when_available() {
    let e = env(Some("hyprland"), None, Some("wayland-1"), Some(":0"), None);
    assert_eq!(e.detect_backend(Some("  X11 ")), BackendKind::X11);
    assert_eq!(e.detect_backend(Some("desktop")), BackendKind::Desktop);
    assert_eq!(e.detect_backend(Some("unknown")), BackendKind::Hyprland);
    assert_eq!(e.detect_backend(None), BackendKind::Hyprland);
}

#[test]
fn detection_priority_without_preference() {
    assert_eq!(env(None, None, Some("w"), Some(":0"), None).detect_backend(None), BackendKind::Wayland);
    assert_eq!(env(None, None, None, Some(":0"), None).detect_backend(None), BackendKind::X11);
    assert_eq!(env(None, None, None, None, None).detect_backend(None), BackendKind::Desktop);
    assert_eq!(env(None, Some("HyPrLaNd"), None, None, None).detect_backend(None), BackendKind::Hyprland);
    assert_eq!(env(None, Some("hyprland-x"), None, None, None).detect_backend(None), BackendKind::Desktop);
}

#[test]
fn session_predicates() {
    let e = env(None, None, Some("w"), None, None);
    assert!(!e.is_hyprland());
    assert!(e.is_wayland());
    assert!(!e.is_x11());
    assert!(!e.is_live_session_ready(BackendKind::Hyprland));
    assert!(e.is_live_session_ready(BackendKind::Wayland));
    assert!(e.is_live_session_ready(BackendKind::Desktop));
    assert!(!e.is_live_session_ready(BackendKind::X11));
    let h = env(None, None, None, None, Some("sig"));
    assert!(h.is_hyprland());
    assert!(!h.is_live_session_ready(BackendKind::Hyprland));
}

#[test]
fn backend_names_round_trip() {
    for k in [BackendKind::Hyprland, BackendKind::Wayland, BackendKind::X11, BackendKind::Desktop] {
        assert_eq!(BackendKind::parse(k.as_str()), Some(k));
    }
    assert_eq!(BackendKind::parse(" WAYLAND\t"), Some(BackendKind::Wayland));
    assert_eq!(BackendKind::parse("way land"), None);
    assert_eq!(BackendKind::Hyprland.as_str(), "hyprland");
}

#[test]
fn mode_names_round_trip() {
    for m in [ScalingMode::Fill, ScalingMode::Fit, ScalingMode::Center] {
        assert_eq!(ScalingMode::parse(m.as_str()), Some(m));
    }
    for m in [TransitionMode::Instant, TransitionMode::Fade] {
        assert_eq!(TransitionMode::parse(m.as_str()), Some(m));
    }
    for m in [LoopMode::Infinite, LoopMode::Once] {
        assert_eq!(LoopMode::parse(m.as_str()), Some(m));
    }
    assert_eq!(ScalingMode::parse(" Center "), Some(ScalingMode::Center));
    assert_eq!(ScalingMode::parse("stretch"), None);
    assert_eq!(TransitionMode::parse("NONE"), Some(TransitionMode::Instant));
    assert_eq!(TransitionMode::Instant.as_str(), "none");
    assert_eq!(LoopMode::parse("twice"), None);
    assert_eq!(WallpaperKind::Video.as_str(), "video");
}

#[test]
fn backend_kinds_and_names() {
    assert_eq!(DesktopBackend.kind(), BackendKind::Desktop);
    assert_eq!(HyprlandBackend.kind(), BackendKind::Hyprland);
    assert_eq!(WaylandBackend.kind(), BackendKind::Wayland);
    assert_eq!(X11Backend.kind(), BackendKind::X11);
    assert_eq!(HyprlandBackend.display_name(), "Hyprland backend");
    assert_eq!(DesktopBackend.display_name(), "Desktop integration backend");
}

fn spec(output: &str, path: &str) -> WallpaperSpec {
    WallpaperSpec {
        output: output.to_string(),
        kind: WallpaperKind::Image,
        path: path.to_string(),
        scaling: ScalingMode::Fill,
        transition: TransitionMode::Fade,
        muted: true,
        loop_mode: LoopMode::Infinite,
    }
}

#[test]
fn validation_errors() {
    assert_eq!(spec("  ", "/a.png").validate(true), Err("output name cannot be empty".to_string()));
    assert_eq!(spec("eDP-1", " \t").validate(true), Err("wallpaper path cannot be empty".to_string()));
    assert_eq!(
        spec("eDP-1", "/missing.png").validate(false),
        Err("wallpaper path does not exist: /missing.png".to_string())
    );
    assert_eq!(spec("eDP-1", "/a.png").validate(true), Ok(()));
}
