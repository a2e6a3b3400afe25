use aurora_wall::backend::{LoopMode, ScalingMode, TransitionMode, WallpaperKind, WallpaperSpec};
use aurora_wall::commands::{
    applied_state, apply_step, apply_target, plan_image, plan_poster, plan_video, wal_failure, wal_source,
    wal_synced, ApplyStep, WalSource,
};
use aurora_wall::config::AppConfig;
use aurora_wall::daemon::{remove_output, upsert_wallpaper, DaemonStatus, DependencyStatus, yes_no};
use aurora_wall::failure::{Failure, FailureKind};

fn wp(output: &str, kind: WallpaperKind, path: &str) -> WallpaperSpec {
    WallpaperSpec {
        output: output.to_string(),
        kind,
        path: path.to_string(),
        scaling: ScalingMode::Center,
        transition: TransitionMode::Fade,
        muted: true,
        loop_mode: LoopMode::Infinite,
    }
}

#[test]
fn upsert_replaces_or_appends() {
    let mut c = AppConfig::defaults("/lib");
    upsert_wallpaper(&mut c, wp("A", WallpaperKind::Image, "/a.png"));
    upsert_wallpaper(&mut c, wp("B", WallpaperKind::Video, "/b.mp4"));
    upsert_wallpaper(&mut c, wp("A", WallpaperKind::Video, "/a2.mp4"));
    assert_eq!(c.wallpapers.len(), 2);
    assert_eq!(c.wallpapers[0], wp("A", WallpaperKind::Video, "/a2.mp4"));
    assert_eq!(c.wallpapers[1], wp("B", WallpaperKind::Video, "/b.mp4"));
    let before = c.clone();
    upsert_wallpaper(&mut c, wp("A", WallpaperKind::Video, "/a2.mp4"));
    assert_eq!(c, before);
}

#[test]
fn remove_output_counts() {
    let mut c = AppConfig::defaults("/lib");
    c.wallpapers.push(wp("A", WallpaperKind::Image, "/1"));
    c.wallpapers.push(wp("B", WallpaperKind::Image, "/2"));
    c.wallpapers.push(wp("A", WallpaperKind::Video, "/3"));
    assert_eq!(remove_output(&mut c, "A"), 2);
    assert_eq!(c.wallpapers, vec![wp("B", WallpaperKind::Image, "/2")]);
    assert_eq!(remove_output(&mut c, "Z"), 0);
}

#[test]
fn status_texts() {
    let d = DaemonStatus::planned();
    assert_eq!(d.summary(), "ready");
    let mut c = AppConfig::defaults("/lib");
    c.restore_on_login = false;
    assert_eq!(
        DaemonStatus::boot_summary(&c),
        "backend=hyprland, target_family=cross-desktop-linux, restore_on_login=false, restore_policy=last-known-good"
    );
    let deps = DependencyStatus { hyprctl: true, swww: false, awww: true, mpvpaper: false, wal: true, pkill: false };
    assert_eq!(
        deps.summary_lines(),
        vec!["hyprctl=yes", "swww=no", "awww=yes", "mpvpaper=no", "wal=yes", "pkill=no"]
    );
    assert_eq!(yes_no(true), "yes");
}

#[test]
fn image_plans() {
    let w = wp("eDP-1", WallpaperKind::Image, "/a.png");
    let p = plan_image(&w, true, true).unwrap();
    assert_eq!(p.daemon, "swww-daemon");
    assert_eq!(p.program, "swww");
    assert_eq!(p.args, vec!["img", "/a.png", "--outputs", "eDP-1", "--resize", "center", "--transition-type", "fade"]);
    assert_eq!(p.summary, "swww img /a.png --outputs eDP-1 --resize center --transition-type fade");
    assert_eq!(p.failure, "swww failed for output eDP-1");
    let q = plan_image(&w, false, true).unwrap();
    assert_eq!(q.program, "awww");
    assert_eq!(q.daemon, "awww-daemon");
    assert_eq!(q.args[5], "no");
    assert_eq!(q.summary, "awww img /a.png --outputs eDP-1 --resize no --transition-type fade");
    let mut f = w.clone();
    f.scaling = ScalingMode::Fill;
    f.transition = TransitionMode::Instant;
    assert_eq!(plan_image(&f, false, true).unwrap().args[5], "crop");
    assert_eq!(plan_image(&f, false, true).unwrap().args[7], "none");
    let err = plan_image(&w, false, false).unwrap_err();
    assert_eq!(err.kind, FailureKind::NotFound);
    assert_eq!(err.message, "swww or awww is required for image wallpapers. Install one with: sudo pacman -S swww");
}

#[test]
fn video_plans() {
    let mut w = wp("HDMI-A-1", WallpaperKind::Video, "/v.mp4");
    let p = plan_video(&w, true, true).unwrap();
    assert_eq!(p.kill_pattern, Some("mpvpaper HDMI-A-1".to_string()));
    assert_eq!(p.options, "no-audio loop-playlist=inf");
    assert_eq!(p.args, vec!["-o", "no-audio loop-playlist=inf", "HDMI-A-1", "/v.mp4"]);
    assert_eq!(p.summary, "mpvpaper -o \"no-audio loop-playlist=inf\" HDMI-A-1 /v.mp4");
    w.muted = false;
    w.loop_mode = LoopMode::Once;
    let q = plan_video(&w, true, false).unwrap();
    assert_eq!(q.kill_pattern, None);
    assert_eq!(q.options, "loop-file=no");
    let err = plan_video(&w, false, true).unwrap_err();
    assert_eq!(err.message, "mpvpaper is required for live wallpapers. Install it with: sudo pacman -S mpvpaper mpv");
}

#[test]
fn apply_steps() {
    let w = wp("eDP-1", WallpaperKind::Image, "/a.png");
    let outputs = vec!["DP-1".to_string()];
    assert_eq!(apply_step(&w, true, &outputs, false), ApplyStep::Skip(None));
    assert_eq!(
        apply_step(&w, true, &outputs, true),
        ApplyStep::Skip(Some("skipped unavailable output eDP-1 for image wallpaper".to_string()))
    );
    assert_eq!(apply_step(&w, true, &vec![], true), ApplyStep::Show);
    assert_eq!(apply_step(&w, true, &vec!["eDP-1".to_string()], false), ApplyStep::Show);
    assert_eq!(
        apply_step(&w, false, &vec![], false),
        ApplyStep::Reject(Failure {
            kind: FailureKind::InvalidInput,
            message: "wallpaper path does not exist: /a.png".to_string()
        })
    );
    let mut c = AppConfig::defaults("/l");
    c.wallpapers.push(w);
    let s = applied_state(&c);
    assert_eq!(s.last_applied_backend, "hyprland");
    assert_eq!(s.applied_items, 1);
    assert_eq!(s.wallpapers, c.wallpapers);
}

#[test]
fn restore_replays_the_saved_snapshot() {
    let mut applied = AppConfig::defaults("/l");
    applied.wallpapers.push(wp("eDP-1", WallpaperKind::Image, "/old.png"));
    applied.wallpapers.push(wp("HDMI-A-1", WallpaperKind::Video, "/old.mp4"));
    let saved = aurora_wall::state::AppliedState::parse(&applied_state(&applied).render());
    assert_eq!(saved.wallpapers, applied.wallpapers);

    let mut current = AppConfig::defaults("/now");
    current.wallpapers.push(wp("eDP-1", WallpaperKind::Image, "/new.png"));
    let restored = apply_target(current.clone(), true, Some(saved.clone()));
    assert_eq!(restored.wallpapers, applied.wallpapers);
    assert_eq!(restored.library_dir, "/now");
    assert_eq!(apply_target(current.clone(), false, Some(saved)).wallpapers, current.wallpapers);
    assert_eq!(apply_target(current.clone(), true, None).wallpapers, current.wallpapers);
    let without_snapshot = aurora_wall::state::AppliedState::new("hyprland", 4);
    assert_eq!(
        apply_target(current.clone(), true, Some(without_snapshot)).wallpapers,
        current.wallpapers
    );
    let none_applied = applied_state(&AppConfig::defaults("/l"));
    let none_saved = aurora_wall::state::AppliedState::parse(&none_applied.render());
    assert!(apply_target(current.clone(), true, Some(none_saved)).wallpapers.is_empty());
}

#[test]
fn wal_sources() {
    let mut c = AppConfig::defaults("/l");
    assert_eq!(wal_source(&c), WalSource::Nothing);
    c.wallpapers.push(wp("A", WallpaperKind::Video, "/v.mp4"));
    assert_eq!(wal_source(&c), WalSource::VideoPoster("/v.mp4".to_string()));
    c.wallpapers.push(wp("B", WallpaperKind::Image, "/i.png"));
    assert_eq!(wal_source(&c), WalSource::Image("/i.png".to_string()));
    assert_eq!(wal_failure("/i.png"), "wal failed while syncing theme from /i.png");
    assert_eq!(wal_synced("/i.png"), "wal synced from /i.png");
}

#[test]
fn poster_plans() {
    let p = plan_poster("/v.mp4", "/tmp/p.png", "00:00:03", true).unwrap();
    assert_eq!(p.args, vec!["-y", "-ss", "00:00:03", "-i", "/v.mp4", "-frames:v", "1", "/tmp/p.png"]);
    assert_eq!(p.failure, "ffmpeg failed to extract poster frame from /v.mp4");
    let e = plan_poster("/v.mp4", "/tmp/p.png", "00:00:03", false).unwrap_err();
    assert_eq!(e, Failure { kind: FailureKind::NotFound, message: "video does not exist: /v.mp4".to_string() });
}
