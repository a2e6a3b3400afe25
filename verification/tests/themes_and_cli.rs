use aurora_wall::backend::{LoopMode, ScalingMode, TransitionMode, WallpaperKind, WallpaperSpec};
use aurora_wall::cli::{
    apply_options, apply_report, command_of, config_path_from_args, has_flag,
    image_wallpaper_from_args, optional_flag, parse_yes_no, removed_message, required_flag,
    validate_output_if_possible, video_wallpaper_from_args, Command,
};
use aurora_wall::config::AppConfig;
use aurora_wall::failure::{Failure, FailureKind};
use aurora_wall::themes::{
    activation_steps,
    arch_install_hint, background_file_name, binary_hint, grub_install_text, grub_theme_text,
    parse_color_channel, parse_magick_pixel, pkgbuild_template, plan_grub_export, plan_install,
    plymouth_files, plymouth_install_text, plymouth_report, plymouth_script_text,
    plymouth_source, plymouth_theme_text, resolve_grub_background, sanitize_grub_text,
    systemd_user_service, Channel, PlymouthSource, ThemePalette,
};

fn args(v: &[&str]) -> Vec<String> {
    v.iter().map(|s| s.to_string()).collect()
}

fn wp(output: &str, kind: WallpaperKind, path: &str) -> WallpaperSpec {
    WallpaperSpec {
        output: output.to_string(),
        kind,
        path: path.to_string(),
        scaling: ScalingMode::Fill,
        transition: TransitionMode::Fade,
        muted: true,
        loop_mode: LoopMode::Infinite,
    }
}

#[test]
fn sanitizing_titles() {
    assert_eq!(sanitize_grub_text("My \"Boot\""), "My 'Boot'");
}

#[test]
fn background_names_follow_extensions() {
    assert_eq!(background_file_name("/a/b/pic.JPG"), "background.JPG");
    assert_eq!(background_file_name("/a/b/pic"), "background.png");
    assert_eq!(background_file_name("/a/.hidden"), "background.png");
    assert_eq!(background_file_name("/a/pic."), "background.png");
    assert_eq!(background_file_name("/a/x.tar.gz"), "background.gz");
    assert_eq!(background_file_name("/a/pic.webp/."), "background.webp");
    assert_eq!(background_file_name("/a/.."), "background.png");
    assert_eq!(background_file_name("/"), "background.png");
}

#[test]
fn grub_background_choice() {
    let mut c = AppConfig::defaults("/l");
    c.wallpapers.push(wp("A", WallpaperKind::Video, "/v.mp4"));
    let e = resolve_grub_background(&c, None, false).unwrap_err();
    assert_eq!(e.kind, FailureKind::InvalidInput);
    c.wallpapers.push(wp("B", WallpaperKind::Image, "/i.png"));
    assert_eq!(resolve_grub_background(&c, None, false).unwrap(), "/i.png");
    assert_eq!(resolve_grub_background(&c, Some("/r.jpg"), true).unwrap(), "/r.jpg");
    assert_eq!(
        resolve_grub_background(&c, Some("/r.jpg"), false),
        Err(Failure { kind: FailureKind::NotFound, message: "GRUB background does not exist: /r.jpg".to_string() })
    );
}

#[test]
fn grub_export_plan() {
    let c = AppConfig::defaults("/l");
    let e = plan_grub_export(&c, "/t", Some("/p/poster.jpeg"), true, "Aurora \"Wall\"").unwrap();
    assert_eq!(e.background, "/p/poster.jpeg");
    assert_eq!(e.target_background, "/t/background.jpeg");
    assert_eq!(e.theme_file, "/t/theme.txt");
    assert_eq!(e.install_file, "/t/INSTALL.txt");
    assert!(e.theme_text.contains("text = \"Aurora 'Wall'\""));
    assert!(e.theme_text.contains("file = \"background.jpeg\""));
    assert_eq!(e.theme_text, grub_theme_text("Aurora \"Wall\"", "background.jpeg"));
    assert!(e.theme_text.starts_with("+ boot_menu {\n  left = 8%\n"));
    assert!(e.theme_text.ends_with("  alpha = 210\n}\n"));
    assert_eq!(e.install_text, grub_install_text("/t"));
    assert!(e.install_text.contains("sudo cp -r \"/t\"/* /boot/grub/themes/aurora-wall/\n"));
    assert_eq!(e.report, vec!["wrote /t/theme.txt", "copied background /t/background.jpeg", "wrote /t/INSTALL.txt"]);
}

#[test]
fn plymouth_parts() {
    let mut c = AppConfig::defaults("/l");
    assert!(plymouth_source(&c, None, None).is_err());
    c.wallpapers.push(wp("A", WallpaperKind::Video, "/v.mp4"));
    assert_eq!(plymouth_source(&c, None, None).unwrap(), PlymouthSource::VideoPoster("/v.mp4".to_string()));
    assert_eq!(plymouth_source(&c, None, Some("/w.mp4")).unwrap(), PlymouthSource::VideoPoster("/w.mp4".to_string()));
    assert_eq!(plymouth_source(&c, Some("/b.png"), Some("/w.mp4")).unwrap(), PlymouthSource::Image("/b.png".to_string()));
    let f = plymouth_files("/pt");
    assert_eq!(f.poster, "/pt/poster.png");
    assert_eq!(f.background, "/pt/background.png");
    assert_eq!(f.theme_file, "/pt/aurora-wall.plymouth");
    assert_eq!(f.script_file, "/pt/aurora-wall.script");
    assert_eq!(
        plymouth_theme_text("T\"", "/pt", "/pt/aurora-wall.script"),
        "[Plymouth Theme]\nName=T'\nDescription=Aurora Wall Plymouth theme\nModuleName=script\n\n[script]\nImageDir=/pt\nScriptFile=/pt/aurora-wall.script\n"
    );
    let p = ThemePalette { overlay_r: 1, overlay_g: 22, overlay_b: 133, shadow_r: 0, shadow_g: 9, shadow_b: 10, text_r: 245, text_g: 245, text_b: 245 };
    let script = plymouth_script_text(&p, "Hi");
    assert!(script.contains("logo_box.SetColorTop(1, 22, 133, 0.72);\nlogo_box.SetColorBottom(0, 9, 10, 0.72);"));
    assert!(script.contains("message = \"Hi\";\nmessage_image = Image.Text(message, 245, 245, 245, 1);"));
    assert!(script.ends_with("Plymouth.SetRefreshFunction(refresh_callback);\n"));
    assert!(plymouth_install_text("/pt").contains("sudo cp -r \"/pt\"/* /usr/share/plymouth/themes/aurora-wall/\n"));
    assert_eq!(plymouth_report(&f).len(), 4);
    assert_eq!(plymouth_report(&f)[2], "copied background /pt/background.png");
}

#[test]
fn pixels_and_channels() {
    let chs = parse_magick_pixel("srgb(12,50%, 255)").unwrap();
    assert_eq!(chs[0], Ok(Channel::Value(12)));
    assert_eq!(chs[1], Ok(Channel::Percent { raw: "50%".to_string(), stripped: "50".to_string() }));
    assert_eq!(chs[2], Ok(Channel::Value(255)));
    assert_eq!(
        parse_magick_pixel("rgb(1,2,3)"),
        Err(Failure { kind: FailureKind::InvalidData, message: "unsupported pixel format: rgb(1,2,3)".to_string() })
    );
    assert_eq!(
        parse_magick_pixel("srgb(1,2)").unwrap_err().message,
        "invalid pixel value: srgb(1,2)"
    );
    assert_eq!(
        parse_color_channel("256"),
        Err(Failure { kind: FailureKind::InvalidData, message: "invalid integer channel: 256".to_string() })
    );
    assert_eq!(parse_color_channel("+7"), Ok(Channel::Value(7)));
}

#[test]
fn install_plans() {
    let p = plan_install("/g", true, "/p", true).unwrap();
    assert_eq!(p.grub_target, "/boot/grub/themes/aurora-wall");
    assert_eq!(p.grub_default_text, "GRUB_THEME=/boot/grub/themes/aurora-wall/theme.txt\n");
    assert_eq!(p.report[3], "rebuilt boot configuration where supported");
    assert_eq!(plan_install("/g", false, "/p", false).unwrap_err().message, "GRUB theme directory does not exist: /g");
    assert_eq!(plan_install("/g", true, "/p", false).unwrap_err().message, "Plymouth theme directory does not exist: /p");
}

#[test]
fn fixed_texts() {
    assert_eq!(
        systemd_user_service(&binary_hint(None)),
        "[Unit]\nDescription=aurora-wall restore service\nAfter=graphical-session.target\n\n[Service]\nType=oneshot\nExecStart=aurora-wall apply --restore\n\n[Install]\nWantedBy=default.target\n"
    );
    assert!(pkgbuild_template().starts_with("pkgname=aurora-wall\n"));
    assert_eq!(arch_install_hint(), "sudo pacman -S swww mpvpaper mpv  # or install awww instead of swww for still images");
}

#[test]
fn flags() {
    let a = args(&["--output", "eDP-1", "--path", "/x", "-v", "--output"]);
    assert_eq!(optional_flag(&a, "--output"), Some("eDP-1".to_string()));
    assert_eq!(optional_flag(&a, "-v"), Some("--output".to_string()));
    assert_eq!(optional_flag(&args(&["--config"]), "--config"), None);
    assert_eq!(required_flag(&a, "--title"), Err("missing required flag: --title".to_string()));
    assert!(has_flag(&a, "-v"));
    assert!(!has_flag(&a, "--verbose"));
    assert_eq!(config_path_from_args(&a, "/def"), "/def");
    assert_eq!(config_path_from_args(&args(&["--config", "/c.conf"]), "/def"), "/c.conf");
    assert_eq!(parse_yes_no(" YES "), Ok(true));
    assert_eq!(parse_yes_no("0"), Ok(false));
    assert_eq!(parse_yes_no("nah"), Err("invalid yes/no value: nah".to_string()));
}

#[test]
fn output_checks() {
    let listing: Result<Vec<String>, Failure> = Ok(vec!["A".to_string(), "B".to_string()]);
    assert_eq!(validate_output_if_possible("A", &listing), Ok(()));
    assert_eq!(
        validate_output_if_possible("C", &listing),
        Err("unknown output: C. Available outputs: A, B".to_string())
    );
    let none: Result<Vec<String>, Failure> = Ok(vec![]);
    assert_eq!(validate_output_if_possible("C", &none), Ok(()));
    let failed: Result<Vec<String>, Failure> = Err(Failure { kind: FailureKind::Other, message: "x".to_string() });
    assert_eq!(validate_output_if_possible("C", &failed), Ok(()));
}

#[test]
fn wallpapers_from_flags() {
    let a = args(&["--scaling", "FIT", "--transition", "bogus"]);
    let w = image_wallpaper_from_args(&a, "A".to_string(), "/a.png".to_string());
    assert_eq!(w.scaling, ScalingMode::Fit);
    assert_eq!(w.transition, TransitionMode::Fade);
    assert!(w.muted);
    let v = video_wallpaper_from_args(&args(&["--loop", "once", "--mute", "no"]), "A".to_string(), "/v".to_string()).unwrap();
    assert_eq!(v.loop_mode, LoopMode::Once);
    assert!(!v.muted);
    assert_eq!(v.transition, TransitionMode::Instant);
    assert_eq!(
        video_wallpaper_from_args(&args(&["--mute", "perhaps"]), "A".to_string(), "/v".to_string()),
        Err("invalid yes/no value: perhaps".to_string())
    );
}

#[test]
fn apply_reports() {
    let o = apply_options(&args(&["--verbose", "--no-wal"]));
    assert!(o.verbose && !o.sync_wal && !o.restore);
    let acts = vec!["swww img a".to_string()];
    assert_eq!(apply_report(&acts, Some("wal synced from a".to_string()), true), vec!["applied: swww img a", "applied: wal synced from a"]);
    assert_eq!(apply_report(&acts, None, false), vec!["applied"]);
    assert_eq!(apply_report(&vec![], Some("w".to_string()), true), vec!["applied"]);
    assert_eq!(removed_message(2, "A", "/c"), "removed 2 entries for output A from /c");
}

#[test]
fn commands() {
    assert_eq!(command_of("apply"), Ok(Command::Apply));
    assert_eq!(command_of("-h"), Ok(Command::Help));
    assert_eq!(command_of("fly"), Err("unknown command: fly. Run `aurora-wall help` for usage.".to_string()));
}

#[test]
fn activation_steps_follow_installed_tools() {
    assert!(activation_steps(false, false).is_empty());
    let both = activation_steps(true, true);
    assert_eq!(both.len(), 2);
    assert_eq!(both[0].program, "plymouth-set-default-theme");
    assert_eq!(both[0].args, vec!["-R", "aurora-wall"]);
    assert_eq!(
        both[0].failure,
        Failure {
            kind: FailureKind::Other,
            message: "plymouth-set-default-theme failed while activating aurora-wall".to_string()
        }
    );
    assert_eq!(both[1].program, "grub-mkconfig");
    assert_eq!(both[1].args, vec!["-o", "/boot/grub/grub.cfg"]);
    let grub_only = activation_steps(false, true);
    assert_eq!(grub_only.len(), 1);
    assert_eq!(
        grub_only[0].failure.message,
        "grub-mkconfig failed while rebuilding /boot/grub/grub.cfg"
    );
}
