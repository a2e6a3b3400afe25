//! Boot theme generation (GRUB and Plymouth), the installation of boot themes, and the
//! fixed texts the program prints.
use vstd::prelude::*;

use crate::commands::{find_kind, first_of_kind};
use crate::config::AppConfig;
use crate::failure::{Failure, FailureKind};
use crate::monitors::{starts_with, string_views};
use crate::paths::{join, join_path};
use crate::text::{
    append_decimal, chars_of, dec, find_in, parse_bounded, push_char, range_is, range_string, ranges_hold, split_all, split_ranges,
    trim, trim_bounds,
};

verus! {

/// The systemd unit up to the program path.
pub const SERVICE_HEAD: &'static str = "[Unit]\nDescription=aurora-wall restore service\nAfter=graphical-session.target\n\n[Service]\nType=oneshot\nExecStart=";

/// The systemd unit after the program path.
pub const SERVICE_TAIL: &'static str = " apply --restore\n\n[Install]\nWantedBy=default.target\n";

/// The GRUB theme up to the title.
pub const GRUB_THEME_HEAD: &'static str = "+ boot_menu {\n  left = 8%\n  top = 20%\n  width = 42%\n  height = 52%\n  item_color = \"#f5f5f5\"\n  selected_item_color = \"#111111\"\n  selected_item_pixmap_style = \"menuitem_select\"\n  item_spacing = 10\n  item_height = 36\n  item_padding = 8\n}\n\n+ label {\n  id = \"title\"\n  left = 8%\n  top = 10%\n  width = 60%\n  height = 40\n  text = \"";

/// The GRUB theme between the title and the background file name.
pub const GRUB_THEME_MIDDLE: &'static str = "\"\n  color = \"#f5f5f5\"\n  align = \"left\"\n  font = \"Unifont Regular 20\"\n}\n\n+ image {\n  file = \"";

/// The GRUB theme after the background file name.
pub const GRUB_THEME_TAIL: &'static str = "\"\n  left = 0\n  top = 0\n  width = 100%\n  height = 100%\n}\n\n+ rect {\n  left = 5%\n  top = 8%\n  width = 50%\n  height = 70%\n  color = \"#000000\"\n  alpha = 96\n}\n\n+ rect {\n  id = \"menuitem_select\"\n  left = 0\n  top = 0\n  width = 100%\n  height = 100%\n  color = \"#f5f5f5\"\n  alpha = 210\n}\n";

/// The GRUB install notes up to the theme directory.
pub const GRUB_INSTALL_HEAD: &'static str = "Copy this theme to GRUB and set it as active:\n\nsudo mkdir -p /boot/grub/themes/aurora-wall\nsudo cp -r \"";

/// The GRUB install notes after the theme directory.
pub const GRUB_INSTALL_TAIL: &'static str = "\"/* /boot/grub/themes/aurora-wall/\necho 'GRUB_THEME=/boot/grub/themes/aurora-wall/theme.txt' | sudo tee /etc/default/grub.d/aurora-wall.cfg\nsudo grub-mkconfig -o /boot/grub/grub.cfg\n";

/// The Plymouth theme file up to the title.
pub const PLYMOUTH_HEAD: &'static str = "[Plymouth Theme]\nName=";

/// The Plymouth theme file between the title and the image directory.
pub const PLYMOUTH_IMAGE_DIR: &'static str = "\nDescription=Aurora Wall Plymouth theme\nModuleName=script\n\n[script]\nImageDir=";

/// The Plymouth theme file between the image directory and the script file.
pub const PLYMOUTH_SCRIPT_FILE: &'static str = "\nScriptFile=";

/// The Plymouth theme file after the script file.
pub const PLYMOUTH_TAIL: &'static str = "\n";

/// The Plymouth script up to the overlay colour.
pub const SCRIPT_HEAD: &'static str = "screen_width = Window.GetWidth();\nscreen_height = Window.GetHeight();\n\nbg_image = Image(\"background.png\");\nbg_sprite = Sprite(bg_image);\nbg_sprite.SetZ(-100);\nbg_sprite.SetPosition(screen_width / 2, screen_height / 2);\n\nlogo_box = Box();\nlogo_box.SetColorTop(";

/// The separator between the colour channels of the Plymouth script.
pub const SCRIPT_SEP: &'static str = ", ";

/// The Plymouth script between the overlay colour and the shadow colour.
pub const SCRIPT_SHADOW_HEAD: &'static str = ", 0.72);\nlogo_box.SetColorBottom(";

/// The Plymouth script between the shadow colour and the title.
pub const SCRIPT_MESSAGE_HEAD: &'static str = ", 0.72);\nlogo_box.SetPosition(screen_width * 0.08, screen_height * 0.10, screen_width * 0.42, screen_height * 0.18);\n\nmessage = \"";

/// The Plymouth script between the title and the text colour.
pub const SCRIPT_TEXT_HEAD: &'static str = "\";\nmessage_image = Image.Text(message, ";

/// The Plymouth script between the text colour and the refreshed overlay colour.
pub const SCRIPT_REFRESH_HEAD: &'static str = ", 1);\nmessage_sprite = Sprite(message_image);\nmessage_sprite.SetZ(100);\nmessage_sprite.SetPosition(screen_width * 0.11, screen_height * 0.16);\n\nfun refresh_callback () {\n  global logo_box;\n  global message_sprite;\n  logo_box.SetColorTop(";

/// The Plymouth script after the refreshed overlay colour.
pub const SCRIPT_TAIL: &'static str = ", 0.72);\n  message_sprite.SetOpacity(1);\n}\n\nPlymouth.SetRefreshFunction(refresh_callback);\n";

/// The Plymouth install notes up to the theme directory.
pub const PLYMOUTH_INSTALL_HEAD: &'static str = "Install Plymouth and this theme:\n\nsudo pacman -S plymouth\nsudo mkdir -p /usr/share/plymouth/themes/aurora-wall\nsudo cp -r \"";

/// The Plymouth install notes after the theme directory.
pub const PLYMOUTH_INSTALL_TAIL: &'static str = "\"/* /usr/share/plymouth/themes/aurora-wall/\nsudo plymouth-set-default-theme -R aurora-wall\n\nIf your distro does not have plymouth-set-default-theme, set the theme in your initramfs config and rebuild it manually.\n";

/// The text with every double quote replaced by a single quote.
pub open spec fn sanitize_spec(s: Seq<char>) -> Seq<char> {
    Seq::new(s.len(), |i: int| if s[i] == '"' { '\'' } else { s[i] })
}

/// Replaces double quotes by single quotes, so the text can stand inside a quoted string.
pub fn sanitize_grub_text(input: &str) -> (r: String)
    ensures
        r@ == sanitize_spec(input@),
{
    let cs = chars_of(input);
    let mut r = String::new();
    let mut i: usize = 0;
    while i < cs.len()
        invariant
            cs@ == input@,
            i <= cs.len(),
            r@ == sanitize_spec(input@).take(i as int),
        decreases cs.len() - i,
    {
        let c = if cs[i] == '"' {
            '\''
        } else {
            cs[i]
        };
        push_char(&mut r, c);
        assert(sanitize_spec(input@).take(i + 1) =~= sanitize_spec(input@).take(i as int).push(c));
        i = i + 1;
    }
    assert(sanitize_spec(input@).take(i as int) =~= sanitize_spec(input@));
    r
}

/// A sanitized title holds no double quote, so it cannot end the quoted string it is
/// written into, and it keeps the title's length.
pub proof fn law_sanitized_text_has_no_double_quote(s: Seq<char>)
    ensures
        sanitize_spec(s).len() == s.len(),
        forall|i: int| 0 <= i < s.len() ==> sanitize_spec(s)[i] != '"',
{
}

/// The last path segment that is neither empty nor `.`.
pub open spec fn last_name(segs: Seq<Seq<char>>) -> Option<Seq<char>>
    decreases segs.len(),
{
    if segs.len() == 0 {
        None
    } else if segs.last().len() == 0 || segs.last() == "."@ {
        last_name(segs.drop_last())
    } else {
        Some(segs.last())
    }
}

/// The final component of a Unix path, as `Path::file_name` gives it.
pub open spec fn file_name(p: Seq<char>) -> Option<Seq<char>> {
    match last_name(split_all(p, '/')) {
        Some(n) => if n == ".."@ {
            None
        } else {
            Some(n)
        },
        None => None,
    }
}

/// Position of the last occurrence of `c` in `s`, or -1.
pub open spec fn rfind(s: Seq<char>, c: char) -> int
    decreases s.len(),
{
    if s.len() == 0 {
        -1
    } else if s.last() == c {
        s.len() - 1
    } else {
        rfind(s.drop_last(), c)
    }
}

/// The extension of a Unix path, as `Path::extension` gives it: the text after the last
/// dot of the file name, unless the name has no dot or only a leading one.
pub open spec fn extension_spec(p: Seq<char>) -> Option<Seq<char>> {
    match file_name(p) {
        Some(f) => {
            let i = rfind(f, '.');
            if i <= 0 {
                None
            } else {
                Some(f.skip(i + 1))
            }
        },
        None => None,
    }
}

/// The file name the GRUB background is copied to: `background.` and the source's
/// extension, or `png` when it has none.
pub open spec fn background_name_spec(p: Seq<char>) -> Seq<char> {
    "background."@ + match extension_spec(p) {
        Some(e) => if e.len() > 0 {
            e
        } else {
            "png"@
        },
        None => "png"@,
    }
}

proof fn lemma_rfind(s: Seq<char>, c: char)
    ensures
        -1 <= rfind(s, c) < s.len(),
        rfind(s, c) >= 0 ==> s[rfind(s, c)] == c,
        forall|j: int| rfind(s, c) < j < s.len() ==> s[j] != c,
    decreases s.len(),
{
    if s.len() > 0 && s.last() != c {
        lemma_rfind(s.drop_last(), c);
        assert forall|j: int| rfind(s, c) < j < s.len() implies s[j] != c by {
            if j < s.len() - 1 {
                assert(s[j] == s.drop_last()[j]);
            }
        }
    }
}

/// Finds the last `c` in `cs[lo..hi]`.
fn rfind_in(cs: &Vec<char>, lo: usize, hi: usize, c: char) -> (r: Option<usize>)
    requires
        lo <= hi <= cs.len(),
    ensures
        match r {
            Some(k) => lo <= k < hi && rfind(cs@.subrange(lo as int, hi as int), c) == k - lo,
            None => rfind(cs@.subrange(lo as int, hi as int), c) == -1,
        },
{
    let mut j = hi;
    while j > lo
        invariant
            lo <= j <= hi <= cs.len(),
            rfind(cs@.subrange(lo as int, hi as int), c) == rfind(cs@.subrange(lo as int, j as int), c),
        decreases j - lo,
    {
        if cs[j - 1] == c {
            return Some(j - 1);
        }
        assert(cs@.subrange(lo as int, j as int).drop_last() =~= cs@.subrange(lo as int, j - 1));
        j = j - 1;
    }
    None
}

/// The name the GRUB background is copied to.
pub fn background_file_name(background: &str) -> (r: String)
    ensures
        r@ == background_name_spec(background@),
{
    proof {
        reveal_strlit(".");
        reveal_strlit("..");
    }
    let cs = chars_of(background);
    assert(cs@.subrange(0, cs.len() as int) =~= background@);
    let segs = split_ranges(&cs, 0, cs.len(), '/');
    let ghost all = split_all(background@, '/');
    let mut k = segs.len();
    assert(all.take(k as int) =~= all);
    while k > 0
        invariant
            k <= segs.len(),
            ranges_hold(cs@, segs@, all, 0, cs.len() as int),
            all == split_all(background@, '/'),
            last_name(all) == last_name(all.take(k as int)),
        ensures
            k <= segs.len(),
            last_name(all) == last_name(all.take(k as int)),
            k > 0 ==> all[k - 1].len() > 0 && all[k - 1] != "."@,
        decreases k,
    {
        let (a, b) = segs[k - 1];
        assert(segs[k - 1] == segs@[k - 1]);
        assert(all.take(k as int).last() == all[k - 1]);
        if a < b && !range_is(&cs, a, b, ".") {
            assert(all[k - 1] == cs@.subrange(a as int, b as int));
            break;
        }
        assert(all.take(k as int).drop_last() =~= all.take(k - 1));
        k = k - 1;
    }
    let mut name = String::from_str("background.");
    let mut ext_found = false;
    if k > 0 {
        let (a, b) = segs[k - 1];
        assert(segs[k - 1] == segs@[k - 1]);
        assert(all.take(k as int).last() == all[k - 1]);
        assert(all[k - 1] == cs@.subrange(a as int, b as int));
        assert(last_name(all) == Some(cs@.subrange(a as int, b as int)));
        if !range_is(&cs, a, b, "..") {
            if let Some(d) = rfind_in(&cs, a, b, '.') {
                if d > a && d + 1 < b {
                    crate::text::append_range(&mut name, &cs, d + 1, b);
                    ext_found = true;
                    assert(cs@.subrange(a as int, b as int).skip(d - a + 1) =~= cs@.subrange(
                        d + 1,
                        b as int,
                    ));
                }
            }
        }
    } else {
        assert(all.take(0) =~= Seq::<Seq<char>>::empty());
    }
    if !ext_found {
        name.append("png");
    }
    name
}

/// The GRUB background: the requested image when it exists, else the first still
/// wallpaper of the configuration.
pub open spec fn grub_background_spec(
    config: AppConfig,
    requested: Option<Seq<char>>,
    requested_exists: bool,
) -> Result<Seq<char>, (FailureKind, Seq<char>)> {
    match requested {
        Some(p) => if requested_exists {
            Ok(p)
        } else {
            Err((FailureKind::NotFound, "GRUB background does not exist: "@ + p))
        },
        None => {
            let ws = config@.wallpapers;
            let i = first_of_kind(ws, crate::backend::WallpaperKind::Image);
            if 0 <= i < ws.len() {
                Ok(ws[i].path)
            } else {
                Err(
                    (
                        FailureKind::InvalidInput,
                        "GRUB needs a static background image. Your config only has video wallpapers, so pass --background /path/to/image.jpg"@,
                    ),
                )
            }
        },
    }
}

/// The GRUB background is the requested image when one is given (refused when it does not
/// exist); otherwise it is the first still wallpaper of the configuration, and without a
/// still wallpaper it is refused, whatever videos are configured.
pub proof fn law_grub_background_choice(config: AppConfig, requested: Seq<char>, k: int)
    ensures
        grub_background_spec(config, Some(requested), true) == Ok::<
            Seq<char>,
            (FailureKind, Seq<char>),
        >(requested),
        grub_background_spec(config, Some(requested), false) is Err,
        ({
            let ws = config@.wallpapers;
            (0 <= k < ws.len() && ws[k].kind == crate::backend::WallpaperKind::Image && forall|
                j: int,
            |
                0 <= j < k ==> ws[j].kind != crate::backend::WallpaperKind::Image) ==> forall|
                e: bool,
            |
                #[trigger] grub_background_spec(config, None, e) == Ok::<
                    Seq<char>,
                    (FailureKind, Seq<char>),
                >(ws[k].path)
        }),
        ({
            let ws = config@.wallpapers;
            (forall|j: int| 0 <= j < ws.len() ==> ws[j].kind != crate::backend::WallpaperKind::Image)
                ==> grub_background_spec(config, None, false) is Err
        }),
{
    let ws = config@.wallpapers;
    crate::commands::lemma_first_of_kind(ws, crate::backend::WallpaperKind::Image);
    let i = first_of_kind(ws, crate::backend::WallpaperKind::Image);
    if 0 <= k < ws.len() && ws[k].kind == crate::backend::WallpaperKind::Image && i != k {
        if 0 <= i < k {
            assert(ws[i].kind == crate::backend::WallpaperKind::Image);
        } else {
            assert(ws[k].kind != crate::backend::WallpaperKind::Image);
        }
    }
}

/// Chooses the GRUB background; `requested_exists` tells whether the requested image exists.
pub fn resolve_grub_background(
    config: &AppConfig,
    requested: Option<&str>,
    requested_exists: bool,
) -> (r: Result<String, Failure>)
    ensures
        match (r, grub_background_spec(*config, crate::paths::opt_view(requested), requested_exists)) {
            (Ok(p), Ok(q)) => p@ == q,
            (Err(f), Err(e)) => f@ == e,
            _ => false,
        },
{
    if let Some(path) = requested {
        if requested_exists {
            return Ok(String::from_str(path));
        }
        let mut m = String::from_str("GRUB background does not exist: ");
        m.append(path);
        return Err(Failure::new(FailureKind::NotFound, m));
    }
    if let Some(i) = find_kind(&config.wallpapers, crate::backend::WallpaperKind::Image) {
        return Ok(config.wallpapers[i].path.clone());
    }
    Err(
        Failure::with_text(
            FailureKind::InvalidInput,
            "GRUB needs a static background image. Your config only has video wallpapers, so pass --background /path/to/image.jpg",
        ),
    )
}

/// The GRUB theme with its title and background file name.
pub open spec fn grub_theme_spec(title: Seq<char>, background_name: Seq<char>) -> Seq<char> {
    GRUB_THEME_HEAD@ + sanitize_spec(title) + GRUB_THEME_MIDDLE@ + background_name
        + GRUB_THEME_TAIL@
}

pub fn grub_theme_text(title: &str, background_name: &str) -> (r: String)
    ensures
        r@ == grub_theme_spec(title@, background_name@),
{
    let mut r = String::from_str(GRUB_THEME_HEAD);
    let t = sanitize_grub_text(title);
    r.append(t.as_str());
    r.append(GRUB_THEME_MIDDLE);
    r.append(background_name);
    r.append(GRUB_THEME_TAIL);
    r
}

/// The notes on installing the GRUB theme kept in `theme_dir`.
pub fn grub_install_text(theme_dir: &str) -> (r: String)
    ensures
        r@ == GRUB_INSTALL_HEAD@ + theme_dir@ + GRUB_INSTALL_TAIL@,
{
    let mut r = String::from_str(GRUB_INSTALL_HEAD);
    r.append(theme_dir);
    r.append(GRUB_INSTALL_TAIL);
    r
}

/// What exporting a GRUB theme does: copy `background` to `target_background`, write
/// `theme_text` to `theme_file` and `install_text` to `install_file`, then report.
#[derive(Debug, Clone, PartialEq, Eq)]
pub struct GrubExport {
    pub background: String,
    pub target_background: String,
    pub theme_file: String,
    pub theme_text: String,
    pub install_file: String,
    pub install_text: String,
    pub report: Vec<String>,
}

fn prefixed(prefix: &str, s: &str) -> (r: String)
    ensures
        r@ == prefix@ + s@,
{
    let mut r = String::from_str(prefix);
    r.append(s);
    r
}

/// Plans the export of a GRUB theme into `theme_dir`.
pub fn plan_grub_export(
    config: &AppConfig,
    theme_dir: &str,
    requested_background: Option<&str>,
    requested_exists: bool,
    title: &str,
) -> (r: Result<GrubExport, Failure>)
    ensures
        match (r, grub_background_spec(*config, crate::paths::opt_view(requested_background), requested_exists)) {
            (Ok(e), Ok(b)) => {
                &&& e.background@ == b
                &&& e.target_background@ == join_path(theme_dir@, background_name_spec(b))
                &&& e.theme_file@ == join_path(theme_dir@, "theme.txt"@)
                &&& e.theme_text@ == grub_theme_spec(title@, background_name_spec(b))
                &&& e.install_file@ == join_path(theme_dir@, "INSTALL.txt"@)
                &&& e.install_text@ == GRUB_INSTALL_HEAD@ + theme_dir@ + GRUB_INSTALL_TAIL@
                &&& string_views(e.report@) == seq![
                    "wrote "@ + join_path(theme_dir@, "theme.txt"@),
                    "copied background "@ + join_path(theme_dir@, background_name_spec(b)),
                    "wrote "@ + join_path(theme_dir@, "INSTALL.txt"@),
                ]
            },
            (Err(f), Err(m)) => f@ == m,
            _ => false,
        },
{
    proof {
        reveal_strlit("background.");
    }
    let background = resolve_grub_background(config, requested_background, requested_exists)?;
    let name = background_file_name(background.as_str());
    assert(name@.len() > 0 && name@[0] == 'b');
    let target_background = join(theme_dir, name.as_str());
    proof {
        reveal_strlit("theme.txt");
        reveal_strlit("INSTALL.txt");
    }
    let theme_file = join(theme_dir, "theme.txt");
    let install_file = join(theme_dir, "INSTALL.txt");
    let theme_text = grub_theme_text(title, name.as_str());
    let install_text = grub_install_text(theme_dir);
    let mut report: Vec<String> = Vec::new();
    report.push(prefixed("wrote ", theme_file.as_str()));
    report.push(prefixed("copied background ", target_background.as_str()));
    report.push(prefixed("wrote ", install_file.as_str()));
    let e = GrubExport {
        background,
        target_background,
        theme_file,
        theme_text,
        install_file,
        install_text,
        report,
    };
    assert(string_views(e.report@) =~= seq![
        "wrote "@ + join_path(theme_dir@, "theme.txt"@),
        "copied background "@ + join_path(theme_dir@, name@),
        "wrote "@ + join_path(theme_dir@, "INSTALL.txt"@),
    ]);
    Ok(e)
}

/// Where the Plymouth background comes from.
#[derive(Debug, Clone, PartialEq, Eq)]
pub enum PlymouthSource {
    /// A still image, copied as it is.
    Image(String),
    /// A video, from which a poster frame is extracted first.
    VideoPoster(String),
}

/// The Plymouth background source: the requested image, else a poster of the requested
/// video, else the first still wallpaper, else a poster of the first video wallpaper.
/// `true` marks a still image.
pub open spec fn plymouth_source_spec(
    config: AppConfig,
    requested_background: Option<Seq<char>>,
    requested_video: Option<Seq<char>>,
) -> Result<(bool, Seq<char>), (FailureKind, Seq<char>)> {
    let ws = config@.wallpapers;
    let i = first_of_kind(ws, crate::backend::WallpaperKind::Image);
    let v = first_of_kind(ws, crate::backend::WallpaperKind::Video);
    match requested_background {
        Some(b) => Ok((true, b)),
        None => match requested_video {
            Some(p) => Ok((false, p)),
            None => if 0 <= i < ws.len() {
                Ok((true, ws[i].path))
            } else if 0 <= v < ws.len() {
                Ok((false, ws[v].path))
            } else {
                Err(
                    (
                        FailureKind::InvalidInput,
                        "no suitable wallpaper found for Plymouth export; pass --background or --video"@,
                    ),
                )
            },
        },
    }
}

/// Chooses the Plymouth background source.
pub fn plymouth_source(
    config: &AppConfig,
    requested_background: Option<&str>,
    requested_video: Option<&str>,
) -> (r: Result<PlymouthSource, Failure>)
    ensures
        match (
            r,
            plymouth_source_spec(
                *config,
                crate::paths::opt_view(requested_background),
                crate::paths::opt_view(requested_video),
            ),
        ) {
            (Ok(PlymouthSource::Image(p)), Ok((true, q))) => p@ == q,
            (Ok(PlymouthSource::VideoPoster(p)), Ok((false, q))) => p@ == q,
            (Err(f), Err(e)) => f@ == e,
            _ => false,
        },
{
    if let Some(b) = requested_background {
        return Ok(PlymouthSource::Image(String::from_str(b)));
    }
    if let Some(v) = requested_video {
        return Ok(PlymouthSource::VideoPoster(String::from_str(v)));
    }
    if let Some(i) = find_kind(&config.wallpapers, crate::backend::WallpaperKind::Image) {
        return Ok(PlymouthSource::Image(config.wallpapers[i].path.clone()));
    }
    if let Some(v) = find_kind(&config.wallpapers, crate::backend::WallpaperKind::Video) {
        return Ok(PlymouthSource::VideoPoster(config.wallpapers[v].path.clone()));
    }
    Err(
        Failure::with_text(
            FailureKind::InvalidInput,
            "no suitable wallpaper found for Plymouth export; pass --background or --video",
        ),
    )
}

/// The Plymouth background: a requested image wins; else a requested video; else the
/// first still wallpaper, used as it is, whenever the configuration has one; a video
/// poster of the configuration is used only when it has no still wallpaper.
pub proof fn law_plymouth_source_order(
    config: AppConfig,
    background: Seq<char>,
    video: Seq<char>,
    video_opt: Option<Seq<char>>,
    k: int,
)
    ensures
        plymouth_source_spec(config, Some(background), video_opt) == Ok::<
            (bool, Seq<char>),
            (FailureKind, Seq<char>),
        >((true, background)),
        plymouth_source_spec(config, None, Some(video)) == Ok::<
            (bool, Seq<char>),
            (FailureKind, Seq<char>),
        >((false, video)),
        ({
            let ws = config@.wallpapers;
            (0 <= k < ws.len() && ws[k].kind == crate::backend::WallpaperKind::Image && forall|
                j: int,
            |
                0 <= j < k ==> ws[j].kind != crate::backend::WallpaperKind::Image) ==> plymouth_source_spec(
                config,
                None,
                None,
            ) == Ok::<(bool, Seq<char>), (FailureKind, Seq<char>)>((true, ws[k].path))
        }),
        ({
            let ws = config@.wallpapers;
            ((forall|j: int| 0 <= j < ws.len() ==> ws[j].kind != crate::backend::WallpaperKind::Image)
                && 0 <= k < ws.len() && ws[k].kind == crate::backend::WallpaperKind::Video
                && forall|j: int|
                0 <= j < k ==> ws[j].kind != crate::backend::WallpaperKind::Video) ==> plymouth_source_spec(
                config,
                None,
                None,
            ) == Ok::<(bool, Seq<char>), (FailureKind, Seq<char>)>((false, ws[k].path))
        }),
{
    let ws = config@.wallpapers;
    crate::commands::lemma_first_of_kind(ws, crate::backend::WallpaperKind::Image);
    crate::commands::lemma_first_of_kind(ws, crate::backend::WallpaperKind::Video);
    let i = first_of_kind(ws, crate::backend::WallpaperKind::Image);
    let v = first_of_kind(ws, crate::backend::WallpaperKind::Video);
    if 0 <= k < ws.len() {
        if ws[k].kind == crate::backend::WallpaperKind::Image && i != k {
            if 0 <= i < k {
                assert(ws[i].kind == crate::backend::WallpaperKind::Image);
            } else {
                assert(ws[k].kind != crate::backend::WallpaperKind::Image);
            }
        }
        if ws[k].kind == crate::backend::WallpaperKind::Video && v != k {
            if 0 <= v < k {
                assert(ws[v].kind == crate::backend::WallpaperKind::Video);
            } else {
                assert(ws[k].kind != crate::backend::WallpaperKind::Video);
            }
        }
    }
}

/// The failure when the background to copy does not exist.
pub fn missing_background(source: &str) -> (f: Failure)
    ensures
        f@ == (FailureKind::NotFound, "background does not exist: "@ + source@),
{
    Failure::new(FailureKind::NotFound, prefixed("background does not exist: ", source))
}

/// The files of a Plymouth theme kept in one directory.
#[derive(Debug, Clone, PartialEq, Eq)]
pub struct PlymouthFiles {
    pub poster: String,
    pub background: String,
    pub theme_file: String,
    pub script_file: String,
    pub install_file: String,
}

/// The files of the Plymouth theme in `theme_dir`.
pub fn plymouth_files(theme_dir: &str) -> (f: PlymouthFiles)
    ensures
        f.poster@ == join_path(theme_dir@, "poster.png"@),
        f.background@ == join_path(theme_dir@, "background.png"@),
        f.theme_file@ == join_path(theme_dir@, "aurora-wall.plymouth"@),
        f.script_file@ == join_path(theme_dir@, "aurora-wall.script"@),
        f.install_file@ == join_path(theme_dir@, "INSTALL.txt"@),
{
    proof {
        reveal_strlit("poster.png");
        reveal_strlit("background.png");
        reveal_strlit("aurora-wall.plymouth");
        reveal_strlit("aurora-wall.script");
        reveal_strlit("INSTALL.txt");
    }
    PlymouthFiles {
        poster: join(theme_dir, "poster.png"),
        background: join(theme_dir, "background.png"),
        theme_file: join(theme_dir, "aurora-wall.plymouth"),
        script_file: join(theme_dir, "aurora-wall.script"),
        install_file: join(theme_dir, "INSTALL.txt"),
    }
}

/// The Plymouth theme description.
pub open spec fn plymouth_theme_spec(
    title: Seq<char>,
    theme_dir: Seq<char>,
    script_file: Seq<char>,
) -> Seq<char> {
    PLYMOUTH_HEAD@ + sanitize_spec(title) + PLYMOUTH_IMAGE_DIR@ + theme_dir + PLYMOUTH_SCRIPT_FILE@
        + script_file + PLYMOUTH_TAIL@
}

pub fn plymouth_theme_text(title: &str, theme_dir: &str, script_file: &str) -> (r: String)
    ensures
        r@ == plymouth_theme_spec(title@, theme_dir@, script_file@),
{
    let mut r = String::from_str(PLYMOUTH_HEAD);
    let t = sanitize_grub_text(title);
    r.append(t.as_str());
    r.append(PLYMOUTH_IMAGE_DIR);
    r.append(theme_dir);
    r.append(PLYMOUTH_SCRIPT_FILE);
    r.append(script_file);
    r.append(PLYMOUTH_TAIL);
    r
}

/// The notes on installing the Plymouth theme kept in `theme_dir`.
pub fn plymouth_install_text(theme_dir: &str) -> (r: String)
    ensures
        r@ == PLYMOUTH_INSTALL_HEAD@ + theme_dir@ + PLYMOUTH_INSTALL_TAIL@,
{
    let mut r = String::from_str(PLYMOUTH_INSTALL_HEAD);
    r.append(theme_dir);
    r.append(PLYMOUTH_INSTALL_TAIL);
    r
}

/// The colours of the Plymouth splash.
#[derive(Debug, Clone, Copy, PartialEq, Eq)]
pub struct ThemePalette {
    pub overlay_r: u8,
    pub overlay_g: u8,
    pub overlay_b: u8,
    pub shadow_r: u8,
    pub shadow_g: u8,
    pub shadow_b: u8,
    pub text_r: u8,
    pub text_g: u8,
    pub text_b: u8,
}

/// Three colour channels in decimal, separated by `, `.
pub open spec fn rgb_spec(r: u8, g: u8, b: u8) -> Seq<char> {
    dec(r as nat) + SCRIPT_SEP@ + dec(g as nat) + SCRIPT_SEP@ + dec(b as nat)
}

fn append_rgb(out: &mut String, r: u8, g: u8, b: u8)
    ensures
        final(out)@ == old(out)@ + rgb_spec(r, g, b),
{
    append_decimal(out, r as usize);
    out.append(SCRIPT_SEP);
    append_decimal(out, g as usize);
    out.append(SCRIPT_SEP);
    append_decimal(out, b as usize);
    assert(out@ =~= old(out)@ + rgb_spec(r, g, b));
}

/// The Plymouth script: the background, a tinted box in the overlay and shadow colours,
/// and the title in the text colour.
pub open spec fn plymouth_script_spec(p: ThemePalette, title: Seq<char>) -> Seq<char> {
    SCRIPT_HEAD@ + rgb_spec(p.overlay_r, p.overlay_g, p.overlay_b) + SCRIPT_SHADOW_HEAD@ + rgb_spec(
        p.shadow_r,
        p.shadow_g,
        p.shadow_b,
    ) + SCRIPT_MESSAGE_HEAD@ + sanitize_spec(title) + SCRIPT_TEXT_HEAD@ + rgb_spec(
        p.text_r,
        p.text_g,
        p.text_b,
    ) + SCRIPT_REFRESH_HEAD@ + rgb_spec(p.overlay_r, p.overlay_g, p.overlay_b) + SCRIPT_TAIL@
}

pub fn plymouth_script_text(palette: &ThemePalette, title: &str) -> (r: String)
    ensures
        r@ == plymouth_script_spec(*palette, title@),
{
    let mut r = String::from_str(SCRIPT_HEAD);
    append_rgb(&mut r, palette.overlay_r, palette.overlay_g, palette.overlay_b);
    r.append(SCRIPT_SHADOW_HEAD);
    append_rgb(&mut r, palette.shadow_r, palette.shadow_g, palette.shadow_b);
    r.append(SCRIPT_MESSAGE_HEAD);
    let t = sanitize_grub_text(title);
    r.append(t.as_str());
    r.append(SCRIPT_TEXT_HEAD);
    append_rgb(&mut r, palette.text_r, palette.text_g, palette.text_b);
    r.append(SCRIPT_REFRESH_HEAD);
    append_rgb(&mut r, palette.overlay_r, palette.overlay_g, palette.overlay_b);
    r.append(SCRIPT_TAIL);
    r
}

/// The report of a Plymouth export.
pub fn plymouth_report(files: &PlymouthFiles) -> (r: Vec<String>)
    ensures
        string_views(r@) == seq![
            "wrote "@ + files.theme_file@,
            "wrote "@ + files.script_file@,
            "copied background "@ + files.background@,
            "wrote "@ + files.install_file@,
        ],
{
    let mut r: Vec<String> = Vec::new();
    r.push(prefixed("wrote ", files.theme_file.as_str()));
    r.push(prefixed("wrote ", files.script_file.as_str()));
    r.push(prefixed("copied background ", files.background.as_str()));
    r.push(prefixed("wrote ", files.install_file.as_str()));
    assert(string_views(r@) =~= seq![
        "wrote "@ + files.theme_file@,
        "wrote "@ + files.script_file@,
        "copied background "@ + files.background@,
        "wrote "@ + files.install_file@,
    ]);
    r
}

/// A colour channel read from a pixel value.
#[derive(Debug, Clone, PartialEq, Eq)]
pub enum Channel {
    /// An integer channel value.
    Value(u8),
    /// A percentage, given as the channel's text and that text without its trailing `%`
    /// signs; it is read as a decimal fraction of 255.
    Percent { raw: String, stripped: String },
}

pub enum ChannelModel {
    Value(u8),
    Percent(Seq<char>, Seq<char>),
}

impl View for Channel {
    type V = ChannelModel;

    open spec fn view(&self) -> ChannelModel {
        match self {
            Channel::Value(v) => ChannelModel::Value(*v),
            Channel::Percent { raw, stripped } => ChannelModel::Percent(raw@, stripped@),
        }
    }
}

/// The text without its trailing `%` signs.
pub open spec fn strip_percents(s: Seq<char>) -> Seq<char>
    decreases s.len(),
{
    if s.len() > 0 && s.last() == '%' {
        strip_percents(s.drop_last())
    } else {
        s
    }
}

/// A channel text read as a percentage when it holds `%`, else as an integer from 0 to 255.
pub open spec fn channel_spec(raw: Seq<char>) -> Result<ChannelModel, (FailureKind, Seq<char>)> {
    let stripped = strip_percents(raw);
    if crate::text::find(raw, '%') >= 0 {
        Ok(ChannelModel::Percent(raw, stripped))
    } else {
        match crate::text::parse_unsigned(stripped, 255) {
            Some(v) => Ok(ChannelModel::Value(v as u8)),
            None => Err((FailureKind::InvalidData, "invalid integer channel: "@ + raw)),
        }
    }
}

fn channel_in(cs: &Vec<char>, lo: usize, hi: usize) -> (r: Result<Channel, Failure>)
    requires
        lo <= hi <= cs.len(),
    ensures
        match (r, channel_spec(cs@.subrange(lo as int, hi as int))) {
            (Ok(c), Ok(m)) => c@ == m,
            (Err(f), Err(e)) => f@ == e,
            _ => false,
        },
{
    let ghost raw = cs@.subrange(lo as int, hi as int);
    let mut e = hi;
    while e > lo && cs[e - 1] == '%'
        invariant
            lo <= e <= hi <= cs.len(),
            strip_percents(raw) == strip_percents(cs@.subrange(lo as int, e as int)),
        decreases e - lo,
    {
        assert(cs@.subrange(lo as int, e as int).drop_last() =~= cs@.subrange(lo as int, e - 1));
        e = e - 1;
    }
    assert(strip_percents(cs@.subrange(lo as int, e as int)) == cs@.subrange(lo as int, e as int));
    if find_in(cs, lo, hi, '%').is_some() {
        return Ok(Channel::Percent { raw: range_string(cs, lo, hi), stripped: range_string(cs, lo, e) });
    }
    match parse_bounded(cs, lo, e, 255) {
        Some(v) => Ok(Channel::Value(v as u8)),
        None => {
            let mut m = String::from_str("invalid integer channel: ");
            crate::text::append_range(&mut m, cs, lo, hi);
            Err(Failure::new(FailureKind::InvalidData, m))
        },
    }
}

/// Reads one colour channel of a pixel value.
pub fn parse_color_channel(raw: &str) -> (r: Result<Channel, Failure>)
    ensures
        match (r, channel_spec(raw@)) {
            (Ok(c), Ok(m)) => c@ == m,
            (Err(f), Err(e)) => f@ == e,
            _ => false,
        },
{
    let cs = chars_of(raw);
    assert(cs@.subrange(0, cs.len() as int) =~= raw@);
    channel_in(&cs, 0, cs.len())
}

/// The trimmed channel texts of an `srgb(r,g,b)` pixel value, or why it is refused.
pub open spec fn pixel_parts_spec(pixel: Seq<char>) -> Result<Seq<Seq<char>>, (FailureKind, Seq<char>)> {
    let after = pixel.skip(5);
    if !(starts_with(pixel, "srgb("@) && after.len() > 0 && after.last() == ')') {
        Err((FailureKind::InvalidData, "unsupported pixel format: "@ + pixel))
    } else {
        let parts = split_all(after.drop_last(), ',');
        if parts.len() != 3 {
            Err((FailureKind::InvalidData, "invalid pixel value: "@ + pixel))
        } else {
            Ok(parts.map_values(|p: Seq<char>| trim(p)))
        }
    }
}

/// Reads an `srgb(r,g,b)` pixel value into its three channels, each read on its own so
/// that the caller meets their failures in order.
pub fn parse_magick_pixel(pixel: &str) -> (r: Result<Vec<Result<Channel, Failure>>, Failure>)
    ensures
        match (r, pixel_parts_spec(pixel@)) {
            (Ok(chs), Ok(parts)) => chs@.len() == 3 && forall|i: int|
                0 <= i < 3 ==> match (#[trigger] chs@[i], channel_spec(parts[i])) {
                    (Ok(c), Ok(m)) => c@ == m,
                    (Err(f), Err(e)) => f@ == e,
                    _ => false,
                },
            (Err(f), Err(e)) => f@ == e,
            _ => false,
        },
{
    proof {
        reveal_strlit("srgb(");
    }
    let cs = chars_of(pixel);
    let n = cs.len();
    let ok_shape = n >= 6 && range_is(&cs, 0, 5, "srgb(") && cs[n - 1] == ')';
    proof {
        assert(pixel@.take(5) =~= cs@.subrange(0, 5)) ;
        if n >= 6 {
            assert(pixel@.skip(5).last() == cs@[n - 1]);
        }
    }
    if !ok_shape {
        let mut m = String::from_str("unsupported pixel format: ");
        m.append(pixel);
        return Err(Failure::new(FailureKind::InvalidData, m));
    }
    assert(pixel@.skip(5).drop_last() =~= cs@.subrange(5, n - 1));
    let parts = split_ranges(&cs, 5, n - 1, ',');
    if parts.len() != 3 {
        let mut m = String::from_str("invalid pixel value: ");
        m.append(pixel);
        return Err(Failure::new(FailureKind::InvalidData, m));
    }
    let ghost ps = split_all(cs@.subrange(5, n - 1), ',');
    let mut chs: Vec<Result<Channel, Failure>> = Vec::new();
    let mut i: usize = 0;
    while i < 3
        invariant
            i <= 3,
            parts.len() == 3,
            ranges_hold(cs@, parts@, ps, 5, n - 1),
            n == cs.len(),
            chs@.len() == i,
            forall|j: int|
                0 <= j < i ==> match (#[trigger] chs@[j], channel_spec(trim(ps[j]))) {
                    (Ok(c), Ok(m)) => c@ == m,
                    (Err(f), Err(e)) => f@ == e,
                    _ => false,
                },
        decreases 3 - i,
    {
        let (lo, hi) = parts[i];
        assert(parts[i as int] == parts@[i as int]);
        let (a, b) = trim_bounds(&cs, lo, hi);
        let ghost before = chs@;
        chs.push(channel_in(&cs, a, b));
        assert(forall|j: int| 0 <= j < i ==> chs@[j] == before[j]);
        i = i + 1;
    }
    Ok(chs)
}

/// What installing the boot themes does: copy the GRUB theme to `grub_target`, write
/// `grub_default_text` to `grub_default`, copy the Plymouth theme to `plymouth_target`,
/// then report.
#[derive(Debug, Clone, PartialEq, Eq)]
pub struct InstallPlan {
    pub grub_target: String,
    pub grub_default: String,
    pub grub_default_text: String,
    pub plymouth_target: String,
    pub report: Vec<String>,
}

/// Plans the installation of the boot themes, given whether their source directories exist.
pub fn plan_install(
    grub_source: &str,
    grub_exists: bool,
    plymouth_source: &str,
    plymouth_exists: bool,
) -> (r: Result<InstallPlan, Failure>)
    ensures
        !grub_exists ==> (r matches Err(f) && f@ == (
            FailureKind::NotFound,
            "GRUB theme directory does not exist: "@ + grub_source@,
        )),
        grub_exists && !plymouth_exists ==> (r matches Err(f) && f@ == (
            FailureKind::NotFound,
            "Plymouth theme directory does not exist: "@ + plymouth_source@,
        )),
        grub_exists && plymouth_exists ==> (r matches Ok(p) && {
            &&& p.grub_target@ == "/boot/grub/themes/aurora-wall"@
            &&& p.grub_default@ == "/etc/default/grub.d/aurora-wall.cfg"@
            &&& p.grub_default_text@ == "GRUB_THEME=/boot/grub/themes/aurora-wall/theme.txt\n"@
            &&& p.plymouth_target@ == "/usr/share/plymouth/themes/aurora-wall"@
            &&& string_views(p.report@) == seq![
                "installed GRUB theme to "@ + "/boot/grub/themes/aurora-wall"@,
                "wrote "@ + "/etc/default/grub.d/aurora-wall.cfg"@,
                "installed Plymouth theme to "@ + "/usr/share/plymouth/themes/aurora-wall"@,
                "rebuilt boot configuration where supported"@,
            ]
        }),
{
    if !grub_exists {
        return Err(
            Failure::new(
                FailureKind::NotFound,
                prefixed("GRUB theme directory does not exist: ", grub_source),
            ),
        );
    }
    if !plymouth_exists {
        return Err(
            Failure::new(
                FailureKind::NotFound,
                prefixed("Plymouth theme directory does not exist: ", plymouth_source),
            ),
        );
    }
    let grub_target = "/boot/grub/themes/aurora-wall";
    let grub_default = "/etc/default/grub.d/aurora-wall.cfg";
    let plymouth_target = "/usr/share/plymouth/themes/aurora-wall";
    let mut report: Vec<String> = Vec::new();
    report.push(prefixed("installed GRUB theme to ", grub_target));
    report.push(prefixed("wrote ", grub_default));
    report.push(prefixed("installed Plymouth theme to ", plymouth_target));
    report.push(String::from_str("rebuilt boot configuration where supported"));
    let p = InstallPlan {
        grub_target: String::from_str(grub_target),
        grub_default: String::from_str(grub_default),
        grub_default_text: String::from_str("GRUB_THEME=/boot/grub/themes/aurora-wall/theme.txt\n"),
        plymouth_target: String::from_str(plymouth_target),
        report,
    };
    assert(string_views(p.report@) =~= seq![
        "installed GRUB theme to "@ + "/boot/grub/themes/aurora-wall"@,
        "wrote "@ + "/etc/default/grub.d/aurora-wall.cfg"@,
        "installed Plymouth theme to "@ + "/usr/share/plymouth/themes/aurora-wall"@,
        "rebuilt boot configuration where supported"@,
    ]);
    Ok(p)
}

/// The failure when activating the Plymouth theme fails.
pub fn plymouth_activation_failure() -> (f: Failure)
    ensures
        f@ == (FailureKind::Other, "plymouth-set-default-theme failed while activating aurora-wall"@),
{
    Failure::with_text(
        FailureKind::Other,
        "plymouth-set-default-theme failed while activating aurora-wall",
    )
}

/// The failure when rebuilding the GRUB configuration fails.
pub fn grub_rebuild_failure() -> (f: Failure)
    ensures
        f@ == (FailureKind::Other, "grub-mkconfig failed while rebuilding /boot/grub/grub.cfg"@),
{
    Failure::with_text(FailureKind::Other, "grub-mkconfig failed while rebuilding /boot/grub/grub.cfg")
}

/// A program run after the themes are installed, with its arguments and the failure
/// reported when it exits unsuccessfully.
#[derive(Debug, Clone, PartialEq, Eq)]
pub struct ActivationStep {
    pub program: String,
    pub args: Vec<String>,
    pub failure: Failure,
}

pub struct ActivationModel {
    pub program: Seq<char>,
    pub args: Seq<Seq<char>>,
    pub failure: (FailureKind, Seq<char>),
}

impl View for ActivationStep {
    type V = ActivationModel;

    open spec fn view(&self) -> ActivationModel {
        ActivationModel {
            program: self.program@,
            args: string_views(self.args@),
            failure: self.failure@,
        }
    }
}

pub open spec fn plymouth_activation() -> ActivationModel {
    ActivationModel {
        program: "plymouth-set-default-theme"@,
        args: seq!["-R"@, "aurora-wall"@],
        failure: (
            FailureKind::Other,
            "plymouth-set-default-theme failed while activating aurora-wall"@,
        ),
    }
}

pub open spec fn grub_rebuild() -> ActivationModel {
    ActivationModel {
        program: "grub-mkconfig"@,
        args: seq!["-o"@, "/boot/grub/grub.cfg"@],
        failure: (FailureKind::Other, "grub-mkconfig failed while rebuilding /boot/grub/grub.cfg"@),
    }
}

/// The activation programs to run, in order, given which are installed: the Plymouth
/// theme is made the default first, then the GRUB configuration is rebuilt.
pub open spec fn activation_spec(plymouth_tool: bool, grub_tool: bool) -> Seq<ActivationModel> {
    (if plymouth_tool {
        seq![plymouth_activation()]
    } else {
        seq![]
    }) + (if grub_tool {
        seq![grub_rebuild()]
    } else {
        seq![]
    })
}

fn activation_step(program: &str, a0: &str, a1: &str, failure: Failure) -> (s: ActivationStep)
    ensures
        s@ == (ActivationModel {
            program: program@,
            args: seq![a0@, a1@],
            failure: failure@,
        }),
{
    let mut args: Vec<String> = Vec::new();
    args.push(String::from_str(a0));
    args.push(String::from_str(a1));
    let s = ActivationStep { program: String::from_str(program), args, failure };
    assert(s@.args =~= seq![a0@, a1@]);
    s
}

/// Decides which activation programs to run after installing the themes; each is run in
/// turn and the first that fails stops the installation with its failure.
pub fn activation_steps(plymouth_tool: bool, grub_tool: bool) -> (steps: Vec<ActivationStep>)
    ensures
        steps@.len() == activation_spec(plymouth_tool, grub_tool).len(),
        forall|i: int|
            0 <= i < steps@.len() ==> (#[trigger] steps@[i])@ == activation_spec(
                plymouth_tool,
                grub_tool,
            )[i],
{
    let mut steps: Vec<ActivationStep> = Vec::new();
    if plymouth_tool {
        steps.push(
            activation_step(
                "plymouth-set-default-theme",
                "-R",
                "aurora-wall",
                plymouth_activation_failure(),
            ),
        );
    }
    if grub_tool {
        steps.push(
            activation_step("grub-mkconfig", "-o", "/boot/grub/grub.cfg", grub_rebuild_failure()),
        );
    }
    steps
}

/// The path the restore service runs: the running program when known, else its name.
pub fn binary_hint(current_exe: Option<&str>) -> (r: String)
    ensures
        r@ == match current_exe {
            Some(p) => p@,
            None => "aurora-wall"@,
        },
{
    match current_exe {
        Some(p) => String::from_str(p),
        None => String::from_str("aurora-wall"),
    }
}

/// The systemd user service that restores the wallpapers at login by running `binary`.
pub fn systemd_user_service(binary: &str) -> (r: String)
    ensures
        r@ == SERVICE_HEAD@ + binary@ + SERVICE_TAIL@,
{
    let mut r = String::from_str(SERVICE_HEAD);
    r.append(binary);
    r.append(SERVICE_TAIL);
    r
}

/// The Arch Linux package recipe.
pub fn pkgbuild_template() -> (r: &'static str)
    ensures
        r@ == "pkgname=aurora-wall\npkgver=0.1.0\npkgrel=1\npkgdesc=\"Hyprland-first wallpaper manager for still and live wallpapers\"\narch=('x86_64')\ndepends=('swww' 'mpvpaper' 'mpv')\nmakedepends=('cargo')\nsource=()\nsha256sums=()\n"@,
{
    "pkgname=aurora-wall\npkgver=0.1.0\npkgrel=1\npkgdesc=\"Hyprland-first wallpaper manager for still and live wallpapers\"\narch=('x86_64')\ndepends=('swww' 'mpvpaper' 'mpv')\nmakedepends=('cargo')\nsource=()\nsha256sums=()\n"
}

/// How to install the helper programs on Arch Linux.
pub fn arch_install_hint() -> (r: &'static str)
    ensures
        r@ == "sudo pacman -S swww mpvpaper mpv  # or install awww instead of swww for still images"@,
{
    "sudo pacman -S swww mpvpaper mpv  # or install awww instead of swww for still images"
}

} // verus!
