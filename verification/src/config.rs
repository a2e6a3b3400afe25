//! The configuration file: its model, parser and writer.
use vstd::prelude::*;

use crate::backend::{
    lemma_plain_word, law_loop_name_round_trip, law_scaling_name_round_trip,
    law_transition_name_round_trip,
    LoopMode, ScalingMode, TransitionMode, WallpaperKind, WallpaperModel, WallpaperSpec,
};
use crate::failure::{Failure, FailureKind};
use crate::text::{
    append_decimal, append_lower_range, is_ws, join_lines, lemma_join_push,
    lemma_lines_of_join, lemma_split_cons, lemma_split_single, lemma_trim_plain,
    lemma_key_line, lemma_trimmed_ends, line_safe, append_range, chars_of, dec, find_in, line_ranges,
    lines_of, lower, lower_range_is, range_is, range_string, ranges_hold, split_all,
    split_once, split_ranges, trim, trim_bounds,
};

verus! {

/// The application configuration.
#[derive(Debug, Clone, PartialEq, Eq)]
pub struct AppConfig {
    pub target_family: &'static str,
    pub preferred_backend: &'static str,
    pub restore_on_login: bool,
    pub library_dir: String,
    pub wallpapers: Vec<WallpaperSpec>,
}

/// The abstract content of a configuration.
pub struct ConfigModel {
    pub target_family: Seq<char>,
    pub preferred_backend: Seq<char>,
    pub restore_on_login: bool,
    pub library_dir: Seq<char>,
    pub wallpapers: Seq<WallpaperModel>,
}

pub open spec fn wallpaper_models(ws: Seq<WallpaperSpec>) -> Seq<WallpaperModel> {
    ws.map_values(|w: WallpaperSpec| w@)
}

impl View for AppConfig {
    type V = ConfigModel;

    open spec fn view(&self) -> ConfigModel {
        ConfigModel {
            target_family: self.target_family@,
            preferred_backend: self.preferred_backend@,
            restore_on_login: self.restore_on_login,
            library_dir: self.library_dir@,
            wallpapers: wallpaper_models(self.wallpapers@),
        }
    }
}

/// The configuration used when none is stored, with wallpapers kept under `library_dir`.
pub open spec fn default_model(library_dir: Seq<char>) -> ConfigModel {
    ConfigModel {
        target_family: "cross-desktop-linux"@,
        preferred_backend: "hyprland"@,
        restore_on_login: true,
        library_dir,
        wallpapers: seq![],
    }
}

/// The truth value a configuration word stands for.
pub open spec fn parse_bool_spec(value: Seq<char>) -> Option<bool> {
    let v = lower(value);
    if v == "true"@ || v == "yes"@ || v == "1"@ {
        Some(true)
    } else if v == "false"@ || v == "no"@ || v == "0"@ {
        Some(false)
    } else {
        None
    }
}

/// The wallpaper that a `wallpaper=` value describes, or the reason it is refused.
pub open spec fn parse_wallpaper_spec(raw: Seq<char>) -> Result<WallpaperModel, Seq<char>> {
    let f = split_all(raw, '|');
    if f.len() != 7 {
        Err("wallpaper requires 7 pipe-separated fields"@)
    } else {
        let kind_text = lower(trim(f[1]));
        let mute_text = lower(trim(f[5]));
        if kind_text != "image"@ && kind_text != "video"@ {
            Err("unsupported wallpaper kind: "@ + kind_text)
        } else if ScalingMode::parse_spec(f[3]) is None {
            Err("invalid scaling mode"@)
        } else if TransitionMode::parse_spec(f[4]) is None {
            Err("invalid transition mode"@)
        } else if mute_text != "muted"@ && mute_text != "unmuted"@ {
            Err("mute field must be muted or unmuted"@)
        } else if LoopMode::parse_spec(f[6]) is None {
            Err("invalid loop mode"@)
        } else {
            Ok(
                WallpaperModel {
                    output: trim(f[0]),
                    kind: if kind_text == "image"@ {
                        WallpaperKind::Image
                    } else {
                        WallpaperKind::Video
                    },
                    path: trim(f[2]),
                    scaling: ScalingMode::parse_spec(f[3])->0,
                    transition: TransitionMode::parse_spec(f[4])->0,
                    muted: mute_text == "muted"@,
                    loop_mode: LoopMode::parse_spec(f[6])->0,
                },
            )
        }
    }
}

/// The effect of one configuration line, numbered from 1, on the configuration read so far.
pub open spec fn config_step(acc: ConfigModel, line: Seq<char>, number: nat) -> Result<
    ConfigModel,
    Seq<char>,
> {
    let t = trim(line);
    if t.len() == 0 || t[0] == '#' {
        Ok(acc)
    } else {
        match split_once(t, '=') {
            None => Err("invalid config line "@ + dec(number) + ": "@ + t),
            Some((k, v)) => {
                let key = trim(k);
                let value = trim(v);
                if key == "backend"@ {
                    if value != "hyprland"@ {
                        Err("only backend=hyprland is supported in version 1"@)
                    } else {
                        Ok(acc)
                    }
                } else if key == "restore_on_login"@ {
                    match parse_bool_spec(value) {
                        None => Err("invalid boolean value: "@ + value),
                        Some(b) => Ok(ConfigModel { restore_on_login: b, ..acc }),
                    }
                } else if key == "library_dir"@ {
                    Ok(ConfigModel { library_dir: value, ..acc })
                } else if key == "wallpaper"@ {
                    match parse_wallpaper_spec(value) {
                        Err(m) => Err(
                            "invalid wallpaper entry on line "@ + dec(number) + ": "@ + m,
                        ),
                        Ok(w) => Ok(ConfigModel { wallpapers: acc.wallpapers.push(w), ..acc }),
                    }
                } else {
                    Ok(acc)
                }
            },
        }
    }
}

/// The configuration after reading `lines[i..]` on top of `acc`.
pub open spec fn config_from(acc: ConfigModel, lines: Seq<Seq<char>>, i: nat) -> Result<
    ConfigModel,
    Seq<char>,
>
    decreases lines.len() - i,
{
    if i >= lines.len() {
        Ok(acc)
    } else {
        match config_step(acc, lines[i as int], i + 1) {
            Err(m) => Err(m),
            Ok(next) => config_from(next, lines, i + 1),
        }
    }
}

/// The configuration a text holds, starting from the defaults; failures carry the
/// message that the parser reports (their kind is always invalid data).
pub open spec fn parse_config_spec(raw: Seq<char>, library_dir: Seq<char>) -> Result<
    ConfigModel,
    Seq<char>,
> {
    config_from(default_model(library_dir), lines_of(raw), 0)
}

/// Parses a configuration word as a truth value.
pub fn parse_bool(value: &str) -> (r: Option<bool>)
    ensures
        r == parse_bool_spec(value@),
{
    let cs = chars_of(value);
    assert(cs@.subrange(0, cs.len() as int) =~= value@);
    parse_bool_in(&cs, 0, cs.len())
}

fn parse_bool_in(cs: &Vec<char>, lo: usize, hi: usize) -> (r: Option<bool>)
    requires
        lo <= hi <= cs.len(),
    ensures
        r == parse_bool_spec(cs@.subrange(lo as int, hi as int)),
{
    if lower_range_is(cs, lo, hi, "true") || lower_range_is(cs, lo, hi, "yes")
        || lower_range_is(cs, lo, hi, "1") {
        Some(true)
    } else if lower_range_is(cs, lo, hi, "false") || lower_range_is(cs, lo, hi, "no")
        || lower_range_is(cs, lo, hi, "0") {
        Some(false)
    } else {
        None
    }
}

fn text(s: &str) -> (r: String)
    ensures
        r@ == s@,
{
    String::from_str(s)
}

/// Reads a wallpaper entry from `cs[lo..hi]`.
pub(crate) fn parse_wallpaper_in(cs: &Vec<char>, lo: usize, hi: usize) -> (r: Result<WallpaperSpec, String>)
    requires
        lo <= hi <= cs.len(),
    ensures
        match (r, parse_wallpaper_spec(cs@.subrange(lo as int, hi as int))) {
            (Ok(w), Ok(m)) => w@ == m,
            (Err(e), Err(m)) => e@ == m,
            _ => false,
        },
{
    let ghost f = split_all(cs@.subrange(lo as int, hi as int), '|');
    let fields = split_ranges(cs, lo, hi, '|');
    if fields.len() != 7 {
        return Err(text("wallpaper requires 7 pipe-separated fields"));
    }
    assert(fields[1] == fields@[1]);
    let (k0, k1) = fields[1];
    let (ka, kb) = trim_bounds(cs, k0, k1);
    let is_image = lower_range_is(cs, ka, kb, "image");
    let is_video = lower_range_is(cs, ka, kb, "video");
    assert(cs@.subrange(k0 as int, k1 as int) == f[1]);
    if !is_image && !is_video {
        let mut m = text("unsupported wallpaper kind: ");
        append_lower_range(&mut m, cs, ka, kb);
        return Err(m);
    }
    let (s0, s1) = fields[3];
    assert(cs@.subrange(s0 as int, s1 as int) == f[3]);
    let scaling = match ScalingMode::parse_in(cs, s0, s1) {
        Some(s) => s,
        None => {
            return Err(text("invalid scaling mode"));
        },
    };
    let (t0, t1) = fields[4];
    assert(cs@.subrange(t0 as int, t1 as int) == f[4]);
    let transition = match TransitionMode::parse_in(cs, t0, t1) {
        Some(t) => t,
        None => {
            return Err(text("invalid transition mode"));
        },
    };
    let (m0, m1) = fields[5];
    let (ma, mb) = trim_bounds(cs, m0, m1);
    assert(cs@.subrange(m0 as int, m1 as int) == f[5]);
    let muted = if lower_range_is(cs, ma, mb, "muted") {
        true
    } else if lower_range_is(cs, ma, mb, "unmuted") {
        false
    } else {
        return Err(text("mute field must be muted or unmuted"));
    };
    let (l0, l1) = fields[6];
    assert(cs@.subrange(l0 as int, l1 as int) == f[6]);
    let loop_mode = match LoopMode::parse_in(cs, l0, l1) {
        Some(l) => l,
        None => {
            return Err(text("invalid loop mode"));
        },
    };
    let (o0, o1) = fields[0];
    assert(cs@.subrange(o0 as int, o1 as int) == f[0]);
    let (oa, ob) = trim_bounds(cs, o0, o1);
    let (p0, p1) = fields[2];
    assert(cs@.subrange(p0 as int, p1 as int) == f[2]);
    let (pa, pb) = trim_bounds(cs, p0, p1);
    Ok(
        WallpaperSpec {
            output: range_string(cs, oa, ob),
            kind: if is_image {
                WallpaperKind::Image
            } else {
                WallpaperKind::Video
            },
            path: range_string(cs, pa, pb),
            scaling,
            transition,
            muted,
            loop_mode,
        },
    )
}

/// Reads one `wallpaper=` value.
pub fn parse_wallpaper(raw: &str) -> (r: Result<WallpaperSpec, String>)
    ensures
        match (r, parse_wallpaper_spec(raw@)) {
            (Ok(w), Ok(m)) => w@ == m,
            (Err(e), Err(m)) => e@ == m,
            _ => false,
        },
{
    let cs = chars_of(raw);
    assert(cs@.subrange(0, cs.len() as int) =~= raw@);
    parse_wallpaper_in(&cs, 0, cs.len())
}

impl AppConfig {
    /// The configuration used when none is stored, keeping wallpapers under `library_dir`.
    pub fn defaults(library_dir: &str) -> (c: AppConfig)
        ensures
            c@ == default_model(library_dir@),
    {
        let c = AppConfig {
            target_family: "cross-desktop-linux",
            preferred_backend: "hyprland",
            restore_on_login: true,
            library_dir: String::from_str(library_dir),
            wallpapers: Vec::new(),
        };
        assert(c@.wallpapers =~= seq![]);
        c
    }
}

impl AppConfig {
    /// The configuration that a read of the configuration file yields: the parsed text
    /// when the read succeeded, the defaults when the file was not found, and the read's
    /// own failure otherwise. `library_dir` is the default wallpaper directory.
    pub fn load_or_default(read: Result<String, Failure>, library_dir: &str) -> (r: Result<
        AppConfig,
        Failure,
    >)
        ensures
            match read {
                Ok(raw) => match (r, parse_config_spec(raw@, library_dir@)) {
                    (Ok(c), Ok(m)) => c@ == m,
                    (Err(f), Err(m)) => f@ == (FailureKind::InvalidData, m),
                    _ => false,
                },
                Err(e) => if e.kind == FailureKind::NotFound {
                    r matches Ok(c) && c@ == default_model(library_dir@)
                } else {
                    r == Err::<AppConfig, Failure>(e)
                },
            },
    {
        match read {
            Ok(raw) => parse_config(raw.as_str(), library_dir),
            Err(e) => {
                if e.kind == FailureKind::NotFound {
                    Ok(AppConfig::defaults(library_dir))
                } else {
                    Err(e)
                }
            },
        }
    }
}

/// The message of a failure that names a line: `prefix`, the line number, `": "`, `detail`.
fn line_message(prefix: &str, number: usize, cs: &Vec<char>, lo: usize, hi: usize) -> (m: String)
    requires
        lo <= hi <= cs.len(),
    ensures
        m@ == prefix@ + dec(number as nat) + ": "@ + cs@.subrange(lo as int, hi as int),
{
    let mut m = String::from_str(prefix);
    append_decimal(&mut m, number);
    m.append(": ");
    append_range(&mut m, cs, lo, hi);
    m
}

/// Reads a configuration text on top of the defaults, keeping wallpapers under
/// `library_dir` unless the text names another directory.
pub fn parse_config(raw: &str, library_dir: &str) -> (r: Result<AppConfig, Failure>)
    ensures
        match (r, parse_config_spec(raw@, library_dir@)) {
            (Ok(c), Ok(m)) => c@ == m,
            (Err(f), Err(m)) => f@ == (FailureKind::InvalidData, m),
            _ => false,
        },
{
    let cs = chars_of(raw);
    let lines = line_ranges(&cs);
    let ghost ls = lines_of(raw@);
    let mut config = AppConfig::defaults(library_dir);
    let mut i: usize = 0;
    while i < lines.len()
        invariant
            cs@ == raw@,
            ls == lines_of(raw@),
            ranges_hold(cs@, lines@, ls, 0, cs.len() as int),
            i <= lines.len(),
            config.target_family@ == "cross-desktop-linux"@,
            config.preferred_backend@ == "hyprland"@,
            parse_config_spec(raw@, library_dir@) == config_from(config@, ls, i as nat),
        decreases lines.len() - i,
    {
        let (lo, hi) = lines[i];
        assert(lines[i as int] == lines@[i as int]);
        let ghost line = ls[i as int];
        assert(cs@.subrange(lo as int, hi as int) == line);
        let (a, b) = trim_bounds(&cs, lo, hi);
        let ghost t = cs@.subrange(a as int, b as int);
        if a == b || cs[a] == '#' {
            i = i + 1;
            continue;
        }
        match find_in(&cs, a, b, '=') {
            None => {
                let m = line_message("invalid config line ", i + 1, &cs, a, b);
                return Err(Failure::new(FailureKind::InvalidData, m));
            },
            Some(k) => {
                proof {
                    assert(t.take(k - a) =~= cs@.subrange(a as int, k as int));
                    assert(t.skip(k - a + 1) =~= cs@.subrange(k + 1, b as int));
                }
                let (ka, kb) = trim_bounds(&cs, a, k);
                let (va, vb) = trim_bounds(&cs, k + 1, b);
                if range_is(&cs, ka, kb, "backend") {
                    if !range_is(&cs, va, vb, "hyprland") {
                        return Err(
                            Failure::with_text(
                                FailureKind::InvalidData,
                                "only backend=hyprland is supported in version 1",
                            ),
                        );
                    }
                } else if range_is(&cs, ka, kb, "restore_on_login") {
                    match parse_bool_in(&cs, va, vb) {
                        None => {
                            let mut m = String::from_str("invalid boolean value: ");
                            append_range(&mut m, &cs, va, vb);
                            return Err(Failure::new(FailureKind::InvalidData, m));
                        },
                        Some(v) => {
                            config.restore_on_login = v;
                        },
                    }
                } else if range_is(&cs, ka, kb, "library_dir") {
                    config.library_dir = range_string(&cs, va, vb);
                } else if range_is(&cs, ka, kb, "wallpaper") {
                    match parse_wallpaper_in(&cs, va, vb) {
                        Err(e) => {
                            let mut m = String::from_str("invalid wallpaper entry on line ");
                            append_decimal(&mut m, i + 1);
                            m.append(": ");
                            m.append(e.as_str());
                            return Err(Failure::new(FailureKind::InvalidData, m));
                        },
                        Ok(w) => {
                            let ghost before = config.wallpapers@;
                            config.wallpapers.push(w);
                            assert(wallpaper_models(config.wallpapers@) =~= wallpaper_models(
                                before,
                            ).push(w@));
                        },
                    }
                }
            },
        }
        i = i + 1;
    }
    Ok(config)
}

/// The word a truth value is written as.
pub open spec fn bool_text(b: bool) -> Seq<char> {
    if b {
        "true"@
    } else {
        "false"@
    }
}

/// The word the mute setting is written as.
pub open spec fn mute_text(muted: bool) -> Seq<char> {
    if muted {
        "muted"@
    } else {
        "unmuted"@
    }
}

/// The value of a `wallpaper=` line: seven fields separated by `|`.
pub open spec fn wallpaper_value(w: WallpaperModel) -> Seq<char> {
    w.output + "|"@ + w.kind.name() + "|"@ + w.path + "|"@ + w.scaling.name() + "|"@
        + w.transition.name() + "|"@ + mute_text(w.muted) + "|"@ + w.loop_mode.name()
}

pub open spec fn wallpaper_line(w: WallpaperModel) -> Seq<char> {
    "wallpaper="@ + wallpaper_value(w)
}

/// The lines that a configuration is written as.
pub open spec fn config_lines(c: ConfigModel) -> Seq<Seq<char>> {
    seq![
        "# aurora-wall config"@,
        "backend=hyprland"@,
        "restore_on_login="@ + bool_text(c.restore_on_login),
        "library_dir="@ + c.library_dir,
    ] + c.wallpapers.map_values(|w: WallpaperModel| wallpaper_line(w))
}

/// The text a configuration is saved as.
pub open spec fn render_spec(c: ConfigModel) -> Seq<char> {
    join_lines(config_lines(c))
}

/// Appends a line and its newline, keeping track of the lines written.
pub(crate) fn push_line(out: &mut String, line: &str, Ghost(done): Ghost<Seq<Seq<char>>>)
    requires
        old(out)@ == join_lines(done),
    ensures
        final(out)@ == join_lines(done.push(line@)),
{
    out.append(line);
    out.append("\n");
    proof {
        reveal_strlit("\n");
        lemma_join_push(done, line@);
        assert(out@ =~= join_lines(done.push(line@)));
    }
}

/// The `wallpaper=` line of one wallpaper.
pub fn wallpaper_text(w: &WallpaperSpec) -> (line: String)
    ensures
        line@ == wallpaper_line(w@),
{
    let mut line = String::from_str("wallpaper=");
    line.append(w.output.as_str());
    line.append("|");
    line.append(w.kind.as_str());
    line.append("|");
    line.append(w.path.as_str());
    line.append("|");
    line.append(w.scaling.as_str());
    line.append("|");
    line.append(w.transition.as_str());
    line.append("|");
    line.append(if w.muted {
        "muted"
    } else {
        "unmuted"
    });
    line.append("|");
    line.append(w.loop_mode.as_str());
    assert(line@ =~= wallpaper_line(w@));
    line
}

impl AppConfig {
    /// The text this configuration is saved as.
    pub fn render(&self) -> (s: String)
        ensures
            s@ == render_spec(self@),
    {
        let ghost ls = config_lines(self@);
        let ghost mut done: Seq<Seq<char>> = seq![];
        let mut out = String::new();
        push_line(&mut out, "# aurora-wall config", Ghost(done));
        proof {
            done = done.push("# aurora-wall config"@);
        }
        push_line(&mut out, "backend=hyprland", Ghost(done));
        proof {
            done = done.push("backend=hyprland"@);
        }
        let mut line = String::from_str("restore_on_login=");
        line.append(if self.restore_on_login {
            "true"
        } else {
            "false"
        });
        push_line(&mut out, line.as_str(), Ghost(done));
        proof {
            done = done.push(line@);
        }
        let mut line = String::from_str("library_dir=");
        line.append(self.library_dir.as_str());
        push_line(&mut out, line.as_str(), Ghost(done));
        proof {
            done = done.push(line@);
            assert(done =~= ls.take(4));
        }
        let mut i: usize = 0;
        while i < self.wallpapers.len()
            invariant
                ls == config_lines(self@),
                i <= self.wallpapers.len(),
                done == ls.take(4 + i),
                out@ == join_lines(done),
            decreases self.wallpapers.len() - i,
        {
            let w = &self.wallpapers[i];
            let line = wallpaper_text(w);
            push_line(&mut out, line.as_str(), Ghost(done));
            proof {
                assert(ls[4 + i] == wallpaper_line(self.wallpapers@[i as int]@));
                done = done.push(line@);
                assert(done =~= ls.take(4 + i + 1));
            }
            i = i + 1;
        }
        assert(done =~= ls);
        out
    }
}

/// Text that a configuration field can be saved in and read back from: no white space
/// at either end and no newline.
pub open spec fn storable_text(s: Seq<char>) -> bool {
    &&& trim(s) == s
    &&& forall|i: int| 0 <= i < s.len() ==> s[i] != '\n'
}

/// Text that a wallpaper field can be saved in: storable, and without `|`.
pub open spec fn storable_field(s: Seq<char>) -> bool {
    &&& storable_text(s)
    &&& forall|i: int| 0 <= i < s.len() ==> s[i] != '|'
}

/// Text that reads back as itself from one field of a wallpaper value: no white space
/// at either end and no `|`.
pub open spec fn value_field(s: Seq<char>) -> bool {
    &&& trim(s) == s
    &&& forall|i: int| 0 <= i < s.len() ==> s[i] != '|'
}

pub open spec fn storable_wallpaper(w: WallpaperModel) -> bool {
    storable_field(w.output) && storable_field(w.path)
}

/// A configuration that the configuration file can hold exactly.
pub open spec fn storable(c: ConfigModel) -> bool {
    &&& c.target_family == "cross-desktop-linux"@
    &&& c.preferred_backend == "hyprland"@
    &&& storable_text(c.library_dir)
    &&& forall|i: int| 0 <= i < c.wallpapers.len() ==> storable_wallpaper(#[trigger] c.wallpapers[i])
}

proof fn lemma_storable_last(s: Seq<char>)
    requires
        storable_text(s),
    ensures
        s.len() == 0 || (!is_ws(s[0]) && !is_ws(s.last())),
{
    if s.len() > 0 {
        lemma_trimmed_ends(s);
    }
}

/// A wallpaper value reads back as the wallpaper it was written from.
#[verifier::spinoff_prover]
#[verifier::rlimit(40)]
pub proof fn lemma_wallpaper_value_round_trip(w: WallpaperModel)
    requires
        value_field(w.output),
        value_field(w.path),
    ensures
        parse_wallpaper_spec(wallpaper_value(w)) == Ok::<WallpaperModel, Seq<char>>(w),
{
    reveal_strlit("|");
    reveal_strlit("image");
    reveal_strlit("video");
    reveal_strlit("fill");
    reveal_strlit("fit");
    reveal_strlit("center");
    reveal_strlit("none");
    reveal_strlit("fade");
    reveal_strlit("muted");
    reveal_strlit("unmuted");
    reveal_strlit("infinite");
    reveal_strlit("once");
    let o = w.output;
    let k = w.kind.name();
    let p = w.path;
    let sc = w.scaling.name();
    let tr = w.transition.name();
    let mt = mute_text(w.muted);
    let lp = w.loop_mode.name();
    let bar = seq!['|'];
    let t6 = mt + bar + lp;
    let t5 = tr + bar + t6;
    let t4 = sc + bar + t5;
    let t3 = p + bar + t4;
    let t2 = k + bar + t3;
    let t1 = o + bar + t2;
    assert(wallpaper_value(w) =~= t1);
    lemma_split_single(lp, '|');
    lemma_split_cons(mt, lp, '|');
    lemma_split_cons(tr, t6, '|');
    lemma_split_cons(sc, t5, '|');
    lemma_split_cons(p, t4, '|');
    lemma_split_cons(k, t3, '|');
    lemma_split_cons(o, t2, '|');
    let f = split_all(t1, '|');
    assert(f =~= seq![o, k, p, sc, tr, mt, lp]);
    lemma_plain_word(k);
    lemma_plain_word(mt);
    law_scaling_name_round_trip(w.scaling);
    law_transition_name_round_trip(w.transition);
    law_loop_name_round_trip(w.loop_mode);
}

/// A `wallpaper=` line of a storable wallpaper is one line, already trimmed, whose key is
/// `wallpaper` and whose trimmed value reads back as that wallpaper.
pub proof fn lemma_wallpaper_line_reads(w: WallpaperModel)
    requires
        storable_wallpaper(w),
    ensures
        line_safe(wallpaper_line(w)),
        trim(wallpaper_line(w)) == wallpaper_line(w),
        wallpaper_line(w).len() > 0 && wallpaper_line(w)[0] == 'w',
        split_once(wallpaper_line(w), '=') == Some(("wallpaper"@, wallpaper_value(w))),
        trim("wallpaper"@) == "wallpaper"@,
        trim(wallpaper_value(w)) == wallpaper_value(w),
        parse_wallpaper_spec(wallpaper_value(w)) == Ok::<WallpaperModel, Seq<char>>(w),
{
    reveal_strlit("wallpaper=");
    reveal_strlit("wallpaper");
    reveal_strlit("|");
    reveal_strlit("infinite");
    reveal_strlit("once");
    reveal_strlit("image");
    reveal_strlit("video");
    reveal_strlit("fill");
    reveal_strlit("fit");
    reveal_strlit("center");
    reveal_strlit("none");
    reveal_strlit("fade");
    reveal_strlit("muted");
    reveal_strlit("unmuted");
    let v = wallpaper_value(w);
    let line = wallpaper_line(w);
    assert("wallpaper="@ =~= "wallpaper"@ + seq!['=']);
    assert(line =~= "wallpaper"@ + seq!['='] + v);
    lemma_storable_last(w.output);
    assert(v.last() == w.loop_mode.name().last());
    if w.output.len() > 0 {
        assert(v[0] == w.output[0]);
    } else {
        assert(v[0] == '|');
    }
    lemma_trim_plain(v);
    lemma_key_line("wallpaper"@, v);
    lemma_wallpaper_value_round_trip(w);
    assert(line[0] == 'w');
    assert forall|i: int| 0 <= i < line.len() implies line[i] != '\n' by {
        if i >= 10 {
            assert(line[i] == v[i - 10]);
            let o = w.output.len() as int;
            let k = o + 1 + w.kind.name().len();
            let p = k + 1 + w.path.len();
            if i - 10 < o {
                assert(v[i - 10] == w.output[i - 10]);
            } else if i - 10 >= k + 1 && i - 10 < p {
                assert(v[i - 10] == w.path[i - 10 - k - 1]);
            }
        }
    }
}

/// The configuration read so far after the fixed lines and `k` wallpaper lines.
pub open spec fn partial_model(c: ConfigModel, k: int) -> ConfigModel {
    ConfigModel {
        target_family: "cross-desktop-linux"@,
        preferred_backend: "hyprland"@,
        restore_on_login: c.restore_on_login,
        library_dir: c.library_dir,
        wallpapers: c.wallpapers.take(k),
    }
}

proof fn lemma_wallpaper_line_step(c: ConfigModel, k: int)
    requires
        storable(c),
        0 <= k < c.wallpapers.len(),
    ensures
        config_step(partial_model(c, k), wallpaper_line(c.wallpapers[k]), (4 + k + 1) as nat)
            == Ok::<ConfigModel, Seq<char>>(partial_model(c, k + 1)),
{
    reveal_strlit("wallpaper=");
    reveal_strlit("wallpaper");
    reveal_strlit("backend");
    reveal_strlit("restore_on_login");
    reveal_strlit("library_dir");
    reveal_strlit("infinite");
    reveal_strlit("once");
    reveal_strlit("|");
    let w = c.wallpapers[k];
    assert(storable_wallpaper(w));
    let v = wallpaper_value(w);
    let line = wallpaper_line(w);
    assert("wallpaper="@ =~= "wallpaper"@ + seq!['=']);
    assert(line =~= "wallpaper"@ + seq!['='] + v);
    lemma_storable_last(w.output);
    assert(v.last() == w.loop_mode.name().last());
    if w.output.len() > 0 {
        assert(v[0] == w.output[0]);
    } else {
        assert(v[0] == '|');
    }
    lemma_trim_plain(v);
    lemma_key_line("wallpaper"@, v);
    lemma_wallpaper_value_round_trip(w);
    assert(c.wallpapers.take(k).push(w) =~= c.wallpapers.take(k + 1));
    let t = trim(line);
    assert(t == line);
    assert(t[0] == 'w');
    assert(split_once(t, '=') == Some(("wallpaper"@, v)));
    assert(trim(v) == v);
    assert("wallpaper"@ != "backend"@);
    assert("wallpaper"@ != "restore_on_login"@);
    assert("wallpaper"@ != "library_dir"@);
}

proof fn lemma_wallpaper_lines_read(c: ConfigModel, k: int)
    requires
        storable(c),
        0 <= k <= c.wallpapers.len(),
    ensures
        config_from(partial_model(c, k), config_lines(c), (4 + k) as nat) == Ok::<
            ConfigModel,
            Seq<char>,
        >(c),
    decreases c.wallpapers.len() - k,
{
    let ls = config_lines(c);
    if k == c.wallpapers.len() {
        assert(c.wallpapers.take(k) =~= c.wallpapers);
        assert(partial_model(c, k) == c);
    } else {
        assert(ls[4 + k] == wallpaper_line(c.wallpapers[k]));
        lemma_wallpaper_line_step(c, k);
        lemma_wallpaper_lines_read(c, k + 1);
    }
}

proof fn lemma_header_step(d0: ConfigModel)
    ensures
        config_step(d0, "# aurora-wall config"@, 1) == Ok::<ConfigModel, Seq<char>>(d0),
        config_step(d0, "backend=hyprland"@, 2) == Ok::<ConfigModel, Seq<char>>(d0),
{
    reveal_strlit("# aurora-wall config");
    reveal_strlit("backend=hyprland");
    reveal_strlit("backend");
    reveal_strlit("hyprland");
    lemma_trim_plain("# aurora-wall config"@);
    assert("backend=hyprland"@ =~= "backend"@ + seq!['='] + "hyprland"@);
    lemma_key_line("backend"@, "hyprland"@);
    lemma_trim_plain("hyprland"@);
}

proof fn lemma_restore_step(d0: ConfigModel, b: bool)
    ensures
        config_step(d0, "restore_on_login="@ + bool_text(b), 3) == Ok::<ConfigModel, Seq<char>>(
            ConfigModel { restore_on_login: b, ..d0 },
        ),
{
    reveal_strlit("restore_on_login=");
    reveal_strlit("restore_on_login");
    reveal_strlit("backend");
    reveal_strlit("true");
    reveal_strlit("false");
    reveal_strlit("yes");
    reveal_strlit("no");
    reveal_strlit("1");
    reveal_strlit("0");
    let t = bool_text(b);
    assert("restore_on_login="@ + t =~= "restore_on_login"@ + seq!['='] + t);
    lemma_key_line("restore_on_login"@, t);
    lemma_trim_plain(t);
    assert(lower(t) =~= t);
}

proof fn lemma_library_step(d1: ConfigModel, dir: Seq<char>)
    requires
        storable_text(dir),
    ensures
        config_step(d1, "library_dir="@ + dir, 4) == Ok::<ConfigModel, Seq<char>>(
            ConfigModel { library_dir: dir, ..d1 },
        ),
{
    reveal_strlit("library_dir=");
    reveal_strlit("library_dir");
    reveal_strlit("backend");
    reveal_strlit("restore_on_login");
    assert("library_dir="@ + dir =~= "library_dir"@ + seq!['='] + dir);
    lemma_storable_last(dir);
    lemma_key_line("library_dir"@, dir);
}

proof fn lemma_config_lines_safe(c: ConfigModel)
    requires
        storable(c),
    ensures
        forall|i: int| 0 <= i < config_lines(c).len() ==> line_safe(#[trigger] config_lines(c)[i]),
{
    reveal_strlit("# aurora-wall config");
    reveal_strlit("backend=hyprland");
    reveal_strlit("restore_on_login=");
    reveal_strlit("library_dir=");
    reveal_strlit("wallpaper=");
    reveal_strlit("true");
    reveal_strlit("false");
    reveal_strlit("|");
    reveal_strlit("image");
    reveal_strlit("video");
    reveal_strlit("fill");
    reveal_strlit("fit");
    reveal_strlit("center");
    reveal_strlit("none");
    reveal_strlit("fade");
    reveal_strlit("muted");
    reveal_strlit("unmuted");
    reveal_strlit("infinite");
    reveal_strlit("once");
    let ls = config_lines(c);
    assert forall|i: int| 0 <= i < ls.len() implies line_safe(#[trigger] ls[i]) by {
        if i == 3 {
            lemma_storable_last(c.library_dir);
        } else if i >= 4 {
            let w = c.wallpapers[i - 4];
            assert(storable_wallpaper(w));
            assert(ls[i] == wallpaper_line(w));
        }
    }
}

/// What the configuration file says is read back exactly: parsing the saved text of a
/// storable configuration gives that configuration, whatever the default library directory.
pub proof fn law_config_round_trip(c: ConfigModel, library_dir: Seq<char>)
    requires
        storable(c),
    ensures
        parse_config_spec(render_spec(c), library_dir) == Ok::<ConfigModel, Seq<char>>(c),
{
    let ls = config_lines(c);
    lemma_config_lines_safe(c);
    lemma_lines_of_join(ls);
    let d0 = default_model(library_dir);
    lemma_header_step(d0);
    lemma_restore_step(d0, c.restore_on_login);
    let d1 = ConfigModel { restore_on_login: c.restore_on_login, ..d0 };
    lemma_library_step(d1, c.library_dir);
    assert(c.wallpapers.take(0) =~= Seq::<WallpaperModel>::empty());
    assert(ConfigModel { library_dir: c.library_dir, ..d1 } == partial_model(c, 0));
    lemma_wallpaper_lines_read(c, 0);
    assert(ls[0] == "# aurora-wall config"@);
    assert(ls[1] == "backend=hyprland"@);
    assert(ls[2] == "restore_on_login="@ + bool_text(c.restore_on_login));
    assert(ls[3] == "library_dir="@ + c.library_dir);
    assert(config_from(d0, ls, 0) == config_from(d0, ls, 1));
    assert(config_from(d0, ls, 1) == config_from(d0, ls, 2));
    assert(config_from(d0, ls, 2) == config_from(d1, ls, 3));
    assert(config_from(d1, ls, 3) == config_from(partial_model(c, 0), ls, 4));
}

/// Whether a configuration line is skipped by the reader: blank, white space only, or a
/// comment (its trimmed text starts with `#`).
pub open spec fn ignorable_line(line: Seq<char>) -> bool {
    trim(line).len() == 0 || trim(line)[0] == '#'
}

/// The lines the reader acts on: those that are not ignorable, in order.
pub open spec fn meaningful_lines(ls: Seq<Seq<char>>) -> Seq<Seq<char>>
    decreases ls.len(),
{
    if ls.len() == 0 {
        seq![]
    } else {
        (if ignorable_line(ls[0]) {
            seq![]
        } else {
            seq![ls[0]]
        }) + meaningful_lines(ls.drop_first())
    }
}

/// The configuration after reading `ls` on top of `acc`, when no line is refused.
pub open spec fn config_ok(acc: ConfigModel, ls: Seq<Seq<char>>) -> Option<ConfigModel>
    decreases ls.len(),
{
    if ls.len() == 0 {
        Some(acc)
    } else {
        match config_step(acc, ls[0], 1) {
            Err(_) => None,
            Ok(next) => config_ok(next, ls.drop_first()),
        }
    }
}

proof fn lemma_step_number(acc: ConfigModel, line: Seq<char>, n: nat, m: nat)
    ensures
        (config_step(acc, line, n) is Ok) == (config_step(acc, line, m) is Ok),
        config_step(acc, line, n) is Ok ==> config_step(acc, line, n) == config_step(acc, line, m),
{
}

proof fn lemma_config_from_ok(acc: ConfigModel, ls: Seq<Seq<char>>, i: nat)
    requires
        i <= ls.len(),
    ensures
        (config_from(acc, ls, i) is Ok) == (config_ok(acc, ls.skip(i as int)) is Some),
        config_from(acc, ls, i) is Ok ==> config_ok(acc, ls.skip(i as int)) == Some(
            config_from(acc, ls, i)->Ok_0,
        ),
    decreases ls.len() - i,
{
    let rest = ls.skip(i as int);
    if i < ls.len() {
        lemma_step_number(acc, ls[i as int], i + 1, 1);
        assert(rest[0] == ls[i as int]);
        assert(rest.drop_first() =~= ls.skip((i + 1) as int));
        match config_step(acc, ls[i as int], i + 1) {
            Err(_) => {},
            Ok(next) => {
                lemma_config_from_ok(next, ls, i + 1);
            },
        }
    }
}

proof fn lemma_config_ok_meaningful(acc: ConfigModel, ls: Seq<Seq<char>>)
    ensures
        config_ok(acc, ls) == config_ok(acc, meaningful_lines(ls)),
    decreases ls.len(),
{
    if ls.len() > 0 {
        let m = meaningful_lines(ls);
        let mr = meaningful_lines(ls.drop_first());
        if ignorable_line(ls[0]) {
            assert(m =~= mr);
            lemma_config_ok_meaningful(acc, ls.drop_first());
        } else {
            assert(m =~= seq![ls[0]] + mr);
            assert(m[0] == ls[0]);
            assert(m.drop_first() =~= mr);
            match config_step(acc, ls[0], 1) {
                Err(_) => {},
                Ok(next) => {
                    lemma_config_ok_meaningful(next, ls.drop_first());
                },
            }
        }
    }
}

/// The reader ignores blank, white-space-only and comment lines: two texts whose lines
/// differ only by such lines (inserted or removed anywhere) are either both refused or
/// both read as the same configuration.
pub proof fn law_ignorable_lines(raw: Seq<char>, raw2: Seq<char>, library_dir: Seq<char>)
    requires
        meaningful_lines(lines_of(raw)) == meaningful_lines(lines_of(raw2)),
    ensures
        (parse_config_spec(raw, library_dir) is Ok) == (parse_config_spec(raw2, library_dir) is Ok),
        parse_config_spec(raw, library_dir) is Ok ==> parse_config_spec(raw2, library_dir)
            == parse_config_spec(raw, library_dir),
{
    let d = default_model(library_dir);
    let ls = lines_of(raw);
    let ls2 = lines_of(raw2);
    lemma_config_from_ok(d, ls, 0);
    lemma_config_from_ok(d, ls2, 0);
    assert(ls.skip(0) =~= ls);
    assert(ls2.skip(0) =~= ls2);
    lemma_config_ok_meaningful(d, ls);
    lemma_config_ok_meaningful(d, ls2);
}

proof fn lemma_meaningful_concat(a: Seq<Seq<char>>, b: Seq<Seq<char>>)
    ensures
        meaningful_lines(a + b) == meaningful_lines(a) + meaningful_lines(b),
    decreases a.len(),
{
    if a.len() == 0 {
        assert(a + b =~= b);
        assert(meaningful_lines(a) + meaningful_lines(b) =~= meaningful_lines(b));
    } else {
        assert((a + b).drop_first() =~= a.drop_first() + b);
        assert((a + b)[0] == a[0]);
        lemma_meaningful_concat(a.drop_first(), b);
        let h: Seq<Seq<char>> = if ignorable_line(a[0]) {
            seq![]
        } else {
            seq![a[0]]
        };
        assert(h + (meaningful_lines(a.drop_first()) + meaningful_lines(b)) =~= (h
            + meaningful_lines(a.drop_first())) + meaningful_lines(b));
    }
}

proof fn lemma_meaningful_none(extra: Seq<Seq<char>>)
    requires
        forall|j: int| 0 <= j < extra.len() ==> ignorable_line(#[trigger] extra[j]),
    ensures
        meaningful_lines(extra) == Seq::<Seq<char>>::empty(),
    decreases extra.len(),
{
    if extra.len() > 0 {
        assert(ignorable_line(extra[0]));
        assert forall|j: int| 0 <= j < extra.drop_first().len() implies ignorable_line(
            #[trigger] extra.drop_first()[j],
        ) by {
            assert(extra.drop_first()[j] == extra[j + 1]);
        }
        lemma_meaningful_none(extra.drop_first());
        assert(meaningful_lines(extra) =~= Seq::<Seq<char>>::empty());
    }
}

/// Inserting blank, white-space-only or comment lines anywhere into a configuration text
/// changes neither whether it is read nor what it is read as.
pub proof fn law_inserted_ignorable_lines(
    raw: Seq<char>,
    raw2: Seq<char>,
    at: int,
    extra: Seq<Seq<char>>,
    library_dir: Seq<char>,
)
    requires
        0 <= at <= lines_of(raw).len(),
        forall|j: int| 0 <= j < extra.len() ==> ignorable_line(#[trigger] extra[j]),
        lines_of(raw2) == lines_of(raw).take(at) + extra + lines_of(raw).skip(at),
    ensures
        (parse_config_spec(raw, library_dir) is Ok) == (parse_config_spec(raw2, library_dir) is Ok),
        parse_config_spec(raw, library_dir) is Ok ==> parse_config_spec(raw2, library_dir)
            == parse_config_spec(raw, library_dir),
{
    let ls = lines_of(raw);
    let pre = ls.take(at);
    let post = ls.skip(at);
    assert(pre + post =~= ls);
    lemma_meaningful_concat(pre, post);
    lemma_meaningful_concat(pre + extra, post);
    lemma_meaningful_concat(pre, extra);
    lemma_meaningful_none(extra);
    assert(meaningful_lines(pre) + Seq::<Seq<char>>::empty() =~= meaningful_lines(pre));
    law_ignorable_lines(raw, raw2, library_dir);
}

} // verus!
