//! The commands that apply wallpapers and sync themes, decided from the settings and
//! from which helper programs are installed.
use vstd::prelude::*;

use crate::backend::{
    LoopMode, ScalingMode, WallpaperKind, WallpaperModel, WallpaperSpec,
};
use crate::config::{storable, wallpaper_models, AppConfig, ConfigModel};
use crate::failure::{Failure, FailureKind};
use crate::monitors::string_views;
use crate::state::{law_state_round_trip, parse_state_spec, render_state_spec, AppliedState, StateModel};
use crate::text::{first_where, lemma_first_where, lemma_trim_plain, trim};

verus! {

/// A program to run, with the daemon to start first, its arguments, the line that
/// describes it, and the message reported when it fails.
#[derive(Debug, Clone, PartialEq, Eq)]
pub struct CommandPlan {
    pub daemon: String,
    pub program: String,
    pub args: Vec<String>,
    pub summary: String,
    pub failure: String,
}

pub struct PlanModel {
    pub daemon: Seq<char>,
    pub program: Seq<char>,
    pub args: Seq<Seq<char>>,
    pub summary: Seq<char>,
    pub failure: Seq<char>,
}

impl View for CommandPlan {
    type V = PlanModel;

    open spec fn view(&self) -> PlanModel {
        PlanModel {
            daemon: self.daemon@,
            program: self.program@,
            args: string_views(self.args@),
            summary: self.summary@,
            failure: self.failure@,
        }
    }
}

/// The `--resize` word that `awww` uses for a scaling mode.
pub open spec fn awww_resize(s: ScalingMode) -> Seq<char> {
    match s {
        ScalingMode::Fill => "crop"@,
        ScalingMode::Fit => "fit"@,
        ScalingMode::Center => "no"@,
    }
}

/// The command that shows a still wallpaper through `tool` (`swww` or `awww`), with
/// `resize` as its resize word.
pub open spec fn image_plan_for(tool: Seq<char>, resize: Seq<char>, w: WallpaperModel) -> PlanModel {
    PlanModel {
        daemon: tool + "-daemon"@,
        program: tool,
        args: seq![
            "img"@,
            w.path,
            "--outputs"@,
            w.output,
            "--resize"@,
            resize,
            "--transition-type"@,
            w.transition.name(),
        ],
        summary: tool + " img "@ + w.path + " --outputs "@ + w.output + " --resize "@ + resize
            + " --transition-type "@ + w.transition.name(),
        failure: tool + " failed for output "@ + w.output,
    }
}

/// How a still wallpaper is shown: through `swww` when it is installed, else through
/// `awww`, else not at all.
pub open spec fn image_plan_spec(w: WallpaperModel, swww: bool, awww: bool) -> Result<
    PlanModel,
    (FailureKind, Seq<char>),
> {
    if swww {
        Ok(image_plan_for("swww"@, w.scaling.name(), w))
    } else if awww {
        Ok(image_plan_for("awww"@, awww_resize(w.scaling), w))
    } else {
        Err(
            (
                FailureKind::NotFound,
                "swww or awww is required for image wallpapers. Install one with: sudo pacman -S swww"@,
            ),
        )
    }
}

fn image_plan(tool: &str, resize: &str, w: &WallpaperSpec) -> (p: CommandPlan)
    ensures
        p@ == image_plan_for(tool@, resize@, w@),
{
    let mut daemon = String::from_str(tool);
    daemon.append("-daemon");
    let mut args: Vec<String> = Vec::new();
    args.push(String::from_str("img"));
    args.push(w.path.clone());
    args.push(String::from_str("--outputs"));
    args.push(w.output.clone());
    args.push(String::from_str("--resize"));
    args.push(String::from_str(resize));
    args.push(String::from_str("--transition-type"));
    args.push(String::from_str(w.transition.as_str()));
    let mut summary = String::from_str(tool);
    summary.append(" img ");
    summary.append(w.path.as_str());
    summary.append(" --outputs ");
    summary.append(w.output.as_str());
    summary.append(" --resize ");
    summary.append(resize);
    summary.append(" --transition-type ");
    summary.append(w.transition.as_str());
    let mut failure = String::from_str(tool);
    failure.append(" failed for output ");
    failure.append(w.output.as_str());
    let p = CommandPlan { daemon, program: String::from_str(tool), args, summary, failure };
    assert(p@.args =~= image_plan_for(tool@, resize@, w@).args);
    p
}

/// Decides how a still wallpaper is shown, given which image tools are installed.
pub fn plan_image(w: &WallpaperSpec, swww_available: bool, awww_available: bool) -> (r: Result<
    CommandPlan,
    Failure,
>)
    ensures
        match (r, image_plan_spec(w@, swww_available, awww_available)) {
            (Ok(p), Ok(m)) => p@ == m,
            (Err(f), Err(e)) => f@ == e,
            _ => false,
        },
{
    if swww_available {
        return Ok(image_plan("swww", w.scaling.as_str(), w));
    }
    if !awww_available {
        return Err(
            Failure::with_text(
                FailureKind::NotFound,
                "swww or awww is required for image wallpapers. Install one with: sudo pacman -S swww",
            ),
        );
    }
    let resize = match w.scaling {
        ScalingMode::Fill => "crop",
        ScalingMode::Fit => "fit",
        ScalingMode::Center => "no",
    };
    Ok(image_plan("awww", resize, w))
}

/// How a live wallpaper is started: the `pkill` pattern that stops an earlier player for
/// the output (when `pkill` is installed), the player options, the `mpvpaper` arguments,
/// and the line that describes the command.
#[derive(Debug, Clone, PartialEq, Eq)]
pub struct VideoPlan {
    pub kill_pattern: Option<String>,
    pub options: String,
    pub args: Vec<String>,
    pub summary: String,
}

pub struct VideoPlanModel {
    pub kill_pattern: Option<Seq<char>>,
    pub options: Seq<char>,
    pub args: Seq<Seq<char>>,
    pub summary: Seq<char>,
}

impl View for VideoPlan {
    type V = VideoPlanModel;

    open spec fn view(&self) -> VideoPlanModel {
        VideoPlanModel {
            kill_pattern: match self.kill_pattern {
                Some(k) => Some(k@),
                None => None,
            },
            options: self.options@,
            args: string_views(self.args@),
            summary: self.summary@,
        }
    }
}

/// The player option for a loop mode.
pub open spec fn loop_option(l: LoopMode) -> Seq<char> {
    match l {
        LoopMode::Infinite => "loop-playlist=inf"@,
        LoopMode::Once => "loop-file=no"@,
    }
}

/// The player options: no audio when muted, then the loop option, separated by a space.
pub open spec fn video_options(w: WallpaperModel) -> Seq<char> {
    (if w.muted {
        "no-audio "@
    } else {
        seq![]
    }) + loop_option(w.loop_mode)
}

pub open spec fn video_plan_spec(w: WallpaperModel, mpvpaper: bool, pkill: bool) -> Result<
    VideoPlanModel,
    (FailureKind, Seq<char>),
> {
    if !mpvpaper {
        Err(
            (
                FailureKind::NotFound,
                "mpvpaper is required for live wallpapers. Install it with: sudo pacman -S mpvpaper mpv"@,
            ),
        )
    } else {
        Ok(
            VideoPlanModel {
                kill_pattern: if pkill {
                    Some("mpvpaper "@ + w.output)
                } else {
                    None
                },
                options: video_options(w),
                args: seq!["-o"@, video_options(w), w.output, w.path],
                summary: "mpvpaper -o \""@ + video_options(w) + "\" "@ + w.output + " "@ + w.path,
            },
        )
    }
}

/// Decides how a live wallpaper is started, given which programs are installed.
pub fn plan_video(w: &WallpaperSpec, mpvpaper_available: bool, pkill_available: bool) -> (r:
    Result<VideoPlan, Failure>)
    ensures
        match (r, video_plan_spec(w@, mpvpaper_available, pkill_available)) {
            (Ok(p), Ok(m)) => p@ == m,
            (Err(f), Err(e)) => f@ == e,
            _ => false,
        },
{
    if !mpvpaper_available {
        return Err(
            Failure::with_text(
                FailureKind::NotFound,
                "mpvpaper is required for live wallpapers. Install it with: sudo pacman -S mpvpaper mpv",
            ),
        );
    }
    let kill_pattern = if pkill_available {
        let mut k = String::from_str("mpvpaper ");
        k.append(w.output.as_str());
        Some(k)
    } else {
        None
    };
    let mut options = String::new();
    if w.muted {
        options.append("no-audio ");
    }
    options.append(
        match w.loop_mode {
            LoopMode::Infinite => "loop-playlist=inf",
            LoopMode::Once => "loop-file=no",
        },
    );
    assert(options@ =~= video_options(w@));
    let mut args: Vec<String> = Vec::new();
    args.push(String::from_str("-o"));
    args.push(options.clone());
    args.push(w.output.clone());
    args.push(w.path.clone());
    let mut summary = String::from_str("mpvpaper -o \"");
    summary.append(options.as_str());
    summary.append("\" ");
    summary.append(w.output.as_str());
    summary.append(" ");
    summary.append(w.path.as_str());
    let p = VideoPlan { kill_pattern, options, args, summary };
    assert(p@.args =~= seq!["-o"@, video_options(w@), w@.output, w@.path]);
    assert(p@.summary =~= "mpvpaper -o \""@ + video_options(w@) + "\" "@ + w@.output + " "@ + w@.path);
    Ok(p)
}

/// What happens to one configured wallpaper during `apply`.
#[derive(Debug, Clone, PartialEq, Eq)]
pub enum ApplyStep {
    /// The wallpaper is invalid; applying stops with this failure.
    Reject(Failure),
    /// The output is not connected; the wallpaper is skipped, with a note when verbose.
    Skip(Option<String>),
    /// The wallpaper is shown.
    Show,
}

pub open spec fn seq_has(v: Seq<Seq<char>>, s: Seq<char>) -> bool {
    exists|j: int| 0 <= j < v.len() && v[j] == s
}

/// The decision for one wallpaper, given whether its file exists, which outputs are
/// connected (none known means any output is accepted), and verbosity.
pub open spec fn apply_step_spec(
    w: WallpaperSpec,
    path_exists: bool,
    outputs: Seq<Seq<char>>,
    verbose: bool,
) -> ApplyStepModel {
    match w.validation(path_exists) {
        Err(m) => ApplyStepModel::Reject(FailureKind::InvalidInput, m),
        Ok(()) => if outputs.len() > 0 && !seq_has(outputs, w@.output) {
            ApplyStepModel::Skip(
                if verbose {
                    Some(
                        "skipped unavailable output "@ + w@.output + " for "@ + w.kind.name()
                            + " wallpaper"@,
                    )
                } else {
                    None
                },
            )
        } else {
            ApplyStepModel::Show
        },
    }
}

pub enum ApplyStepModel {
    Reject(FailureKind, Seq<char>),
    Skip(Option<Seq<char>>),
    Show,
}

impl View for ApplyStep {
    type V = ApplyStepModel;

    open spec fn view(&self) -> ApplyStepModel {
        match self {
            ApplyStep::Reject(f) => ApplyStepModel::Reject(f.kind, f.message@),
            ApplyStep::Skip(n) => ApplyStepModel::Skip(
                match n {
                    Some(s) => Some(s@),
                    None => None,
                },
            ),
            ApplyStep::Show => ApplyStepModel::Show,
        }
    }
}

/// Whether `outputs` holds `name`.
pub fn contains_output(outputs: &Vec<String>, name: &String) -> (b: bool)
    ensures
        b == seq_has(string_views(outputs@), name@),
{
    let mut i: usize = 0;
    while i < outputs.len()
        invariant
            i <= outputs.len(),
            forall|j: int| 0 <= j < i ==> outputs@[j]@ != name@,
        decreases outputs.len() - i,
    {
        if outputs[i] == *name {
            assert(string_views(outputs@)[i as int] == name@);
            return true;
        }
        i = i + 1;
    }
    assert forall|j: int| 0 <= j < string_views(outputs@).len() implies string_views(
        outputs@,
    )[j] != name@ by {
        assert(string_views(outputs@)[j] == outputs@[j]@);
    }
    false
}

/// Decides what happens to one wallpaper during `apply`.
pub fn apply_step(w: &WallpaperSpec, path_exists: bool, outputs: &Vec<String>, verbose: bool) -> (r:
    ApplyStep)
    ensures
        r@ == apply_step_spec(*w, path_exists, string_views(outputs@), verbose),
{
    match w.validate(path_exists) {
        Err(m) => ApplyStep::Reject(Failure::new(FailureKind::InvalidInput, m)),
        Ok(()) => {
            if outputs.len() > 0 && !contains_output(outputs, &w.output) {
                if verbose {
                    let mut note = String::from_str("skipped unavailable output ");
                    note.append(w.output.as_str());
                    note.append(" for ");
                    note.append(w.kind.as_str());
                    note.append(" wallpaper");
                    ApplyStep::Skip(Some(note))
                } else {
                    ApplyStep::Skip(None)
                }
            } else {
                ApplyStep::Show
            }
        },
    }
}

/// The state recorded after applying a configuration: the backend, the number of
/// configured wallpapers, and a snapshot of them.
pub fn applied_state(config: &AppConfig) -> (s: AppliedState)
    ensures
        s@ == (StateModel {
            backend: "hyprland"@,
            items: config.wallpapers@.len(),
            wallpapers: config@.wallpapers,
        }),
{
    AppliedState::snapshot("hyprland", &config.wallpapers)
}

/// Whether a state holds a wallpaper snapshot. A state file written without one counts
/// wallpapers but lists none; a snapshot of no wallpapers counts none.
pub open spec fn has_snapshot(s: StateModel) -> bool {
    !(s.items > 0 && s.wallpapers.len() == 0)
}

/// The configuration that `apply` applies: when restoring and a state holding a snapshot
/// was read, the configuration with the snapshot's wallpapers (possibly none) in place of
/// its own; otherwise the configuration as it is.
pub open spec fn apply_target_spec(c: ConfigModel, restore: bool, state: Option<StateModel>) -> ConfigModel {
    match state {
        Some(s) => if restore && has_snapshot(s) {
            ConfigModel { wallpapers: s.wallpapers, ..c }
        } else {
            c
        },
        None => c,
    }
}

/// Chooses what `apply` applies, given whether `--restore` was passed and the state file
/// as read (`None` when it could not be read).
pub fn apply_target(config: AppConfig, restore: bool, state: Option<AppliedState>) -> (c: AppConfig)
    ensures
        c@ == apply_target_spec(
            config@,
            restore,
            match state {
                Some(s) => Some(s@),
                None => None,
            },
        ),
{
    match state {
        Some(s) => {
            let legacy = s.applied_items > 0 && s.wallpapers.len() == 0;
            if restore && !legacy {
                AppConfig { wallpapers: s.wallpapers, ..config }
            } else {
                config
            }
        },
        None => config,
    }
}

/// The state that applying a configuration records.
pub open spec fn snapshot_of(c: ConfigModel) -> StateModel {
    StateModel { backend: "hyprland"@, items: c.wallpapers.len(), wallpapers: c.wallpapers }
}

/// `apply --restore` replays the last applied snapshot: after a configuration was applied
/// and its state saved and read back, restoring applies exactly its wallpapers (none, if
/// it had none) whatever the configuration now holds; without `--restore` the
/// configuration is applied as it is.
pub proof fn law_restore_replays_last_applied(
    applied: ConfigModel,
    current: ConfigModel,
    state: Option<StateModel>,
)
    requires
        storable(applied),
        applied.wallpapers.len() <= usize::MAX,
    ensures
        apply_target_spec(
            current,
            true,
            Some(parse_state_spec(render_state_spec(snapshot_of(applied)))),
        ) == (ConfigModel { wallpapers: applied.wallpapers, ..current }),
        apply_target_spec(current, false, state) == current,
{
    reveal_strlit("hyprland");
    lemma_trim_plain("hyprland"@);
    law_state_round_trip(snapshot_of(applied));
}

/// The test for a wallpaper of `kind`.
pub open spec fn of_kind(kind: WallpaperKind) -> spec_fn(WallpaperModel) -> bool {
    |w: WallpaperModel| w.kind == kind
}

/// Position of the first wallpaper of a kind, or -1.
pub open spec fn first_of_kind(ws: Seq<WallpaperModel>, kind: WallpaperKind) -> int {
    first_where(ws, of_kind(kind))
}

pub proof fn lemma_first_of_kind(ws: Seq<WallpaperModel>, kind: WallpaperKind)
    ensures
        -1 <= first_of_kind(ws, kind) < ws.len(),
        first_of_kind(ws, kind) >= 0 ==> ws[first_of_kind(ws, kind)].kind == kind,
        forall|j: int| 0 <= j < first_of_kind(ws, kind) ==> ws[j].kind != kind,
        first_of_kind(ws, kind) < 0 ==> forall|j: int| 0 <= j < ws.len() ==> ws[j].kind != kind,
{
    let p = of_kind(kind);
    lemma_first_where(ws, p);
    assert forall|j: int| 0 <= j < first_of_kind(ws, kind) implies ws[j].kind != kind by {
        assert(!p(ws[j]));
    }
    if first_of_kind(ws, kind) < 0 {
        assert forall|j: int| 0 <= j < ws.len() implies ws[j].kind != kind by {
            assert(!p(ws[j]));
        }
    }
}

/// Finds the first wallpaper of a kind.
pub fn find_kind(ws: &Vec<WallpaperSpec>, kind: WallpaperKind) -> (r: Option<usize>)
    ensures
        match r {
            Some(i) => i < ws.len() && i as int == first_of_kind(wallpaper_models(ws@), kind),
            None => first_of_kind(wallpaper_models(ws@), kind) == -1,
        },
{
    let ghost m = wallpaper_models(ws@);
    proof {
        lemma_first_of_kind(m, kind);
    }
    let mut i: usize = 0;
    while i < ws.len()
        invariant
            m == wallpaper_models(ws@),
            -1 <= first_of_kind(m, kind) < m.len(),
            first_of_kind(m, kind) >= 0 ==> m[first_of_kind(m, kind)].kind == kind,
            forall|j: int| 0 <= j < first_of_kind(m, kind) ==> m[j].kind != kind,
            first_of_kind(m, kind) < 0 ==> forall|j: int| 0 <= j < m.len() ==> m[j].kind != kind,
            i <= ws.len(),
            forall|j: int| 0 <= j < i ==> m[j].kind != kind,
        decreases ws.len() - i,
    {
        if ws[i].kind == kind {
            assert(m[i as int].kind == kind);
            return Some(i);
        }
        i = i + 1;
    }
    proof {
        if first_of_kind(m, kind) >= 0 {
            assert(m[first_of_kind(m, kind)].kind == kind);
        }
    }
    None
}

/// Where the colour-theme generator takes its colours from.
#[derive(Debug, Clone, PartialEq, Eq)]
pub enum WalSource {
    /// The first still wallpaper.
    Image(String),
    /// A poster frame of the first video wallpaper, when there is no still one.
    VideoPoster(String),
    /// No wallpaper is configured.
    Nothing,
}

/// The source of the colour theme: the first still wallpaper, else a poster frame of the
/// first video wallpaper, else nothing.
pub open spec fn wal_source_spec(ws: Seq<WallpaperModel>) -> Option<(bool, Seq<char>)> {
    let i = first_of_kind(ws, WallpaperKind::Image);
    let v = first_of_kind(ws, WallpaperKind::Video);
    if 0 <= i < ws.len() {
        Some((true, ws[i].path))
    } else if 0 <= v < ws.len() {
        Some((false, ws[v].path))
    } else {
        None
    }
}

/// Chooses where the colour theme comes from.
pub fn wal_source(config: &AppConfig) -> (r: WalSource)
    ensures
        match (r, wal_source_spec(config@.wallpapers)) {
            (WalSource::Image(p), Some((true, q))) => p@ == q,
            (WalSource::VideoPoster(p), Some((false, q))) => p@ == q,
            (WalSource::Nothing, None) => true,
            _ => false,
        },
{
    if let Some(i) = find_kind(&config.wallpapers, WallpaperKind::Image) {
        return WalSource::Image(config.wallpapers[i].path.clone());
    }
    if let Some(v) = find_kind(&config.wallpapers, WallpaperKind::Video) {
        return WalSource::VideoPoster(config.wallpapers[v].path.clone());
    }
    WalSource::Nothing
}

/// Where the poster frame for the colour theme is written.
pub fn wal_poster_path() -> (s: &'static str)
    ensures
        s@ == "/tmp/aurora-wall-wal-poster.png"@,
{
    "/tmp/aurora-wall-wal-poster.png"
}

/// When in the video the poster frames are taken by default.
pub fn default_poster_time() -> (s: &'static str)
    ensures
        s@ == "00:00:03"@,
{
    "00:00:03"
}

/// The message when the colour-theme generator fails.
pub fn wal_failure(source: &str) -> (s: String)
    ensures
        s@ == "wal failed while syncing theme from "@ + source@,
{
    let mut s = String::from_str("wal failed while syncing theme from ");
    s.append(source);
    s
}

/// The note when the colour theme was synced.
pub fn wal_synced(source: &str) -> (s: String)
    ensures
        s@ == "wal synced from "@ + source@,
{
    let mut s = String::from_str("wal synced from ");
    s.append(source);
    s
}

/// How a poster frame is extracted: the `ffmpeg` arguments and the failure message.
#[derive(Debug, Clone, PartialEq, Eq)]
pub struct PosterPlan {
    pub args: Vec<String>,
    pub failure: String,
}

/// Decides how a poster frame is extracted from `video` into `output` at `timestamp`,
/// given whether the video exists.
pub fn plan_poster(video: &str, output: &str, timestamp: &str, video_exists: bool) -> (r: Result<
    PosterPlan,
    Failure,
>)
    ensures
        !video_exists ==> (r matches Err(f) && f@ == (
            FailureKind::NotFound,
            "video does not exist: "@ + video@,
        )),
        video_exists ==> (r matches Ok(p) && string_views(p.args@) == seq![
            "-y"@,
            "-ss"@,
            timestamp@,
            "-i"@,
            video@,
            "-frames:v"@,
            "1"@,
            output@,
        ] && p.failure@ == "ffmpeg failed to extract poster frame from "@ + video@),
{
    if !video_exists {
        let mut m = String::from_str("video does not exist: ");
        m.append(video);
        return Err(Failure::new(FailureKind::NotFound, m));
    }
    let mut args: Vec<String> = Vec::new();
    args.push(String::from_str("-y"));
    args.push(String::from_str("-ss"));
    args.push(String::from_str(timestamp));
    args.push(String::from_str("-i"));
    args.push(String::from_str(video));
    args.push(String::from_str("-frames:v"));
    args.push(String::from_str("1"));
    args.push(String::from_str(output));
    let mut failure = String::from_str("ffmpeg failed to extract poster frame from ");
    failure.append(video);
    assert(string_views(args@) =~= seq![
        "-y"@,
        "-ss"@,
        timestamp@,
        "-i"@,
        video@,
        "-frames:v"@,
        "1"@,
        output@,
    ]);
    Ok(PosterPlan { args, failure })
}

/// The `--resize` word of a still-image command: `swww` takes the scaling mode's own name
/// (`fill`, `fit`, `center`), `awww` takes `crop` for fill, `fit` for fit and `no` for
/// center, so that each scaling mode gets a different word with either tool.
pub proof fn law_image_resize_words(w: WallpaperModel, w2: WallpaperModel, awww: bool)
    ensures
        image_plan_spec(w, true, awww) matches Ok(p) && p.program == "swww"@ && p.args.len() == 8
            && p.args[5] == (match w.scaling {
            ScalingMode::Fill => "fill"@,
            ScalingMode::Fit => "fit"@,
            ScalingMode::Center => "center"@,
        }),
        image_plan_spec(w, false, true) matches Ok(p) && p.program == "awww"@ && p.args.len() == 8
            && p.args[5] == (match w.scaling {
            ScalingMode::Fill => "crop"@,
            ScalingMode::Fit => "fit"@,
            ScalingMode::Center => "no"@,
        }),
        w.scaling != w2.scaling ==> (image_plan_spec(w, false, true) matches Ok(p) && image_plan_spec(
            w2,
            false,
            true,
        ) matches Ok(p2) && p.args[5] != p2.args[5]),
        w.scaling != w2.scaling ==> (image_plan_spec(w, true, awww) matches Ok(p) && image_plan_spec(
            w2,
            true,
            awww,
        ) matches Ok(p2) && p.args[5] != p2.args[5]),
        image_plan_spec(w, false, false) is Err,
{
    reveal_strlit("crop");
    reveal_strlit("fit");
    reveal_strlit("no");
    reveal_strlit("fill");
    reveal_strlit("center");
}

/// The colour theme comes from the first still wallpaper whenever there is one, wherever
/// the video wallpapers stand.
pub proof fn law_wal_prefers_first_still(ws: Seq<WallpaperModel>, k: int)
    requires
        0 <= k < ws.len(),
        ws[k].kind == WallpaperKind::Image,
        forall|j: int| 0 <= j < k ==> ws[j].kind != WallpaperKind::Image,
    ensures
        wal_source_spec(ws) == Some((true, ws[k].path)),
{
    lemma_first_of_kind(ws, WallpaperKind::Image);
    let i = first_of_kind(ws, WallpaperKind::Image);
    if i != k {
        if i < k {
            assert(ws[i].kind == WallpaperKind::Image);
        } else {
            assert(ws[k].kind != WallpaperKind::Image);
        }
    }
}

/// Without a still wallpaper the colour theme comes from a poster of the first video
/// wallpaper, and with no wallpaper at all there is no source.
pub proof fn law_wal_falls_back_to_first_video(ws: Seq<WallpaperModel>, k: int)
    requires
        forall|j: int| 0 <= j < ws.len() ==> ws[j].kind != WallpaperKind::Image,
        0 <= k < ws.len() ==> (ws[k].kind == WallpaperKind::Video && forall|j: int|
            0 <= j < k ==> ws[j].kind != WallpaperKind::Video),
    ensures
        0 <= k < ws.len() ==> wal_source_spec(ws) == Some((false, ws[k].path)),
        ws.len() == 0 ==> wal_source_spec(ws) is None,
{
    lemma_first_of_kind(ws, WallpaperKind::Image);
    lemma_first_of_kind(ws, WallpaperKind::Video);
    let v = first_of_kind(ws, WallpaperKind::Video);
    if 0 <= k < ws.len() && v != k {
        if v < k && v >= 0 {
            assert(ws[v].kind == WallpaperKind::Video);
        } else {
            assert(ws[k].kind != WallpaperKind::Video);
        }
    }
}

/// A still wallpaper is shown by `TOOL img PATH --outputs OUTPUT --resize WORD
/// --transition-type fade|none`, after starting `TOOL-daemon`, where TOOL is `swww` when
/// installed and `awww` otherwise; the line reported is that command, and a failure names
/// the tool and the output. Without either tool nothing is shown.
pub proof fn law_image_command(w: WallpaperModel, swww: bool, awww: bool)
    ensures
        ({
            let tool = if swww {
                "swww"@
            } else {
                "awww"@
            };
            let word = if swww {
                match w.scaling {
                    ScalingMode::Fill => "fill"@,
                    ScalingMode::Fit => "fit"@,
                    ScalingMode::Center => "center"@,
                }
            } else {
                match w.scaling {
                    ScalingMode::Fill => "crop"@,
                    ScalingMode::Fit => "fit"@,
                    ScalingMode::Center => "no"@,
                }
            };
            let fade = match w.transition {
                crate::backend::TransitionMode::Instant => "none"@,
                crate::backend::TransitionMode::Fade => "fade"@,
            };
            (swww || awww) ==> image_plan_spec(w, swww, awww) == Ok::<
                PlanModel,
                (FailureKind, Seq<char>),
            >(
                PlanModel {
                    daemon: tool + "-daemon"@,
                    program: tool,
                    args: seq![
                        "img"@,
                        w.path,
                        "--outputs"@,
                        w.output,
                        "--resize"@,
                        word,
                        "--transition-type"@,
                        fade,
                    ],
                    summary: tool + " img "@ + w.path + " --outputs "@ + w.output + " --resize "@
                        + word + " --transition-type "@ + fade,
                    failure: tool + " failed for output "@ + w.output,
                },
            )
        }),
        !swww && !awww ==> image_plan_spec(w, swww, awww) == Err::<
            PlanModel,
            (FailureKind, Seq<char>),
        >(
            (
                FailureKind::NotFound,
                "swww or awww is required for image wallpapers. Install one with: sudo pacman -S swww"@,
            ),
        ),
{
}

/// A live wallpaper is started by `mpvpaper -o OPTIONS OUTPUT PATH`, where OPTIONS is
/// `no-audio ` when muted followed by `loop-playlist=inf` for an endless loop or
/// `loop-file=no` for a single play; an earlier player for the output is stopped first
/// through the pattern `mpvpaper OUTPUT` when `pkill` is installed; without `mpvpaper`
/// nothing starts.
pub proof fn law_video_command(w: WallpaperModel, pkill: bool)
    ensures
        ({
            let opts = (if w.muted {
                "no-audio "@
            } else {
                Seq::<char>::empty()
            }) + (match w.loop_mode {
                LoopMode::Infinite => "loop-playlist=inf"@,
                LoopMode::Once => "loop-file=no"@,
            });
            video_plan_spec(w, true, pkill) == Ok::<VideoPlanModel, (FailureKind, Seq<char>)>(
                VideoPlanModel {
                    kill_pattern: if pkill {
                        Some("mpvpaper "@ + w.output)
                    } else {
                        None
                    },
                    options: opts,
                    args: seq!["-o"@, opts, w.output, w.path],
                    summary: "mpvpaper -o \""@ + opts + "\" "@ + w.output + " "@ + w.path,
                },
            )
        }),
        video_plan_spec(w, false, pkill) is Err,
{
    assert(seq![] + loop_option(w.loop_mode) =~= loop_option(w.loop_mode));
}

/// During `apply` a wallpaper whose output or path is blank, or whose file is missing, is
/// refused; a valid one is shown when its output is connected or no outputs are known,
/// and skipped otherwise, with a note only when verbose.
pub proof fn law_apply_step_cases(
    w: WallpaperSpec,
    path_exists: bool,
    outputs: Seq<Seq<char>>,
    verbose: bool,
)
    ensures
        (apply_step_spec(w, path_exists, outputs, verbose) is Reject) == (trim(w.output@).len() == 0
            || trim(w.path@).len() == 0 || !path_exists),
        (apply_step_spec(w, path_exists, outputs, verbose) is Show) == (trim(w.output@).len() > 0
            && trim(w.path@).len() > 0 && path_exists && (outputs.len() == 0 || exists|j: int|
            0 <= j < outputs.len() && outputs[j] == w.output@)),
        apply_step_spec(w, path_exists, outputs, verbose) is Skip ==> (apply_step_spec(
            w,
            path_exists,
            outputs,
            verbose,
        ) == ApplyStepModel::Skip(
            if verbose {
                Some(
                    "skipped unavailable output "@ + w.output@ + " for "@ + w.kind.name()
                        + " wallpaper"@,
                )
            } else {
                None
            },
        )),
{
}

} // verus!
