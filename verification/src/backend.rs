//! Backend kinds, wallpaper settings, and runtime session detection.
use vstd::prelude::*;

use crate::text::{
    chars_of, is_ws, lower, lower_char, lower_range_is, to_lower_char, trim, trim_bounds,
};

verus! {

/// Tests whether `lower(s) == lower(word)`, which is what
/// `str::eq_ignore_ascii_case` decides.
pub fn eq_ignore_ascii_case(s: &str, word: &str) -> (b: bool)
    ensures
        b == (lower(s@) == lower(word@)),
{
    let a = chars_of(s);
    let w = chars_of(word);
    if a.len() != w.len() {
        proof {
            assert(lower(s@).len() != lower(word@).len());
        }
        return false;
    }
    let mut i: usize = 0;
    while i < a.len()
        invariant
            a@ == s@,
            w@ == word@,
            a.len() == w.len(),
            i <= a.len(),
            forall|j: int| 0 <= j < i ==> lower_char(a@[j]) == lower_char(w@[j]),
        decreases a.len() - i,
    {
        if to_lower_char(a[i]) != to_lower_char(w[i]) {
            proof {
                assert(lower(s@)[i as int] != lower(word@)[i as int]);
            }
            return false;
        }
        i = i + 1;
    }
    assert(lower(s@) =~= lower(word@));
    true
}

/// Whether `input`, trimmed and in ASCII lower case, is the lower-case `word`.
pub open spec fn keyword_of(input: Seq<char>, word: Seq<char>) -> bool {
    lower(trim(input)) == word
}

/// The desktop integration a wallpaper is applied through.
#[derive(Debug, Clone, Copy, PartialEq, Eq, Structural)]
pub enum BackendKind {
    Hyprland,
    Wayland,
    X11,
    Desktop,
}

impl BackendKind {
    /// The configuration name of the backend.
    pub open spec fn name(self) -> Seq<char> {
        match self {
            BackendKind::Hyprland => "hyprland"@,
            BackendKind::Wayland => "wayland"@,
            BackendKind::X11 => "x11"@,
            BackendKind::Desktop => "desktop"@,
        }
    }

    /// The backend a text names, ignoring surrounding white space and ASCII case.
    pub open spec fn parse_spec(input: Seq<char>) -> Option<BackendKind> {
        if keyword_of(input, "hyprland"@) {
            Some(BackendKind::Hyprland)
        } else if keyword_of(input, "wayland"@) {
            Some(BackendKind::Wayland)
        } else if keyword_of(input, "x11"@) {
            Some(BackendKind::X11)
        } else if keyword_of(input, "desktop"@) {
            Some(BackendKind::Desktop)
        } else {
            None
        }
    }

    pub fn as_str(self) -> (s: &'static str)
        ensures
            s@ == self.name(),
    {
        match self {
            BackendKind::Hyprland => "hyprland",
            BackendKind::Wayland => "wayland",
            BackendKind::X11 => "x11",
            BackendKind::Desktop => "desktop",
        }
    }

    pub fn parse(input: &str) -> (r: Option<BackendKind>)
        ensures
            r == BackendKind::parse_spec(input@),
    {
        let cs = chars_of(input);
        assert(cs@.subrange(0, cs.len() as int) =~= input@);
        BackendKind::parse_in(&cs, 0, cs.len())
    }

    /// Reads the text `cs[lo..hi]` as `parse` does.
    pub fn parse_in(cs: &Vec<char>, lo: usize, hi: usize) -> (r: Option<BackendKind>)
        requires
            lo <= hi <= cs.len(),
        ensures
            r == BackendKind::parse_spec(cs@.subrange(lo as int, hi as int)),
    {
        let (a, b) = trim_bounds(cs, lo, hi);
        if lower_range_is(cs, a, b, "hyprland") {
            Some(BackendKind::Hyprland)
        } else if lower_range_is(cs, a, b, "wayland") {
            Some(BackendKind::Wayland)
        } else if lower_range_is(cs, a, b, "x11") {
            Some(BackendKind::X11)
        } else if lower_range_is(cs, a, b, "desktop") {
            Some(BackendKind::Desktop)
        } else {
            None
        }
    }
}

/// Something that applies wallpapers for one kind of session.
pub trait WallpaperBackend {
    fn kind(&self) -> BackendKind;

    fn display_name(&self) -> &'static str;
}

/// The fallback integration through the desktop environment.
#[derive(Debug, Default)]
pub struct DesktopBackend;

impl WallpaperBackend for DesktopBackend {
    fn kind(&self) -> (k: BackendKind)
        ensures
            k == BackendKind::Desktop,
    {
        BackendKind::Desktop
    }

    fn display_name(&self) -> (s: &'static str)
        ensures
            s@ == "Desktop integration backend"@,
    {
        "Desktop integration backend"
    }
}

/// The Hyprland compositor integration.
#[derive(Debug, Default)]
pub struct HyprlandBackend;

impl WallpaperBackend for HyprlandBackend {
    fn kind(&self) -> (k: BackendKind)
        ensures
            k == BackendKind::Hyprland,
    {
        BackendKind::Hyprland
    }

    fn display_name(&self) -> (s: &'static str)
        ensures
            s@ == "Hyprland backend"@,
    {
        "Hyprland backend"
    }
}

/// A generic Wayland compositor integration.
#[derive(Debug, Default)]
pub struct WaylandBackend;

impl WallpaperBackend for WaylandBackend {
    fn kind(&self) -> (k: BackendKind)
        ensures
            k == BackendKind::Wayland,
    {
        BackendKind::Wayland
    }

    fn display_name(&self) -> (s: &'static str)
        ensures
            s@ == "Generic Wayland backend"@,
    {
        "Generic Wayland backend"
    }
}

/// An X11 session integration.
#[derive(Debug, Default)]
pub struct X11Backend;

impl WallpaperBackend for X11Backend {
    fn kind(&self) -> (k: BackendKind)
        ensures
            k == BackendKind::X11,
    {
        BackendKind::X11
    }

    fn display_name(&self) -> (s: &'static str)
        ensures
            s@ == "X11 backend"@,
    {
        "X11 backend"
    }
}

/// The session variables that backend detection reads.
#[derive(Debug, Clone, PartialEq, Eq)]
pub struct RuntimeEnvironment {
    pub desktop_session: Option<String>,
    pub current_desktop: Option<String>,
    pub wayland_display: Option<String>,
    pub display: Option<String>,
    pub hyprland_instance_signature: Option<String>,
}

/// Whether an optional session variable names Hyprland, ignoring ASCII case.
pub open spec fn names_hyprland(v: Option<String>) -> bool {
    match v {
        Some(s) => lower(s@) == lower("hyprland"@),
        None => false,
    }
}

fn opt_names_hyprland(v: &Option<String>) -> (b: bool)
    ensures
        b == names_hyprland(*v),
{
    match v {
        Some(s) => eq_ignore_ascii_case(s.as_str(), "hyprland"),
        None => false,
    }
}

impl RuntimeEnvironment {
    pub open spec fn hyprland_session(&self) -> bool {
        ||| self.hyprland_instance_signature is Some
        ||| names_hyprland(self.desktop_session)
        ||| names_hyprland(self.current_desktop)
    }

    pub open spec fn wayland_session(&self) -> bool {
        self.wayland_display is Some
    }

    pub open spec fn x11_session(&self) -> bool {
        self.display is Some
    }

    /// Whether the session offers what a backend needs.
    pub open spec fn offers(&self, k: BackendKind) -> bool {
        match k {
            BackendKind::Hyprland => self.hyprland_session(),
            BackendKind::Wayland | BackendKind::Desktop => self.wayland_session(),
            BackendKind::X11 => self.x11_session(),
        }
    }

    /// The backend chosen from the session alone: Hyprland, then Wayland, then X11,
    /// then the desktop fallback.
    pub open spec fn detected(&self) -> BackendKind {
        if self.hyprland_session() {
            BackendKind::Hyprland
        } else if self.wayland_session() {
            BackendKind::Wayland
        } else if self.x11_session() {
            BackendKind::X11
        } else {
            BackendKind::Desktop
        }
    }

    /// The backend chosen with an optional preference: the preferred backend when it
    /// names one that the session offers, else the detected one.
    pub open spec fn chosen(&self, preferred: Option<Seq<char>>) -> BackendKind {
        match preferred {
            Some(p) => match BackendKind::parse_spec(p) {
                Some(k) => if self.offers(k) {
                    k
                } else {
                    self.detected()
                },
                None => self.detected(),
            },
            None => self.detected(),
        }
    }

    /// Whether a live wallpaper can start now under a backend.
    pub open spec fn live_ready(&self, k: BackendKind) -> bool {
        match k {
            BackendKind::Hyprland => self.wayland_display is Some
                && self.hyprland_instance_signature is Some,
            BackendKind::Wayland | BackendKind::Desktop => self.wayland_display is Some,
            BackendKind::X11 => self.display is Some,
        }
    }

    pub fn is_hyprland(&self) -> (b: bool)
        ensures
            b == self.hyprland_session(),
    {
        self.hyprland_instance_signature.is_some() || opt_names_hyprland(&self.desktop_session)
            || opt_names_hyprland(&self.current_desktop)
    }

    pub fn is_wayland(&self) -> (b: bool)
        ensures
            b == self.wayland_session(),
    {
        self.wayland_display.is_some()
    }

    pub fn is_x11(&self) -> (b: bool)
        ensures
            b == self.x11_session(),
    {
        self.display.is_some()
    }

    pub fn is_live_session_ready(&self, backend: BackendKind) -> (b: bool)
        ensures
            b == self.live_ready(backend),
    {
        match backend {
            BackendKind::Hyprland => self.wayland_display.is_some()
                && self.hyprland_instance_signature.is_some(),
            BackendKind::Wayland | BackendKind::Desktop => self.wayland_display.is_some(),
            BackendKind::X11 => self.display.is_some(),
        }
    }

    pub fn detect_backend(&self, preferred_backend: Option<&str>) -> (k: BackendKind)
        ensures
            k == self.chosen(
                match preferred_backend {
                    Some(p) => Some(p@),
                    None => None,
                },
            ),
    {
        if let Some(p) = preferred_backend {
            if let Some(preferred) = BackendKind::parse(p) {
                let preferred_is_available = match preferred {
                    BackendKind::Hyprland => self.is_hyprland(),
                    BackendKind::Wayland | BackendKind::Desktop => self.is_wayland(),
                    BackendKind::X11 => self.is_x11(),
                };
                if preferred_is_available {
                    return preferred;
                }
            }
        }
        if self.is_hyprland() {
            BackendKind::Hyprland
        } else if self.is_wayland() {
            BackendKind::Wayland
        } else if self.is_x11() {
            BackendKind::X11
        } else {
            BackendKind::Desktop
        }
    }
}

/// Whether a wallpaper is a still image or a video.
#[derive(Debug, Clone, Copy, PartialEq, Eq, Structural)]
pub enum WallpaperKind {
    Image,
    Video,
}

impl WallpaperKind {
    pub open spec fn name(self) -> Seq<char> {
        match self {
            WallpaperKind::Image => "image"@,
            WallpaperKind::Video => "video"@,
        }
    }

    pub fn as_str(self) -> (s: &'static str)
        ensures
            s@ == self.name(),
    {
        match self {
            WallpaperKind::Image => "image",
            WallpaperKind::Video => "video",
        }
    }
}

/// How a still image is fitted to an output.
#[derive(Debug, Clone, Copy, PartialEq, Eq, Structural)]
pub enum ScalingMode {
    Fill,
    Fit,
    Center,
}

impl ScalingMode {
    pub open spec fn name(self) -> Seq<char> {
        match self {
            ScalingMode::Fill => "fill"@,
            ScalingMode::Fit => "fit"@,
            ScalingMode::Center => "center"@,
        }
    }

    pub open spec fn parse_spec(input: Seq<char>) -> Option<ScalingMode> {
        if keyword_of(input, "fill"@) {
            Some(ScalingMode::Fill)
        } else if keyword_of(input, "fit"@) {
            Some(ScalingMode::Fit)
        } else if keyword_of(input, "center"@) {
            Some(ScalingMode::Center)
        } else {
            None
        }
    }

    pub fn as_str(self) -> (s: &'static str)
        ensures
            s@ == self.name(),
    {
        match self {
            ScalingMode::Fill => "fill",
            ScalingMode::Fit => "fit",
            ScalingMode::Center => "center",
        }
    }

    pub fn parse(input: &str) -> (r: Option<ScalingMode>)
        ensures
            r == ScalingMode::parse_spec(input@),
    {
        let cs = chars_of(input);
        assert(cs@.subrange(0, cs.len() as int) =~= input@);
        ScalingMode::parse_in(&cs, 0, cs.len())
    }

    /// Reads the text `cs[lo..hi]` as `parse` does.
    pub fn parse_in(cs: &Vec<char>, lo: usize, hi: usize) -> (r: Option<ScalingMode>)
        requires
            lo <= hi <= cs.len(),
        ensures
            r == ScalingMode::parse_spec(cs@.subrange(lo as int, hi as int)),
    {
        let (a, b) = trim_bounds(cs, lo, hi);
        if lower_range_is(cs, a, b, "fill") {
            Some(ScalingMode::Fill)
        } else if lower_range_is(cs, a, b, "fit") {
            Some(ScalingMode::Fit)
        } else if lower_range_is(cs, a, b, "center") {
            Some(ScalingMode::Center)
        } else {
            None
        }
    }
}

/// How a still image replaces the previous one.
#[derive(Debug, Clone, Copy, PartialEq, Eq, Structural)]
pub enum TransitionMode {
    Instant,
    Fade,
}

impl TransitionMode {
    pub open spec fn name(self) -> Seq<char> {
        match self {
            TransitionMode::Instant => "none"@,
            TransitionMode::Fade => "fade"@,
        }
    }

    pub open spec fn parse_spec(input: Seq<char>) -> Option<TransitionMode> {
        if keyword_of(input, "none"@) {
            Some(TransitionMode::Instant)
        } else if keyword_of(input, "fade"@) {
            Some(TransitionMode::Fade)
        } else {
            None
        }
    }

    pub fn as_str(self) -> (s: &'static str)
        ensures
            s@ == self.name(),
    {
        match self {
            TransitionMode::Instant => "none",
            TransitionMode::Fade => "fade",
        }
    }

    pub fn parse(input: &str) -> (r: Option<TransitionMode>)
        ensures
            r == TransitionMode::parse_spec(input@),
    {
        let cs = chars_of(input);
        assert(cs@.subrange(0, cs.len() as int) =~= input@);
        TransitionMode::parse_in(&cs, 0, cs.len())
    }

    /// Reads the text `cs[lo..hi]` as `parse` does.
    pub fn parse_in(cs: &Vec<char>, lo: usize, hi: usize) -> (r: Option<TransitionMode>)
        requires
            lo <= hi <= cs.len(),
        ensures
            r == TransitionMode::parse_spec(cs@.subrange(lo as int, hi as int)),
    {
        let (a, b) = trim_bounds(cs, lo, hi);
        if lower_range_is(cs, a, b, "none") {
            Some(TransitionMode::Instant)
        } else if lower_range_is(cs, a, b, "fade") {
            Some(TransitionMode::Fade)
        } else {
            None
        }
    }
}

/// Whether a video wallpaper repeats.
#[derive(Debug, Clone, Copy, PartialEq, Eq, Structural)]
pub enum LoopMode {
    Infinite,
    Once,
}

impl LoopMode {
    pub open spec fn name(self) -> Seq<char> {
        match self {
            LoopMode::Infinite => "infinite"@,
            LoopMode::Once => "once"@,
        }
    }

    pub open spec fn parse_spec(input: Seq<char>) -> Option<LoopMode> {
        if keyword_of(input, "infinite"@) {
            Some(LoopMode::Infinite)
        } else if keyword_of(input, "once"@) {
            Some(LoopMode::Once)
        } else {
            None
        }
    }

    pub fn as_str(self) -> (s: &'static str)
        ensures
            s@ == self.name(),
    {
        match self {
            LoopMode::Infinite => "infinite",
            LoopMode::Once => "once",
        }
    }

    pub fn parse(input: &str) -> (r: Option<LoopMode>)
        ensures
            r == LoopMode::parse_spec(input@),
    {
        let cs = chars_of(input);
        assert(cs@.subrange(0, cs.len() as int) =~= input@);
        LoopMode::parse_in(&cs, 0, cs.len())
    }

    /// Reads the text `cs[lo..hi]` as `parse` does.
    pub fn parse_in(cs: &Vec<char>, lo: usize, hi: usize) -> (r: Option<LoopMode>)
        requires
            lo <= hi <= cs.len(),
        ensures
            r == LoopMode::parse_spec(cs@.subrange(lo as int, hi as int)),
    {
        let (a, b) = trim_bounds(cs, lo, hi);
        if lower_range_is(cs, a, b, "infinite") {
            Some(LoopMode::Infinite)
        } else if lower_range_is(cs, a, b, "once") {
            Some(LoopMode::Once)
        } else {
            None
        }
    }
}

/// One wallpaper assignment for one output.
#[derive(Debug, Clone, PartialEq, Eq)]
pub struct WallpaperSpec {
    pub output: String,
    pub kind: WallpaperKind,
    pub path: String,
    pub scaling: ScalingMode,
    pub transition: TransitionMode,
    pub muted: bool,
    pub loop_mode: LoopMode,
}

/// The abstract content of a wallpaper assignment.
pub struct WallpaperModel {
    pub output: Seq<char>,
    pub kind: WallpaperKind,
    pub path: Seq<char>,
    pub scaling: ScalingMode,
    pub transition: TransitionMode,
    pub muted: bool,
    pub loop_mode: LoopMode,
}

impl View for WallpaperSpec {
    type V = WallpaperModel;

    open spec fn view(&self) -> WallpaperModel {
        WallpaperModel {
            output: self.output@,
            kind: self.kind,
            path: self.path@,
            scaling: self.scaling,
            transition: self.transition,
            muted: self.muted,
            loop_mode: self.loop_mode,
        }
    }
}

impl WallpaperSpec {
    /// A copy of this wallpaper assignment.
    pub fn duplicate(&self) -> (c: WallpaperSpec)
        ensures
            c@ == self@,
    {
        WallpaperSpec {
            output: self.output.clone(),
            kind: self.kind,
            path: self.path.clone(),
            scaling: self.scaling,
            transition: self.transition,
            muted: self.muted,
            loop_mode: self.loop_mode,
        }
    }

    /// The outcome of validation, given whether the wallpaper file exists.
    pub open spec fn validation(self, path_exists: bool) -> Result<(), Seq<char>> {
        if trim(self.output@).len() == 0 {
            Err("output name cannot be empty"@)
        } else if trim(self.path@).len() == 0 {
            Err("wallpaper path cannot be empty"@)
        } else if !path_exists {
            Err("wallpaper path does not exist: "@ + self.path@)
        } else {
            Ok(())
        }
    }

    /// Checks that the output and path are not blank and that the file exists;
    /// `path_exists` tells whether a file is at `self.path`.
    pub fn validate(&self, path_exists: bool) -> (r: Result<(), String>)
        ensures
            match (r, self.validation(path_exists)) {
                (Ok(()), Ok(())) => true,
                (Err(m), Err(e)) => m@ == e,
                _ => false,
            },
    {
        let out = chars_of(self.output.as_str());
        let (a, b) = trim_bounds(&out, 0, out.len());
        assert(out@.subrange(0, out.len() as int) =~= self.output@);
        if a == b {
            return Err(String::from_str("output name cannot be empty"));
        }
        let p = chars_of(self.path.as_str());
        let (c, d) = trim_bounds(&p, 0, p.len());
        assert(p@.subrange(0, p.len() as int) =~= self.path@);
        if c == d {
            return Err(String::from_str("wallpaper path cannot be empty"));
        }
        if !path_exists {
            let mut m = String::from_str("wallpaper path does not exist: ");
            m.append(self.path.as_str());
            return Err(m);
        }
        Ok(())
    }
}

/// A word with no white space at either end and no upper-case letter reads back as itself.
pub proof fn lemma_plain_word(w: Seq<char>)
    requires
        w.len() > 0,
        !is_ws(w[0]),
        !is_ws(w.last()),
        forall|i: int| 0 <= i < w.len() ==> !('A' <= #[trigger] w[i] && w[i] <= 'Z'),
    ensures
        trim(w) == w,
        lower(trim(w)) == w,
{
    assert(lower(w) =~= w);
}

/// Parsing the name of a backend gives that backend back.
pub proof fn law_backend_name_round_trip(k: BackendKind)
    ensures
        BackendKind::parse_spec(k.name()) == Some(k),
{
    reveal_strlit("hyprland");
    reveal_strlit("wayland");
    reveal_strlit("x11");
    reveal_strlit("desktop");
    lemma_plain_word(k.name());
}

/// Parsing the name of a scaling mode gives that mode back.
pub proof fn law_scaling_name_round_trip(m: ScalingMode)
    ensures
        ScalingMode::parse_spec(m.name()) == Some(m),
{
    reveal_strlit("fill");
    reveal_strlit("fit");
    reveal_strlit("center");
    lemma_plain_word(m.name());
}

/// Parsing the name of a transition mode gives that mode back.
pub proof fn law_transition_name_round_trip(m: TransitionMode)
    ensures
        TransitionMode::parse_spec(m.name()) == Some(m),
{
    reveal_strlit("none");
    reveal_strlit("fade");
    lemma_plain_word(m.name());
}

/// Parsing the name of a loop mode gives that mode back.
pub proof fn law_loop_name_round_trip(m: LoopMode)
    ensures
        LoopMode::parse_spec(m.name()) == Some(m),
{
    reveal_strlit("infinite");
    reveal_strlit("once");
    lemma_plain_word(m.name());
}

/// A chosen backend other than the desktop fallback is always one that the session
/// offers, and a preferred backend that the session offers is always the one chosen.
pub proof fn law_chosen_backend_is_offered(
    env: RuntimeEnvironment,
    preferred: Seq<char>,
    k: BackendKind,
)
    ensures
        env.chosen(Some(preferred)) != BackendKind::Desktop ==> env.offers(
            env.chosen(Some(preferred)),
        ),
        env.chosen(None) != BackendKind::Desktop ==> env.offers(env.chosen(None)),
        BackendKind::parse_spec(preferred) == Some(k) && env.offers(k) ==> env.chosen(
            Some(preferred),
        ) == k,
{
}

/// Without a usable preference, Hyprland wins over generic Wayland, which wins over X11.
pub proof fn law_detection_priority(env: RuntimeEnvironment)
    ensures
        env.hyprland_session() ==> env.chosen(None) == BackendKind::Hyprland,
        !env.hyprland_session() && env.wayland_session() ==> env.chosen(None)
            == BackendKind::Wayland,
        !env.hyprland_session() && !env.wayland_session() && env.x11_session() ==> env.chosen(
            None,
        ) == BackendKind::X11,
{
}

/// Without a preference, a session is Hyprland when `HYPRLAND_INSTANCE_SIGNATURE` is set
/// or `DESKTOP_SESSION` or `XDG_CURRENT_DESKTOP` is `hyprland` in any ASCII case; else
/// Wayland when `WAYLAND_DISPLAY` is set; else X11 when `DISPLAY` is set; else the desktop
/// fallback. A live wallpaper under Hyprland needs both `WAYLAND_DISPLAY` and the instance
/// signature.
pub proof fn law_detection_from_variables(env: RuntimeEnvironment)
    ensures
        ({
            let hypr = env.hyprland_instance_signature is Some || (env.desktop_session matches Some(
                d,
            ) && lower(d@) == lower("hyprland"@)) || (env.current_desktop matches Some(c) && lower(
                c@,
            ) == lower("hyprland"@));
            env.chosen(None) == (if hypr {
                BackendKind::Hyprland
            } else if env.wayland_display is Some {
                BackendKind::Wayland
            } else if env.display is Some {
                BackendKind::X11
            } else {
                BackendKind::Desktop
            })
        }),
        env.live_ready(BackendKind::Hyprland) == (env.wayland_display is Some
            && env.hyprland_instance_signature is Some),
        env.live_ready(BackendKind::X11) == env.display is Some,
{
}

} // verus!
