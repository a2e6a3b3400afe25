//! Daemon status, wallpaper assignment, and the plans of the commands that apply
//! wallpapers.
use vstd::prelude::*;

use crate::backend::{
    HyprlandBackend, RuntimeEnvironment, WallpaperBackend, WallpaperModel,
    WallpaperSpec,
};
use crate::config::{
    law_config_round_trip, parse_config_spec, render_spec, storable, storable_wallpaper,
    wallpaper_models, AppConfig, ConfigModel,
};
use crate::state::RestorePolicy;
use crate::text::{first_where, lemma_first_where, str_eq};

verus! {

/// The status the daemon reports.
#[derive(Debug, Clone, PartialEq, Eq)]
pub struct DaemonStatus {
    phase: String,
}

impl DaemonStatus {
    pub closed spec fn phase_view(&self) -> Seq<char> {
        self.phase@
    }

    pub fn planned() -> (s: DaemonStatus)
        ensures
            s.phase_view() == "ready"@,
    {
        DaemonStatus { phase: String::from_str("ready") }
    }

    pub fn summary(&self) -> (s: &str)
        ensures
            s@ == self.phase_view(),
    {
        self.phase.as_str()
    }

    /// One line describing how wallpapers are restored at boot.
    pub fn boot_summary(config: &AppConfig) -> (s: String)
        ensures
            s@ == "backend="@ + "hyprland"@ + ", target_family="@ + config.target_family@
                + ", restore_on_login="@ + (if config.restore_on_login {
                "true"@
            } else {
                "false"@
            }) + ", restore_policy="@ + "last-known-good"@,
    {
        let mut s = String::from_str("backend=");
        s.append(HyprlandBackend.kind().as_str());
        s.append(", target_family=");
        s.append(config.target_family);
        s.append(", restore_on_login=");
        s.append(if config.restore_on_login {
            "true"
        } else {
            "false"
        });
        s.append(", restore_policy=");
        let p: RestorePolicy = RestorePolicy::LastKnownGood;
        s.append(p.as_str());
        s
    }
}

/// Which helper programs are installed.
#[derive(Debug, Clone, PartialEq, Eq)]
pub struct DependencyStatus {
    pub hyprctl: bool,
    pub swww: bool,
    pub awww: bool,
    pub mpvpaper: bool,
    pub wal: bool,
    pub pkill: bool,
}

pub open spec fn yes_no_spec(b: bool) -> Seq<char> {
    if b {
        "yes"@
    } else {
        "no"@
    }
}

pub fn yes_no(value: bool) -> (s: &'static str)
    ensures
        s@ == yes_no_spec(value),
{
    if value {
        "yes"
    } else {
        "no"
    }
}

fn labelled(label: &str, value: bool) -> (s: String)
    ensures
        s@ == label@ + "="@ + yes_no_spec(value),
{
    let mut s = String::from_str(label);
    s.append("=");
    s.append(yes_no(value));
    s
}

impl DependencyStatus {
    /// One `name=yes|no` line per helper program.
    pub fn summary_lines(&self) -> (lines: Vec<String>)
        ensures
            lines@.len() == 6,
            lines@[0]@ == "hyprctl"@ + "="@ + yes_no_spec(self.hyprctl),
            lines@[1]@ == "swww"@ + "="@ + yes_no_spec(self.swww),
            lines@[2]@ == "awww"@ + "="@ + yes_no_spec(self.awww),
            lines@[3]@ == "mpvpaper"@ + "="@ + yes_no_spec(self.mpvpaper),
            lines@[4]@ == "wal"@ + "="@ + yes_no_spec(self.wal),
            lines@[5]@ == "pkill"@ + "="@ + yes_no_spec(self.pkill),
    {
        let mut lines: Vec<String> = Vec::new();
        lines.push(labelled("hyprctl", self.hyprctl));
        lines.push(labelled("swww", self.swww));
        lines.push(labelled("awww", self.awww));
        lines.push(labelled("mpvpaper", self.mpvpaper));
        lines.push(labelled("wal", self.wal));
        lines.push(labelled("pkill", self.pkill));
        lines
    }
}

/// What `status` and `doctor` report about the running system.
#[derive(Debug, Clone, PartialEq, Eq)]
pub struct RuntimeStatus {
    pub config_path: String,
    pub state_path: String,
    pub environment: RuntimeEnvironment,
    pub dependencies: DependencyStatus,
    pub configured_wallpapers: usize,
}

/// The test for a wallpaper of `output`.
pub open spec fn for_output(output: Seq<char>) -> spec_fn(WallpaperModel) -> bool {
    |w: WallpaperModel| w.output == output
}

/// Position of the first wallpaper for `output`, or -1.
pub open spec fn find_output(ws: Seq<WallpaperModel>, output: Seq<char>) -> int {
    first_where(ws, for_output(output))
}

pub proof fn lemma_find_output(ws: Seq<WallpaperModel>, output: Seq<char>)
    ensures
        -1 <= find_output(ws, output) < ws.len(),
        find_output(ws, output) >= 0 ==> ws[find_output(ws, output)].output == output,
        forall|j: int| 0 <= j < find_output(ws, output) ==> ws[j].output != output,
        find_output(ws, output) < 0 ==> forall|j: int|
            0 <= j < ws.len() ==> ws[j].output != output,
{
    let p = for_output(output);
    lemma_first_where(ws, p);
    assert forall|j: int| 0 <= j < find_output(ws, output) implies ws[j].output != output by {
        assert(!p(ws[j]));
    }
    if find_output(ws, output) < 0 {
        assert forall|j: int| 0 <= j < ws.len() implies ws[j].output != output by {
            assert(!p(ws[j]));
        }
    }
}

proof fn lemma_find_output_at(ws: Seq<WallpaperModel>, output: Seq<char>, k: int)
    requires
        0 <= k < ws.len(),
        ws[k].output == output,
        forall|j: int| 0 <= j < k ==> ws[j].output != output,
    ensures
        find_output(ws, output) == k,
{
    lemma_find_output(ws, output);
}

/// The wallpaper assigned to an output: the first entry for it.
pub open spec fn wallpaper_for(ws: Seq<WallpaperModel>, output: Seq<char>) -> Option<
    WallpaperModel,
> {
    let i = find_output(ws, output);
    if 0 <= i < ws.len() {
        Some(ws[i])
    } else {
        None
    }
}

/// The wallpapers after assigning `w`: it replaces the first entry for its output, or is
/// added at the end.
pub open spec fn upsert_spec(ws: Seq<WallpaperModel>, w: WallpaperModel) -> Seq<WallpaperModel> {
    let i = find_output(ws, w.output);
    if 0 <= i < ws.len() {
        ws.update(i, w)
    } else {
        ws.push(w)
    }
}

/// Assigns a wallpaper to its output, replacing the output's first entry if it has one.
pub fn upsert_wallpaper(config: &mut AppConfig, spec: WallpaperSpec)
    ensures
        final(config)@.wallpapers == upsert_spec(old(config)@.wallpapers, spec@),
        final(config).target_family == old(config).target_family,
        final(config).preferred_backend == old(config).preferred_backend,
        final(config).restore_on_login == old(config).restore_on_login,
        final(config).library_dir == old(config).library_dir,
{
    let ghost ws = old(config)@.wallpapers;
    let mut i: usize = 0;
    while i < config.wallpapers.len()
        invariant
            ws == wallpaper_models(config.wallpapers@),
            config.wallpapers.len() == ws.len(),
            i <= config.wallpapers.len(),
            forall|j: int| 0 <= j < i ==> ws[j].output != spec@.output,
            *config == *old(config),
        decreases config.wallpapers.len() - i,
    {
        if config.wallpapers[i].output == spec.output {
            proof {
                lemma_find_output_at(ws, spec@.output, i as int);
            }
            let ghost w = spec@;
            config.wallpapers.set(i, spec);
            assert(wallpaper_models(config.wallpapers@) =~= ws.update(i as int, w));
            return;
        }
        i = i + 1;
    }
    proof {
        lemma_find_output(ws, spec@.output);
    }
    let ghost w = spec@;
    config.wallpapers.push(spec);
    assert(wallpaper_models(config.wallpapers@) =~= ws.push(w));
}

/// Assigning a wallpaper makes it the wallpaper of its output and leaves every other
/// output's wallpaper as it was; assigning it again changes nothing more.
pub proof fn law_upsert_assigns(ws: Seq<WallpaperModel>, w: WallpaperModel, other: Seq<char>)
    requires
        other != w.output,
    ensures
        wallpaper_for(upsert_spec(ws, w), w.output) == Some(w),
        wallpaper_for(upsert_spec(ws, w), other) == wallpaper_for(ws, other),
        upsert_spec(upsert_spec(ws, w), w) == upsert_spec(ws, w),
{
    lemma_find_output(ws, w.output);
    lemma_find_output(ws, other);
    let u = upsert_spec(ws, w);
    let i = find_output(ws, w.output);
    if 0 <= i < ws.len() {
        lemma_find_output_at(u, w.output, i);
        let k = find_output(ws, other);
        if k >= 0 {
            assert(k != i);
            lemma_find_output_at(u, other, k);
        } else {
            lemma_find_output(u, other);
            assert forall|j: int| 0 <= j < u.len() implies u[j].output != other by {
                if j != i {
                    assert(u[j] == ws[j]);
                }
            }
            lemma_find_output(u, other);
            if find_output(u, other) >= 0 {
                assert(u[find_output(u, other)].output == other);
            }
        }
        assert(u.update(i, w) =~= u);
    } else {
        lemma_find_output_at(u, w.output, ws.len() as int);
        let k = find_output(ws, other);
        if k >= 0 {
            lemma_find_output_at(u, other, k);
        } else {
            lemma_find_output(u, other);
            if find_output(u, other) >= 0 {
                assert(u[find_output(u, other)].output == other);
            }
        }
        assert(u.update(ws.len() as int, w) =~= u);
    }
}

/// A configuration with a wallpaper assigned.
pub open spec fn with_assignment(c: ConfigModel, w: WallpaperModel) -> ConfigModel {
    ConfigModel { wallpapers: upsert_spec(c.wallpapers, w), ..c }
}

/// Assigning a wallpaper that the configuration file can hold, then saving the
/// configuration and reading it back, gives the configuration with that assignment, in
/// which the output's wallpaper is the one assigned.
pub proof fn law_assignment_survives_saving(c: ConfigModel, w: WallpaperModel, library_dir: Seq<char>)
    requires
        storable(c),
        storable_wallpaper(w),
    ensures
        parse_config_spec(render_spec(with_assignment(c, w)), library_dir) == Ok::<
            ConfigModel,
            Seq<char>,
        >(with_assignment(c, w)),
        wallpaper_for(with_assignment(c, w).wallpapers, w.output) == Some(w),
{
    let u = upsert_spec(c.wallpapers, w);
    lemma_find_output(c.wallpapers, w.output);
    assert forall|i: int| 0 <= i < u.len() implies storable_wallpaper(#[trigger] u[i]) by {
        if u[i] != w {
            assert(storable_wallpaper(c.wallpapers[i]));
        }
    }
    law_config_round_trip(with_assignment(c, w), library_dir);
    law_upsert_assigns(c.wallpapers, w, w.output.push('x'));
}

/// The wallpapers that remain after removing every entry for `output`.
pub open spec fn remove_output_spec(ws: Seq<WallpaperModel>, output: Seq<char>) -> Seq<
    WallpaperModel,
>
    decreases ws.len(),
{
    if ws.len() == 0 {
        seq![]
    } else {
        (if ws[0].output != output {
            seq![ws[0]]
        } else {
            seq![]
        }) + remove_output_spec(ws.drop_first(), output)
    }
}

/// Removes every entry for `output` and returns how many were removed.
pub fn remove_output(config: &mut AppConfig, output: &str) -> (removed: usize)
    ensures
        final(config)@.wallpapers == remove_output_spec(old(config)@.wallpapers, output@),
        removed == old(config)@.wallpapers.len() - final(config)@.wallpapers.len(),
        final(config).target_family == old(config).target_family,
        final(config).preferred_backend == old(config).preferred_backend,
        final(config).restore_on_login == old(config).restore_on_login,
        final(config).library_dir == old(config).library_dir,
{
    let ghost ws = old(config)@.wallpapers;
    let mut rest: Vec<WallpaperSpec> = Vec::new();
    std::mem::swap(&mut rest, &mut config.wallpapers);
    let before = rest.len();
    let mut kept: Vec<WallpaperSpec> = Vec::new();
    assert(wallpaper_models(kept@) =~= Seq::<WallpaperModel>::empty());
    while rest.len() > 0
        invariant
            remove_output_spec(ws, output@) == wallpaper_models(kept@) + remove_output_spec(
                wallpaper_models(rest@),
                output@,
            ),
            kept.len() + rest.len() <= before,
            before == ws.len(),
        decreases rest.len(),
    {
        let ghost rv = wallpaper_models(rest@);
        let w = rest.remove(0);
        assert(wallpaper_models(rest@) =~= rv.drop_first());
        assert(w@ == rv[0]);
        if !str_eq(w.output.as_str(), output) {
            let ghost before_kept = kept@;
            kept.push(w);
            assert(wallpaper_models(kept@) =~= wallpaper_models(before_kept).push(rv[0]));
            assert(wallpaper_models(kept@) + remove_output_spec(wallpaper_models(rest@), output@)
                =~= wallpaper_models(before_kept) + remove_output_spec(rv, output@));
        } else {
            assert(remove_output_spec(rv, output@) =~= remove_output_spec(
                wallpaper_models(rest@),
                output@,
            ));
        }
    }
    assert(remove_output_spec(wallpaper_models(rest@), output@) =~= Seq::<WallpaperModel>::empty());
    assert(wallpaper_models(kept@) =~= remove_output_spec(ws, output@));
    let n = kept.len();
    config.wallpapers = kept;
    proof {
        lemma_remove_output_len(ws, output@);
    }
    before - n
}

proof fn lemma_remove_output_len(ws: Seq<WallpaperModel>, output: Seq<char>)
    ensures
        remove_output_spec(ws, output).len() <= ws.len(),
    decreases ws.len(),
{
    if ws.len() > 0 {
        lemma_remove_output_len(ws.drop_first(), output);
    }
}

/// After removing an output's entries it has no wallpaper, and every entry that remains
/// was there before.
pub proof fn law_remove_output_clears(ws: Seq<WallpaperModel>, output: Seq<char>)
    ensures
        wallpaper_for(remove_output_spec(ws, output), output) is None,
        forall|j: int|
            0 <= j < remove_output_spec(ws, output).len() ==> ws.contains(
                #[trigger] remove_output_spec(ws, output)[j],
            ),
    decreases ws.len(),
{
    let r = remove_output_spec(ws, output);
    if ws.len() > 0 {
        law_remove_output_clears(ws.drop_first(), output);
        let t = remove_output_spec(ws.drop_first(), output);
        lemma_find_output(t, output);
        lemma_find_output(r, output);
        assert forall|j: int| 0 <= j < r.len() implies r[j].output != output && ws.contains(
            #[trigger] r[j],
        ) by {
            if ws[0].output != output {
                if j == 0 {
                    assert(r[0] == ws[0]);
                } else {
                    assert(r[j] == t[j - 1]);
                    let k = choose|k: int| 0 <= k < ws.drop_first().len() && ws.drop_first()[k] == t[j - 1];
                    assert(ws[k + 1] == t[j - 1]);
                }
            } else {
                assert(r =~= t);
                let k = choose|k: int| 0 <= k < ws.drop_first().len() && ws.drop_first()[k] == t[j];
                assert(ws[k + 1] == t[j]);
            }
        }
        if find_output(r, output) >= 0 {
            assert(r[find_output(r, output)].output == output);
        }
    } else {
        lemma_find_output(r, output);
    }
}

/// Assigning a wallpaper to an output that already has one replaces that output's first
/// entry where it stands, leaving every other entry and the order as they were.
pub proof fn law_upsert_replaces_in_place(ws: Seq<WallpaperModel>, w: WallpaperModel, k: int)
    requires
        0 <= k < ws.len(),
        ws[k].output == w.output,
        forall|j: int| 0 <= j < k ==> ws[j].output != w.output,
    ensures
        upsert_spec(ws, w).len() == ws.len(),
        upsert_spec(ws, w)[k] == w,
        forall|j: int| 0 <= j < ws.len() && j != k ==> upsert_spec(ws, w)[j] == ws[j],
{
    lemma_find_output_at(ws, w.output, k);
}

/// Assigning a wallpaper to an output without one appends it after every existing entry,
/// which stay as they were and in order.
pub proof fn law_upsert_appends_new_output(ws: Seq<WallpaperModel>, w: WallpaperModel)
    requires
        forall|j: int| 0 <= j < ws.len() ==> ws[j].output != w.output,
    ensures
        upsert_spec(ws, w).len() == ws.len() + 1,
        upsert_spec(ws, w)[ws.len() as int] == w,
        forall|j: int| 0 <= j < ws.len() ==> upsert_spec(ws, w)[j] == ws[j],
{
    lemma_find_output(ws, w.output);
}

/// The test for a wallpaper of an output other than `output`.
pub open spec fn not_for_output(output: Seq<char>) -> spec_fn(WallpaperModel) -> bool {
    |w: WallpaperModel| w.output != output
}

proof fn lemma_filter_single(w: WallpaperModel, p: spec_fn(WallpaperModel) -> bool)
    ensures
        seq![w].filter(p) == (if p(w) {
            seq![w]
        } else {
            Seq::<WallpaperModel>::empty()
        }),
{
    reveal_with_fuel(Seq::filter, 2);
    assert(seq![w].drop_last() =~= Seq::<WallpaperModel>::empty());
    assert(seq![w].last() == w);
    if p(w) {
        assert(Seq::<WallpaperModel>::empty().push(w) =~= seq![w]);
    }
}

/// Removing an output keeps exactly the entries of every other output, in their order,
/// and the number removed is the number of entries for that output.
pub proof fn law_remove_output_keeps_others(ws: Seq<WallpaperModel>, output: Seq<char>)
    ensures
        remove_output_spec(ws, output) == ws.filter(not_for_output(output)),
        ws.len() - remove_output_spec(ws, output).len() == ws.filter(for_output(output)).len(),
    decreases ws.len(),
{
    let keep = not_for_output(output);
    let drop = for_output(output);
    if ws.len() == 0 {
        reveal_with_fuel(Seq::filter, 1);
        assert(remove_output_spec(ws, output) =~= ws.filter(keep));
    } else {
        let rest = ws.drop_first();
        law_remove_output_keeps_others(rest, output);
        assert(ws =~= seq![ws[0]] + rest);
        Seq::filter_distributes_over_add(seq![ws[0]], rest, keep);
        Seq::filter_distributes_over_add(seq![ws[0]], rest, drop);
        lemma_filter_single(ws[0], keep);
        lemma_filter_single(ws[0], drop);
        if ws[0].output != output {
            assert(remove_output_spec(ws, output) =~= seq![ws[0]] + remove_output_spec(rest, output));
            assert(ws.filter(drop) =~= rest.filter(drop));
        } else {
            assert(remove_output_spec(ws, output) =~= remove_output_spec(rest, output));
            assert(ws.filter(keep) =~= rest.filter(keep));
            assert(ws.filter(drop) =~= seq![ws[0]] + rest.filter(drop));
        }
        lemma_remove_output_len(rest, output);
    }
}

} // verus!
