//! The record of the last applied wallpaper set.
use vstd::prelude::*;

use crate::backend::{WallpaperModel, WallpaperSpec};
use crate::config::{
    lemma_wallpaper_line_reads, parse_wallpaper_in, parse_wallpaper_spec, push_line,
    storable_text, storable_wallpaper, wallpaper_line, wallpaper_models, wallpaper_text,
};
use crate::text::{
    append_decimal, chars_of, dec, find_in, is_digit, join_lines, lemma_dec_digits, lemma_dec_parses,
    lemma_join_push,
    lemma_key_line, lemma_lines_of_join, lemma_trim_plain, lemma_trimmed_ends, line_ranges,
    line_safe, lines_of, parse_bounded, parse_unsigned, range_is, range_string, ranges_hold,
    split_once, trim, trim_bounds,
};

verus! {

/// Whether wallpapers are restored at login.
#[derive(Debug, Clone, Copy, PartialEq, Eq, Structural)]
pub enum RestorePolicy {
    Disabled,
    LastKnownGood,
}

impl Default for RestorePolicy {
    fn default() -> (p: RestorePolicy)
        ensures
            p == RestorePolicy::LastKnownGood,
    {
        RestorePolicy::LastKnownGood
    }
}

impl RestorePolicy {
    pub open spec fn name(self) -> Seq<char> {
        match self {
            RestorePolicy::Disabled => "disabled"@,
            RestorePolicy::LastKnownGood => "last-known-good"@,
        }
    }

    pub fn as_str(self) -> (s: &'static str)
        ensures
            s@ == self.name(),
    {
        match self {
            RestorePolicy::Disabled => "disabled",
            RestorePolicy::LastKnownGood => "last-known-good",
        }
    }
}

/// What was applied last: the backend's name, how many wallpapers were configured, and
/// the wallpapers themselves, which `apply --restore` replays.
#[derive(Debug, Clone, PartialEq, Eq)]
pub struct AppliedState {
    pub last_applied_backend: String,
    pub applied_items: usize,
    pub wallpapers: Vec<WallpaperSpec>,
}

/// The abstract content of an applied state.
pub struct StateModel {
    pub backend: Seq<char>,
    pub items: nat,
    pub wallpapers: Seq<WallpaperModel>,
}

impl View for AppliedState {
    type V = StateModel;

    open spec fn view(&self) -> StateModel {
        StateModel {
            backend: self.last_applied_backend@,
            items: self.applied_items as nat,
            wallpapers: wallpaper_models(self.wallpapers@),
        }
    }
}

/// The state read from an empty file.
pub open spec fn empty_state() -> StateModel {
    StateModel { backend: seq![], items: 0, wallpapers: seq![] }
}

/// The effect of one state line on the state read so far; a line that cannot be read is
/// ignored.
pub open spec fn state_step(acc: StateModel, line: Seq<char>) -> StateModel {
    let t = trim(line);
    if t.len() == 0 || t[0] == '#' {
        acc
    } else {
        match split_once(t, '=') {
            None => acc,
            Some((k, v)) => {
                let key = trim(k);
                if key == "last_applied_backend"@ {
                    StateModel { backend: trim(v), ..acc }
                } else if key == "applied_items"@ {
                    StateModel {
                        items: match parse_unsigned(trim(v), usize::MAX as nat) {
                            Some(n) => n,
                            None => 0,
                        },
                        ..acc
                    }
                } else if key == "wallpaper"@ {
                    match parse_wallpaper_spec(trim(v)) {
                        Ok(w) => StateModel { wallpapers: acc.wallpapers.push(w), ..acc },
                        Err(_) => acc,
                    }
                } else {
                    acc
                }
            },
        }
    }
}

pub open spec fn state_from(acc: StateModel, lines: Seq<Seq<char>>, i: nat) -> StateModel
    decreases lines.len() - i,
{
    if i >= lines.len() {
        acc
    } else {
        state_from(state_step(acc, lines[i as int]), lines, i + 1)
    }
}

/// The state a state file holds; unknown or unreadable lines are ignored, a missing
/// backend is empty, a missing or unreadable count is zero, and the wallpapers are those
/// of the readable `wallpaper=` lines, in order.
pub open spec fn parse_state_spec(raw: Seq<char>) -> StateModel {
    state_from(empty_state(), lines_of(raw), 0)
}

/// The lines a state is saved as: the backend, the count, then one `wallpaper=` line per
/// wallpaper in the format of the configuration file.
pub open spec fn state_lines(s: StateModel) -> Seq<Seq<char>> {
    seq!["last_applied_backend="@ + s.backend, "applied_items="@ + dec(s.items)]
        + s.wallpapers.map_values(|w: WallpaperModel| wallpaper_line(w))
}

pub open spec fn render_state_spec(s: StateModel) -> Seq<char> {
    join_lines(state_lines(s))
}

/// Copies wallpaper assignments.
pub fn copy_wallpapers(ws: &Vec<WallpaperSpec>) -> (r: Vec<WallpaperSpec>)
    ensures
        wallpaper_models(r@) == wallpaper_models(ws@),
{
    let mut r: Vec<WallpaperSpec> = Vec::new();
    let mut i: usize = 0;
    while i < ws.len()
        invariant
            i <= ws.len(),
            wallpaper_models(r@) == wallpaper_models(ws@.take(i as int)),
        decreases ws.len() - i,
    {
        let ghost before = r@;
        r.push(ws[i].duplicate());
        assert(wallpaper_models(r@) =~= wallpaper_models(before).push(ws@[i as int]@));
        assert(ws@.take(i + 1) =~= ws@.take(i as int).push(ws@[i as int]));
        assert(wallpaper_models(ws@.take(i + 1)) =~= wallpaper_models(ws@.take(i as int)).push(
            ws@[i as int]@,
        ));
        i = i + 1;
    }
    assert(ws@.take(i as int) =~= ws@);
    r
}

impl AppliedState {
    /// A state with no wallpaper snapshot.
    pub fn new(last_applied_backend: &str, applied_items: usize) -> (s: AppliedState)
        ensures
            s@ == (StateModel {
                backend: last_applied_backend@,
                items: applied_items as nat,
                wallpapers: seq![],
            }),
    {
        let s = AppliedState {
            last_applied_backend: String::from_str(last_applied_backend),
            applied_items,
            wallpapers: Vec::new(),
        };
        assert(s@.wallpapers =~= seq![]);
        s
    }

    /// The state after applying `wallpapers` through a backend: their count and a copy of
    /// them.
    pub fn snapshot(last_applied_backend: &str, wallpapers: &Vec<WallpaperSpec>) -> (s:
        AppliedState)
        ensures
            s@ == (StateModel {
                backend: last_applied_backend@,
                items: wallpapers@.len(),
                wallpapers: wallpaper_models(wallpapers@),
            }),
    {
        AppliedState {
            last_applied_backend: String::from_str(last_applied_backend),
            applied_items: wallpapers.len(),
            wallpapers: copy_wallpapers(wallpapers),
        }
    }

    /// Reads the text of a state file.
    #[verifier::spinoff_prover]
    pub fn parse(raw: &str) -> (s: AppliedState)
        ensures
            s@ == parse_state_spec(raw@),
    {
        let cs = chars_of(raw);
        let lines = line_ranges(&cs);
        let ghost ls = lines_of(raw@);
        let mut backend = String::new();
        let mut applied_items: usize = 0;
        let mut wallpapers: Vec<WallpaperSpec> = Vec::new();
        assert(wallpaper_models(wallpapers@) =~= Seq::<WallpaperModel>::empty());
        let mut i: usize = 0;
        while i < lines.len()
            invariant
                cs@ == raw@,
                ls == lines_of(raw@),
                ranges_hold(cs@, lines@, ls, 0, cs.len() as int),
                i <= lines.len(),
                parse_state_spec(raw@) == state_from(
                    StateModel {
                        backend: backend@,
                        items: applied_items as nat,
                        wallpapers: wallpaper_models(wallpapers@),
                    },
                    ls,
                    i as nat,
                ),
            decreases lines.len() - i,
        {
            let (lo, hi) = lines[i];
            assert(lines[i as int] == lines@[i as int]);
            let ghost line = ls[i as int];
            assert(cs@.subrange(lo as int, hi as int) == line);
            let (a, b) = trim_bounds(&cs, lo, hi);
            let ghost t = cs@.subrange(a as int, b as int);
            if a < b && cs[a] != '#' {
                if let Some(k) = find_in(&cs, a, b, '=') {
                    proof {
                        assert(t.take(k - a) =~= cs@.subrange(a as int, k as int));
                        assert(t.skip(k - a + 1) =~= cs@.subrange(k + 1, b as int));
                    }
                    let (ka, kb) = trim_bounds(&cs, a, k);
                    let (va, vb) = trim_bounds(&cs, k + 1, b);
                    if range_is(&cs, ka, kb, "last_applied_backend") {
                        backend = range_string(&cs, va, vb);
                    } else if range_is(&cs, ka, kb, "applied_items") {
                        applied_items =
                        match parse_bounded(&cs, va, vb, usize::MAX) {
                            Some(n) => n,
                            None => 0,
                        };
                    } else if range_is(&cs, ka, kb, "wallpaper") {
                        match parse_wallpaper_in(&cs, va, vb) {
                            Ok(w) => {
                                let ghost before = wallpapers@;
                                wallpapers.push(w);
                                assert(wallpaper_models(wallpapers@) =~= wallpaper_models(
                                    before,
                                ).push(w@));
                            },
                            Err(_) => {},
                        }
                    }
                }
            }
            i = i + 1;
        }
        AppliedState { last_applied_backend: backend, applied_items, wallpapers }
    }

    /// The text this state is saved as.
    pub fn render(&self) -> (s: String)
        ensures
            s@ == render_state_spec(self@),
    {
        let ghost ls = state_lines(self@);
        let ghost mut done: Seq<Seq<char>> = seq![];
        let mut out = String::new();
        let mut line = String::from_str("last_applied_backend=");
        line.append(self.last_applied_backend.as_str());
        push_line(&mut out, line.as_str(), Ghost(done));
        proof {
            done = done.push(line@);
        }
        let mut line = String::from_str("applied_items=");
        append_decimal(&mut line, self.applied_items);
        push_line(&mut out, line.as_str(), Ghost(done));
        proof {
            done = done.push(line@);
            assert(done =~= ls.take(2));
        }
        let mut i: usize = 0;
        while i < self.wallpapers.len()
            invariant
                ls == state_lines(self@),
                i <= self.wallpapers.len(),
                done == ls.take(2 + i),
                out@ == join_lines(done),
            decreases self.wallpapers.len() - i,
        {
            let line = wallpaper_text(&self.wallpapers[i]);
            push_line(&mut out, line.as_str(), Ghost(done));
            proof {
                assert(ls[2 + i] == wallpaper_line(self.wallpapers@[i as int]@));
                done = done.push(line@);
                assert(done =~= ls.take(2 + i + 1));
            }
            i = i + 1;
        }
        assert(done =~= ls);
        out
    }
}

/// A state that the state file can hold exactly: a backend name without white space at
/// its ends or newlines, a count that fits a `usize`, and storable wallpapers.
pub open spec fn storable_state(s: StateModel) -> bool {
    &&& storable_text(s.backend)
    &&& s.items <= usize::MAX
    &&& forall|i: int| 0 <= i < s.wallpapers.len() ==> storable_wallpaper(#[trigger] s.wallpapers[i])
}

/// The state read so far after the two fixed lines and `k` wallpaper lines.
pub open spec fn partial_state(s: StateModel, k: int) -> StateModel {
    StateModel { backend: s.backend, items: s.items, wallpapers: s.wallpapers.take(k) }
}

proof fn lemma_state_wallpapers_read(s: StateModel, k: int)
    requires
        storable_state(s),
        0 <= k <= s.wallpapers.len(),
    ensures
        state_from(partial_state(s, k), state_lines(s), (2 + k) as nat) == s,
    decreases s.wallpapers.len() - k,
{
    let ls = state_lines(s);
    if k == s.wallpapers.len() {
        assert(s.wallpapers.take(k) =~= s.wallpapers);
        assert(partial_state(s, k) == s);
    } else {
        reveal_strlit("last_applied_backend");
        reveal_strlit("applied_items");
        reveal_strlit("wallpaper");
        let w = s.wallpapers[k];
        assert(storable_wallpaper(w));
        assert(ls[2 + k] == wallpaper_line(w));
        lemma_wallpaper_line_reads(w);
        assert("wallpaper"@ != "last_applied_backend"@);
        assert("wallpaper"@ != "applied_items"@);
        assert(s.wallpapers.take(k).push(w) =~= s.wallpapers.take(k + 1));
        assert(state_step(partial_state(s, k), ls[2 + k]) == partial_state(s, k + 1));
        lemma_state_wallpapers_read(s, k + 1);
    }
}

/// What the state file says is read back exactly: parsing the saved text of a storable
/// state gives that state, its wallpaper snapshot included.
pub proof fn law_state_round_trip(s: StateModel)
    requires
        storable_state(s),
    ensures
        parse_state_spec(render_state_spec(s)) == s,
{
    reveal_strlit("last_applied_backend=");
    reveal_strlit("last_applied_backend");
    reveal_strlit("applied_items=");
    reveal_strlit("applied_items");
    let ls = state_lines(s);
    let b = s.backend;
    let d = dec(s.items);
    lemma_dec_parses(s.items, usize::MAX as nat);
    lemma_dec_digits(s.items);
    if b.len() > 0 {
        lemma_trimmed_ends(b);
    }
    assert(ls[0] =~= "last_applied_backend"@ + seq!['='] + b);
    assert(ls[1] =~= "applied_items"@ + seq!['='] + d);
    assert(line_safe(ls[0]));
    assert forall|i: int| 0 <= i < ls[1].len() implies ls[1][i] != '\n' by {
        if i >= 14 {
            assert(ls[1][i] == d[i - 14]);
            assert(is_digit(d[i - 14]));
        }
    }
    assert(ls[1].last() == d.last());
    assert(line_safe(ls[1]));
    assert forall|i: int| 0 <= i < ls.len() implies line_safe(#[trigger] ls[i]) by {
        if i >= 2 {
            let w = s.wallpapers[i - 2];
            assert(storable_wallpaper(w));
            assert(ls[i] == wallpaper_line(w));
            lemma_wallpaper_line_reads(w);
        }
    }
    lemma_lines_of_join(ls);
    lemma_key_line("last_applied_backend"@, b);
    lemma_key_line("applied_items"@, d);
    lemma_trim_plain(d);
    let e = empty_state();
    let s1 = StateModel { backend: b, ..e };
    let s2 = partial_state(s, 0);
    assert(s.wallpapers.take(0) =~= Seq::<WallpaperModel>::empty());
    assert(state_step(e, ls[0]) == s1);
    assert(state_step(s1, ls[1]) == s2);
    lemma_state_wallpapers_read(s, 0);
    assert(state_from(s1, ls, 1) == state_from(s2, ls, 2));
    assert(state_from(e, ls, 0) == state_from(s1, ls, 1));
    assert(lines_of(render_state_spec(s)) == ls);
}

} // verus!
