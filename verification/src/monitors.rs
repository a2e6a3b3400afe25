//! Output discovery: reading the reports of `hyprctl monitors` and `awww query`.
use vstd::prelude::*;

use crate::failure::{Failure, FailureKind};
use crate::text::{
    chars_of, find_in, is_whitespace, is_ws, line_ranges, lines_of, range_is, range_string,
    ranges_hold, split_once, trim, trim_bounds, trim_start,
};

verus! {

/// A monitor that Hyprland reports.
#[derive(Debug, Clone, PartialEq, Eq)]
pub struct HyprlandMonitor {
    pub name: String,
    pub description: String,
}

impl View for HyprlandMonitor {
    type V = (Seq<char>, Seq<char>);

    open spec fn view(&self) -> (Seq<char>, Seq<char>) {
        (self.name@, self.description@)
    }
}

/// Whether `s` starts with `p`.
pub open spec fn starts_with(s: Seq<char>, p: Seq<char>) -> bool {
    s.len() >= p.len() && s.take(p.len() as int) == p
}

/// The length of the run of non-white-space characters at the start of `s`.
pub open spec fn word_len(s: Seq<char>) -> nat
    decreases s.len(),
{
    if s.len() > 0 && !is_ws(s[0]) {
        1 + word_len(s.drop_first())
    } else {
        0
    }
}

/// The first white-space-separated word of `s`, or empty text when there is none.
pub open spec fn first_word(s: Seq<char>) -> Seq<char> {
    let r = trim_start(s);
    r.take(word_len(r) as int)
}

/// What has been read of a monitor report: the finished monitors, and the name and
/// description of the monitor being read.
pub type MonitorScan = (Seq<(Seq<char>, Seq<char>)>, Option<Seq<char>>, Option<Seq<char>>);

pub open spec fn desc_or_empty(d: Option<Seq<char>>) -> Seq<char> {
    match d {
        Some(x) => x,
        None => seq![],
    }
}

/// The monitors finished so far, with the one being read closed off.
pub open spec fn close_monitor(st: MonitorScan) -> Seq<(Seq<char>, Seq<char>)> {
    match st.1 {
        Some(n) => st.0.push((n, desc_or_empty(st.2))),
        None => st.0,
    }
}

/// The effect of one report line: `Monitor NAME ...` starts a monitor, `description: TEXT`
/// describes the current one, anything else is ignored.
pub open spec fn monitor_step(st: MonitorScan, line: Seq<char>) -> MonitorScan {
    let t = trim(line);
    if starts_with(t, "Monitor "@) {
        (close_monitor(st), Some(first_word(t.skip(8))), None)
    } else if starts_with(t, "description:"@) {
        (st.0, st.1, Some(trim(t.skip(12))))
    } else {
        st
    }
}

pub open spec fn monitor_scan(st: MonitorScan, lines: Seq<Seq<char>>, i: nat) -> MonitorScan
    decreases lines.len() - i,
{
    if i >= lines.len() {
        st
    } else {
        monitor_scan(monitor_step(st, lines[i as int]), lines, i + 1)
    }
}

/// The monitors a `hyprctl monitors` report lists, with their descriptions.
pub open spec fn monitors_spec(report: Seq<char>) -> Seq<(Seq<char>, Seq<char>)> {
    close_monitor(monitor_scan((seq![], None, None), lines_of(report), 0))
}

pub open spec fn monitor_views(ms: Seq<HyprlandMonitor>) -> Seq<(Seq<char>, Seq<char>)> {
    ms.map_values(|m: HyprlandMonitor| m@)
}

/// Bounds of the first word in `cs[lo..hi]`.
fn first_word_bounds(cs: &Vec<char>, lo: usize, hi: usize) -> (r: (usize, usize))
    requires
        lo <= hi <= cs.len(),
    ensures
        lo <= r.0 <= r.1 <= hi,
        cs@.subrange(r.0 as int, r.1 as int) == first_word(cs@.subrange(lo as int, hi as int)),
{
    let mut a = lo;
    while a < hi && is_whitespace(cs[a])
        invariant
            lo <= a <= hi <= cs.len(),
            trim_start(cs@.subrange(lo as int, hi as int)) == trim_start(
                cs@.subrange(a as int, hi as int),
            ),
        decreases hi - a,
    {
        assert(cs@.subrange(a as int, hi as int).drop_first() =~= cs@.subrange(
            a + 1,
            hi as int,
        ));
        a = a + 1;
    }
    let ghost r = cs@.subrange(a as int, hi as int);
    assert(trim_start(r) == r);
    let mut b = a;
    while b < hi && !is_whitespace(cs[b])
        invariant
            lo <= a <= b <= hi <= cs.len(),
            r == cs@.subrange(a as int, hi as int),
            word_len(r) == (b - a) + word_len(cs@.subrange(b as int, hi as int)),
        decreases hi - b,
    {
        assert(cs@.subrange(b as int, hi as int).drop_first() =~= cs@.subrange(
            b + 1,
            hi as int,
        ));
        b = b + 1;
    }
    assert(r.take(word_len(r) as int) =~= cs@.subrange(a as int, b as int));
    (a, b)
}

/// Whether `cs[lo..hi]` starts with `p`.
fn range_starts_with(cs: &Vec<char>, lo: usize, hi: usize, p: &str) -> (b: bool)
    requires
        lo <= hi <= cs.len(),
    ensures
        b == starts_with(cs@.subrange(lo as int, hi as int), p@),
{
    let n = p.unicode_len();
    if hi - lo < n {
        return false;
    }
    let r = range_is(cs, lo, lo + n, p);
    assert(cs@.subrange(lo as int, hi as int).take(n as int) =~= cs@.subrange(
        lo as int,
        lo + n,
    ));
    r
}

/// A monitor report being read.
struct MonitorScanner {
    monitors: Vec<HyprlandMonitor>,
    name: Option<String>,
    desc: Option<String>,
}

pub open spec fn opt_string_view(o: Option<String>) -> Option<Seq<char>> {
    match o {
        Some(s) => Some(s@),
        None => None,
    }
}

impl MonitorScanner {
    spec fn scan_view(&self) -> MonitorScan {
        (monitor_views(self.monitors@), opt_string_view(self.name), opt_string_view(self.desc))
    }

    /// Closes off the monitor being read.
    fn close(&mut self)
        ensures
            monitor_views(final(self).monitors@) == close_monitor(old(self).scan_view()),
            final(self).name is None,
    {
        let ghost before = self.monitors@;
        match self.name.take() {
            Some(name) => {
                let description = match self.desc.take() {
                    Some(d) => d,
                    None => String::new(),
                };
                let m = HyprlandMonitor { name, description };
                self.monitors.push(m);
                assert(monitor_views(self.monitors@) =~= monitor_views(before).push(m@));
            },
            None => {},
        }
    }

    /// Reads the line `cs[lo..hi]`.
    fn step(&mut self, cs: &Vec<char>, lo: usize, hi: usize)
        requires
            lo <= hi <= cs.len(),
        ensures
            final(self).scan_view() == monitor_step(
                old(self).scan_view(),
                cs@.subrange(lo as int, hi as int),
            ),
    {
        proof {
            reveal_strlit("Monitor ");
            reveal_strlit("description:");
        }
        let (a, b) = trim_bounds(cs, lo, hi);
        let ghost t = cs@.subrange(a as int, b as int);
        if range_starts_with(cs, a, b, "Monitor ") {
            self.close();
            let (wa, wb) = first_word_bounds(cs, a + 8, b);
            assert(t.skip(8) =~= cs@.subrange(a + 8, b as int));
            self.name = Some(range_string(cs, wa, wb));
            self.desc = None;
        } else if range_starts_with(cs, a, b, "description:") {
            let (da, db) = trim_bounds(cs, a + 12, b);
            assert(t.skip(12) =~= cs@.subrange(a + 12, b as int));
            self.desc = Some(range_string(cs, da, db));
        }
    }
}

/// Reads the report of `hyprctl monitors`.
pub fn parse_monitors(report: &str) -> (ms: Vec<HyprlandMonitor>)
    ensures
        monitor_views(ms@) == monitors_spec(report@),
{
    let cs = chars_of(report);
    let lines = line_ranges(&cs);
    let ghost ls = lines_of(report@);
    let mut scanner = MonitorScanner { monitors: Vec::new(), name: None, desc: None };
    assert(monitor_views(scanner.monitors@) =~= Seq::<(Seq<char>, Seq<char>)>::empty());
    let mut i: usize = 0;
    while i < lines.len()
        invariant
            cs@ == report@,
            ls == lines_of(report@),
            ranges_hold(cs@, lines@, ls, 0, cs.len() as int),
            i <= lines.len(),
            monitors_spec(report@) == close_monitor(monitor_scan(scanner.scan_view(), ls, i as nat)),
        decreases lines.len() - i,
    {
        let (lo, hi) = lines[i];
        assert(lines[i as int] == lines@[i as int]);
        assert(cs@.subrange(lo as int, hi as int) == ls[i as int]);
        scanner.step(&cs, lo, hi);
        i = i + 1;
    }
    scanner.close();
    scanner.monitors
}

/// The output names an `awww query` report lists, from line `i` on: the trimmed text
/// before the first `:` of each line, when that is not empty.
pub open spec fn awww_from(lines: Seq<Seq<char>>, i: nat) -> Seq<Seq<char>>
    decreases lines.len() - i,
{
    if i >= lines.len() {
        seq![]
    } else {
        let rest = awww_from(lines, i + 1);
        match split_once(lines[i as int], ':') {
            Some((n, _)) => if trim(n).len() > 0 {
                seq![trim(n)] + rest
            } else {
                rest
            },
            None => rest,
        }
    }
}

pub open spec fn awww_outputs_spec(report: Seq<char>) -> Seq<Seq<char>> {
    awww_from(lines_of(report), 0)
}

pub open spec fn string_views(v: Seq<String>) -> Seq<Seq<char>> {
    v.map_values(|s: String| s@)
}

/// Reads the report of `awww query`.
pub fn parse_awww_outputs(report: &str) -> (out: Vec<String>)
    ensures
        string_views(out@) == awww_outputs_spec(report@),
{
    let cs = chars_of(report);
    let lines = line_ranges(&cs);
    let ghost ls = lines_of(report@);
    let mut out: Vec<String> = Vec::new();
    let mut i: usize = 0;
    assert(string_views(out@) =~= Seq::<Seq<char>>::empty());
    while i < lines.len()
        invariant
            cs@ == report@,
            ls == lines_of(report@),
            ranges_hold(cs@, lines@, ls, 0, cs.len() as int),
            i <= lines.len(),
            awww_outputs_spec(report@) == string_views(out@) + awww_from(ls, i as nat),
        decreases lines.len() - i,
    {
        let (lo, hi) = lines[i];
        assert(lines[i as int] == lines@[i as int]);
        let ghost line = cs@.subrange(lo as int, hi as int);
        assert(line == ls[i as int]);
        if let Some(k) = find_in(&cs, lo, hi, ':') {
            assert(line.take(k - lo) =~= cs@.subrange(lo as int, k as int));
            let (a, b) = trim_bounds(&cs, lo, k);
            if a < b {
                let ghost before = out@;
                out.push(range_string(&cs, a, b));
                assert(string_views(out@) =~= string_views(before).push(out@.last()@));
                assert(string_views(before) + (seq![out@.last()@] + awww_from(ls, (i + 1) as nat))
                    =~= string_views(out@) + awww_from(ls, (i + 1) as nat));
            }
        }
        i = i + 1;
    }
    assert(awww_from(ls, i as nat) =~= Seq::<Seq<char>>::empty());
    assert(string_views(out@) + Seq::<Seq<char>>::empty() =~= string_views(out@));
    out
}

/// The names of the monitors, in order.
pub fn monitor_names(ms: &Vec<HyprlandMonitor>) -> (names: Vec<String>)
    ensures
        string_views(names@) == monitor_views(ms@).map_values(
            |m: (Seq<char>, Seq<char>)| m.0,
        ),
{
    let mut names: Vec<String> = Vec::new();
    let mut i: usize = 0;
    while i < ms.len()
        invariant
            i <= ms.len(),
            string_views(names@) == monitor_views(ms@).map_values(
                |m: (Seq<char>, Seq<char>)| m.0,
            ).take(i as int),
        decreases ms.len() - i,
    {
        let ghost before = names@;
        let n = ms[i].name.clone();
        assert(n@ == monitor_views(ms@)[i as int].0);
        names.push(n);
        assert(string_views(names@) =~= string_views(before).push(n@));
        assert(string_views(names@) =~= monitor_views(ms@).map_values(
            |m: (Seq<char>, Seq<char>)| m.0,
        ).take(i + 1));
        i = i + 1;
    }
    assert(monitor_views(ms@).map_values(|m: (Seq<char>, Seq<char>)| m.0).take(i as int)
        =~= monitor_views(ms@).map_values(|m: (Seq<char>, Seq<char>)| m.0));
    names
}

/// The outputs that Hyprland's monitor listing settles, or `None` when the listing failed
/// or was empty and another discovery method must be tried.
pub fn outputs_from_monitors(listing: &Result<Vec<HyprlandMonitor>, Failure>) -> (r: Option<
    Vec<String>,
>)
    ensures
        match listing {
            Ok(ms) => if ms@.len() > 0 {
                r matches Some(names) && string_views(names@) == monitor_views(ms@).map_values(
                    |m: (Seq<char>, Seq<char>)| m.0,
                )
            } else {
                r is None
            },
            Err(_) => r is None,
        },
{
    match listing {
        Ok(ms) => {
            if ms.len() > 0 {
                Some(monitor_names(ms))
            } else {
                None
            }
        },
        Err(_) => None,
    }
}

/// The failure reported when a discovery command exits unsuccessfully: its trimmed error
/// output, as an error of the `Other` kind.
pub fn command_failure(stderr: &str) -> (f: Failure)
    ensures
        f@ == (FailureKind::Other, trim(stderr@)),
{
    let cs = chars_of(stderr);
    let (a, b) = trim_bounds(&cs, 0, cs.len());
    assert(cs@.subrange(0, cs.len() as int) =~= stderr@);
    Failure::new(FailureKind::Other, range_string(&cs, a, b))
}

/// The failure when no output discovery command is installed.
pub fn no_discovery_failure() -> (f: Failure)
    ensures
        f@ == (FailureKind::Other, "no output discovery backend available"@),
{
    Failure::with_text(FailureKind::Other, "no output discovery backend available")
}

} // verus!
