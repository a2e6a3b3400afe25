//! Command-line decisions: flags, commands, and the reports the commands print.
use vstd::prelude::*;

use crate::backend::{LoopMode, ScalingMode, TransitionMode, WallpaperKind, WallpaperSpec};
use crate::failure::Failure;
use crate::monitors::string_views;
use crate::text::{append_decimal, chars_of, dec, lower, lower_range_is, str_eq, trim, trim_bounds};

verus! {

/// The value after the first occurrence of `flag` that has a value after it, searching
/// from position `i`.
pub open spec fn flag_value_from(args: Seq<Seq<char>>, flag: Seq<char>, i: int) -> Option<Seq<char>>
    decreases args.len() - i,
{
    if i < 0 || i + 1 >= args.len() {
        None
    } else if args[i] == flag {
        Some(args[i + 1])
    } else {
        flag_value_from(args, flag, i + 1)
    }
}

/// The value given for a flag: the argument after its first occurrence that has one.
pub open spec fn flag_value(args: Seq<Seq<char>>, flag: Seq<char>) -> Option<Seq<char>> {
    flag_value_from(args, flag, 0)
}

/// Reads the value of a flag.
pub fn optional_flag(args: &Vec<String>, flag: &str) -> (r: Option<String>)
    ensures
        match r {
            Some(v) => flag_value(string_views(args@), flag@) == Some(v@),
            None => flag_value(string_views(args@), flag@) is None,
        },
{
    let ghost a = string_views(args@);
    let mut i: usize = 0;
    while args.len() > 0 && i < args.len() - 1
        invariant
            a == string_views(args@),
            flag_value(a, flag@) == flag_value_from(a, flag@, i as int),
        decreases args.len() - i,
    {
        if str_eq(args[i].as_str(), flag) {
            assert(a[i as int] == args@[i as int]@);
            assert(a[i + 1] == args@[i + 1]@);
            return Some(args[i + 1].clone());
        }
        assert(a[i as int] == args@[i as int]@);
        i = i + 1;
    }
    None
}

/// Reads the value of a flag that must be given.
pub fn required_flag(args: &Vec<String>, flag: &str) -> (r: Result<String, String>)
    ensures
        match r {
            Ok(v) => flag_value(string_views(args@), flag@) == Some(v@),
            Err(m) => flag_value(string_views(args@), flag@) is None && m@
                == "missing required flag: "@ + flag@,
        },
{
    match optional_flag(args, flag) {
        Some(v) => Ok(v),
        None => {
            let mut m = String::from_str("missing required flag: ");
            m.append(flag);
            Err(m)
        },
    }
}

pub open spec fn has_flag_spec(args: Seq<Seq<char>>, flag: Seq<char>) -> bool {
    exists|i: int| 0 <= i < args.len() && args[i] == flag
}

/// Whether a flag is given anywhere.
pub fn has_flag(args: &Vec<String>, flag: &str) -> (b: bool)
    ensures
        b == has_flag_spec(string_views(args@), flag@),
{
    let ghost a = string_views(args@);
    let mut i: usize = 0;
    while i < args.len()
        invariant
            a == string_views(args@),
            i <= args.len(),
            forall|j: int| 0 <= j < i ==> a[j] != flag@,
        decreases args.len() - i,
    {
        assert(a[i as int] == args@[i as int]@);
        if str_eq(args[i].as_str(), flag) {
            return true;
        }
        i = i + 1;
    }
    false
}

/// The yes/no answer a text gives, ignoring surrounding white space and ASCII case.
pub open spec fn yes_no_answer(input: Seq<char>) -> Option<bool> {
    let v = lower(trim(input));
    if v == "yes"@ || v == "true"@ || v == "1"@ {
        Some(true)
    } else if v == "no"@ || v == "false"@ || v == "0"@ {
        Some(false)
    } else {
        None
    }
}

/// Reads a yes/no answer.
pub fn parse_yes_no(input: &str) -> (r: Result<bool, String>)
    ensures
        match (r, yes_no_answer(input@)) {
            (Ok(b), Some(c)) => b == c,
            (Err(m), None) => m@ == "invalid yes/no value: "@ + input@,
            _ => false,
        },
{
    let cs = chars_of(input);
    let (a, b) = trim_bounds(&cs, 0, cs.len());
    assert(cs@.subrange(0, cs.len() as int) =~= input@);
    if lower_range_is(&cs, a, b, "yes") || lower_range_is(&cs, a, b, "true") || lower_range_is(
        &cs,
        a,
        b,
        "1",
    ) {
        Ok(true)
    } else if lower_range_is(&cs, a, b, "no") || lower_range_is(&cs, a, b, "false")
        || lower_range_is(&cs, a, b, "0") {
        Ok(false)
    } else {
        let mut m = String::from_str("invalid yes/no value: ");
        m.append(input);
        Err(m)
    }
}

/// The configuration path: the `--config` value, else `default_path`.
pub fn config_path_from_args(args: &Vec<String>, default_path: &str) -> (r: String)
    ensures
        r@ == match flag_value(string_views(args@), "--config"@) {
            Some(v) => v,
            None => default_path@,
        },
{
    match optional_flag(args, "--config") {
        Some(v) => v,
        None => String::from_str(default_path),
    }
}

/// Texts joined with a separator between them.
pub open spec fn join_with(parts: Seq<Seq<char>>, sep: Seq<char>) -> Seq<char>
    decreases parts.len(),
{
    if parts.len() == 0 {
        seq![]
    } else if parts.len() == 1 {
        parts[0]
    } else {
        join_with(parts.drop_last(), sep) + sep + parts.last()
    }
}

/// Joins texts with a separator between them.
pub fn join_strings(parts: &Vec<String>, sep: &str) -> (r: String)
    ensures
        r@ == join_with(string_views(parts@), sep@),
{
    let ghost a = string_views(parts@);
    let mut r = String::new();
    let mut i: usize = 0;
    while i < parts.len()
        invariant
            a == string_views(parts@),
            i <= parts.len(),
            r@ == join_with(a.take(i as int), sep@),
        decreases parts.len() - i,
    {
        if i > 0 {
            r.append(sep);
        }
        r.append(parts[i].as_str());
        assert(a.take(i + 1).drop_last() =~= a.take(i as int));
        assert(a[i as int] == parts@[i as int]@);
        i = i + 1;
    }
    assert(a.take(i as int) =~= a);
    r
}

/// Whether an output may be chosen, given the outcome of output discovery: any output is
/// accepted when discovery failed or found nothing.
pub open spec fn output_check_spec(output: Seq<char>, listing: Result<Seq<Seq<char>>, ()>) -> Result<
    (),
    Seq<char>,
> {
    match listing {
        Ok(outputs) => if outputs.len() > 0 && !crate::commands::seq_has(outputs, output) {
            Err(
                "unknown output: "@ + output + ". Available outputs: "@ + join_with(
                    outputs,
                    ", "@,
                ),
            )
        } else {
            Ok(())
        },
        Err(_) => Ok(()),
    }
}

/// Checks an output name against the discovered outputs.
pub fn validate_output_if_possible(output: &str, listing: &Result<Vec<String>, Failure>) -> (r:
    Result<(), String>)
    ensures
        match (
            r,
            output_check_spec(
                output@,
                match listing {
                    Ok(v) => Ok(string_views(v@)),
                    Err(_) => Err(()),
                },
            ),
        ) {
            (Ok(()), Ok(())) => true,
            (Err(m), Err(e)) => m@ == e,
            _ => false,
        },
{
    match listing {
        Ok(outputs) => {
            let name = String::from_str(output);
            if outputs.len() > 0 && !crate::commands::contains_output(outputs, &name) {
                let mut m = String::from_str("unknown output: ");
                m.append(output);
                m.append(". Available outputs: ");
                let joined = join_strings(outputs, ", ");
                m.append(joined.as_str());
                Err(m)
            } else {
                Ok(())
            }
        },
        Err(_) => Ok(()),
    }
}

/// The still wallpaper that `set-image` assigns: scaling from `--scaling` (fill when
/// absent or unknown), transition from `--transition` (fade when absent or unknown),
/// muted, looping forever.
pub fn image_wallpaper_from_args(args: &Vec<String>, output: String, path: String) -> (w:
    WallpaperSpec)
    ensures
        w.output == output,
        w.path == path,
        w.kind == WallpaperKind::Image,
        w.scaling == match flag_value(string_views(args@), "--scaling"@) {
            Some(v) => match ScalingMode::parse_spec(v) {
                Some(s) => s,
                None => ScalingMode::Fill,
            },
            None => ScalingMode::Fill,
        },
        w.transition == match flag_value(string_views(args@), "--transition"@) {
            Some(v) => match TransitionMode::parse_spec(v) {
                Some(t) => t,
                None => TransitionMode::Fade,
            },
            None => TransitionMode::Fade,
        },
        w.muted,
        w.loop_mode == LoopMode::Infinite,
{
    let scaling = match optional_flag(args, "--scaling") {
        Some(v) => match ScalingMode::parse(v.as_str()) {
            Some(s) => s,
            None => ScalingMode::Fill,
        },
        None => ScalingMode::Fill,
    };
    let transition = match optional_flag(args, "--transition") {
        Some(v) => match TransitionMode::parse(v.as_str()) {
            Some(t) => t,
            None => TransitionMode::Fade,
        },
        None => TransitionMode::Fade,
    };
    WallpaperSpec {
        output,
        kind: WallpaperKind::Image,
        path,
        scaling,
        transition,
        muted: true,
        loop_mode: LoopMode::Infinite,
    }
}

/// The video wallpaper that `set-video` assigns: loop mode from `--loop` (forever when
/// absent or unknown), muted unless `--mute` answers no; an unreadable `--mute` answer is
/// refused. Scaling is fill and there is no transition.
pub fn video_wallpaper_from_args(args: &Vec<String>, output: String, path: String) -> (r: Result<
    WallpaperSpec,
    String,
>)
    ensures
        match flag_value(string_views(args@), "--mute"@) {
            Some(v) => match yes_no_answer(v) {
                Some(_) => r is Ok,
                None => r matches Err(m) && m@ == "invalid yes/no value: "@ + v,
            },
            None => r is Ok,
        },
        r matches Ok(w) ==> {
            &&& w.output == output
            &&& w.path == path
            &&& w.kind == WallpaperKind::Video
            &&& w.scaling == ScalingMode::Fill
            &&& w.transition == TransitionMode::Instant
            &&& w.loop_mode == match flag_value(string_views(args@), "--loop"@) {
                Some(v) => match LoopMode::parse_spec(v) {
                    Some(l) => l,
                    None => LoopMode::Infinite,
                },
                None => LoopMode::Infinite,
            }
            &&& w.muted == match flag_value(string_views(args@), "--mute"@) {
                Some(v) => yes_no_answer(v) == Some(true),
                None => true,
            }
        },
{
    let loop_mode = match optional_flag(args, "--loop") {
        Some(v) => match LoopMode::parse(v.as_str()) {
            Some(l) => l,
            None => LoopMode::Infinite,
        },
        None => LoopMode::Infinite,
    };
    let muted = match optional_flag(args, "--mute") {
        Some(v) => parse_yes_no(v.as_str())?,
        None => true,
    };
    Ok(
        WallpaperSpec {
            output,
            kind: WallpaperKind::Video,
            path,
            scaling: ScalingMode::Fill,
            transition: TransitionMode::Instant,
            muted,
            loop_mode,
        },
    )
}

/// What `apply` does besides applying: print details, sync the colour theme, and report
/// the last applied state first.
#[derive(Debug, Clone, Copy, PartialEq, Eq)]
pub struct ApplyOptions {
    pub verbose: bool,
    pub sync_wal: bool,
    pub restore: bool,
}

/// Reads the options of `apply`.
pub fn apply_options(args: &Vec<String>) -> (o: ApplyOptions)
    ensures
        o.verbose == (has_flag_spec(string_views(args@), "-v"@) || has_flag_spec(
            string_views(args@),
            "--verbose"@,
        )),
        o.sync_wal == !has_flag_spec(string_views(args@), "--no-wal"@),
        o.restore == has_flag_spec(string_views(args@), "--restore"@),
{
    ApplyOptions {
        verbose: has_flag(args, "-v") || has_flag(args, "--verbose"),
        sync_wal: !has_flag(args, "--no-wal"),
        restore: has_flag(args, "--restore"),
    }
}

/// The lines `apply` prints: each action and the colour-theme action prefixed with
/// `applied: ` when verbose and something was reported, else a single `applied`.
pub open spec fn apply_report_spec(actions: Seq<Seq<char>>, wal: Option<Seq<char>>, verbose: bool) -> Seq<
    Seq<char>,
> {
    if actions.len() > 0 && verbose {
        actions.map_values(|a: Seq<char>| "applied: "@ + a) + match wal {
            Some(w) => seq!["applied: "@ + w],
            None => seq![],
        }
    } else {
        seq!["applied"@]
    }
}

pub fn apply_report(actions: &Vec<String>, wal_action: Option<String>, verbose: bool) -> (r: Vec<
    String,
>)
    ensures
        string_views(r@) == apply_report_spec(
            string_views(actions@),
            match wal_action {
                Some(w) => Some(w@),
                None => None,
            },
            verbose,
        ),
{
    let mut r: Vec<String> = Vec::new();
    if actions.len() == 0 || !verbose {
        r.push(String::from_str("applied"));
        assert(string_views(r@) =~= seq!["applied"@]);
        return r;
    }
    let ghost a = string_views(actions@);
    let mut i: usize = 0;
    while i < actions.len()
        invariant
            a == string_views(actions@),
            i <= actions.len(),
            string_views(r@) == a.map_values(|x: Seq<char>| "applied: "@ + x).take(i as int),
        decreases actions.len() - i,
    {
        let mut line = String::from_str("applied: ");
        line.append(actions[i].as_str());
        let ghost before = r@;
        assert(a[i as int] == actions@[i as int]@);
        assert(line@ == "applied: "@ + a[i as int]);
        r.push(line);
        assert(string_views(r@) =~= string_views(before).push(line@));
        assert(string_views(r@) =~= a.map_values(|x: Seq<char>| "applied: "@ + x).take(i + 1));
        i = i + 1;
    }
    assert(a.map_values(|x: Seq<char>| "applied: "@ + x).take(i as int) =~= a.map_values(
        |x: Seq<char>| "applied: "@ + x,
    ));
    let ghost mid = r@;
    match wal_action {
        Some(w) => {
            let mut line = String::from_str("applied: ");
            line.append(w.as_str());
            r.push(line);
            assert(string_views(r@) =~= string_views(mid) + seq!["applied: "@ + w@]);
        },
        None => {
            assert(string_views(r@) =~= string_views(mid) + Seq::<Seq<char>>::empty());
        },
    }
    r
}

/// The line `remove-output` prints.
pub fn removed_message(count: usize, output: &str, config_path: &str) -> (m: String)
    ensures
        m@ == "removed "@ + dec(count as nat) + " entries for output "@ + output@ + " from "@
            + config_path@,
{
    let mut m = String::from_str("removed ");
    append_decimal(&mut m, count);
    m.append(" entries for output ");
    m.append(output);
    m.append(" from ");
    m.append(config_path);
    m
}

/// The commands of the program.
#[derive(Debug, Clone, PartialEq, Eq)]
pub enum Command {
    Help,
    Doctor,
    InitConfig,
    ShowConfig,
    ListOutputs,
    RemoveOutput,
    SetImage,
    SetVideo,
    Apply,
    ExportVideoPoster,
    ExportBootTheme,
    InstallBootTheme,
    ExportGrubTheme,
    ExportPlymouthTheme,
    Status,
    PrintService,
    PrintPkgbuild,
}

/// The command a name selects; no name means help.
pub open spec fn command_spec(name: Seq<char>) -> Option<Command> {
    if name == "help"@ || name == "--help"@ || name == "-h"@ {
        Some(Command::Help)
    } else if name == "doctor"@ {
        Some(Command::Doctor)
    } else if name == "init-config"@ {
        Some(Command::InitConfig)
    } else if name == "show-config"@ {
        Some(Command::ShowConfig)
    } else if name == "list-outputs"@ {
        Some(Command::ListOutputs)
    } else if name == "remove-output"@ {
        Some(Command::RemoveOutput)
    } else if name == "set-image"@ {
        Some(Command::SetImage)
    } else if name == "set-video"@ {
        Some(Command::SetVideo)
    } else if name == "apply"@ {
        Some(Command::Apply)
    } else if name == "export-video-poster"@ {
        Some(Command::ExportVideoPoster)
    } else if name == "export-boot-theme"@ {
        Some(Command::ExportBootTheme)
    } else if name == "install-boot-theme"@ {
        Some(Command::InstallBootTheme)
    } else if name == "export-grub-theme"@ {
        Some(Command::ExportGrubTheme)
    } else if name == "export-plymouth-theme"@ {
        Some(Command::ExportPlymouthTheme)
    } else if name == "status"@ {
        Some(Command::Status)
    } else if name == "print-service"@ {
        Some(Command::PrintService)
    } else if name == "print-pkgbuild"@ {
        Some(Command::PrintPkgbuild)
    } else {
        None
    }
}

/// Selects the command a name names, or refuses an unknown name.
pub fn command_of(name: &str) -> (r: Result<Command, String>)
    ensures
        match (r, command_spec(name@)) {
            (Ok(c), Some(d)) => c == d,
            (Err(m), None) => m@ == "unknown command: "@ + name@
                + ". Run `aurora-wall help` for usage."@,
            _ => false,
        },
{
    if str_eq(name, "help") || str_eq(name, "--help") || str_eq(name, "-h") {
        Ok(Command::Help)
    } else if str_eq(name, "doctor") {
        Ok(Command::Doctor)
    } else if str_eq(name, "init-config") {
        Ok(Command::InitConfig)
    } else if str_eq(name, "show-config") {
        Ok(Command::ShowConfig)
    } else if str_eq(name, "list-outputs") {
        Ok(Command::ListOutputs)
    } else if str_eq(name, "remove-output") {
        Ok(Command::RemoveOutput)
    } else if str_eq(name, "set-image") {
        Ok(Command::SetImage)
    } else if str_eq(name, "set-video") {
        Ok(Command::SetVideo)
    } else if str_eq(name, "apply") {
        Ok(Command::Apply)
    } else if str_eq(name, "export-video-poster") {
        Ok(Command::ExportVideoPoster)
    } else if str_eq(name, "export-boot-theme") {
        Ok(Command::ExportBootTheme)
    } else if str_eq(name, "install-boot-theme") {
        Ok(Command::InstallBootTheme)
    } else if str_eq(name, "export-grub-theme") {
        Ok(Command::ExportGrubTheme)
    } else if str_eq(name, "export-plymouth-theme") {
        Ok(Command::ExportPlymouthTheme)
    } else if str_eq(name, "status") {
        Ok(Command::Status)
    } else if str_eq(name, "print-service") {
        Ok(Command::PrintService)
    } else if str_eq(name, "print-pkgbuild") {
        Ok(Command::PrintPkgbuild)
    } else {
        let mut m = String::from_str("unknown command: ");
        m.append(name);
        m.append(". Run `aurora-wall help` for usage.");
        Err(m)
    }
}

} // verus!
