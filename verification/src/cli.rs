//! Command-line choice of the display mode.
use vstd::prelude::*;
use crate::render::DisplayMode;
use crate::text::{
    ascii_lowercase, chars_of, lowercase, push_chars, push_str, same_as_str, string_from_chars,
};

verus! {

/// What the command line asks for.
#[derive(Clone, Copy, Debug, PartialEq, Eq)]
pub enum CliRequest {
    /// Print the usage text and stop.
    Help,
    /// Run in this mode.
    Run(DisplayMode),
}

/// The mode a name selects: `auto` selects none (the terminal decides);
/// ASCII case is ignored.
pub open spec fn mode_from_name_spec(name: Seq<char>) -> Result<Option<DisplayMode>, Seq<char>> {
    let lower = ascii_lowercase(name);
    if lower == "auto"@ {
        Ok(None)
    } else if lower == "pc"@ {
        Ok(Some(DisplayMode::Pc))
    } else if lower == "screen"@ {
        Ok(Some(DisplayMode::Screen))
    } else {
        Err("unknown mode '"@ + name + "'; expected auto, pc, or screen"@)
    }
}

/// Reads the arguments from position `i` on, with `requested` the mode name
/// so far: `Ok(None)` for help, `Ok(Some(name))` for the final mode name,
/// `Err(message)` for a bad command line.
pub open spec fn scan_args(
    requested: Seq<char>,
    args: Seq<Seq<char>>,
    i: int,
) -> Result<Option<Seq<char>>, Seq<char>>
    decreases args.len() - i,
{
    if i < 0 || i >= args.len() {
        Ok(Some(requested))
    } else {
        let a = args[i];
        if a == "--mode"@ {
            if i + 1 < args.len() {
                scan_args(args[i + 1], args, i + 2)
            } else {
                Err("--mode requires auto, pc, or screen"@)
            }
        } else if a == "-h"@ || a == "--help"@ {
            Ok(None)
        } else if a.len() >= 7 && a.take(7) == "--mode="@ {
            scan_args(a.skip(7), args, i + 1)
        } else {
            Err("unknown argument '"@ + a + "'"@)
        }
    }
}

/// The request of a whole command line: the environment's mode name (or
/// `auto`), overridden by `--mode NAME` or `--mode=NAME`; `auto` becomes
/// screen mode on a Linux console and PC mode elsewhere.
pub open spec fn request_spec(
    env_mode: Option<Seq<char>>,
    args: Seq<Seq<char>>,
    term: Option<Seq<char>>,
) -> Result<CliRequest, Seq<char>> {
    let start = match env_mode {
        Some(m) => m,
        None => "auto"@,
    };
    match scan_args(start, args, 0) {
        Err(e) => Err(e),
        Ok(None) => Ok(CliRequest::Help),
        Ok(Some(name)) => match mode_from_name_spec(name) {
            Err(e) => Err(e),
            Ok(Some(m)) => Ok(CliRequest::Run(m)),
            Ok(None) => if term == Some("linux"@) {
                Ok(CliRequest::Run(DisplayMode::Screen))
            } else {
                Ok(CliRequest::Run(DisplayMode::Pc))
            },
        },
    }
}

fn mode_from_chars(name: &Vec<char>) -> (r: Result<Option<DisplayMode>, String>)
    ensures
        match (r, mode_from_name_spec(name@)) {
            (Ok(a), Ok(b)) => a == b,
            (Err(a), Err(b)) => a@ == b,
            _ => false,
        },
{
    let lower = lowercase(name);
    if same_as_str(&lower, "auto") {
        Ok(None)
    } else if same_as_str(&lower, "pc") {
        Ok(Some(DisplayMode::Pc))
    } else if same_as_str(&lower, "screen") {
        Ok(Some(DisplayMode::Screen))
    } else {
        let mut message: Vec<char> = Vec::new();
        push_str(&mut message, "unknown mode '");
        push_chars(&mut message, name);
        push_str(&mut message, "'; expected auto, pc, or screen");
        Err(string_from_chars(&message))
    }
}

/// The display mode named `name`: `auto` (none), `pc` or `screen`, in any
/// ASCII case; any other name is an error that quotes it.
pub fn mode_from_name(name: &str) -> (r: Result<Option<DisplayMode>, String>)
    ensures
        match (r, mode_from_name_spec(name@)) {
            (Ok(a), Ok(b)) => a == b,
            (Err(a), Err(b)) => a@ == b,
            _ => false,
        },
{
    mode_from_chars(&chars_of(name))
}

fn is_mode_flag(a: &Vec<char>) -> (r: bool)
    ensures
        r == (a@.len() >= 7 && a@.take(7) == "--mode="@),
{
    if a.len() < 7 {
        return false;
    }
    let mut head: Vec<char> = Vec::new();
    let mut i: usize = 0;
    while i < 7
        invariant
            i <= 7 <= a.len(),
            head@ == a@.take(i as int),
        decreases 7 - i,
    {
        head.push(a[i]);
        i = i + 1;
    }
    same_as_str(&head, "--mode=")
}

fn after_mode_flag(a: &Vec<char>) -> (r: Vec<char>)
    requires
        a.len() >= 7,
    ensures
        r@ == a@.skip(7),
{
    let mut r: Vec<char> = Vec::new();
    let mut i: usize = 7;
    while i < a.len()
        invariant
            7 <= i <= a.len(),
            r@ == a@.subrange(7, i as int),
        decreases a.len() - i,
    {
        r.push(a[i]);
        i = i + 1;
    }
    r
}

/// Reads the command line: `--mode NAME`, `--mode=NAME`, `-h` or `--help`;
/// the environment's mode name, if any, is the starting point and `term` is
/// the `TERM` variable.
pub fn request(env_mode: Option<String>, args: &Vec<String>, term: Option<String>) -> (r: Result<
    CliRequest,
    String,
>)
    ensures
        match (
            r,
            request_spec(
                match env_mode {
                    Some(m) => Some(m@),
                    None => None,
                },
                args.deep_view(),
                match term {
                    Some(t) => Some(t@),
                    None => None,
                },
            ),
        ) {
            (Ok(a), Ok(b)) => a == b,
            (Err(a), Err(b)) => a@ == b,
            _ => false,
        },
{
    let ghost all = args.deep_view();
    let mut requested: Vec<char> = match &env_mode {
        Some(m) => chars_of(m.as_str()),
        None => chars_of("auto"),
    };
    let ghost start = requested@;
    let mut i: usize = 0;
    while i < args.len()
        invariant
            all == args.deep_view(),
            i <= args.len(),
            scan_args(start, all, 0) == scan_args(requested@, all, i as int),
        decreases args.len() - i,
    {
        let a = chars_of(args[i].as_str());
        assert(a@ == all[i as int]);
        if same_as_str(&a, "--mode") {
            if i + 1 < args.len() {
                requested = chars_of(args[i + 1].as_str());
                i = i + 2;
            } else {
                let mut message: Vec<char> = Vec::new();
                push_str(&mut message, "--mode requires auto, pc, or screen");
                return Err(string_from_chars(&message));
            }
        } else if same_as_str(&a, "-h") || same_as_str(&a, "--help") {
            return Ok(CliRequest::Help);
        } else if is_mode_flag(&a) {
            requested = after_mode_flag(&a);
            i = i + 1;
        } else {
            let mut message: Vec<char> = Vec::new();
            push_str(&mut message, "unknown argument '");
            push_chars(&mut message, &a);
            push_str(&mut message, "'");
            return Err(string_from_chars(&message));
        }
    }
    match mode_from_chars(&requested) {
        Err(e) => Err(e),
        Ok(Some(m)) => Ok(CliRequest::Run(m)),
        Ok(None) => {
            let linux = match &term {
                Some(t) => same_as_str(&chars_of(t.as_str()), "linux"),
                None => false,
            };
            if linux {
                Ok(CliRequest::Run(DisplayMode::Screen))
            } else {
                Ok(CliRequest::Run(DisplayMode::Pc))
            }
        },
    }
}

} // verus!
