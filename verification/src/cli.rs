use vstd::prelude::*;

use crate::text::str_eq;

verus! {

/// What the tool was asked to do.
#[derive(Debug)]
pub enum Command {
    /// Query the firmware version (read-only).
    Version,
    /// Write the firmware image at `path` to the device.
    Flash { path: String },
}

/// The whole command line, validated before anything touches the device.
#[derive(Debug)]
pub struct Options {
    pub device: String,
    pub command: Command,
    pub verbose: bool,
}

/// Why a command line was refused.
#[derive(Debug, PartialEq, Eq, Structural, Clone, Copy)]
pub enum ArgError {
    /// Too few arguments, or an unknown command: print the usage text.
    Usage,
    /// `flash` without `--confirm-flash`: refuse, since flashing writes to the device.
    UnconfirmedFlash,
}

/// Whether some argument (the program name included) is exactly `a`.
pub open spec fn arg_given(args: Seq<String>, a: Seq<char>) -> bool {
    exists|i: int| 0 <= i < args.len() && #[trigger] args[i]@ == a
}

/// `--verbose` or `-v` anywhere on the command line.
pub open spec fn verbose_requested(args: Seq<String>) -> bool {
    arg_given(args, "--verbose"@) || arg_given(args, "-v"@)
}

/// One of the tool's flags: `--confirm-flash`, `--verbose` or `-v`.
pub open spec fn is_flag(a: Seq<char>) -> bool {
    a == "--confirm-flash"@ || a == "--verbose"@ || a == "-v"@
}

/// The command line is refused with the usage text: fewer than three arguments, a command
/// other than `version` and `flash`, or `flash` without an image path (nothing, or a flag,
/// where `<firmware.bin>` belongs).
pub open spec fn usage_error(args: Seq<String>) -> bool {
    ||| args.len() < 3
    ||| (args[2]@ != "version"@ && args[2]@ != "flash"@)
    ||| (args[2]@ == "flash"@ && args.len() < 4)
    ||| (args[2]@ == "flash"@ && is_flag(args[3]@))
}

fn flag(a: &str) -> (yes: bool)
    ensures
        yes == is_flag(a@),
{
    str_eq(a, "--confirm-flash") || str_eq(a, "--verbose") || str_eq(a, "-v")
}

/// Which command lines are refused with the usage text, case by case: too few arguments, an
/// unknown command, or `flash` with nothing or a flag where the image path belongs; and
/// which are not: `version` with any further arguments, and `flash` followed by a path that
/// is not one of the flags.
pub proof fn lemma_usage_cases(args: Seq<String>)
    ensures
        args.len() < 3 ==> usage_error(args),
        args.len() >= 3 && args[2]@ != "version"@ && args[2]@ != "flash"@ ==> usage_error(args),
        args.len() >= 3 && args[2]@ == "version"@ ==> !usage_error(args),
        args.len() == 3 && args[2]@ == "flash"@ ==> usage_error(args),
        args.len() >= 4 && args[2]@ == "flash"@ && (args[3]@ == "--confirm-flash"@ || args[3]@
            == "--verbose"@ || args[3]@ == "-v"@) ==> usage_error(args),
        args.len() >= 4 && args[2]@ == "flash"@ && args[3]@ != "--confirm-flash"@ && args[3]@
            != "--verbose"@ && args[3]@ != "-v"@ ==> !usage_error(args),
{
    reveal_strlit("version");
    reveal_strlit("flash");
    assert("version"@.len() != "flash"@.len());
}

fn arg_present(args: &[String], a: &str) -> (found: bool)
    ensures
        found == arg_given(args@, a@),
{
    let mut i: usize = 0;
    while i < args.len()
        invariant
            i <= args.len(),
            forall|k: int| 0 <= k < i ==> args@[k]@ != a@,
        decreases args.len() - i,
    {
        if str_eq(args[i].as_str(), a) {
            return true;
        }
        i = i + 1;
    }
    false
}

/// Parses `program device command [args...]`. `version` takes nothing more; `flash` takes
/// the image path as the fourth argument and needs `--confirm-flash` somewhere on the line.
pub fn parse_args(args: &[String]) -> (r: Result<Options, ArgError>)
    ensures
        (r == Err::<Options, ArgError>(ArgError::Usage)) <==> usage_error(args@),
        (r == Err::<Options, ArgError>(ArgError::UnconfirmedFlash)) <==> (!usage_error(args@)
            && args@[2]@ == "flash"@ && !arg_given(args@, "--confirm-flash"@)),
        r matches Ok(o) ==> {
            &&& args@.len() >= 3
            &&& o.device@ == args@[1]@
            &&& o.verbose == verbose_requested(args@)
            &&& (o.command is Version <==> args@[2]@ == "version"@)
            &&& (o.command matches Command::Flash { path } ==> {
                &&& args@[2]@ == "flash"@
                &&& args@.len() >= 4
                &&& path@ == args@[3]@
                &&& !is_flag(path@)
                &&& arg_given(args@, "--confirm-flash"@)
            })
        },
{
    proof {
        reveal_strlit("version");
        reveal_strlit("flash");
        assert("version"@.len() != "flash"@.len());
    }
    if args.len() < 3 {
        return Err(ArgError::Usage);
    }
    let verbose = arg_present(args, "--verbose") || arg_present(args, "-v");
    let cmd = args[2].as_str();
    let command = if str_eq(cmd, "version") {
        Command::Version
    } else if str_eq(cmd, "flash") {
        if args.len() < 4 || flag(args[3].as_str()) {
            return Err(ArgError::Usage);
        }
        if !arg_present(args, "--confirm-flash") {
            return Err(ArgError::UnconfirmedFlash);
        }
        Command::Flash { path: args[3].clone() }
    } else {
        return Err(ArgError::Usage);
    };
    Ok(Options { device: args[1].clone(), command, verbose })
}

} // verus!
