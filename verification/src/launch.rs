//! The launcher's inputs: in which mode the emulator runs and with which
//! arguments it is started.

use crate::config::{Config, ConfigView};
use crate::text::texts;
use vstd::prelude::*;

verus! {

/// The emulator that is launched.
pub const EMULATOR: &'static str = "qemu-system-x86_64";

/// What a launch is for.
#[derive(Clone, Copy, Debug, PartialEq, Eq, Structural)]
pub enum Mode {
    /// Run the kernel: no deadline, and the emulator's exit code is not
    /// looked at.
    Run,
    /// Run the kernel's tests: a deadline applies and the emulator's exit
    /// code decides whether the tests passed.
    Test,
}

/// The name of the directory into which cargo puts test executables.
pub const TEST_DIR: &'static str = "deps";

/// The mode that goes with an executable, told by where it lies: a test
/// executable lies in a directory named [`TEST_DIR`].
///
/// `parent_is_deps` is `None` for an executable path without a parent
/// directory, and otherwise says whether that directory is named
/// [`TEST_DIR`]. A path without a parent has no mode.
pub fn mode_of_executable(parent_is_deps: Option<bool>) -> (mode: Option<Mode>)
    ensures
        mode == match parent_is_deps {
            Some(true) => Some(Mode::Test),
            Some(false) => Some(Mode::Run),
            None => None::<Mode>,
        },
{
    match parent_is_deps {
        Some(true) => Some(Mode::Test),
        Some(false) => Some(Mode::Run),
        None => None,
    }
}

/// The arguments that the configuration adds in the given mode: the test
/// arguments in test mode and the run arguments in run mode, and none where
/// the configuration names none for the mode.
pub open spec fn extra_args(config: ConfigView, mode: Mode) -> Seq<Seq<char>> {
    let configured = match mode {
        Mode::Test => config.test_args,
        Mode::Run => config.run_args,
    };
    match configured {
        Some(args) => args,
        None => Seq::empty(),
    }
}

/// The arguments with which the emulator is started on the given image: the
/// image as the CD-ROM, then the arguments that the configuration adds.
pub open spec fn emulator_args(config: ConfigView, mode: Mode, image: Seq<char>) -> Seq<Seq<char>> {
    seq!["-cdrom"@, image] + extra_args(config, mode)
}

/// Puts together the emulator's arguments for a launch.
pub fn launch_args(config: &Config, mode: Mode, image: &str) -> (args: Vec<String>)
    ensures
        texts(args@) == emulator_args(config@, mode, image@),
{
    let mut args: Vec<String> = Vec::new();
    args.push("-cdrom".to_owned());
    args.push(image.to_owned());
    let ghost head = texts(args@);
    assert(head =~= seq!["-cdrom"@, image@]);
    let configured = match mode {
        Mode::Test => &config.test_args,
        Mode::Run => &config.run_args,
    };
    match configured {
        Some(extra) => {
            let mut index: usize = 0;
            while index < extra.len()
                invariant
                    index <= extra.len(),
                    texts(args@) =~= head + texts(extra@).take(index as int),
                decreases extra.len() - index,
            {
                let ghost before = args@;
                let arg = extra[index].clone();
                args.push(arg);
                assert(texts(before.push(arg)) =~= texts(before).push(arg@));
                assert(texts(extra@).take(index + 1) =~= texts(extra@).take(index as int).push(
                    extra[index as int]@,
                ));
                index += 1;
            }
            assert(texts(extra@).take(index as int) =~= texts(extra@));
        },
        None => {
            assert(texts(args@) =~= head + Seq::<Seq<char>>::empty());
        },
    }
    args
}

} // verus!
