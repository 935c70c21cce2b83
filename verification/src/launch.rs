//! Which interface the program starts.

use vstd::prelude::*;
use crate::text::text_eq;

verus! {

/// Some argument is exactly `flag`.
pub open spec fn has_flag(args: Seq<String>, flag: Seq<char>) -> bool {
    exists|i: int| 0 <= i < args.len() && #[trigger] args[i]@ == flag
}

fn any_arg_is(args: &Vec<String>, flag: &str) -> (res: bool)
    ensures
        res == has_flag(args@, flag@),
{
    let mut i: usize = 0;
    while i < args.len()
        invariant
            i <= args@.len(),
            forall|j: int| 0 <= j < i ==> args@[j]@ != flag@,
        decreases args@.len() - i,
    {
        if text_eq(args[i].as_str(), flag) {
            return true;
        }
        i = i + 1;
    }
    false
}

/// Whether the program opens its desktop window rather than the terminal
/// interface: when asked with `--gui`, or, unless asked for the terminal
/// interface with `--tui`, when standard input is not a terminal (as when
/// launched from a desktop).
pub fn use_desktop_window(args: &Vec<String>, stdin_is_terminal: bool) -> (res: bool)
    ensures
        res == (has_flag(args@, "--gui"@) || (!has_flag(args@, "--tui"@) && !stdin_is_terminal)),
{
    let force_gui = any_arg_is(args, "--gui");
    let force_tui = any_arg_is(args, "--tui");
    force_gui || (!force_tui && !stdin_is_terminal)
}

} // verus!
