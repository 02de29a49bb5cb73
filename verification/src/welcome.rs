use vstd::prelude::*;
use crate::sink::Sink;

verus! {

/// The banner shown when a session starts.
pub const WELCOME_BANNER: &'static str = r"
         _            _            _       _
        _\ \         / /\         / /\    / /\
       /\__ \       / /  \       / / /   / / /
      / /_ \_\     / / /\ \__   / /_/   / / /
     / / /\/_/    / / /\ \___\ / /\ \__/ / /
    / / /         \ \ \ \/___// /\ \___\/ /
   / / /           \ \ \     / / /\/___/ /
  / / / ____   _    \ \ \   / / /   / / /
 / /_/_/ ___/\/_/\__/ / /  / / /   / / /
/_______/\__\/\ \/___/ /  / / /   / / /
\_______\/     \_____\/   \/_/    \/_/
";

/// The greeting line that follows the banner.
pub const WELCOME_GREETING: &'static str =
    "Welcome to lsh (pronounced leash)! Type 'exit' to quit.\n";

/// Writes the banner and the greeting, each newline-terminated.
pub fn print_welcome(out: &mut Sink)
    ensures
        final(out)@ == old(out)@ + WELCOME_BANNER@ + "\n"@ + WELCOME_GREETING@ + "\n"@,
{
    out.write_line(WELCOME_BANNER);
    out.write_line(WELCOME_GREETING);
}

} // verus!
