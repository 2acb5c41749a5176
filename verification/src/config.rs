//! What the command line asks for.

use vstd::prelude::*;
use vstd::std_specs::iter::IteratorSpec;

verus! {

/// The settings of one run, taken from the command line.
#[derive(Debug, Clone, PartialEq, Eq)]
pub struct Config {
    /// The script to run; absent where the run is to be interactive.
    pub filename: Option<String>,
}

/// What a run does: read a script from a file, or read lines from the user.
#[derive(Debug, Clone, PartialEq, Eq)]
pub enum Session {
    Script(String),
    Interactive,
}

impl Config {
    /// Reads the command line. The first argument is the path of the
    /// executable and is passed over; the second, if there is one, names the
    /// script.
    pub fn new<T: Iterator<Item = String>>(args: T) -> (config: Config)
        ensures
            args.obeys_prophetic_iter_laws() ==> config.filename == (if args.remaining().len()
                >= 2 {
                Some(args.remaining()[1])
            } else {
                None
            }),
    {
        let mut args = args;
        args.next();
        Config { filename: args.next() }
    }
}

/// Decides what the run described by `config` does: with a file name, the
/// script in that file; without one, an interactive session.
pub fn run(config: Config) -> (session: Session)
    ensures
        session == (match config.filename {
            Some(name) => Session::Script(name),
            None => Session::Interactive,
        }),
{
    match config.filename {
        Some(name) => Session::Script(name),
        None => Session::Interactive,
    }
}

} // verus!
