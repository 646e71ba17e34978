use vstd::prelude::*;

verus! {

/// The command line: an optional subcommand, or the options of a check-in run.
pub struct Args {
    pub command: Option<MainCmds>,
    /// The check-in to sign; every open check-in, most recent first, when absent.
    pub activity: Option<i64>,
    /// The accounts to sign with, separated by commas; every account when absent.
    pub accounts: Option<String>,
    /// The identifier of a saved location to use.
    pub location: Option<i64>,
    /// A location written `addr,lon,lat,alt`; takes precedence over `location`.
    pub pos: Option<String>,
    /// An image file, or a directory whose newest image is taken.
    pub pic: Option<String>,
    /// Capture the QR code precisely.
    pub precise: bool,
    /// The gesture or sign code.
    pub signcode: Option<String>,
    /// Do not shift preset locations at random.
    pub no_random_shift: bool,
}

pub enum MainCmds {
    /// List, add or remove accounts.
    Account { command: Option<AccCmds>, fresh: bool },
    /// List the courses.
    Course { fresh: bool },
    /// List check-ins.
    List { course: Option<i64>, all: bool },
    /// List, add, remove, import or export locations.
    Pos { command: Option<PosCmds>, course: Option<i64>, global: bool },
    /// Show where the configuration lives.
    WhereIsConfig,
}

pub enum AccCmds {
    Add { uname: String },
    Remove { uname: String, yes: bool },
}

pub enum PosCmds {
    Add { course: Option<i64>, pos: String },
    Remove { posid: Option<i64>, yes: bool, all: bool },
    Import { input: String },
    Export { output: String },
}

/// The options of a check-in run that reach the signers.
pub struct CliArgs {
    pub location_id: Option<i64>,
    pub location_str: Option<String>,
    pub pic: Option<String>,
    pub precisely: bool,
    pub signcode: Option<String>,
    pub no_random_shift: bool,
}

impl CliArgs {
    /// The signer options of a command line.
    pub fn from_args(a: &Args) -> (r: CliArgs)
        ensures
            r.location_id == a.location,
            r.location_str == a.pos,
            r.pic == a.pic,
            r.precisely == a.precise,
            r.signcode == a.signcode,
            r.no_random_shift == a.no_random_shift,
    {
        CliArgs {
            location_id: a.location,
            location_str: a.pos.clone(),
            pic: a.pic.clone(),
            precisely: a.precise,
            signcode: a.signcode.clone(),
            no_random_shift: a.no_random_shift,
        }
    }
}

} // verus!
