//! The command line: the shape of the parsed command, and lookups in a raw
//! list of arguments.

use vstd::prelude::*;
use vstd::string::StrSliceExecFns;
use vstd::string::StringExecFns;

verus! {

/// A parsed command line.
pub struct Cli {
    pub command: Commands,
}

/// What the program can be asked to do.
pub enum Commands {
    /// Generate flame graphs from profile data files.
    Gen {
        /// Where the HTML goes.
        output: String,
        /// The profile data files to read, at least one.
        files: Vec<String>,
    },
}

impl Commands {
    /// The command wants several graphs on one page: it names more than one
    /// input file.
    pub open spec fn wants_batch(self) -> bool {
        match self {
            Commands::Gen { files, .. } => files@.len() > 1,
        }
    }

    /// Whether the command names more than one input file, so that the
    /// graphs go on one page together.
    pub fn is_batch(&self) -> (batch: bool)
        ensures
            batch == self.wants_batch(),
    {
        match self {
            Commands::Gen { files, .. } => files.len() > 1,
        }
    }
}

/// A flag was the last argument, with no value after it.
#[derive(Debug, Clone, Copy, PartialEq, Eq, Structural)]
pub struct MissingValue;

/// The argument is a flag: it begins with `-`.
pub open spec fn is_flag(arg: Seq<char>) -> bool {
    arg.len() > 0 && arg[0] == '-'
}

/// The argument at place `i` floats: it is no flag, and it is not the value
/// of a flag before it.
pub open spec fn floats_at(args: Seq<String>, i: int) -> bool {
    &&& 0 <= i < args.len()
    &&& !is_flag(args[i]@)
    &&& (i == 0 || !is_flag(args[i - 1]@))
}

/// The argument at place `i` is the flag `flag`.
pub open spec fn names_flag(args: Seq<String>, flag: Seq<char>, i: int) -> bool {
    0 <= i < args.len() && args[i]@ == flag
}

/// Whether the argument is a flag.
fn begins_with_dash(arg: &str) -> (yes: bool)
    ensures
        yes == is_flag(arg@),
{
    if arg.is_empty() {
        false
    } else {
        arg.get_char(0) == '-'
    }
}

/// The first argument that is neither a flag nor the value of a flag, so
/// that `in -o out` and `-o out in` both name `in`.
pub fn get_floating_arg<'a>(cli_args: &'a [String]) -> (found: Option<&'a str>)
    ensures
        match found {
            Some(arg) => exists|i: int|
                {
                    &&& floats_at(cli_args@, i)
                    &&& forall|k: int| 0 <= k < i ==> !floats_at(cli_args@, k)
                    &&& arg@ == cli_args@[i]@
                },
            None => forall|i: int| !floats_at(cli_args@, i),
        },
{
    let mut i: usize = 0;
    let mut after_flag = false;
    while i < cli_args.len()
        invariant
            i <= cli_args@.len(),
            after_flag == (i > 0 && is_flag(cli_args@[i - 1]@)),
            forall|k: int| 0 <= k < i ==> !floats_at(cli_args@, k),
        decreases cli_args@.len() - i,
    {
        let flag = begins_with_dash(cli_args[i].as_str());
        if !flag && !after_flag {
            assert(floats_at(cli_args@, i as int));
            return Some(cli_args[i].as_str());
        }
        after_flag = flag;
        i += 1;
    }
    None
}

/// The floating arguments among the first `k`, in order.
pub open spec fn floating(args: Seq<String>, k: int) -> Seq<Seq<char>>
    decreases k,
{
    if k <= 0 {
        Seq::empty()
    } else if floats_at(args, k - 1) {
        floating(args, k - 1).push(args[k - 1]@)
    } else {
        floating(args, k - 1)
    }
}

/// What a list of borrowed texts stands for.
pub open spec fn borrowed_texts(list: Seq<&str>) -> Seq<Seq<char>> {
    Seq::new(list.len(), |i: int| list[i]@)
}

/// All arguments that are neither flags nor values of flags, in order.
pub fn get_all_floating_args<'a>(cli_args: &'a [String]) -> (found: Vec<&'a str>)
    ensures
        borrowed_texts(found@) == floating(cli_args@, cli_args@.len() as int),
{
    let mut found: Vec<&'a str> = Vec::new();
    let mut i: usize = 0;
    let mut after_flag = false;
    proof {
        assert(borrowed_texts(found@) =~= floating(cli_args@, 0));
    }
    while i < cli_args.len()
        invariant
            i <= cli_args@.len(),
            after_flag == (i > 0 && is_flag(cli_args@[i - 1]@)),
            borrowed_texts(found@) == floating(cli_args@, i as int),
        decreases cli_args@.len() - i,
    {
        let flag = begins_with_dash(cli_args[i].as_str());
        if !flag && !after_flag {
            let arg = cli_args[i].as_str();
            proof {
                assert(floats_at(cli_args@, i as int));
                assert(borrowed_texts(found@.push(arg)) =~= borrowed_texts(found@).push(arg@));
            }
            found.push(arg);
        }
        after_flag = flag;
        i += 1;
    }
    found
}

/// The value of the flag `flag`: the argument after its first occurrence.
/// Where the flag is the last argument, its value is missing.
pub fn get_arg<'a>(cli_args: &'a [String], flag: &str) -> (found: Result<
    Option<&'a str>,
    MissingValue,
>)
    ensures
        match found {
            Ok(Some(value)) => exists|i: int|
                {
                    &&& names_flag(cli_args@, flag@, i)
                    &&& forall|k: int| 0 <= k < i ==> !names_flag(cli_args@, flag@, k)
                    &&& i + 1 < cli_args@.len()
                    &&& value@ == cli_args@[i + 1]@
                },
            Ok(None) => forall|i: int| !names_flag(cli_args@, flag@, i),
            Err(_) => {
                &&& cli_args@.len() > 0
                &&& names_flag(cli_args@, flag@, cli_args@.len() - 1)
                &&& forall|k: int|
                    0 <= k < cli_args@.len() - 1 ==> !names_flag(cli_args@, flag@, k)
            },
        },
{
    let wanted = String::from_str(flag);
    let mut i: usize = 0;
    while i < cli_args.len()
        invariant
            i <= cli_args@.len(),
            wanted@ == flag@,
            forall|k: int| 0 <= k < i ==> !names_flag(cli_args@, flag@, k),
        decreases cli_args@.len() - i,
    {
        if cli_args[i] == wanted {
            assert(names_flag(cli_args@, flag@, i as int));
            if i + 1 < cli_args.len() {
                return Ok(Some(cli_args[i + 1].as_str()));
            } else {
                return Err(MissingValue);
            }
        }
        i += 1;
    }
    Ok(None)
}

} // verus!
