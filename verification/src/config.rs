use vstd::prelude::*;
use crate::geometry::{parse_size, SizeError, Vec2};
use crate::number::{parse_decimal, parse_u32, NumberError};

verus! {

/// The number of seeds where the command line names none.
pub const DEFAULT_SEED_COUNT: u32 = 10;

/// The width and the height where the command line names none.
pub const DEFAULT_SIDE: u32 = 256;

/// What a run needs to know: how many seeds, where the picture goes, and its
/// size.
#[derive(Debug, PartialEq, Eq)]
pub struct Config {
    pub seed_count: u32,
    pub output: String,
    pub dim: Vec2<u32>,
}

/// What a command line asks for.
#[derive(Debug, PartialEq, Eq)]
pub enum Invocation {
    /// To be told how the program is used. `app_name` is the name under which
    /// it was started.
    Help { app_name: String },
    /// To make a picture.
    Run(Config),
}

/// Why a command line cannot be used.
#[derive(Clone, Copy, Debug, PartialEq, Eq, Structural)]
pub enum ConfigError {
    /// There is no argument at all, not even the program's name.
    MissingProgramName,
    /// What follows the count option is not a number.
    InvalidCount(NumberError),
    /// What follows the size option is not a size.
    InvalidSize(SizeError),
}

/// Whether the argument `arg` is the option with the given short and long
/// spellings.
pub open spec fn is_option(arg: String, short: Seq<char>, long: Seq<char>) -> bool {
    arg@ == short || arg@ == long
}

/// The place of the first of the arguments at or after `from` that is the
/// given option, or the number of arguments if there is none.
pub open spec fn first_option(args: Seq<String>, from: int, short: Seq<char>, long: Seq<char>) -> int
    decreases args.len() - from,
{
    if from >= args.len() {
        args.len() as int
    } else if is_option(args[from], short, long) {
        from
    } else {
        first_option(args, from + 1, short, long)
    }
}

/// The argument after the first occurrence of the given option, if both are
/// there. The program's name, at place 0, is no option.
pub open spec fn value_of(args: Seq<String>, short: Seq<char>, long: Seq<char>) -> Option<
    Seq<char>,
> {
    let at = first_option(args, 1, short, long);
    if at + 1 < args.len() {
        Some(args[at + 1]@)
    } else {
        None
    }
}

/// Whether help is asked for anywhere after the program's name.
pub open spec fn asks_help(args: Seq<String>) -> bool {
    first_option(args, 1, "-h"@, "--help"@) < args.len()
}

/// The number of seeds that the arguments name: what follows the first `-c`
/// or `--count`, or ten.
pub open spec fn seed_count_of(args: Seq<String>) -> Result<u32, NumberError> {
    match value_of(args, "-c"@, "--count"@) {
        Some(text) => parse_decimal(text),
        None => Ok(DEFAULT_SEED_COUNT),
    }
}

/// The size that the arguments name: what follows the first `-s` or
/// `--size`, or 256 by 256. A width or a height of zero is no size of a
/// picture.
pub open spec fn dim_of(args: Seq<String>) -> Result<Vec2<u32>, SizeError> {
    match value_of(args, "-s"@, "--size"@) {
        Some(text) => match parse_size(text) {
            Ok(d) => if d.x > 0 && d.y > 0 {
                Ok(d)
            } else {
                Err(SizeError::NotPositive)
            },
            Err(e) => Err(e),
        },
        None => Ok(Vec2 { x: DEFAULT_SIDE, y: DEFAULT_SIDE }),
    }
}

/// Whether `arg` is spelled as one of the options is.
pub open spec fn is_any_option(arg: String) -> bool {
    is_option(arg, "-h"@, "--help"@) || is_option(arg, "-c"@, "--count"@) || is_option(
        arg,
        "-s"@,
        "--size"@,
    )
}

/// Whether the argument at place `at` stands where the count or the size is
/// read: right after the first occurrence of its option.
pub open spec fn is_value_place(args: Seq<String>, at: int) -> bool {
    at == first_option(args, 1, "-c"@, "--count"@) + 1 || at == first_option(
        args,
        1,
        "-s"@,
        "--size"@,
    ) + 1
}

/// Whether the argument at place `at` is positional: an argument after the
/// program's name that is neither an option nor the value of one.
pub open spec fn is_positional(args: Seq<String>, at: int) -> bool {
    1 <= at < args.len() && !is_any_option(args[at]) && !is_value_place(args, at)
}

/// Where the picture goes: the last argument if it is positional, or
/// `voronoi.png`.
pub open spec fn output_of(args: Seq<String>) -> Seq<char> {
    if is_positional(args, args.len() - 1) {
        args.last()@
    } else {
        "voronoi.png"@
    }
}

/// `first_option` finds the option, and its first occurrence.
pub proof fn lemma_first_option(args: Seq<String>, from: int, short: Seq<char>, long: Seq<char>)
    requires
        0 <= from <= args.len(),
    ensures
        from <= first_option(args, from, short, long) <= args.len(),
        first_option(args, from, short, long) < args.len() ==> is_option(
            args[first_option(args, from, short, long)],
            short,
            long,
        ),
        forall|k: int|
            from <= k < first_option(args, from, short, long) ==> !is_option(
                #[trigger] args[k],
                short,
                long,
            ),
    decreases args.len() - from,
{
    if from < args.len() && !is_option(args[from], short, long) {
        lemma_first_option(args, from + 1, short, long);
    }
}

/// Whether `arg` is the option with the given short and long spellings.
fn is_spelled(arg: &String, short: &str, long: &str) -> (r: bool)
    ensures
        r == is_option(*arg, short@, long@),
{
    let short_arg: String = short.to_owned();
    let long_arg: String = long.to_owned();
    *arg == short_arg || *arg == long_arg
}

/// The place of the first argument after the program's name that is the
/// given option.
fn find_option(args: &Vec<String>, short: &str, long: &str) -> (r: usize)
    requires
        args@.len() >= 1,
    ensures
        r == first_option(args@, 1, short@, long@),
        1 <= r <= args@.len(),
{
    let mut i: usize = 1;
    while i < args.len() && !is_spelled(&args[i], short, long)
        invariant
            1 <= i <= args@.len(),
            first_option(args@, 1, short@, long@) == first_option(args@, i as int, short@, long@),
        decreases args@.len() - i,
    {
        i += 1;
    }
    i
}

impl Default for Config {
    /// Ten seeds on 256 by 256 cells, written to `voronoi.png`.
    fn default() -> (r: Config)
        ensures
            r.seed_count == DEFAULT_SEED_COUNT,
            r.output@ == "voronoi.png"@,
            r.dim == (Vec2 { x: DEFAULT_SIDE, y: DEFAULT_SIDE }),
    {
        Config {
            seed_count: DEFAULT_SEED_COUNT,
            output: "voronoi.png".to_owned(),
            dim: Vec2::new(DEFAULT_SIDE, DEFAULT_SIDE),
        }
    }
}

impl Config {
    /// What the command line `args` asks for. `args[0]` is the name under
    /// which the program was started.
    ///
    /// A `-h` or `--help` anywhere asks for help, whatever else is there.
    /// Otherwise the count is read, then the size, and the first of them that
    /// cannot be read is the error. A picture has a width and a height
    /// greater than zero. It goes where the last argument says if that is
    /// positional, and to `voronoi.png` if not.
    pub fn parse_args(args: Vec<String>) -> (r: Result<Invocation, ConfigError>)
        ensures
            args@.len() == 0 ==> r == Err::<Invocation, ConfigError>(
                ConfigError::MissingProgramName,
            ),
            args@.len() > 0 && asks_help(args@) ==> (r matches Ok(Invocation::Help { app_name })
                && app_name@ == args@[0]@),
            args@.len() > 0 && !asks_help(args@) ==> match (seed_count_of(args@), dim_of(args@)) {
                (Err(e), _) => r == Err::<Invocation, ConfigError>(ConfigError::InvalidCount(e)),
                (Ok(_), Err(e)) => r == Err::<Invocation, ConfigError>(
                    ConfigError::InvalidSize(e),
                ),
                (Ok(n), Ok(d)) => (r matches Ok(Invocation::Run(c)) && c.seed_count == n && c.dim
                    == d && c.output@ == output_of(args@)),
            },
            r matches Ok(Invocation::Run(c)) ==> c.dim.x > 0 && c.dim.y > 0,
    {
        let n: usize = args.len();
        if n == 0 {
            return Err(ConfigError::MissingProgramName);
        }
        if find_option(&args, "-h", "--help") < n {
            return Ok(Invocation::Help { app_name: args[0].clone() });
        }
        let count_at: usize = find_option(&args, "-c", "--count");
        let seed_count: u32 = if count_at < n - 1 {
            match parse_u32(args[count_at + 1].as_str()) {
                Ok(v) => v,
                Err(e) => {
                    return Err(ConfigError::InvalidCount(e));
                },
            }
        } else {
            DEFAULT_SEED_COUNT
        };
        let size_at: usize = find_option(&args, "-s", "--size");
        let dim: Vec2<u32> = if size_at < n - 1 {
            match Vec2::<u32>::from_str(args[size_at + 1].as_str()) {
                Ok(v) => {
                    if v.x == 0 || v.y == 0 {
                        return Err(ConfigError::InvalidSize(SizeError::NotPositive));
                    }
                    v
                },
                Err(e) => {
                    return Err(ConfigError::InvalidSize(e));
                },
            }
        } else {
            Vec2::new(DEFAULT_SIDE, DEFAULT_SIDE)
        };
        let positional: bool = n > 1 && count_at != n - 2 && size_at != n - 2 && !(is_spelled(
            &args[n - 1],
            "-h",
            "--help",
        ) || is_spelled(&args[n - 1], "-c", "--count") || is_spelled(&args[n - 1], "-s", "--size"));
        let output: String = if positional {
            args[n - 1].clone()
        } else {
            "voronoi.png".to_owned()
        };
        Ok(Invocation::Run(Config { seed_count, dim, output }))
    }
}

} // verus!
