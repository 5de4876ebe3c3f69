//! Resolution of the command line into one of the three modes.

use vstd::prelude::*;

verus! {

#[verifier::external_type_specification]
#[verifier::external_body]
pub struct ExArguments(pico_args::Arguments);

#[verifier::external_type_specification]
#[verifier::external_body]
pub struct ExArgError(pico_args::Error);

/// Block size when none is given, in bytes.
pub const DEFAULT_BLOCK_SIZE: u64 = 32;

/// Number of blocks when none is given.
pub const DEFAULT_COUNT: u64 = 1;

/// The subcommand named on the command line.
#[derive(Clone, Copy, Debug, PartialEq, Eq, Structural)]
pub enum Mode {
    Write,
    Read,
    Test,
}

/// The resolved command.
#[derive(Clone, Debug)]
pub enum SubCmd {
    Write { file: String, block_size: u64, count: u64 },
    Read { file: String, block_size: u64, count: u64 },
    Test { file_write: String, file_read: String, block_size: u64, count: u64 },
}

#[derive(Clone, Debug)]
pub struct Cmd {
    pub sub: SubCmd,
}

/// Why a command line could not be resolved.
#[derive(Debug)]
pub enum ParseError {
    /// The subcommand is missing or is none of `write`, `read`, `test`.
    InvalidSubcommand,
    /// `test` was given neither `--file-write` nor `-f`/`--file`.
    MissingFileWrite,
    /// `test` was given neither `--file-read` nor `-f`/`--file`.
    MissingFileRead,
    /// `write` or `read` was given no `-f`/`--file`.
    MissingFile,
    /// An option has no value, or its value does not convert.
    Arguments(pico_args::Error),
}

/// The mode that a subcommand word names, if any.
pub open spec fn mode_of(name: Option<Seq<char>>) -> Option<Mode> {
    match name {
        Some(s) => if s == "write"@ {
            Some(Mode::Write)
        } else if s == "read"@ {
            Some(Mode::Read)
        } else if s == "test"@ {
            Some(Mode::Test)
        } else {
            None
        },
        None => None,
    }
}

/// The text of an optional string.
pub open spec fn view_opt(o: Option<String>) -> Option<Seq<char>> {
    match o {
        Some(s) => Some(s@),
        None => None,
    }
}

/// The explicit file where one was given, else the shared one.
pub open spec fn pick_file(explicit: Option<Seq<char>>, shared: Option<Seq<char>>) -> Option<
    Seq<char>,
> {
    match explicit {
        Some(x) => Some(x),
        None => shared,
    }
}

/// Picks the mode from the subcommand word.
pub fn select_mode(name: &Option<String>) -> (r: Option<Mode>)
    ensures
        r == mode_of(view_opt(*name)),
{
    match name {
        Some(s) => {
            let w = "write".to_owned();
            let rd = "read".to_owned();
            let t = "test".to_owned();
            if *s == w {
                Some(Mode::Write)
            } else if *s == rd {
                Some(Mode::Read)
            } else if *s == t {
                Some(Mode::Test)
            } else {
                None
            }
        },
        None => None,
    }
}

pub open spec fn or_default_spec(v: Option<u64>, default: u64) -> u64 {
    match v {
        Some(x) => x,
        None => default,
    }
}

/// The given value, or `default` where none was given.
pub fn or_default(v: Option<u64>, default: u64) -> (r: u64)
    ensures
        r == or_default_spec(v, default),
{
    match v {
        Some(x) => x,
        None => default,
    }
}

/// The two files of the integrity test: each explicit one, or else the shared
/// one; missing where neither was given.
pub fn resolve_test_files(
    file: Option<String>,
    file_write: Option<String>,
    file_read: Option<String>,
) -> (r: Result<(String, String), ParseError>)
    ensures
        r is Ok <==> (pick_file(view_opt(file_write), view_opt(file)) is Some && pick_file(
            view_opt(file_read),
            view_opt(file),
        ) is Some),
        pick_file(view_opt(file_write), view_opt(file)) is None ==> r matches Err(
            ParseError::MissingFileWrite,
        ),
        pick_file(view_opt(file_write), view_opt(file)) is Some && pick_file(
            view_opt(file_read),
            view_opt(file),
        ) is None ==> r matches Err(ParseError::MissingFileRead),
        r matches Ok(p) ==> Some(p.0@) == pick_file(view_opt(file_write), view_opt(file)) && Some(
            p.1@,
        ) == pick_file(view_opt(file_read), view_opt(file)),
{
    let w = match file_write {
        Some(x) => x,
        None => match &file {
            Some(f) => f.clone(),
            None => return Err(ParseError::MissingFileWrite),
        },
    };
    let rd = match file_read {
        Some(x) => x,
        None => match file {
            Some(f) => f,
            None => return Err(ParseError::MissingFileRead),
        },
    };
    Ok((w, rd))
}

/// Whether `k` has the shape of a short option key: a dash and one other
/// character.
pub open spec fn short_key(k: Seq<char>) -> bool {
    k.len() == 2 && k[0] == '-' && k[1] != '-'
}

/// Whether `k` has the shape of a long option key: two dashes and a name.
pub open spec fn long_key(k: Seq<char>) -> bool {
    k.len() > 2 && k[0] == '-' && k[1] == '-'
}

/// The words that an argument parser still holds, in order, as text.
pub uninterp spec fn words_of(a: pico_args::Arguments) -> Seq<Seq<char>>;

/// Whether every word that an argument parser still holds is UTF-8 text.
pub uninterp spec fn all_text(a: pico_args::Arguments) -> bool;

/// Whether a word starts with a dash.
pub open spec fn starts_with_dash(w: Seq<char>) -> bool {
    w.len() > 0 && w[0] == '-'
}

/// The subcommand word and the words left after it: the first word, unless
/// there is none or it starts with a dash.
pub open spec fn split_subcommand(ws: Seq<Seq<char>>) -> (Option<Seq<char>>, Seq<Seq<char>>) {
    if ws.len() == 0 || starts_with_dash(ws[0]) {
        (None, ws)
    } else {
        (Some(ws[0]), ws.drop_first())
    }
}

/// The index of the first word equal to `key`.
pub open spec fn first_index(ws: Seq<Seq<char>>, key: Seq<char>) -> Option<int>
    decreases ws.len(),
{
    if ws.len() == 0 {
        None
    } else if ws[0] == key {
        Some(0)
    } else {
        match first_index(ws.drop_first(), key) {
            Some(i) => Some(i + 1),
            None => None,
        }
    }
}

/// The index of the first word equal to the first of `keys` that occurs.
pub open spec fn key_index(ws: Seq<Seq<char>>, keys: Seq<Seq<char>>) -> Option<int>
    decreases keys.len(),
{
    if keys.len() == 0 {
        None
    } else {
        match first_index(ws, keys[0]) {
            Some(i) => Some(i),
            None => key_index(ws, keys.drop_first()),
        }
    }
}

/// Looks an option up: its value is the word after its key, and the key and
/// the value leave the list. Absent, the list stays as it is; a key that is
/// the last word is an error.
pub open spec fn lookup_text(ws: Seq<Seq<char>>, keys: Seq<Seq<char>>) -> Result<
    (Option<Seq<char>>, Seq<Seq<char>>),
    (),
> {
    match key_index(ws, keys) {
        None => Ok((None, ws)),
        Some(i) => if i + 1 < ws.len() {
            Ok((Some(ws[i + 1]), ws.remove(i).remove(i)))
        } else {
            Err(())
        },
    }
}

pub open spec fn is_digit(c: char) -> bool {
    '0' <= c && c <= '9'
}

/// The number that a string of decimal digits writes.
pub open spec fn digits_value(s: Seq<char>) -> int
    decreases s.len(),
{
    if s.len() == 0 {
        0
    } else {
        digits_value(s.drop_last()) * 10 + ((s.last() as u32) as int - 48)
    }
}

/// A word without its leading `+`, if it has one.
pub open spec fn unsigned_part(s: Seq<char>) -> Seq<char> {
    if s.len() > 0 && s[0] == '+' {
        s.drop_first()
    } else {
        s
    }
}

/// Whether a word is one or more decimal digits.
pub open spec fn all_digits(d: Seq<char>) -> bool {
    d.len() > 0 && forall|i: int| 0 <= i < d.len() ==> is_digit(#[trigger] d[i])
}

/// The `u64` that a word writes in decimal: an optional `+`, then one or
/// more digits, of a value that fits.
pub open spec fn parse_u64(s: Seq<char>) -> Option<u64> {
    if all_digits(unsigned_part(s)) && digits_value(unsigned_part(s)) <= u64::MAX {
        Some(digits_value(unsigned_part(s)) as u64)
    } else {
        None
    }
}

/// Looks a numeric option up: as `lookup_text`, and a value that does not
/// convert is an error too.
pub open spec fn lookup_number(ws: Seq<Seq<char>>, keys: Seq<Seq<char>>) -> Result<
    (Option<u64>, Seq<Seq<char>>),
    (),
> {
    match lookup_text(ws, keys) {
        Err(_) => Err(()),
        Ok((None, rest)) => Ok((None, rest)),
        Ok((Some(v), rest)) => match parse_u64(v) {
            Some(n) => Ok((Some(n), rest)),
            None => Err(()),
        },
    }
}

/// A resolved command, as values.
pub enum Invocation {
    Write { file: Seq<char>, block_size: u64, count: u64 },
    Read { file: Seq<char>, block_size: u64, count: u64 },
    Test { file_write: Seq<char>, file_read: Seq<char>, block_size: u64, count: u64 },
}

/// Why a command line is refused, as a value.
pub enum ParseFailure {
    InvalidSubcommand,
    MissingFile,
    MissingFileWrite,
    MissingFileRead,
    BadArgument,
}

impl ParseError {
    pub open spec fn kind(&self) -> ParseFailure {
        match self {
            ParseError::InvalidSubcommand => ParseFailure::InvalidSubcommand,
            ParseError::MissingFile => ParseFailure::MissingFile,
            ParseError::MissingFileWrite => ParseFailure::MissingFileWrite,
            ParseError::MissingFileRead => ParseFailure::MissingFileRead,
            ParseError::Arguments(_) => ParseFailure::BadArgument,
        }
    }
}

impl View for Cmd {
    type V = Invocation;

    open spec fn view(&self) -> Invocation {
        match self.sub {
            SubCmd::Write { file, block_size, count } => Invocation::Write {
                file: file@,
                block_size,
                count,
            },
            SubCmd::Read { file, block_size, count } => Invocation::Read {
                file: file@,
                block_size,
                count,
            },
            SubCmd::Test { file_write, file_read, block_size, count } => Invocation::Test {
                file_write: file_write@,
                file_read: file_read@,
                block_size,
                count,
            },
        }
    }
}

/// The command of `mode` on the given files and sizes; a benchmark takes the
/// first file.
pub open spec fn invocation(
    mode: Mode,
    first: Seq<char>,
    second: Seq<char>,
    block_size: u64,
    count: u64,
) -> Invocation {
    match mode {
        Mode::Write => Invocation::Write { file: first, block_size, count },
        Mode::Read => Invocation::Read { file: first, block_size, count },
        Mode::Test => Invocation::Test { file_write: first, file_read: second, block_size, count },
    }
}

/// The sizes, looked up in `ws`, completing a command.
pub open spec fn resolve_sizes(mode: Mode, first: Seq<char>, second: Seq<char>, ws: Seq<Seq<char>>) -> Result<
    Invocation,
    ParseFailure,
> {
    match lookup_number(ws, seq!["-s"@, "--block-size"@]) {
        Err(_) => Err(ParseFailure::BadArgument),
        Ok((b, ws1)) => match lookup_number(ws1, seq!["-c"@, "--count"@]) {
            Err(_) => Err(ParseFailure::BadArgument),
            Ok((n, _)) => Ok(
                invocation(
                    mode,
                    first,
                    second,
                    or_default_spec(b, DEFAULT_BLOCK_SIZE),
                    or_default_spec(n, DEFAULT_COUNT),
                ),
            ),
        },
    }
}

/// The rest of a `test` command: its two files, each explicit or else the
/// shared `file`, then its sizes.
pub open spec fn resolve_test(file: Option<Seq<char>>, ws: Seq<Seq<char>>) -> Result<
    Invocation,
    ParseFailure,
> {
    match lookup_text(ws, seq!["--file-write"@]) {
        Err(_) => Err(ParseFailure::BadArgument),
        Ok((fw, ws1)) => match pick_file(fw, file) {
            None => Err(ParseFailure::MissingFileWrite),
            Some(w) => match lookup_text(ws1, seq!["--file-read"@]) {
                Err(_) => Err(ParseFailure::BadArgument),
                Ok((fr, ws2)) => match pick_file(fr, file) {
                    None => Err(ParseFailure::MissingFileRead),
                    Some(rd) => resolve_sizes(Mode::Test, w, rd, ws2),
                },
            },
        },
    }
}

/// What a command line (the program's name left out) resolves to: the
/// subcommand, then `-f`/`--file`, then for `test` `--file-write` and
/// `--file-read`, then `-s`/`--block-size` and `-c`/`--count`, each looked up
/// in the words that the earlier lookups left.
pub open spec fn resolve(ws: Seq<Seq<char>>) -> Result<Invocation, ParseFailure> {
    let (name, ws1) = split_subcommand(ws);
    match mode_of(name) {
        None => Err(ParseFailure::InvalidSubcommand),
        Some(mode) => match lookup_text(ws1, seq!["-f"@, "--file"@]) {
            Err(_) => Err(ParseFailure::BadArgument),
            Ok((file, ws2)) => if mode == Mode::Test {
                resolve_test(file, ws2)
            } else {
                match file {
                    None => Err(ParseFailure::MissingFile),
                    Some(f) => resolve_sizes(mode, f, f, ws2),
                }
            },
        },
    }
}

/// Relies on pico_args::Arguments::from_vec, which holds the words as given.
#[verifier::external_body]
fn arguments_from(words: Vec<String>) -> (r: pico_args::Arguments)
    ensures
        words_of(r) == words@.map_values(|w: String| w@),
        all_text(r),
{
    pico_args::Arguments::from_vec(words.into_iter().map(Into::into).collect())
}

/// Relies on pico_args::Arguments::subcommand, which removes and gives the
/// first word unless there is none or it starts with a dash.
#[verifier::external_body]
fn take_subcommand(args: &mut pico_args::Arguments) -> (r: Result<Option<String>, pico_args::Error>)
    requires
        all_text(*old(args)),
    ensures
        all_text(*final(args)),
        r is Ok,
        view_opt(r->Ok_0) == split_subcommand(words_of(*old(args))).0,
        words_of(*final(args)) == split_subcommand(words_of(*old(args))).1,
{
    args.subcommand()
}

/// Relies on pico_args::Arguments::opt_value_from_str with a short and a
/// long key, taking the value as a `String`: the word after the first
/// occurrence of the short key, else of the long one; both leave the list.
/// Its key conversion asserts the keys' shape.
#[verifier::external_body]
fn take_text(args: &mut pico_args::Arguments, short: &'static str, long: &'static str) -> (r: Result<
    Option<String>,
    pico_args::Error,
>)
    requires
        all_text(*old(args)),
        short_key(short@),
        long_key(long@),
    ensures
        all_text(*final(args)),
        match lookup_text(words_of(*old(args)), seq![short@, long@]) {
            Ok((v, rest)) => r is Ok && view_opt(r->Ok_0) == v && words_of(*final(args)) == rest,
            Err(_) => r is Err && words_of(*final(args)) == words_of(*old(args)),
        },
{
    args.opt_value_from_str([short, long])
}

/// Relies on pico_args::Arguments::opt_value_from_str with a long key alone,
/// taking the value as a `String`: the word after the key's first occurrence;
/// both leave the list. Its key conversion asserts the key's shape.
#[verifier::external_body]
fn take_long_text(args: &mut pico_args::Arguments, long: &'static str) -> (r: Result<
    Option<String>,
    pico_args::Error,
>)
    requires
        all_text(*old(args)),
        long_key(long@),
    ensures
        all_text(*final(args)),
        match lookup_text(words_of(*old(args)), seq![long@]) {
            Ok((v, rest)) => r is Ok && view_opt(r->Ok_0) == v && words_of(*final(args)) == rest,
            Err(_) => r is Err && words_of(*final(args)) == words_of(*old(args)),
        },
{
    args.opt_value_from_str(long)
}

/// Relies on pico_args::Arguments::opt_value_from_str with a short and a
/// long key, converting the value by `u64::from_str`: found as for
/// `take_text`, and a value that does not convert is an error that leaves
/// the list as it was. Its key conversion asserts the keys' shape.
#[verifier::external_body]
fn take_number(args: &mut pico_args::Arguments, short: &'static str, long: &'static str) -> (r: Result<
    Option<u64>,
    pico_args::Error,
>)
    requires
        all_text(*old(args)),
        short_key(short@),
        long_key(long@),
    ensures
        all_text(*final(args)),
        match lookup_number(words_of(*old(args)), seq![short@, long@]) {
            Ok((v, rest)) => r == Ok::<Option<u64>, pico_args::Error>(v) && words_of(*final(args))
                == rest,
            Err(_) => r is Err && words_of(*final(args)) == words_of(*old(args)),
        },
{
    args.opt_value_from_str([short, long])
}

impl Cmd {
    /// Assembles the command for `mode` from the option values found: a
    /// benchmark needs its file, the test its two files (each explicit, or
    /// else the shared one), and sizes not given take their defaults.
    pub fn build(
        mode: Mode,
        file: Option<String>,
        file_write: Option<String>,
        file_read: Option<String>,
        block_size: Option<u64>,
        count: Option<u64>,
    ) -> (r: Result<Cmd, ParseError>)
        ensures
            mode != Mode::Test ==> (r is Ok <==> file is Some),
            mode != Mode::Test && file is None ==> r matches Err(ParseError::MissingFile),
            mode == Mode::Test ==> (r is Ok <==> (pick_file(view_opt(file_write), view_opt(file)) is Some
                && pick_file(view_opt(file_read), view_opt(file)) is Some)),
            mode == Mode::Test && pick_file(view_opt(file_write), view_opt(file)) is None ==> r matches Err(
                ParseError::MissingFileWrite,
            ),
            mode == Mode::Test && pick_file(view_opt(file_write), view_opt(file)) is Some && pick_file(
                view_opt(file_read),
                view_opt(file),
            ) is None ==> r matches Err(ParseError::MissingFileRead),
            r matches Ok(c) ==> match c.sub {
                SubCmd::Write { file: f, block_size: b, count: n } => mode == Mode::Write && Some(f@)
                    == view_opt(file) && b == or_default_spec(block_size, DEFAULT_BLOCK_SIZE) && n
                    == or_default_spec(count, DEFAULT_COUNT),
                SubCmd::Read { file: f, block_size: b, count: n } => mode == Mode::Read && Some(f@)
                    == view_opt(file) && b == or_default_spec(block_size, DEFAULT_BLOCK_SIZE) && n
                    == or_default_spec(count, DEFAULT_COUNT),
                SubCmd::Test { file_write: w, file_read: rd, block_size: b, count: n } => mode
                    == Mode::Test && Some(w@) == pick_file(view_opt(file_write), view_opt(file))
                    && Some(rd@) == pick_file(view_opt(file_read), view_opt(file)) && b
                    == or_default_spec(block_size, DEFAULT_BLOCK_SIZE) && n == or_default_spec(
                    count,
                    DEFAULT_COUNT,
                ),
            },
    {
        let b = or_default(block_size, DEFAULT_BLOCK_SIZE);
        let n = or_default(count, DEFAULT_COUNT);
        match mode {
            Mode::Write => match file {
                Some(f) => Ok(Cmd { sub: SubCmd::Write { file: f, block_size: b, count: n } }),
                None => Err(ParseError::MissingFile),
            },
            Mode::Read => match file {
                Some(f) => Ok(Cmd { sub: SubCmd::Read { file: f, block_size: b, count: n } }),
                None => Err(ParseError::MissingFile),
            },
            Mode::Test => match resolve_test_files(file, file_write, file_read) {
                Ok((w, rd)) => Ok(
                    Cmd { sub: SubCmd::Test { file_write: w, file_read: rd, block_size: b, count: n } },
                ),
                Err(e) => Err(e),
            },
        }
    }

    /// Resolves a command line, the program's name left out: the subcommand
    /// first, then its options, in the order in which they are looked for.
    pub fn parse(words: Vec<String>) -> (r: Result<Cmd, ParseError>)
        ensures
            match resolve(words@.map_values(|w: String| w@)) {
                Ok(inv) => r is Ok && r->Ok_0@ == inv,
                Err(f) => r is Err && r->Err_0.kind() == f,
            },
    {
        let mut args = arguments_from(words);
        let name = match take_subcommand(&mut args) {
            Ok(n) => n,
            Err(e) => return Err(ParseError::Arguments(e)),
        };
        let mode = match select_mode(&name) {
            Some(m) => m,
            None => return Err(ParseError::InvalidSubcommand),
        };
        proof {
            reveal_strlit("-f");
            reveal_strlit("--file");
            reveal_strlit("--file-write");
            reveal_strlit("--file-read");
            reveal_strlit("-s");
            reveal_strlit("--block-size");
            reveal_strlit("-c");
            reveal_strlit("--count");
        }
        let file: Option<String> = match take_text(&mut args, "-f", "--file") {
            Ok(v) => v,
            Err(e) => return Err(ParseError::Arguments(e)),
        };
        let mut file_write: Option<String> = None;
        let mut file_read: Option<String> = None;
        if mode == Mode::Test {
            file_write = match take_long_text(&mut args, "--file-write") {
                Ok(v) => v,
                Err(e) => return Err(ParseError::Arguments(e)),
            };
            if file_write.is_none() && file.is_none() {
                return Err(ParseError::MissingFileWrite);
            }
            file_read = match take_long_text(&mut args, "--file-read") {
                Ok(v) => v,
                Err(e) => return Err(ParseError::Arguments(e)),
            };
            if file_read.is_none() && file.is_none() {
                return Err(ParseError::MissingFileRead);
            }
        } else if file.is_none() {
            return Err(ParseError::MissingFile);
        }
        let block_size: Option<u64> = match take_number(&mut args, "-s", "--block-size") {
            Ok(v) => v,
            Err(e) => return Err(ParseError::Arguments(e)),
        };
        let count: Option<u64> = match take_number(&mut args, "-c", "--count") {
            Ok(v) => v,
            Err(e) => return Err(ParseError::Arguments(e)),
        };
        Cmd::build(mode, file, file_write, file_read, block_size, count)
    }
}

} // verus!
