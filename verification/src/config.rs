//! The settings of a run, as the command line gives them.

use vstd::prelude::*;
use crate::naming::{join_path, joined};
use crate::retry::Pause;
use crate::text::{parse_u64, parsed_u64, pieces, same_text, split_pieces, strings_view};

verus! {

/// The settings of a run.
pub struct Config {
    /// The directory that the site is mirrored into.
    pub output_dir: String,
    /// The seconds to let pass before each request; 0 for none.
    pub rate_limit_secs: u64,
    /// The number of transfers of one directory that may run at a time; 0 for all.
    pub concurrency: usize,
    /// Whether the external download manager may be used.
    pub use_aria: bool,
    /// The options to hand to the external download manager, if any were given.
    pub aria_opts: Option<String>,
    /// The size in bytes above which the external download manager is used; 0 for always.
    pub aria_threshold: u64,
    /// The path below the site's root at which the run begins, if one was given.
    pub start_path: Option<String>,
}

/// The settings of a run as contracts see them.
pub struct ConfigView {
    pub output_dir: Seq<char>,
    pub rate_limit_secs: u64,
    pub concurrency: usize,
    pub use_aria: bool,
    pub aria_opts: Option<Seq<char>>,
    pub aria_threshold: u64,
    pub start_path: Option<Seq<char>>,
}

/// `text` as contracts see it.
pub open spec fn optional_view(text: Option<String>) -> Option<Seq<char>> {
    match text {
        Some(value) => Some(value@),
        None => None,
    }
}

impl View for Config {
    type V = ConfigView;

    open spec fn view(&self) -> ConfigView {
        ConfigView {
            output_dir: self.output_dir@,
            rate_limit_secs: self.rate_limit_secs,
            concurrency: self.concurrency,
            use_aria: self.use_aria,
            aria_opts: optional_view(self.aria_opts),
            aria_threshold: self.aria_threshold,
            start_path: optional_view(self.start_path),
        }
    }
}

/// What is wrong with a command line.
pub enum ArgError {
    /// This flag stands at the end, without the value it needs.
    MissingValue { flag: String },
    /// The value given for the rate limit is no number.
    InvalidRateLimit { value: String },
    /// The value given for the concurrency is no number.
    InvalidConcurrency { value: String },
    /// The value given for the size threshold is no number.
    InvalidThreshold { value: String },
}

/// An error as contracts see it.
pub enum ArgErrorView {
    MissingValue { flag: Seq<char> },
    InvalidRateLimit { value: Seq<char> },
    InvalidConcurrency { value: Seq<char> },
    InvalidThreshold { value: Seq<char> },
}

impl View for ArgError {
    type V = ArgErrorView;

    open spec fn view(&self) -> ArgErrorView {
        match self {
            ArgError::MissingValue { flag } => ArgErrorView::MissingValue { flag: flag@ },
            ArgError::InvalidRateLimit { value } => ArgErrorView::InvalidRateLimit { value: value@ },
            ArgError::InvalidConcurrency { value } => ArgErrorView::InvalidConcurrency {
                value: value@,
            },
            ArgError::InvalidThreshold { value } => ArgErrorView::InvalidThreshold { value: value@ },
        }
    }
}

/// What a command line asks for.
pub enum Invocation {
    /// To show the usage and do nothing else.
    Help,
    /// To run with these settings.
    Run { config: Config },
}

/// An invocation as contracts see it.
pub enum InvocationView {
    Help,
    Run { config: ConfigView },
}

impl View for Invocation {
    type V = InvocationView;

    open spec fn view(&self) -> InvocationView {
        match self {
            Invocation::Help => InvocationView::Help,
            Invocation::Run { config } => InvocationView::Run { config: config@ },
        }
    }
}

/// The settings of a run that is given no argument.
pub open spec fn default_config() -> ConfigView {
    ConfigView {
        output_dir: "Downloads"@,
        rate_limit_secs: 0,
        concurrency: 0,
        use_aria: false,
        aria_opts: None,
        aria_threshold: 0,
        start_path: None,
    }
}

/// Whether `arg` asks for the usage.
pub open spec fn is_help_flag(arg: Seq<char>) -> bool {
    arg == "-h"@ || arg == "--help"@
}

/// Whether one of `args` asks for the usage.
pub open spec fn asks_for_help(args: Seq<Seq<char>>) -> bool {
    exists|i: int| 0 <= i < args.len() && is_help_flag(#[trigger] args[i])
}

/// The number that `text` writes, where it fits the machine's word.
pub open spec fn parsed_usize(text: Seq<char>) -> Option<usize> {
    match parsed_u64(text) {
        Some(number) => if number <= usize::MAX {
            Some(number as usize)
        } else {
            None
        },
        None => None,
    }
}

/// The settings that the arguments from position `i` on make of `config`,
/// read from the left. A flag that takes a value takes the argument behind
/// it, whatever that is. The first argument that is no flag is the path to
/// begin at; later ones are passed over.
pub open spec fn parsed_from(args: Seq<Seq<char>>, i: int, config: ConfigView) -> Result<
    ConfigView,
    ArgErrorView,
>
    decreases args.len() - i,
{
    if i < 0 || i >= args.len() {
        Ok(config)
    } else {
        let arg = args[i];
        if arg == "-a"@ || arg == "--aria"@ {
            parsed_from(args, i + 1, ConfigView { use_aria: true, ..config })
        } else if takes_value(arg) {
            if i + 1 >= args.len() {
                Err(ArgErrorView::MissingValue { flag: arg })
            } else {
                let value = args[i + 1];
                if arg == "-o"@ || arg == "--output-dir"@ {
                    parsed_from(args, i + 2, ConfigView { output_dir: value, ..config })
                } else if arg == "-r"@ || arg == "--rate-limit"@ {
                    match parsed_u64(value) {
                        Some(secs) => parsed_from(
                            args,
                            i + 2,
                            ConfigView { rate_limit_secs: secs, ..config },
                        ),
                        None => Err(ArgErrorView::InvalidRateLimit { value }),
                    }
                } else if arg == "-c"@ || arg == "--concurrency"@ {
                    match parsed_usize(value) {
                        Some(limit) => parsed_from(
                            args,
                            i + 2,
                            ConfigView { concurrency: limit, ..config },
                        ),
                        None => Err(ArgErrorView::InvalidConcurrency { value }),
                    }
                } else if arg == "--aria-opts"@ {
                    parsed_from(args, i + 2, ConfigView { aria_opts: Some(value), ..config })
                } else {
                    match parsed_u64(value) {
                        Some(bytes) => parsed_from(
                            args,
                            i + 2,
                            ConfigView { aria_threshold: bytes, ..config },
                        ),
                        None => Err(ArgErrorView::InvalidThreshold { value }),
                    }
                }
            }
        } else {
            parsed_from(
                args,
                i + 1,
                if config.start_path is None {
                    ConfigView { start_path: Some(arg), ..config }
                } else {
                    config
                },
            )
        }
    }
}

/// Whether `arg` is a flag that takes the argument behind it as its value.
pub open spec fn takes_value(arg: Seq<char>) -> bool {
    ||| arg == "-o"@
    ||| arg == "--output-dir"@
    ||| arg == "-r"@
    ||| arg == "--rate-limit"@
    ||| arg == "-c"@
    ||| arg == "--concurrency"@
    ||| arg == "--aria-opts"@
    ||| arg == "--aria-threshold"@
}

/// What the command line `args` asks for, the program's own name being its
/// first word: the usage where any word asks for it, else a run with the
/// settings that the words behind the first make of the default ones.
pub open spec fn parsed_args(args: Seq<Seq<char>>) -> Result<InvocationView, ArgErrorView> {
    if asks_for_help(args) {
        Ok(InvocationView::Help)
    } else {
        match parsed_from(args, 1, default_config()) {
            Ok(config) => Ok(InvocationView::Run { config }),
            Err(error) => Err(error),
        }
    }
}

/// Reads a number that fits the machine's word, written in decimal digits.
pub fn parse_usize(text: &str) -> (number: Option<usize>)
    ensures
        number == parsed_usize(text@),
{
    match parse_u64(text) {
        Some(number) => if number <= usize::MAX as u64 {
            Some(number as usize)
        } else {
            None
        },
        None => None,
    }
}

fn any_help_flag(args: &Vec<String>) -> (found: bool)
    ensures
        found == asks_for_help(strings_view(args@)),
{
    let mut i: usize = 0;
    while i < args.len()
        invariant
            i <= args.len(),
            forall|j: int| 0 <= j < i ==> !is_help_flag(#[trigger] strings_view(args@)[j]),
        decreases args.len() - i,
    {
        let arg = args[i].as_str();
        if same_text(arg, "-h") || same_text(arg, "--help") {
            assert(is_help_flag(strings_view(args@)[i as int]));
            return true;
        }
        i += 1;
    }
    false
}

/// Reads the command line. The first word is the program's own name.
///
/// Each error comes exactly where the words call for it: a flag without its
/// value, or a value that is no number where one is needed.
pub fn parse_args(args: &Vec<String>) -> (invocation: Result<Invocation, ArgError>)
    ensures
        match invocation {
            Ok(asked) => parsed_args(strings_view(args@)) == Ok::<InvocationView, ArgErrorView>(
                asked@,
            ),
            Err(error) => parsed_args(strings_view(args@)) == Err::<InvocationView, ArgErrorView>(
                error@,
            ),
        },
{
    if any_help_flag(args) {
        return Ok(Invocation::Help);
    }
    let ghost words = strings_view(args@);
    let mut config = Config {
        output_dir: String::from_str("Downloads"),
        rate_limit_secs: 0,
        concurrency: 0,
        use_aria: false,
        aria_opts: None,
        aria_threshold: 0,
        start_path: None,
    };
    let mut i: usize = 1;
    while i < args.len()
        invariant
            1 <= i,
            words == strings_view(args@),
            !asks_for_help(words),
            parsed_from(words, 1, default_config()) == parsed_from(words, i as int, config@),
        decreases args.len() - i,
    {
        let arg = args[i].as_str();
        assert(words[i as int] == arg@);
        if same_text(arg, "-a") || same_text(arg, "--aria") {
            config.use_aria = true;
            i += 1;
        } else {
            let output = same_text(arg, "-o") || same_text(arg, "--output-dir");
            let rate = same_text(arg, "-r") || same_text(arg, "--rate-limit");
            let concurrency = same_text(arg, "-c") || same_text(arg, "--concurrency");
            let options = same_text(arg, "--aria-opts");
            let threshold = same_text(arg, "--aria-threshold");
            if output || rate || concurrency || options || threshold {
                if i + 1 >= args.len() {
                    return Err(ArgError::MissingValue { flag: args[i].clone() });
                }
                let value = args[i + 1].as_str();
                assert(words[i + 1] == value@);
                if output {
                    config.output_dir = args[i + 1].clone();
                } else if rate {
                    match parse_u64(value) {
                        Some(secs) => {
                            config.rate_limit_secs = secs;
                        },
                        None => {
                            return Err(ArgError::InvalidRateLimit { value: args[i + 1].clone() });
                        },
                    }
                } else if concurrency {
                    match parse_usize(value) {
                        Some(limit) => {
                            config.concurrency = limit;
                        },
                        None => {
                            return Err(
                                ArgError::InvalidConcurrency { value: args[i + 1].clone() },
                            );
                        },
                    }
                } else if options {
                    config.aria_opts = Some(args[i + 1].clone());
                } else {
                    match parse_u64(value) {
                        Some(bytes) => {
                            config.aria_threshold = bytes;
                        },
                        None => {
                            return Err(ArgError::InvalidThreshold { value: args[i + 1].clone() });
                        },
                    }
                }
                i += 2;
            } else {
                if config.start_path.is_none() {
                    config.start_path = Some(args[i].clone());
                }
                i += 1;
            }
        }
    }
    Ok(Invocation::Run { config })
}

/// The address at which the run begins: the site's root, or the path below
/// it that was asked for.
pub fn start_address(base_url: &str, start_path: Option<&str>) -> (address: String)
    ensures
        address@ == joined(
            base_url@,
            match start_path {
                Some(path) => path@,
                None => Seq::empty(),
            },
        ),
{
    match start_path {
        Some(path) => join_path(base_url, path),
        None => {
            let address = join_path(base_url, "");
            proof {
                reveal_strlit("");
                assert(""@ =~= Seq::<char>::empty());
            }
            address
        },
    }
}

/// The names of sub-collections that the run never descends into: the
/// segments of the path it begins at, so that it does not turn back into
/// what lies above or beside that path.
pub fn skip_segments(start_path: Option<&str>) -> (segments: Vec<String>)
    ensures
        strings_view(segments@) == match start_path {
            Some(path) => pieces(path@, '/'),
            None => Seq::empty(),
        },
{
    match start_path {
        Some(path) => split_pieces(path, '/'),
        None => {
            let segments: Vec<String> = Vec::new();
            assert(strings_view(segments@) =~= Seq::<Seq<char>>::empty());
            segments
        },
    }
}

/// The pause to take before a request, where a rate limit is set: as many
/// seconds as it says. A pause that would not fit is the longest that does.
pub fn rate_limit_pause(rate_limit_secs: u64) -> (pause: Option<Pause>)
    ensures
        pause == if rate_limit_secs == 0 {
            None
        } else {
            Some(
                Pause::Sleep {
                    millis: if rate_limit_secs * 1000 <= u64::MAX {
                        (rate_limit_secs * 1000) as u64
                    } else {
                        u64::MAX
                    },
                },
            )
        },
{
    if rate_limit_secs == 0 {
        None
    } else {
        let millis = match rate_limit_secs.checked_mul(1000) {
            Some(product) => product,
            None => u64::MAX,
        };
        Some(Pause::Sleep { millis })
    }
}

} // verus!
