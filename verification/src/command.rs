//! The options of the command line, as plain values.

use crate::text::to_chars;
use vstd::prelude::*;
use vstd::string::StringExecFns;

verus! {

/// Options that all subcommands share.
#[derive(Debug, Clone)]
pub struct CommonOptions {
    /// The application configuration file to load.
    pub config: Option<String>,
    /// The user preferences file to load.
    pub prefs: Option<String>,
    /// Shorten filenames by omitting path prefixes.
    pub short_names: bool,
    /// Promote any warnings into errors and abort.
    pub promote_warnings_to_errors: bool,
    /// When to color output.
    pub color: ColorOption,
    /// Provide more detailed messages.
    pub verbose: bool,
    /// Silence all non-error program output.
    pub quiet: bool,
    /// Print trace messages.
    pub trace: bool,
}

/// A subcommand with its options.
#[derive(Debug, Clone)]
pub enum CommandOptions {
    /// Initialize a stall directory by generating a stall file.
    Init {
        /// Common command options.
        common: CommonOptions,
        /// The stall file to create.
        stall: Option<String>,
        /// Print intended operations instead of running them.
        dry_run: bool,
    },
    /// Print the status of stalled files.
    Status {
        /// Common command options.
        common: CommonOptions,
        /// The stall file or directory.
        stall: Option<String>,
    },
    /// Add files to a stall.
    Add {
        /// Common command options.
        common: CommonOptions,
        /// The stall file or directory.
        stall: Option<String>,
        /// The files to add to the stall.
        files: Vec<String>,
        /// Rename the file within the stall. Cannot be used if multiple files
        /// are added.
        rename: Option<String>,
        /// Add stall files to a subdirectory.
        into: Option<String>,
        /// Immediately collect the added files.
        collect: bool,
        /// Print intended operations instead of running them.
        dry_run: bool,
    },
    /// Remove files from a stall.
    Remove {
        /// Common command options.
        common: CommonOptions,
        /// The stall file or directory.
        stall: Option<String>,
        /// The files to remove from the stall.
        files: Vec<String>,
        /// Delete the stalled file copy.
        delete: bool,
        /// Select files to delete based on their remote paths instead of
        /// their paths within the stall directory.
        remote_naming: bool,
        /// Print intended operations instead of running them.
        dry_run: bool,
    },
    /// Rename a file in a stall. Future collect/distribute actions will use
    /// the new name.
    Move {
        /// Common command options.
        common: CommonOptions,
        /// The stall file or directory.
        stall: Option<String>,
        /// The current name of the file in the stall.
        from: String,
        /// The new name of the file in the stall.
        to: String,
        /// Move the stalled file copy.
        move_file: bool,
        /// Force copy even if files exist.
        force: bool,
        /// Print intended operations instead of running them.
        dry_run: bool,
    },
    /// Copy files into the stall directory from their remote locations.
    Collect {
        /// Common command options.
        common: CommonOptions,
        /// The stall file or directory.
        stall: Option<String>,
        /// Specific files to collect. Defaults to all files.
        files: Vec<String>,
        /// Force copy even if files are unmodified.
        force: bool,
        /// Print intended operations instead of running them.
        dry_run: bool,
    },
    /// Copy files from the stall directory to their remote locations.
    Distribute {
        /// Common command options.
        common: CommonOptions,
        /// The stall file or directory.
        stall: Option<String>,
        /// Specific files to distribute. Defaults to all files.
        files: Vec<String>,
        /// Force copy even if files are unmodified.
        force: bool,
        /// Print intended operations instead of running them.
        dry_run: bool,
    },
}

impl CommandOptions {
    /// The stall path that the subcommand was given, whichever it is.
    pub open spec fn stall_option(&self) -> Option<String> {
        match self {
            CommandOptions::Init { stall, .. } => *stall,
            CommandOptions::Status { stall, .. } => *stall,
            CommandOptions::Add { stall, .. } => *stall,
            CommandOptions::Remove { stall, .. } => *stall,
            CommandOptions::Move { stall, .. } => *stall,
            CommandOptions::Collect { stall, .. } => *stall,
            CommandOptions::Distribute { stall, .. } => *stall,
        }
    }

    /// The common options that the subcommand was given, whichever it is.
    pub open spec fn common_options(&self) -> CommonOptions {
        match self {
            CommandOptions::Init { common, .. } => *common,
            CommandOptions::Status { common, .. } => *common,
            CommandOptions::Add { common, .. } => *common,
            CommandOptions::Remove { common, .. } => *common,
            CommandOptions::Move { common, .. } => *common,
            CommandOptions::Collect { common, .. } => *common,
            CommandOptions::Distribute { common, .. } => *common,
        }
    }

    /// Returns true if the command is an `Init` variant.
    #[must_use]
    pub fn is_init(&self) -> (init: bool)
        ensures
            init == (self is Init),
    {
        match self {
            CommandOptions::Init { .. } => true,
            _ => false,
        }
    }

    /// Returns the provided stall path, if any.
    #[must_use]
    pub fn stall(&self) -> (path: Option<&str>)
        ensures
            match path {
                Some(p) => self.stall_option() is Some && self.stall_option()->0@ == p@,
                None => self.stall_option() is None,
            },
    {
        let stall = match self {
            CommandOptions::Init { stall, .. } => stall,
            CommandOptions::Status { stall, .. } => stall,
            CommandOptions::Add { stall, .. } => stall,
            CommandOptions::Remove { stall, .. } => stall,
            CommandOptions::Move { stall, .. } => stall,
            CommandOptions::Collect { stall, .. } => stall,
            CommandOptions::Distribute { stall, .. } => stall,
        };
        match stall {
            Some(p) => Some(p.as_str()),
            None => None,
        }
    }

    /// Returns the `CommonOptions`.
    #[must_use]
    pub fn common(&self) -> (common: &CommonOptions)
        ensures
            *common == self.common_options(),
    {
        match self {
            CommandOptions::Init { common, .. } => common,
            CommandOptions::Status { common, .. } => common,
            CommandOptions::Add { common, .. } => common,
            CommandOptions::Remove { common, .. } => common,
            CommandOptions::Move { common, .. } => common,
            CommandOptions::Collect { common, .. } => common,
            CommandOptions::Distribute { common, .. } => common,
        }
    }
}

/// When to color output.
#[derive(Debug, Clone, Copy, PartialEq, Eq, Structural)]
pub enum ColorOption {
    /// Color usage is automatically determined based on environment
    /// variables and TTY usage.
    Auto,
    /// Color output should always be generated.
    Always,
    /// Color output should never be generated.
    Never,
}

/// An error indicating a failure to parse a [`ColorOption`].
#[derive(Debug, Clone, Copy, PartialEq, Eq, Structural)]
pub struct ColorOptionParseError;

impl ColorOptionParseError {
    /// The error in words.
    pub fn message(&self) -> (text: String)
        ensures
            text@ == "failure to parse ColorOption"@,
    {
        String::from_str("failure to parse ColorOption")
    }
}

/// The code point of `c`, or of its lower case where `c` is an upper-case
/// letter of ASCII.
pub open spec fn ascii_lower(c: char) -> u32 {
    let u = c as u32;
    if 0x41 <= u <= 0x5A {
        (u + 0x20) as u32
    } else {
        u
    }
}

/// Whether two texts are the same but for the case of ASCII letters.
pub open spec fn eq_ignore_ascii_case(a: Seq<char>, b: Seq<char>) -> bool {
    a.len() == b.len() && forall|i: int| 0 <= i < a.len() ==> ascii_lower(a[i]) == ascii_lower(b[i])
}

fn char_ascii_lower(c: char) -> (u: u32)
    ensures
        u == ascii_lower(c),
{
    let u: u32 = c as u32;
    if 0x41 <= u && u <= 0x5A {
        u + 0x20
    } else {
        u
    }
}

/// Tests whether two texts are the same but for the case of ASCII letters.
fn text_eq_ignore_ascii_case(a: &[char], b: &str) -> (same: bool)
    ensures
        same == eq_ignore_ascii_case(a@, b@),
{
    let other = to_chars(b);
    if a.len() != other.len() {
        return false;
    }
    let mut i: usize = 0;
    while i < a.len()
        invariant
            i <= a.len() == other.len(),
            other@ == b@,
            forall|j: int| 0 <= j < i ==> ascii_lower(a@[j]) == ascii_lower(other@[j]),
        decreases a.len() - i,
    {
        if char_ascii_lower(a[i]) != char_ascii_lower(other[i]) {
            assert(ascii_lower(a@[i as int]) != ascii_lower(b@[i as int]));
            return false;
        }
        i = i + 1;
    }
    true
}

/// `colored::control::SHOULD_COLORIZE.should_colorize()`: whether the
/// environment and the terminal ask for coloured output. Nothing is known of
/// the answer here; it may differ from run to run.
#[verifier::external_body]
fn should_colorize() -> bool {
    colored::control::SHOULD_COLORIZE.should_colorize()
}

impl ColorOption {
    /// Whether colored output is used, where `detected` is what the
    /// environment asks for.
    pub open spec fn decide(self, detected: bool) -> bool {
        match self {
            ColorOption::Auto => detected,
            ColorOption::Always => true,
            ColorOption::Never => false,
        }
    }

    /// The option that a word names: `auto`, `always` or `never`, in any
    /// case of the letters.
    pub open spec fn named(word: Seq<char>) -> Option<ColorOption> {
        if eq_ignore_ascii_case(word, "auto"@) {
            Some(ColorOption::Auto)
        } else if eq_ignore_ascii_case(word, "always"@) {
            Some(ColorOption::Always)
        } else if eq_ignore_ascii_case(word, "never"@) {
            Some(ColorOption::Never)
        } else {
            None
        }
    }

    /// Returns true if colored output should be used, given what the
    /// environment asks for.
    #[must_use]
    pub fn enabled_when(&self, detected: bool) -> (enabled: bool)
        ensures
            enabled == self.decide(detected),
    {
        match self {
            ColorOption::Auto => detected,
            ColorOption::Always => true,
            ColorOption::Never => false,
        }
    }

    /// Returns true if colored output should be used. With `Auto` the
    /// environment and the terminal decide.
    #[must_use]
    pub fn enabled(&self) -> (enabled: bool)
        ensures
            exists|detected: bool| enabled == #[trigger] self.decide(detected),
            *self != ColorOption::Auto ==> enabled == (*self == ColorOption::Always),
    {
        match self {
            ColorOption::Auto => {
                let detected = should_colorize();
                assert(detected == self.decide(detected));
                detected
            },
            ColorOption::Always => {
                assert(self.decide(true));
                true
            },
            ColorOption::Never => {
                assert(!self.decide(true));
                false
            },
        }
    }

    /// Reads an option from its name: `auto`, `always` or `never`, in any
    /// case of the letters.
    pub fn parse(s: &str) -> (parsed: Result<ColorOption, ColorOptionParseError>)
        ensures
            match parsed {
                Ok(option) => ColorOption::named(s@) == Some(option),
                Err(_) => ColorOption::named(s@) is None,
            },
    {
        let word = to_chars(s);
        if text_eq_ignore_ascii_case(word.as_slice(), "auto") {
            Ok(ColorOption::Auto)
        } else if text_eq_ignore_ascii_case(word.as_slice(), "always") {
            Ok(ColorOption::Always)
        } else if text_eq_ignore_ascii_case(word.as_slice(), "never") {
            Ok(ColorOption::Never)
        } else {
            Err(ColorOptionParseError)
        }
    }
}

impl std::str::FromStr for ColorOption {
    type Err = ColorOptionParseError;

    /// Reads an option from its name: `auto`, `always` or `never`, in any
    /// case of the letters. Every other word is an error.
    fn from_str(s: &str) -> (parsed: Result<Self, Self::Err>)
        ensures
            match parsed {
                Ok(option) => ColorOption::named(s@) == Some(option),
                Err(_) => ColorOption::named(s@) is None,
            },
    {
        ColorOption::parse(s)
    }
}

} // verus!
