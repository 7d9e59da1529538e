//! Presentation style and log level configuration.
//!
//! Both values are read once at startup from their textual form and are
//! immutable afterwards. `PrintStyle` selects the outer envelope of a log
//! event (human-readable block vs. single-line structured JSON) and whether
//! nested fields are pretty-printed; `LogLevel` gates how much is emitted.

use vstd::prelude::*;

use crate::text::lower_text;
use crate::text::chars_of;

verus! {

/// The outer format of a log event. `Pretty` and `Plain` both select the
/// human-readable block; `Pretty` additionally pretty-prints nested fields;
/// `Json` selects the single-line structured envelope.
#[derive(PartialEq, Eq, Structural, Clone, Copy, Debug)]
pub enum PrintStyle {
    Pretty,
    Plain,
    Json,
}

/// How much the log sink is asked to emit.
#[derive(PartialEq, Eq, Structural, Clone, Copy, Debug)]
pub enum LogLevel {
    /// Only errors and warnings: `"critical"`.
    Critical,
    /// Everything except debug and trace information: `"normal"`.
    Normal,
    /// Everything: `"debug"`.
    Debug,
    /// Nothing: `"off"`.
    Off,
}

/// The style named by a configuration string, if any.
pub open spec fn print_style_of(s: Seq<char>) -> Option<PrintStyle> {
    if s == "pretty"@ {
        Some(PrintStyle::Pretty)
    } else if s == "plain"@ {
        Some(PrintStyle::Plain)
    } else if s == "json"@ {
        Some(PrintStyle::Json)
    } else {
        None
    }
}

/// The level named by a configuration string, compared without regard to
/// ASCII case, if any.
pub open spec fn log_level_of(s: Seq<char>) -> Option<LogLevel> {
    if lower_text(s) == "critical"@ {
        Some(LogLevel::Critical)
    } else if lower_text(s) == "normal"@ {
        Some(LogLevel::Normal)
    } else if lower_text(s) == "debug"@ {
        Some(LogLevel::Debug)
    } else if lower_text(s) == "off"@ {
        Some(LogLevel::Off)
    } else {
        None
    }
}

/// Compare two character vectors for equality.
fn texts_equal(a: &Vec<char>, b: &Vec<char>) -> (r: bool)
    ensures
        r == (a@ == b@),
{
    if a.len() != b.len() {
        return false;
    }
    let n = a.len();
    for i in 0..n
        invariant
            n == a@.len(),
            n == b@.len(),
            forall|j: int| 0 <= j < i ==> a@[j] == b@[j],
    {
        if a[i] != b[i] {
            return false;
        }
    }
    assert(a@ =~= b@);
    true
}

impl PrintStyle {
    /// The canonical name of each style.
    pub open spec fn name(self) -> Seq<char> {
        match self {
            PrintStyle::Json => "json"@,
            PrintStyle::Plain => "plain"@,
            PrintStyle::Pretty => "pretty"@,
        }
    }

    /// The canonical name of each style, as text.
    pub fn to_str(&self) -> (r: &'static str)
        ensures
            r@ == self.name(),
    {
        match self {
            Self::Json => "json",
            Self::Plain => "plain",
            Self::Pretty => "pretty",
        }
    }

    /// Recognize a configuration string; `None` for anything but the three
    /// canonical names.
    pub fn parse(input: &str) -> (r: Option<PrintStyle>)
        ensures
            r == print_style_of(input@),
    {
        let cs = chars_of(input);
        if texts_equal(&cs, &chars_of("pretty")) {
            Some(PrintStyle::Pretty)
        } else if texts_equal(&cs, &chars_of("plain")) {
            Some(PrintStyle::Plain)
        } else if texts_equal(&cs, &chars_of("json")) {
            Some(PrintStyle::Json)
        } else {
            None
        }
    }

    /// The style named by the input, which must be one of the three
    /// canonical names.
    pub fn from(input: &str) -> (r: PrintStyle)
        requires
            print_style_of(input@) is Some,
        ensures
            Some(r) == print_style_of(input@),
    {
        PrintStyle::parse(input).unwrap()
    }

    /// Whether the single-line structured JSON envelope is selected.
    pub fn json_envelope(&self) -> (r: bool)
        ensures
            r == (self is Json),
    {
        *self == PrintStyle::Json
    }

    /// Whether nested fields (body, headers, query) are pretty-printed.
    pub fn pretty_fields(&self) -> (r: bool)
        ensures
            r == (self is Pretty),
    {
        *self == PrintStyle::Pretty
    }
}

/// Fold a text to lower case.
fn lower_chars(s: &Vec<char>) -> (r: Vec<char>)
    ensures
        r@ == lower_text(s@),
{
    let mut out: Vec<char> = Vec::new();
    let n = s.len();
    for i in 0..n
        invariant
            n == s@.len(),
            out@.len() == i,
            forall|j: int| 0 <= j < i ==> out@[j] == crate::text::lower_char(s@[j]),
    {
        out.push(crate::text::lower_char_exec(s[i]));
    }
    assert(out@ =~= lower_text(s@));
    out
}

impl LogLevel {
    /// Recognize a configuration string, without regard to ASCII case;
    /// `None` for anything but the four canonical names.
    pub fn parse(s: &str) -> (r: Option<LogLevel>)
        ensures
            r == log_level_of(s@),
    {
        let lowered = lower_chars(&chars_of(s));
        if texts_equal(&lowered, &chars_of("critical")) {
            Some(LogLevel::Critical)
        } else if texts_equal(&lowered, &chars_of("normal")) {
            Some(LogLevel::Normal)
        } else if texts_equal(&lowered, &chars_of("debug")) {
            Some(LogLevel::Debug)
        } else if texts_equal(&lowered, &chars_of("off")) {
            Some(LogLevel::Off)
        } else {
            None
        }
    }

    /// The level named by the input, which must be one of the four
    /// canonical names up to ASCII case.
    pub fn from(s: &str) -> (r: LogLevel)
        requires
            log_level_of(s@) is Some,
        ensures
            Some(r) == log_level_of(s@),
    {
        LogLevel::parse(s).unwrap()
    }

    /// The filter directive each level stands for.
    pub open spec fn directive(self) -> Seq<char> {
        match self {
            LogLevel::Critical => "warn,hyper=off,rustls=off"@,
            LogLevel::Normal => "info,hyper=off,rustls=off"@,
            LogLevel::Debug => "trace"@,
            LogLevel::Off => "off"@,
        }
    }

    /// The directive handed to the log sink's filter: warnings and errors
    /// only for `Critical`, informational events for `Normal`, everything
    /// for `Debug`, and nothing for `Off`; the forwarding machinery's own
    /// chatter is always filtered out.
    pub fn filter_directive(&self) -> (r: &'static str)
        ensures
            r@ == self.directive(),
    {
        match self {
            LogLevel::Critical => "warn,hyper=off,rustls=off",
            LogLevel::Normal => "info,hyper=off,rustls=off",
            LogLevel::Debug => "trace",
            LogLevel::Off => "off",
        }
    }
}

} // verus!
