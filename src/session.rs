use vstd::prelude::*;
use crate::render::{
    entries_height, height, items_height, lines_of, lines_view, render, Line,
};
use crate::values::VizValue;

verus! {

broadcast use vstd::std_specs::vec::group_vec_axioms, vstd::seq::group_seq_axioms;

/// The indent width used when none is given.
pub const DEFAULT_INDENT: usize = 2;

/// The widest indent accepted.
pub const MAX_INDENT: usize = 10;

/// The input formats, each read by its own adapter.
#[derive(Clone, Copy, PartialEq, Eq, Structural, Debug)]
pub enum Format {
    Json,
    Toml,
    Yaml,
}

/// Everything that can stop a run.
#[derive(Clone, Debug, PartialEq, Eq)]
pub enum AppError {
    /// Standard input could not be read; the reader's message.
    StdinUnreadable(String),
    FileNotFound,
    /// The file could not be read; the reader's message.
    FileUnreadable(String),
    /// Input came from standard input and no language was named for it.
    MissingLanguage,
    /// The indent width is above `MAX_INDENT`.
    IndentTooLarge,
    UnsupportedFormat,
    /// The adapter refused the text; its message.
    Parse(String),
    /// The adapter produced a root that is not an object.
    NotAnObject,
    /// The tree is nested too deeply to count its levels.
    TooDeep,
}

/// What the command line and the environment asked for.
#[derive(Clone, Debug)]
pub struct Options {
    /// The file to read; none, or an empty path, means standard input.
    pub path: Option<String>,
    /// The format of standard input.
    pub language: Option<String>,
    pub indent: Option<usize>,
    /// The no-colour flag.
    pub no_color: bool,
    /// Whether `NO_COLOR` is set in the environment, whatever its value.
    pub no_color_env: bool,
}

/// What came of reading a file.
#[derive(Debug)]
pub enum FileRead {
    Missing,
    /// The file exists and could not be read; the reader's message.
    Failed(String),
    /// The file's text and the extension of its path, if it has one.
    Text { contents: String, extension: Option<String> },
}

/// The state of one run, between outside steps.
#[derive(Debug)]
pub enum Session {
    Start,
    Reading(Options),
    Parsing { colored: bool, width: usize },
    Finished,
}

/// What the outside world reports back to a session.
#[derive(Debug)]
pub enum Event {
    Begin(Options),
    StdinRead(Result<String, String>),
    FileRead(FileRead),
    /// What the format adapter made of the text, or its message.
    Parsed(Result<VizValue, String>),
}

/// What the session asks the outside world to do next.
#[derive(Debug)]
pub enum Action {
    ReadStdin,
    ReadFile(String),
    Parse { contents: String, format: Format },
    /// Print the lines, `width` spaces per level, in colour or not.
    Print { colored: bool, width: usize, lines: Vec<Line> },
    /// Report the error and stop with a failure status.
    Fail(AppError),
}

/// The lower-case form of a text, as `str::to_lowercase` gives it.
pub uninterp spec fn lower_of(s: Seq<char>) -> Seq<char>;

/// Relies on `str::to_lowercase`: its result depends on the characters alone.
#[verifier::external_body]
fn lowercase(s: &str) -> (r: String)
    ensures
        r@ == lower_of(s@),
{
    s.to_lowercase()
}

/// Colour is on unless `NO_COLOR` is set or the flag asks it off.
pub open spec fn color_on(no_color_env: bool, no_color: bool) -> bool {
    !no_color_env && !no_color
}

pub open spec fn reads_stdin(path: Option<String>) -> bool {
    match path {
        Some(p) => p@.len() == 0,
        None => true,
    }
}

pub open spec fn indent_outcome(indent: Option<usize>) -> Result<usize, AppError> {
    match indent {
        Some(n) => if n <= MAX_INDENT {
            Ok(n)
        } else {
            Err(AppError::IndentTooLarge)
        },
        None => Ok(DEFAULT_INDENT),
    }
}

pub open spec fn format_outcome(ext: Seq<char>) -> Result<Format, AppError> {
    if ext == "json"@ {
        Ok(Format::Json)
    } else if ext == "toml"@ {
        Ok(Format::Toml)
    } else if ext == "yaml"@ || ext == "yml"@ {
        Ok(Format::Yaml)
    } else {
        Err(AppError::UnsupportedFormat)
    }
}

/// Whether colour is on.
pub fn configure_colors(no_color_env: bool, no_color: bool) -> (r: bool)
    ensures
        r == color_on(no_color_env, no_color),
{
    if no_color_env {
        false
    } else {
        !no_color
    }
}

/// Whether input comes from standard input rather than from a file.
pub fn input_is_stdin(path: &Option<String>) -> (r: bool)
    ensures
        r == reads_stdin(*path),
{
    match path {
        Some(p) => p.as_str().is_empty(),
        None => true,
    }
}

/// The text read from standard input, with the language named for it.
pub fn get_from_stdin(read: Result<String, String>, language: Option<String>) -> (r: Result<(String, String), AppError>)
    ensures
        read matches Err(m) ==> r == Err::<(String, String), AppError>(AppError::StdinUnreadable(m)),
        read matches Ok(c) ==> match language {
            Some(l) => r == Ok::<(String, String), AppError>((c, l)),
            None => r == Err::<(String, String), AppError>(AppError::MissingLanguage),
        },
{
    match read {
        Err(m) => Err(AppError::StdinUnreadable(m)),
        Ok(c) => match language {
            Some(l) => Ok((c, l)),
            None => Err(AppError::MissingLanguage),
        },
    }
}

/// The text read from a file, with the lower-cased extension of its path.
pub fn get_file_content(read: FileRead) -> (r: Result<(String, String), AppError>)
    ensures
        read is Missing ==> r == Err::<(String, String), AppError>(AppError::FileNotFound),
        read matches FileRead::Failed(m) ==> r == Err::<(String, String), AppError>(
            AppError::FileUnreadable(m),
        ),
        read matches FileRead::Text { contents, extension } ==> match extension {
            Some(x) => r matches Ok((c, e)) && c == contents && e@ == lower_of(x@),
            None => r == Err::<(String, String), AppError>(AppError::UnsupportedFormat),
        },
{
    match read {
        FileRead::Missing => Err(AppError::FileNotFound),
        FileRead::Failed(m) => Err(AppError::FileUnreadable(m)),
        FileRead::Text { contents, extension } => match extension {
            Some(x) => Ok((contents, lowercase(x.as_str()))),
            None => Err(AppError::UnsupportedFormat),
        },
    }
}

/// The indent width: `DEFAULT_INDENT` when none is given, refused above `MAX_INDENT`.
pub fn get_indent(indent: Option<usize>) -> (r: Result<usize, AppError>)
    ensures
        r == indent_outcome(indent),
{
    match indent {
        Some(n) => if n <= MAX_INDENT {
            Ok(n)
        } else {
            Err(AppError::IndentTooLarge)
        },
        None => Ok(DEFAULT_INDENT),
    }
}

fn same_text(a: &str, b: &str) -> (r: bool)
    ensures
        r == (a@ == b@),
{
    String::from_str(a) == String::from_str(b)
}

/// The format that a language tag or a lower-cased file extension names.
pub fn format_of(extension: &str) -> (r: Result<Format, AppError>)
    ensures
        r == format_outcome(extension@),
{
    if same_text(extension, "json") {
        Ok(Format::Json)
    } else if same_text(extension, "toml") {
        Ok(Format::Toml)
    } else if same_text(extension, "yaml") || same_text(extension, "yml") {
        Ok(Format::Yaml)
    } else {
        Err(AppError::UnsupportedFormat)
    }
}


pub open spec fn capped(n: nat) -> usize {
    if n < usize::MAX { n as usize } else { usize::MAX }
}

/// How many levels of containers `v` holds, counted up to `usize::MAX`.
pub fn nesting_depth(v: &VizValue) -> (r: usize)
    ensures
        r == capped(height(*v)),
    decreases *v,
{
    match v {
        VizValue::Array(items) => {
            let mut m: usize = 0;
            let mut i: usize = 0;
            while i < items.len()
                invariant
                    i <= items@.len(),
                    *v == VizValue::Array(*items),
                    m == capped(items_height(items@, i as nat)),
                    height(*v) == 1 + items_height(items@, items@.len()),
                decreases items@.len() - i,
            {
                assert(decreases_to!(*v => items@[i as int]));
                let h = nesting_depth(&items[i]);
                if h > m {
                    m = h;
                }
                i = i + 1;
            }
            if m < usize::MAX { m + 1 } else { usize::MAX }
        },
        VizValue::Object(entries) => {
            let mut m: usize = 0;
            let mut i: usize = 0;
            while i < entries.len()
                invariant
                    i <= entries@.len(),
                    *v == VizValue::Object(*entries),
                    m == capped(entries_height(entries@, i as nat)),
                    height(*v) == 1 + entries_height(entries@, entries@.len()),
                decreases entries@.len() - i,
            {
                assert(decreases_to!(*v => entries@[i as int].1));
                let h = nesting_depth(&entries[i].1);
                if h > m {
                    m = h;
                }
                i = i + 1;
            }
            if m < usize::MAX { m + 1 } else { usize::MAX }
        },
        _ => 0,
    }
}

/// The lines of a parsed document, whose root must be an object.
pub fn print_parsed_data(data: &VizValue) -> (r: Result<Vec<Line>, AppError>)
    ensures
        !(data is Object) ==> r == Err::<Vec<Line>, AppError>(AppError::NotAnObject),
        data is Object && height(*data) >= usize::MAX ==> r == Err::<Vec<Line>, AppError>(
            AppError::TooDeep,
        ),
        data is Object && height(*data) < usize::MAX ==> (r matches Ok(lines)
            && lines_view(lines@) == lines_of(None, *data, 0, true)),
{
    if !matches!(data, VizValue::Object(_)) {
        return Err(AppError::NotAnObject);
    }
    if nesting_depth(data) == usize::MAX {
        return Err(AppError::TooDeep);
    }
    Ok(render(data))
}


impl Session {
    /// The events that a session waits for in each state.
    pub open spec fn accepts(self, event: Event) -> bool {
        match self {
            Session::Start => event is Begin,
            Session::Reading(o) => if reads_stdin(o.path) {
                event is StdinRead
            } else {
                event is FileRead
            },
            Session::Parsing { .. } => event is Parsed,
            Session::Finished => false,
        }
    }
}

/// The text and the format tag that an input event gives, or why it gives none.
pub open spec fn input_outcome(o: Options, event: Event) -> Result<(Seq<char>, Seq<char>), AppError> {
    match event {
        Event::StdinRead(Err(m)) => Err(AppError::StdinUnreadable(m)),
        Event::StdinRead(Ok(c)) => match o.language {
            Some(l) => Ok((c@, l@)),
            None => Err(AppError::MissingLanguage),
        },
        Event::FileRead(FileRead::Missing) => Err(AppError::FileNotFound),
        Event::FileRead(FileRead::Failed(m)) => Err(AppError::FileUnreadable(m)),
        Event::FileRead(FileRead::Text { contents, extension }) => match extension {
            Some(x) => Ok((contents@, lower_of(x@))),
            None => Err(AppError::UnsupportedFormat),
        },
        _ => Err(AppError::UnsupportedFormat),
    }
}

/// What a session does after its input is read: stop on the first error among
/// the input, the indent width and the format tag, else ask for the text to be parsed.
pub open spec fn after_input(o: Options, event: Event, next: Session, action: Action) -> bool {
    match input_outcome(o, event) {
        Err(e) => next is Finished && action == Action::Fail(e),
        Ok((text, tag)) => match indent_outcome(o.indent) {
            Err(e) => next is Finished && action == Action::Fail(e),
            Ok(width) => match format_outcome(tag) {
                Err(e) => next is Finished && action == Action::Fail(e),
                Ok(f) => {
                    &&& next == Session::Parsing { colored: color_on(o.no_color_env, o.no_color), width }
                    &&& action matches Action::Parse { contents, format } && contents@ == text && format == f
                },
            },
        },
    }
}

/// What a session does with the adapter's result.
pub open spec fn after_parse(colored: bool, width: usize, parsed: Result<VizValue, String>, next: Session, action: Action) -> bool {
    &&& next is Finished
    &&& match parsed {
        Err(m) => action == Action::Fail(AppError::Parse(m)),
        Ok(v) => if !(v is Object) {
            action == Action::Fail(AppError::NotAnObject)
        } else if height(v) >= usize::MAX {
            action == Action::Fail(AppError::TooDeep)
        } else {
            &&& action matches Action::Print { colored: c, width: w, lines }
            &&& c == colored && w == width
            &&& lines_view(lines@) == lines_of(None, v, 0, true)
        },
    }
}

/// One step of a run: the next state, and what to do outside.
///
/// A run starts by choosing its input, reads it, checks the indent width and
/// the format tag, has the text parsed, and ends by printing the lines or by
/// failing with the first error met.
pub fn run(session: Session, event: Event) -> (r: (Session, Action))
    requires
        session.accepts(event),
    ensures
        session is Start ==> (event matches Event::Begin(o) && r.0 == Session::Reading(o) && if reads_stdin(o.path) {
            r.1 is ReadStdin
        } else {
            r.1 matches Action::ReadFile(p) && o.path == Some(p)
        }),
        session matches Session::Reading(o) ==> after_input(o, event, r.0, r.1),
        session matches Session::Parsing { colored, width } ==> (event matches Event::Parsed(parsed)
            && after_parse(colored, width, parsed, r.0, r.1)),
{
    match session {
        Session::Start => {
            let options = match event {
                Event::Begin(o) => o,
                _ => {
                    assert(false);
                    return (Session::Finished, Action::ReadStdin);
                }
            };
            if input_is_stdin(&options.path) {
                (Session::Reading(options), Action::ReadStdin)
            } else {
                let path = match &options.path {
                    Some(p) => p.clone(),
                    None => String::new(),
                };
                (Session::Reading(options), Action::ReadFile(path))
            }
        },
        Session::Reading(options) => {
            let colored = configure_colors(options.no_color_env, options.no_color);
            let input = match event {
                Event::StdinRead(read) => get_from_stdin(read, options.language),
                Event::FileRead(read) => get_file_content(read),
                _ => Err(AppError::UnsupportedFormat),
            };
            let (contents, tag) = match input {
                Ok(pair) => pair,
                Err(e) => return (Session::Finished, Action::Fail(e)),
            };
            let width = match get_indent(options.indent) {
                Ok(w) => w,
                Err(e) => return (Session::Finished, Action::Fail(e)),
            };
            match format_of(tag.as_str()) {
                Ok(format) => (Session::Parsing { colored, width }, Action::Parse { contents, format }),
                Err(e) => (Session::Finished, Action::Fail(e)),
            }
        },
        Session::Parsing { colored, width } => {
            let parsed = match event {
                Event::Parsed(p) => p,
                _ => {
                    assert(false);
                    return (Session::Finished, Action::ReadStdin);
                }
            };
            match parsed {
                Err(m) => (Session::Finished, Action::Fail(AppError::Parse(m))),
                Ok(v) => match print_parsed_data(&v) {
                    Ok(lines) => (Session::Finished, Action::Print { colored, width, lines }),
                    Err(e) => (Session::Finished, Action::Fail(e)),
                },
            }
        },
        Session::Finished => (Session::Finished, Action::ReadStdin),
    }
}

} // verus!
