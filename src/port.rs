//! Reading the port that a freshly spawned worker advertises on its first
//! line of standard output (`... port <N>.`).
use vstd::prelude::*;

verus! {

/// The pattern that a worker's first line of output must match; group 1 is
/// the decimal port.
pub const PORT_LINE_PATTERN: &'static str = r".*\s+port\s+(\d+)\.$";

/// Group 1 of the first match of `pattern` in `text`, if the pattern compiles,
/// matches, and its group 1 takes part in the match.
pub uninterp spec fn first_group(pattern: Seq<char>, text: Seq<char>) -> Option<Seq<char>>;

/// Relies on `regex::Regex::new` and `regex::Regex::captures`: the text of
/// capture group 1 of the leftmost-first match, which depends on the pattern
/// and the text alone.
#[verifier::external_body]
fn regex_first_group(pattern: &str, text: &str) -> (r: Option<String>)
    ensures
        r.is_some() == first_group(pattern@, text@).is_some(),
        r.is_some() ==> r.unwrap()@ == first_group(pattern@, text@).unwrap(),
{
    let re = regex::Regex::new(pattern).ok()?;
    let caps = re.captures(text)?;
    caps.get(1).map(|m| m.as_str().to_string())
}

/// Why a text is not a decimal `u16`, in the order in which the standard
/// library's integer parser reports it.
#[derive(Clone, Copy, Debug, PartialEq, Eq, Structural)]
pub enum IntErrorKind {
    Empty,
    InvalidDigit,
    PosOverflow,
}

pub open spec fn is_digit(c: char) -> bool {
    '0' <= c && c <= '9'
}

pub open spec fn digit_value(c: char) -> nat {
    (c as nat - '0' as nat) as nat
}

/// Digits read left to right onto `acc`, failing at the first non-digit or at
/// the first step past `u16::MAX`.
pub open spec fn parse_digits(acc: nat, s: Seq<char>) -> Result<u16, IntErrorKind>
    decreases s.len(),
{
    if s.len() == 0 {
        Ok(acc as u16)
    } else if !is_digit(s[0]) {
        Err(IntErrorKind::InvalidDigit)
    } else if acc * 10 + digit_value(s[0]) > u16::MAX {
        Err(IntErrorKind::PosOverflow)
    } else {
        parse_digits(acc * 10 + digit_value(s[0]), s.drop_first())
    }
}

/// A decimal `u16` as `str::parse::<u16>` reads it: an optional leading `+`,
/// then one or more ASCII digits.
pub open spec fn parse_u16(s: Seq<char>) -> Result<u16, IntErrorKind> {
    if s.len() == 0 {
        Err(IntErrorKind::Empty)
    } else if s[0] == '+' {
        if s.len() == 1 {
            Err(IntErrorKind::InvalidDigit)
        } else {
            parse_digits(0, s.drop_first())
        }
    } else if s[0] == '-' && s.len() == 1 {
        Err(IntErrorKind::InvalidDigit)
    } else {
        parse_digits(0, s)
    }
}

proof fn lemma_parse_digits_step(acc: nat, s: Seq<char>, i: int)
    requires
        0 <= i < s.len(),
    ensures
        parse_digits(acc, s.subrange(i, s.len() as int)) == ({
            if !is_digit(s[i]) {
                Err(IntErrorKind::InvalidDigit)
            } else if acc * 10 + digit_value(s[i]) > u16::MAX {
                Err(IntErrorKind::PosOverflow)
            } else {
                parse_digits(acc * 10 + digit_value(s[i]), s.subrange(i + 1, s.len() as int))
            }
        }),
{
    let t = s.subrange(i, s.len() as int);
    assert(t.drop_first() =~= s.subrange(i + 1, s.len() as int));
}

/// Parses `s` as a decimal `u16`, with the standard library's rules.
pub fn parse_port(s: &str) -> (r: Result<u16, IntErrorKind>)
    ensures
        r == parse_u16(s@),
{
    let n = s.unicode_len();
    if n == 0 {
        return Err(IntErrorKind::Empty);
    }
    let c0 = s.get_char(0);
    let mut i: usize = 0;
    if c0 == '+' {
        if n == 1 {
            return Err(IntErrorKind::InvalidDigit);
        }
        i = 1;
    } else if c0 == '-' && n == 1 {
        return Err(IntErrorKind::InvalidDigit);
    }
    let ghost start = i as int;
    proof {
        if start == 1 {
            assert(s@.drop_first() =~= s@.subrange(1, n as int));
        } else {
            assert(s@ =~= s@.subrange(0, n as int));
        }
    }
    let mut acc: u32 = 0;
    while i < n
        invariant
            n == s@.len(),
            start <= i <= n,
            acc <= u16::MAX,
            parse_u16(s@) == parse_digits(acc as nat, s@.subrange(i as int, n as int)),
        decreases n - i,
    {
        let c = s.get_char(i);
        proof {
            lemma_parse_digits_step(acc as nat, s@, i as int);
        }
        if !('0' <= c && c <= '9') {
            return Err(IntErrorKind::InvalidDigit);
        }
        let next = acc * 10 + (c as u32 - '0' as u32);
        if next > 65535 {
            return Err(IntErrorKind::PosOverflow);
        }
        acc = next;
        i = i + 1;
    }
    proof {
        assert(s@.subrange(n as int, n as int).len() == 0);
    }
    Ok(acc as u16)
}


/// What a worker that exited before advertising its port left behind.
#[derive(Clone, Debug)]
pub struct ExitReport {
    /// The exit status, as the operating system describes it.
    pub status: String,
    /// Everything the worker wrote to its standard error.
    pub stderr: String,
}

/// Why a worker's port could not be learned at startup.
#[derive(Clone, Debug)]
pub enum StartError {
    /// The first line could not be read, and the worker had not exited.
    NoPortLine(String),
    /// The first line could not be read because the worker had exited.
    Exited(ExitReport),
    /// The first line does not match [`PORT_LINE_PATTERN`].
    Unexpected(String),
    /// The advertised port is not a decimal `u16`.
    BadPort { text: String, kind: IntErrorKind },
}

pub enum StartErrorView {
    NoPortLine(Seq<char>),
    Exited { status: Seq<char>, stderr: Seq<char> },
    Unexpected(Seq<char>),
    BadPort { text: Seq<char>, kind: IntErrorKind },
}

impl View for StartError {
    type V = StartErrorView;

    open spec fn view(&self) -> StartErrorView {
        match self {
            StartError::NoPortLine(m) => StartErrorView::NoPortLine(m@),
            StartError::Exited(rep) => StartErrorView::Exited { status: rep.status@, stderr: rep.stderr@ },
            StartError::Unexpected(l) => StartErrorView::Unexpected(l@),
            StartError::BadPort { text, kind } => StartErrorView::BadPort { text: text@, kind: *kind },
        }
    }
}

pub open spec fn result_view(r: Result<u16, StartError>) -> Result<u16, StartErrorView> {
    match r {
        Ok(p) => Ok(p),
        Err(e) => Err(e@),
    }
}

/// The port that a first line advertises, given group 1 of its match against
/// [`PORT_LINE_PATTERN`] (`None` where it does not match).
pub open spec fn port_of_group(line: Seq<char>, group: Option<Seq<char>>) -> Result<u16, StartErrorView> {
    match group {
        None => Err(StartErrorView::Unexpected(line)),
        Some(g) => match parse_u16(g) {
            Ok(p) => Ok(p),
            Err(kind) => Err(StartErrorView::BadPort { text: g, kind }),
        },
    }
}

pub open spec fn port_of_line(line: Seq<char>) -> Result<u16, StartErrorView> {
    port_of_group(line, first_group(PORT_LINE_PATTERN@, line))
}

pub open spec fn option_view(o: Option<String>) -> Option<Seq<char>> {
    match o {
        Some(g) => Some(g@),
        None => None,
    }
}

/// The port advertised by `line`, given `group`, the text of group 1 of its
/// match against [`PORT_LINE_PATTERN`].
pub fn port_from_group(line: &str, group: Option<String>) -> (r: Result<u16, StartError>)
    ensures
        result_view(r) == port_of_group(line@, option_view(group)),
{
    match group {
        None => Err(StartError::Unexpected(line.to_owned())),
        Some(g) => match parse_port(g.as_str()) {
            Ok(p) => Ok(p),
            Err(kind) => Err(StartError::BadPort { text: g, kind }),
        },
    }
}

/// The port advertised by a worker's first line of output.
pub fn port_from_line(line: &str) -> (r: Result<u16, StartError>)
    ensures
        result_view(r) == port_of_line(line@),
{
    let group = regex_first_group(PORT_LINE_PATTERN, line);
    port_from_group(line, group)
}

/// The port of a freshly spawned worker, from the outcome of reading its first
/// line and, where that failed, what it left behind if it had already exited.
/// The exit report is consulted only when no line was read.
pub fn read_port(first_line: Result<String, String>, exited: Option<ExitReport>) -> (r: Result<
    u16,
    StartError,
>)
    ensures
        first_line is Ok ==> result_view(r) == port_of_line(first_line->Ok_0@),
        first_line is Err && exited is Some ==> result_view(r) == Err::<u16, StartErrorView>(
            StartErrorView::Exited { status: exited->Some_0.status@, stderr: exited->Some_0.stderr@ },
        ),
        first_line is Err && exited is None ==> result_view(r) == Err::<u16, StartErrorView>(
            StartErrorView::NoPortLine(first_line->Err_0@),
        ),
{
    match first_line {
        Ok(line) => port_from_line(line.as_str()),
        Err(msg) => match exited {
            Some(rep) => Err(StartError::Exited(rep)),
            None => Err(StartError::NoPortLine(msg)),
        },
    }
}

/// The quoted, escaped form in which `{:?}` writes a string.
pub uninterp spec fn debug_text(s: Seq<char>) -> Seq<char>;

/// Relies on `<str as Debug>::fmt`: the quoted, escaped form of a string,
/// which depends on its characters alone.
#[verifier::external_body]
fn debug_quoted(s: &str) -> (r: String)
    ensures
        r@ == debug_text(s@),
{
    format!("{:?}", s)
}

pub open spec fn kind_text(kind: IntErrorKind) -> Seq<char> {
    match kind {
        IntErrorKind::Empty => "cannot parse integer from empty string"@,
        IntErrorKind::InvalidDigit => "invalid digit found in string"@,
        IntErrorKind::PosOverflow => "number too large to fit in target type"@,
    }
}

/// The message by which a startup error is reported.
pub open spec fn message_of(e: StartErrorView) -> Seq<char> {
    match e {
        StartErrorView::NoPortLine(m) => m,
        StartErrorView::Exited { status, stderr } => "Nailgun failed to start: exited with "@ + status
            + ", stderr:\n"@ + stderr,
        StartErrorView::Unexpected(line) => "Output for nailgun server was unexpected:\n"@ + debug_text(line),
        StartErrorView::BadPort { text, kind } => "Error parsing port "@ + text + "! "@ + kind_text(kind),
    }
}

impl IntErrorKind {
    /// What is wrong with the text, in the standard library's words.
    pub fn describe(&self) -> (r: &'static str)
        ensures
            r@ == kind_text(*self),
    {
        match self {
            IntErrorKind::Empty => "cannot parse integer from empty string",
            IntErrorKind::InvalidDigit => "invalid digit found in string",
            IntErrorKind::PosOverflow => "number too large to fit in target type",
        }
    }
}

impl StartError {
    /// The message by which this error is reported.
    pub fn message(&self) -> (r: String)
        ensures
            r@ == message_of(self@),
    {
        match self {
            StartError::NoPortLine(m) => m.clone(),
            StartError::Exited(rep) => {
                let r = "Nailgun failed to start: exited with ".to_owned();
                let r = r.concat(rep.status.as_str());
                let r = r.concat(", stderr:\n");
                r.concat(rep.stderr.as_str())
            },
            StartError::Unexpected(line) => {
                let r = "Output for nailgun server was unexpected:\n".to_owned();
                let q = debug_quoted(line.as_str());
                r.concat(q.as_str())
            },
            StartError::BadPort { text, kind } => {
                let r = "Error parsing port ".to_owned();
                let r = r.concat(text.as_str());
                let r = r.concat("! ");
                r.concat(kind.describe())
            },
        }
    }
}

} // verus!
