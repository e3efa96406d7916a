use vstd::prelude::*;
use vstd::string::StrSliceExecFns;
use vstd::string::StringExecFns;

verus! {

/// The kinds of error a program built on this library reports.
#[derive(Debug)]
pub enum YiErrorKind {
    Info(String),
    InfoStr(&'static str),
    ShellColor(String),
    Cli(i32),
    /// The message of an argument-parser error.
    Clap(String),
    Opt(String),
    Ver(u32),
    StdIo,
    Unknown,
}

/// The character of a decimal digit.
pub open spec fn digit_char(d: nat) -> char {
    if d == 0 { '0' } else if d == 1 { '1' } else if d == 2 { '2' } else if d == 3 { '3' }
    else if d == 4 { '4' } else if d == 5 { '5' } else if d == 6 { '6' } else if d == 7 { '7' }
    else if d == 8 { '8' } else { '9' }
}

/// The decimal digits of `n`, without leading zeros.
pub open spec fn decimal(n: nat) -> Seq<char>
    decreases n,
{
    if n < 10 {
        seq![digit_char(n)]
    } else {
        decimal(n / 10).push(digit_char(n % 10))
    }
}

fn digit_text(d: u32) -> (r: &'static str)
    requires
        d < 10,
    ensures
        r@ == seq![digit_char(d as nat)],
{
    proof {
        reveal_strlit("0"); reveal_strlit("1"); reveal_strlit("2"); reveal_strlit("3");
        reveal_strlit("4"); reveal_strlit("5"); reveal_strlit("6"); reveal_strlit("7");
        reveal_strlit("8"); reveal_strlit("9");
    }
    let r = if d == 0 { "0" } else if d == 1 { "1" } else if d == 2 { "2" } else if d == 3 { "3" }
        else if d == 4 { "4" } else if d == 5 { "5" } else if d == 6 { "6" } else if d == 7 { "7" }
        else if d == 8 { "8" } else { "9" };
    assert(r@ =~= seq![digit_char(d as nat)]);
    r
}

/// `n` written in decimal.
pub fn decimal_text(n: u32) -> (r: String)
    ensures
        r@ == decimal(n as nat),
    decreases n,
{
    if n < 10 {
        String::from_str(digit_text(n))
    } else {
        let r = decimal_text(n / 10).concat(digit_text(n % 10));
        assert(r@ =~= decimal(n as nat));
        r
    }
}

/// What a kind of error says.
pub open spec fn kind_text(k: YiErrorKind) -> Seq<char> {
    match k {
        YiErrorKind::Info(s) => s@,
        YiErrorKind::InfoStr(s) => s@,
        YiErrorKind::ShellColor(s) =>
            "shell color argument for --color must be auto, always, or never, but value: "@ + s@,
        YiErrorKind::Cli(_) => Seq::empty(),
        YiErrorKind::Clap(s) => s@,
        YiErrorKind::Opt(s) => s@,
        YiErrorKind::Ver(n) => "version "@ + decimal(n as nat),
        YiErrorKind::StdIo => "io error"@,
        YiErrorKind::Unknown => "An unknown error kind has occurred."@,
    }
}

impl YiErrorKind {
    /// What this kind of error says.
    pub fn message(&self) -> (r: String)
        ensures
            r@ == kind_text(*self),
    {
        match self {
            YiErrorKind::Info(s) => s.clone(),
            YiErrorKind::InfoStr(s) => String::from_str(s),
            YiErrorKind::ShellColor(s) => String::from_str(
                "shell color argument for --color must be auto, always, or never, but value: ",
            ).concat(s.as_str()),
            YiErrorKind::Cli(_) => String::new(),
            YiErrorKind::Clap(s) => s.clone(),
            YiErrorKind::Opt(s) => s.clone(),
            YiErrorKind::Ver(n) => {
                let d = decimal_text(*n);
                String::from_str("version ").concat(d.as_str())
            },
            YiErrorKind::StdIo => String::from_str("io error"),
            YiErrorKind::Unknown => String::from_str("An unknown error kind has occurred."),
        }
    }
}

/// A message followed by each of its causes, separated by `, `.
pub open spec fn chain_text(head: Seq<char>, causes: Seq<String>) -> Seq<char>
    decreases causes.len(),
{
    if causes.len() == 0 {
        head
    } else {
        chain_text(head, causes.drop_last()) + ", "@ + causes.last()@
    }
}

/// Renders a message and its chain of causes, separated by `, `.
pub fn render_chain(head: &str, causes: &Vec<String>) -> (r: String)
    ensures
        r@ == chain_text(head@, causes@),
{
    let mut out = String::from_str(head);
    let mut i: usize = 0;
    while i < causes.len()
        invariant
            i <= causes@.len(),
            out@ == chain_text(head@, causes@.take(i as int)),
        decreases causes@.len() - i,
    {
        proof {
            assert(causes@.take(i + 1).drop_last() =~= causes@.take(i as int));
        }
        out.append(", ");
        out.append(causes[i].as_str());
        i = i + 1;
    }
    assert(causes@.take(i as int) =~= causes@);
    out
}

/// An error: its kind and the chain of causes below it, nearest first.
#[derive(Debug)]
pub struct YiError {
    kind: YiErrorKind,
    causes: Vec<String>,
}

impl YiError {
    /// An error of `kind` caused by `causes`, nearest first.
    pub fn new(kind: YiErrorKind, causes: Vec<String>) -> (r: YiError)
        ensures
            r.error_kind() == kind,
            r.cause_list() == causes@,
    {
        YiError { kind, causes }
    }

    /// The kind of this error.
    pub closed spec fn error_kind(&self) -> YiErrorKind {
        self.kind
    }

    /// The chain of causes below this error.
    pub closed spec fn cause_list(&self) -> Seq<String> {
        self.causes@
    }

    /// The kind of this error.
    pub fn kind(&self) -> (r: &YiErrorKind)
        ensures
            *r == self.error_kind(),
    {
        &self.kind
    }

    /// The full text: what the error says, then each cause.
    pub fn inner(&self) -> (r: String)
        ensures
            r@ == chain_text(kind_text(self.error_kind()), self.cause_list()),
    {
        let head = self.kind.message();
        render_chain(head.as_str(), &self.causes)
    }
}

/// `context`, followed by `, inner cause: ` and `cause` where `cause` is not empty.
pub open spec fn context_text(context: Seq<char>, cause: Seq<char>) -> Seq<char> {
    if cause.len() == 0 {
        context
    } else {
        context + ", inner cause: "@ + cause
    }
}

/// An error that says `context`, with the text of the error that caused it.
pub fn yierr_str(context: &str, cause: &str) -> (r: YiError)
    ensures
        r.error_kind() matches YiErrorKind::Info(s) && s@ == context_text(context@, cause@),
        r.cause_list().len() == 0,
{
    let text = if cause.unicode_len() == 0 {
        String::from_str(context)
    } else {
        String::from_str(context).concat(", inner cause: ").concat(cause)
    };
    YiError::new(YiErrorKind::Info(text), Vec::new())
}

/// An error that says `text`.
pub fn yierr(text: &str) -> (r: YiError)
    ensures
        r.error_kind() matches YiErrorKind::Info(s) && s@ == text@,
        r.cause_list().len() == 0,
{
    YiError::new(YiErrorKind::Info(String::from_str(text)), Vec::new())
}

} // verus!
