//! Types that represent a parsed command line, and functions to parse it.
//!
//! The grammar: the first argument is the program name and is skipped. Each
//! later argument lexes into tokens: `--name=value` into a long option and a
//! plain value, `-xrest` into the short option `x` and a plain value, `-`
//! into the stdin/stdout marker, and `--` switches every following argument
//! to a plain value. Options that take a value consume the next plain token,
//! so `-w 42`, `-w42`, `--width 42` and `--width=42` all agree. The last
//! occurrence of an option wins.

use vstd::prelude::*;
use vstd::string::{StrSliceExecFns, StringExecFns};
use crate::error::Error;

verus! {

/// Whether and how to output color and other markup.
///
/// We call it markup internally because it is more than just color, but the
/// command line calls it `--color` because that is what most tools call it.
#[derive(Clone, Copy, Debug, PartialEq, Eq, Structural)]
pub enum MarkupMode {
    /// Always color output using ANSI escape codes.
    Ansi,
    /// Do not color output at all.
    NoColor,
}

/// Options that apply to all subcommands.
#[derive(Debug, PartialEq, Eq)]
pub struct GlobalOptions {
    /// `None` means auto: color if the output is a terminal.
    pub markup: Option<MarkupMode>,
}

impl Default for GlobalOptions {
    fn default() -> (r: GlobalOptions)
        ensures
            r == (GlobalOptions { markup: None }),
    {
        GlobalOptions { markup: None }
    }
}

/// The available output formats (JSON, RCL).
#[derive(Clone, Copy, Debug, PartialEq, Eq, Structural)]
pub enum OutputFormat {
    Json,
    Rcl,
}

impl Default for OutputFormat {
    fn default() -> (r: OutputFormat)
        ensures
            r == OutputFormat::Rcl,
    {
        OutputFormat::Rcl
    }
}

/// The available sandboxing modes for imports.
#[derive(Clone, Copy, Debug, PartialEq, Eq, Structural)]
pub enum SandboxMode {
    Pure,
    Workdir,
    Unrestricted,
}

impl Default for SandboxMode {
    fn default() -> (r: SandboxMode)
        ensures
            r == SandboxMode::Workdir,
    {
        SandboxMode::Workdir
    }
}

/// Options for commands that output values.
#[derive(Debug, PartialEq, Eq)]
pub struct OutputOptions {
    /// The format to output in.
    pub format: OutputFormat,
    /// Sandboxing mode for imports.
    pub sandbox: SandboxMode,
    /// Files to import as `(alias, file)`, when the sandboxing mode is pure.
    /// The last occurrence of an alias wins; first occurrences keep their
    /// place.
    pub includes: Vec<(String, String)>,
}

impl Default for OutputOptions {
    fn default() -> (r: OutputOptions)
        ensures
            r.format == OutputFormat::Rcl,
            r.sandbox == SandboxMode::Workdir,
            r.includes@ == Seq::<(String, String)>::empty(),
    {
        OutputOptions {
            format: OutputFormat::Rcl,
            sandbox: SandboxMode::Workdir,
            includes: Vec::new(),
        }
    }
}

/// Options for commands that pretty-print their output.
#[derive(Debug, PartialEq, Eq, Clone, Copy, Structural)]
pub struct FormatOptions {
    /// Target width (number of columns) to try to not exceed.
    pub width: u32,
}

impl Default for FormatOptions {
    fn default() -> (r: FormatOptions)
        ensures
            r == (FormatOptions { width: 80 }),
    {
        FormatOptions { width: 80 }
    }
}

/// Input to act on.
#[derive(Debug, PartialEq, Eq)]
pub enum Target {
    File(String),
    Stdin,
}

/// For the `fmt` command, which documents to format, and in what mode.
#[derive(Debug, PartialEq, Eq)]
pub enum FormatTarget {
    Stdout { fname: Target },
    InPlace { fnames: Vec<Target> },
}

/// The different subcommands supported by the main program.
#[derive(Debug, PartialEq, Eq)]
pub enum Cmd {
    Evaluate { output_opts: OutputOptions, format_opts: FormatOptions, fname: Target },
    Query {
        output_opts: OutputOptions,
        format_opts: FormatOptions,
        fname: Target,
        query: String,
    },
    Format { format_opts: FormatOptions, target: FormatTarget },
    Highlight { fname: Target },
    Help { usage: &'static str },
    Version,
}

pub const USAGE_MAIN: &'static str = "RCL -- A sane configuration language.\n\nUsage:\n  rcl [<options>] <command> <arguments>\n\nCommands:\n  evaluate     Evaluate a document to an output format.\n  format       Auto-format an RCL document.\n  highlight    Print a document with syntax highlighting.\n  query        Evaluate an expression against an input document.\n\nCommand shorthands:\n  e, eval      Alias for 'evaluate'.\n  f, fmt       Alias for 'format'.\n  h            Alias for 'highlight'.\n  jq           Alias for 'query --output=json'.\n  q            Alias for 'query'.\n\nGlobal options:\n  -h --help       Show this screen, or command-specific help.\n  --version       Show version.\n  --color <mode>  Set how output is colored, see modes below.\n\nColor modes:\n  ansi    Always color output using ANSI escape codes.\n  auto    Use ANSI if the output file is a TTY and the NO_COLOR environment\n          variable is not set to a non-empty string. This is the default.\n  none    Do not color output at all.\n";

pub const USAGE_EVAL_QUERY: &'static str = "RCL -- A sane configuration language.\n\nUsage:\n  rcl [<options>] evaluate [<options>] <file>\n  rcl [<options>] query    [<options>] <file> <query>\n\nThe 'evaluate' command evaluates the expression in the input file and prints\nit to stdout. The 'query' command additionally evaluates an expression\nagainst the result.\n\nArguments:\n  <file>     The input file to process, or '-' for stdin.\n  <query>    An RCL expression to evaluate. The result of evaluating the\n             input file is bound to the variable 'input'.\n\nOptions:\n  -o --output <format>  Output format, can be one of 'json', 'rcl'.\n                        Defaults to 'rcl'.\n  -w --width <width>    Target width for pretty-printing, must be an\n                        integer. Defaults to 80.\n  --sandbox <mode>      Sandboxing mode, can be one of 'pure', 'workdir',\n                        and 'unrestricted'. Defaults to 'workdir'.\n  -I --include <a>:<f>  Enable importing the file <f> when --sandbox=pure.\n                        To import the file, the import expression must be of\n                        the form 'import \"<a>\"'. In the argument, the alias\n                        <a> and file <f> are separated by a colon.\n\nSandboxing modes:\n  pure          Only allow importing files specified with --include. Do not\n                allow filesystem access aside from these includes.\n  workdir       Only allow importing files inside the working directory and\n                subdirectories.\n  unrestricted  Grant unrestricted filesystem access, allow importing any\n                file.\n\nSee also --help for global options.\n";

pub const USAGE_FORMAT: &'static str = "RCL -- A sane configuration language.\n\nUsage:\n  rcl [<options>] format [<options>] <file>...\n\nThe 'format' command formats one or more input documents in standard style.\n\nArguments:\n  <file>...        The input files to process, or '-' for stdin. When\n                   --in-place is used, there can be multiple input files.\n\nOptions:\n  -i --in-place       Rewrite files in-place instead of writing to stdout.\n                      By default the formatted result is written to stdout.\n  -w --width <width>  Target width in number of columns, must be an\n                      integer. Defaults to 80.\n\nSee also --help for global options.\n";

/// One lexed command-line token.
pub enum Tok {
    /// `--name` (what came before a `=`, if any).
    Long(String),
    /// `-x`: a single-character option.
    Short(String),
    /// A bare word, or the split-off value of `--name=value` / `-xvalue`.
    Plain(String),
    /// A bare `-`, meaning stdin or stdout.
    StdInOut,
}

/// The view of a token: the same shape over character sequences.
pub enum TokView {
    Long(Seq<char>),
    Short(Seq<char>),
    Plain(Seq<char>),
    StdInOut,
}

impl View for Tok {
    type V = TokView;

    open spec fn view(&self) -> TokView {
        match self {
            Tok::Long(s) => TokView::Long(s@),
            Tok::Short(s) => TokView::Short(s@),
            Tok::Plain(s) => TokView::Plain(s@),
            Tok::StdInOut => TokView::StdInOut,
        }
    }
}

/// The views of a list of owned strings.
pub open spec fn string_views(args: Seq<String>) -> Seq<Seq<char>> {
    args.map_values(|s: String| s@)
}

/// The views of a list of tokens.
pub open spec fn tok_views(toks: Seq<Tok>) -> Seq<TokView> {
    toks.map_values(|t: Tok| t@)
}

/// The index of the first occurrence of `c` at or after `i`, or the length
/// if there is none.
pub open spec fn first_index_from(a: Seq<char>, c: char, i: int) -> int
    decreases a.len() - i,
{
    if i < 0 || i >= a.len() {
        a.len() as int
    } else if a[i] == c {
        i
    } else {
        first_index_from(a, c, i + 1)
    }
}

/// The tokens that one argument lexes into. After a bare `--` every
/// argument is plain.
pub open spec fn lex_one(a: Seq<char>, raw: bool) -> Seq<TokView> {
    if raw {
        seq![TokView::Plain(a)]
    } else if a == "-"@ {
        seq![TokView::StdInOut]
    } else if a == "--"@ {
        Seq::empty()
    } else if a.len() >= 2 && a[0] == '-' && a[1] == '-' {
        let e = first_index_from(a, '=', 2);
        if e < a.len() {
            seq![TokView::Long(a.subrange(2, e)), TokView::Plain(a.subrange(e + 1, a.len() as int))]
        } else {
            seq![TokView::Long(a.subrange(2, a.len() as int))]
        }
    } else if a.len() >= 2 && a[0] == '-' {
        if a.len() > 2 {
            seq![TokView::Short(a.subrange(1, 2)), TokView::Plain(a.subrange(2, a.len() as int))]
        } else {
            seq![TokView::Short(a.subrange(1, 2))]
        }
    } else {
        seq![TokView::Plain(a)]
    }
}

/// The whole token stream of an argument list.
pub open spec fn spec_lex(args: Seq<Seq<char>>, raw: bool) -> Seq<TokView>
    decreases args.len(),
{
    if args.len() == 0 {
        Seq::empty()
    } else {
        lex_one(args[0], raw) + spec_lex(args.drop_first(), raw || (!raw && args[0] == "--"@))
    }
}

/// Compare two string slices by their characters.
fn str_eq_str(a: &str, b: &str) -> (r: bool)
    ensures
        r == (a@ == b@),
{
    let na = a.unicode_len();
    let nb = b.unicode_len();
    if na != nb {
        return false;
    }
    let mut i: usize = 0;
    while i < na
        invariant
            0 <= i <= na,
            na == a@.len(),
            na == b@.len(),
            forall|j: int| 0 <= j < i ==> a@[j] == b@[j],
        decreases na - i,
    {
        if a.get_char(i) != b.get_char(i) {
            return false;
        }
        i += 1;
    }
    proof {
        assert(a@ =~= b@);
    }
    true
}

/// Lex one argument into zero, one or two tokens, appended to `out`.
#[verifier::loop_isolation(false)]
fn lex_arg(a: &String, raw: bool, out: &mut Vec<Tok>)
    ensures
        tok_views(final(out)@) == tok_views(old(out)@) + lex_one(a@, raw),
{
    let ghost pre = tok_views(old(out)@);
    let n = a.as_str().unicode_len();
    if raw {
        out.push(Tok::Plain(a.as_str().to_owned()));
    } else if str_eq_str(a.as_str(), "-") {
        out.push(Tok::StdInOut);
    } else if str_eq_str(a.as_str(), "--") {
    } else if n >= 2 && a.as_str().get_char(0) == '-' && a.as_str().get_char(1) == '-' {
        // A long option; split off a value after the first `=`.
        let mut e: usize = 2;
        while e < n && a.as_str().get_char(e) != '='
            invariant
                2 <= e <= n,
                n == a@.len(),
                first_index_from(a@, '=', 2) == first_index_from(a@, '=', e as int),
            decreases n - e,
        {
            e += 1;
        }
        if e < n {
            let name = a.as_str().substring_char(2, e).to_owned();
            let value = a.as_str().substring_char(e + 1, n).to_owned();
            out.push(Tok::Long(name));
            out.push(Tok::Plain(value));
        } else {
            let name = a.as_str().substring_char(2, n).to_owned();
            out.push(Tok::Long(name));
        }
    } else if n >= 2 && a.as_str().get_char(0) == '-' {
        let name = a.as_str().substring_char(1, 2).to_owned();
        out.push(Tok::Short(name));
        if n > 2 {
            let rest = a.as_str().substring_char(2, n).to_owned();
            out.push(Tok::Plain(rest));
        }
    } else {
        out.push(Tok::Plain(a.as_str().to_owned()));
    }
    proof {
        assert(tok_views(out@) =~= pre + lex_one(a@, raw));
    }
}

/// Lex the argument list from `from` on into tokens.
#[verifier::loop_isolation(false)]
fn lex_args(args: &Vec<String>, from: usize) -> (r: Vec<Tok>)
    requires
        from <= args@.len(),
    ensures
        tok_views(r@) == spec_lex(string_views(args@).skip(from as int), false),
{
    let mut out: Vec<Tok> = Vec::new();
    let mut raw = false;
    let mut i: usize = from;
    while i < args.len()
        invariant
            from <= i <= args@.len(),
            spec_lex(string_views(args@).skip(from as int), false) == tok_views(out@) + spec_lex(
                string_views(args@).skip(i as int),
                raw,
            ),
        decreases args@.len() - i,
    {
        let ghost rest = string_views(args@).skip(i as int);
        proof {
            assert(rest[0] == args@[i as int]@);
            assert(rest.drop_first() =~= string_views(args@).skip(i as int + 1));
        }
        let is_sep = !raw && str_eq_str(args[i].as_str(), "--");
        lex_arg(&args[i], raw, &mut out);
        if is_sep {
            raw = true;
        }
        i += 1;
    }
    proof {
        assert(string_views(args@).skip(i as int) =~= Seq::<Seq<char>>::empty());
        assert(tok_views(out@) + Seq::<TokView>::empty() =~= tok_views(out@));
    }
    out
}

} // verus!

verus! {

/// Decimal digits only; no sign, no separators.
pub open spec fn dec_digits_ok(s: Seq<char>) -> bool {
    forall|i: int| 0 <= i < s.len() ==> 48 <= (#[trigger] s[i]) as int <= 57
}

/// The value of a decimal digit string.
pub open spec fn dec_value(s: Seq<char>) -> int
    decreases s.len(),
{
    if s.len() == 0 {
        0
    } else {
        dec_value(s.drop_last()) * 10 + (s.last() as int - 48)
    }
}

proof fn lemma_dec_value_nonneg(s: Seq<char>)
    requires
        dec_digits_ok(s),
    ensures
        dec_value(s) >= 0,
    decreases s.len(),
{
    if s.len() > 0 {
        assert(dec_digits_ok(s.drop_last()));
        lemma_dec_value_nonneg(s.drop_last());
        assert(dec_value(s.drop_last()) * 10 >= 0) by (nonlinear_arith)
            requires
                dec_value(s.drop_last()) >= 0,
        ;
    }
}

proof fn lemma_dec_value_take(s: Seq<char>, i: int)
    requires
        dec_digits_ok(s),
        0 <= i <= s.len(),
    ensures
        dec_value(s.take(i)) <= dec_value(s),
    decreases s.len(),
{
    if i < s.len() {
        assert(dec_digits_ok(s.drop_last()));
        assert(s.drop_last().take(i) =~= s.take(i));
        lemma_dec_value_take(s.drop_last(), i);
        lemma_dec_value_nonneg(s.drop_last());
        let h = dec_value(s.drop_last());
        assert(h * 10 + (s.last() as int - 48) >= h) by (nonlinear_arith)
            requires
                h >= 0,
                0 <= s.last() as int - 48,
        ;
    } else {
        assert(s.take(i) =~= s);
    }
}

/// Parse an unsigned decimal integer, as `--width` expects one. Digits
/// only, deliberately: no leading sign and no separators, since the usage
/// text promises a plain integer.
#[verifier::loop_isolation(false)]
fn parse_u32(v: &str) -> (r: Option<u32>)
    ensures
        r is Some <==> (v@.len() > 0 && dec_digits_ok(v@) && dec_value(v@) <= u32::MAX),
        r matches Some(n) ==> n == dec_value(v@),
{
    let n = v.unicode_len();
    if n == 0 {
        return None;
    }
    let mut acc: u32 = 0;
    let mut i: usize = 0;
    while i < n
        invariant
            0 <= i <= n,
            n == v@.len(),
            dec_digits_ok(v@.take(i as int)),
            0 <= acc <= u32::MAX,
            acc == dec_value(v@.take(i as int)),
        decreases n - i,
    {
        let c = v.get_char(i);
        let ghost pre = v@.take(i as int);
        let ghost cur = v@.take(i as int + 1);
        proof {
            assert(cur.drop_last() =~= pre);
            assert(cur.last() == c);
        }
        let u = c as u32;
        if u < 48 || u > 57 {
            proof {
                assert(!(48 <= v@[i as int] as int <= 57));
            }
            return None;
        }
        let d: u32 = u - 48;
        if acc > (u32::MAX - d) / 10 {
            proof {
                let h = acc as int;
                let m = u32::MAX as int;
                assert(h * 10 + d > m) by (nonlinear_arith)
                    requires
                        h > (m - d) / 10,
                        0 <= d <= 9,
                        0 <= h,
                        m == u32::MAX as int,
                ;
                if dec_digits_ok(v@) {
                    lemma_dec_value_take(v@, i as int + 1);
                }
            }
            return None;
        }
        proof {
            let h = acc as int;
            let m = u32::MAX as int;
            assert(h * 10 + d <= m) by (nonlinear_arith)
                requires
                    h <= (m - d) / 10,
                    0 <= d <= 9,
                    0 <= h,
                    m == u32::MAX as int,
            ;
        }
        acc = acc * 10 + d;
        i += 1;
    }
    proof {
        assert(v@.take(i as int) =~= v@);
    }
    Some(acc)
}

/// Which subcommand was named so far.
#[derive(Clone, Copy, Debug, PartialEq, Eq, Structural)]
pub enum CmdName {
    Evaluate,
    Query,
    Format,
    Highlight,
}

/// Which help screen `--help` asks for.
#[derive(Clone, Copy, Debug, PartialEq, Eq, Structural)]
pub enum HelpTopic {
    Main,
    Evaluate,
    Format,
    Highlight,
    Query,
}

/// One input target as collected while parsing: its raw argument text and
/// whether it was the stdin marker.
pub struct TArg {
    pub raw: String,
    pub is_stdin: bool,
}

/// The view of a collected target.
pub struct TArgView {
    pub raw: Seq<char>,
    pub is_stdin: bool,
}

impl View for TArg {
    type V = TArgView;

    open spec fn view(&self) -> TArgView {
        TArgView { raw: self.raw@, is_stdin: self.is_stdin }
    }
}

/// Output options at the specification level: the includes as character
/// sequences.
pub struct OutputView {
    pub format: OutputFormat,
    pub sandbox: SandboxMode,
    pub includes: Seq<(Seq<char>, Seq<char>)>,
}

/// The views of collected `(alias, file)` pairs.
pub open spec fn pair_views(m: Seq<(String, String)>) -> Seq<(Seq<char>, Seq<char>)> {
    m.map_values(|p: (String, String)| (p.0@, p.1@))
}

/// Last-alias-wins insert: replace the value of the first entry carrying
/// this alias, keeping its place, or append a new entry.
pub open spec fn inc_insert(
    m: Seq<(Seq<char>, Seq<char>)>,
    alias: Seq<char>,
    fname: Seq<char>,
) -> Seq<(Seq<char>, Seq<char>)>
    decreases m.len(),
{
    if m.len() == 0 {
        seq![(alias, fname)]
    } else if m[0].0 == alias {
        seq![(alias, fname)] + m.drop_first()
    } else {
        seq![m[0]] + inc_insert(m.drop_first(), alias, fname)
    }
}

/// The parser's accumulated state, at the specification level.
pub struct StateView {
    pub cmd: Option<CmdName>,
    pub cmd_help: Option<HelpTopic>,
    pub is_version: bool,
    pub in_place: bool,
    pub global_opts: GlobalOptions,
    pub output_opts: OutputView,
    pub format_opts: FormatOptions,
    pub targets: Seq<TArgView>,
}

/// The state every parse starts from: all defaults, nothing seen.
pub open spec fn init_state() -> StateView {
    StateView {
        cmd: None,
        cmd_help: None,
        is_version: false,
        in_place: false,
        global_opts: GlobalOptions { markup: None },
        output_opts: OutputView {
            format: OutputFormat::Rcl,
            sandbox: SandboxMode::Workdir,
            includes: Seq::empty(),
        },
        format_opts: FormatOptions { width: 80 },
        targets: Seq::empty(),
    }
}

/// A target at the specification level.
pub enum TargetView {
    File(Seq<char>),
    Stdin,
}

pub open spec fn target_view_of(t: TArgView) -> TargetView {
    if t.is_stdin {
        TargetView::Stdin
    } else {
        TargetView::File(t.raw)
    }
}

/// A parsed command at the specification level.
pub enum CmdView {
    Evaluate { output_opts: OutputView, format_opts: FormatOptions, fname: TargetView },
    Query {
        output_opts: OutputView,
        format_opts: FormatOptions,
        fname: TargetView,
        query: Seq<char>,
    },
    FormatStdout { format_opts: FormatOptions, fname: TargetView },
    FormatInPlace { format_opts: FormatOptions, fnames: Seq<TargetView> },
    Highlight { fname: TargetView },
    Help { usage: Seq<char> },
    Version,
}

/// What a parse yields at the specification level: the parsed options and
/// command, or the error message reported.
pub enum ParseOutcome {
    Done(GlobalOptions, CmdView),
    Fail(Seq<char>),
}

/// The written form of an option token, as error messages quote it.
pub open spec fn form_of(t: TokView) -> Seq<char> {
    match t {
        TokView::Long(n) => "--"@ + n,
        TokView::Short(n) => "-"@ + n,
        TokView::Plain(w) => w,
        TokView::StdInOut => "-"@,
    }
}

pub open spec fn msg_unknown_command(w: Seq<char>) -> Seq<char> {
    "Unknown command '"@ + w + "'. See --help for usage."@
}

pub open spec fn msg_unknown_option(form: Seq<char>) -> Seq<char> {
    "Unknown option '"@ + form + "'. See --help for usage."@
}

pub open spec fn msg_expected_one_of(form: Seq<char>, alts: Seq<char>) -> Seq<char> {
    "Expected "@ + form + " to be followed by one of "@ + alts + ". See --help for usage."@
}

pub open spec fn msg_invalid_value(v: Seq<char>, form: Seq<char>) -> Seq<char> {
    "'"@ + v + "' is not valid for "@ + form + ". See --help for usage."@
}

pub open spec fn msg_missing_value(form: Seq<char>) -> Seq<char> {
    "Expected a value for "@ + form + ". See --help for usage."@
}

pub open spec fn msg_expected_input_file() -> Seq<char> {
    "Expected an input file. See --help for usage."@
}

pub open spec fn msg_too_many_input_files() -> Seq<char> {
    "Too many input files. See --help for usage."@
}

pub open spec fn msg_expected_file_and_query() -> Seq<char> {
    "Expected an input file and a query. See --help for usage."@
}

/// The value token following an option, if the next token is plain.
pub open spec fn next_value(toks: Seq<TokView>) -> Option<Seq<char>> {
    if toks.len() >= 2 && toks[1] is Plain {
        Some(toks[1]->Plain_0)
    } else {
        None
    }
}

/// The usage text of a help topic.
pub open spec fn usage_of(topic: HelpTopic) -> Seq<char> {
    match topic {
        HelpTopic::Main => USAGE_MAIN@,
        HelpTopic::Evaluate => USAGE_EVAL_QUERY@,
        HelpTopic::Query => USAGE_EVAL_QUERY@,
        HelpTopic::Format => USAGE_FORMAT@,
        HelpTopic::Highlight => USAGE_MAIN@,
    }
}

/// The sole input target, as `evaluate`, `highlight` and plain `format`
/// expect exactly one.
pub open spec fn spec_unique_target(ts: Seq<TArgView>) -> Result<TargetView, Seq<char>> {
    if ts.len() == 0 {
        Err(msg_expected_input_file())
    } else if ts.len() > 1 {
        Err(msg_too_many_input_files())
    } else {
        Ok(target_view_of(ts[0]))
    }
}

/// What the parse yields once every token is consumed.
pub open spec fn spec_finish(st: StateView) -> ParseOutcome {
    if st.is_version {
        ParseOutcome::Done(st.global_opts, CmdView::Version)
    } else if st.cmd_help is Some {
        ParseOutcome::Done(
            st.global_opts,
            CmdView::Help { usage: usage_of(st.cmd_help->0) },
        )
    } else {
        match st.cmd {
            None => ParseOutcome::Done(st.global_opts, CmdView::Help { usage: USAGE_MAIN@ }),
            Some(CmdName::Evaluate) => match spec_unique_target(st.targets) {
                Ok(fname) => ParseOutcome::Done(
                    st.global_opts,
                    CmdView::Evaluate {
                        output_opts: st.output_opts,
                        format_opts: st.format_opts,
                        fname,
                    },
                ),
                Err(m) => ParseOutcome::Fail(m),
            },
            Some(CmdName::Query) => {
                if st.targets.len() == 2 {
                    ParseOutcome::Done(
                        st.global_opts,
                        CmdView::Query {
                            output_opts: st.output_opts,
                            format_opts: st.format_opts,
                            fname: target_view_of(st.targets[0]),
                            query: st.targets[1].raw,
                        },
                    )
                } else {
                    ParseOutcome::Fail(msg_expected_file_and_query())
                }
            },
            Some(CmdName::Format) => {
                if st.in_place {
                    ParseOutcome::Done(
                        st.global_opts,
                        CmdView::FormatInPlace {
                            format_opts: st.format_opts,
                            fnames: st.targets.map_values(|t: TArgView| target_view_of(t)),
                        },
                    )
                } else {
                    match spec_unique_target(st.targets) {
                        Ok(fname) => ParseOutcome::Done(
                            st.global_opts,
                            CmdView::FormatStdout { format_opts: st.format_opts, fname },
                        ),
                        Err(m) => ParseOutcome::Fail(m),
                    }
                }
            },
            Some(CmdName::Highlight) => match spec_unique_target(st.targets) {
                Ok(fname) => ParseOutcome::Done(
                    st.global_opts,
                    CmdView::Highlight { fname },
                ),
                Err(m) => ParseOutcome::Fail(m),
            },
        }
    }
}

/// One step of the parse: consume the leading token (and, for an option
/// that takes a value, the plain token after it), update the state, and go
/// on; the rest of the token stream is handled by recursion.
pub open spec fn spec_parse(toks: Seq<TokView>, st: StateView) -> ParseOutcome
    decreases toks.len(),
{
    if toks.len() == 0 {
        spec_finish(st)
    } else {
        match toks[0] {
            TokView::Long(name) => {
                if name == "color"@ {
                    match next_value(toks) {
                        Some(v) => {
                            if v == "auto"@ {
                                spec_parse(
                                    toks.skip(2),
                                    StateView {
                                        global_opts: GlobalOptions { markup: None },
                                        ..st
                                    },
                                )
                            } else if v == "ansi"@ {
                                spec_parse(
                                    toks.skip(2),
                                    StateView {
                                        global_opts: GlobalOptions {
                                            markup: Some(MarkupMode::Ansi),
                                        },
                                        ..st
                                    },
                                )
                            } else if v == "none"@ {
                                spec_parse(
                                    toks.skip(2),
                                    StateView {
                                        global_opts: GlobalOptions {
                                            markup: Some(MarkupMode::NoColor),
                                        },
                                        ..st
                                    },
                                )
                            } else {
                                ParseOutcome::Fail(
                                    msg_expected_one_of(form_of(toks[0]), "auto, ansi, none"@),
                                )
                            }
                        },
                        None => ParseOutcome::Fail(
                            msg_expected_one_of(form_of(toks[0]), "auto, ansi, none"@),
                        ),
                    }
                } else if name == "output"@ {
                    spec_parse_output(toks, st)
                } else if name == "sandbox"@ {
                    match next_value(toks) {
                        Some(v) => {
                            if v == "pure"@ {
                                spec_parse(
                                    toks.skip(2),
                                    StateView {
                                        output_opts: OutputView {
                                            sandbox: SandboxMode::Pure,
                                            ..st.output_opts
                                        },
                                        ..st
                                    },
                                )
                            } else if v == "workdir"@ {
                                spec_parse(
                                    toks.skip(2),
                                    StateView {
                                        output_opts: OutputView {
                                            sandbox: SandboxMode::Workdir,
                                            ..st.output_opts
                                        },
                                        ..st
                                    },
                                )
                            } else if v == "unrestricted"@ {
                                spec_parse(
                                    toks.skip(2),
                                    StateView {
                                        output_opts: OutputView {
                                            sandbox: SandboxMode::Unrestricted,
                                            ..st.output_opts
                                        },
                                        ..st
                                    },
                                )
                            } else {
                                ParseOutcome::Fail(
                                    msg_expected_one_of(
                                        form_of(toks[0]),
                                        "pure, workdir, unrestricted"@,
                                    ),
                                )
                            }
                        },
                        None => ParseOutcome::Fail(
                            msg_expected_one_of(form_of(toks[0]), "pure, workdir, unrestricted"@),
                        ),
                    }
                } else if name == "include"@ {
                    spec_parse_inc(toks, st)
                } else if name == "width"@ {
                    spec_parse_width(toks, st)
                } else if name == "in-place"@ {
                    spec_parse(toks.skip(1), StateView { in_place: true, ..st })
                } else if name == "help"@ {
                    spec_parse_help(toks, st)
                } else if name == "version"@ {
                    spec_parse(
                        toks.skip(1),
                        StateView { is_version: true, cmd_help: None, ..st },
                    )
                } else {
                    ParseOutcome::Fail(msg_unknown_option(form_of(toks[0])))
                }
            },
            TokView::Short(name) => {
                if name == "o"@ {
                    spec_parse_output(toks, st)
                } else if name == "I"@ {
                    spec_parse_inc(toks, st)
                } else if name == "w"@ {
                    spec_parse_width(toks, st)
                } else if name == "i"@ {
                    spec_parse(toks.skip(1), StateView { in_place: true, ..st })
                } else if name == "h"@ {
                    spec_parse_help(toks, st)
                } else {
                    ParseOutcome::Fail(msg_unknown_option(form_of(toks[0])))
                }
            },
            TokView::Plain(word) => {
                if st.cmd is None {
                    if word == "evaluate"@ || word == "eval"@ || word == "e"@ {
                        spec_parse(
                            toks.skip(1),
                            StateView { cmd: Some(CmdName::Evaluate), ..st },
                        )
                    } else if word == "query"@ || word == "q"@ {
                        spec_parse(toks.skip(1), StateView { cmd: Some(CmdName::Query), ..st })
                    } else if word == "jq"@ {
                        spec_parse(
                            toks.skip(1),
                            StateView {
                                cmd: Some(CmdName::Query),
                                output_opts: OutputView {
                                    format: OutputFormat::Json,
                                    ..st.output_opts
                                },
                                ..st
                            },
                        )
                    } else if word == "format"@ || word == "fmt"@ || word == "f"@ {
                        spec_parse(toks.skip(1), StateView { cmd: Some(CmdName::Format), ..st })
                    } else if word == "highlight"@ || word == "h"@ {
                        spec_parse(
                            toks.skip(1),
                            StateView { cmd: Some(CmdName::Highlight), ..st },
                        )
                    } else {
                        ParseOutcome::Fail(msg_unknown_command(word))
                    }
                } else {
                    spec_parse(
                        toks.skip(1),
                        StateView {
                            targets: st.targets.push(TArgView { raw: word, is_stdin: false }),
                            ..st
                        },
                    )
                }
            },
            TokView::StdInOut => {
                if st.cmd is Some {
                    spec_parse(
                        toks.skip(1),
                        StateView {
                            targets: st.targets.push(TArgView { raw: "-"@, is_stdin: true }),
                            ..st
                        },
                    )
                } else {
                    ParseOutcome::Fail(msg_unknown_option("-"@))
                }
            },
        }
    }
}

/// Consuming `--output`/`-o` and its value.
pub open spec fn spec_parse_output(toks: Seq<TokView>, st: StateView) -> ParseOutcome
    decreases toks.len(), 0int,
{
    if toks.len() == 0 {
        spec_finish(st)  // unreachable: callers pass a non-empty stream
    } else {
        match next_value(toks) {
            Some(v) => {
                if v == "json"@ {
                    spec_parse(
                        toks.skip(2),
                        StateView {
                            output_opts: OutputView {
                                format: OutputFormat::Json,
                                ..st.output_opts
                            },
                            ..st
                        },
                    )
                } else if v == "rcl"@ {
                    spec_parse(
                        toks.skip(2),
                        StateView {
                            output_opts: OutputView {
                                format: OutputFormat::Rcl,
                                ..st.output_opts
                            },
                            ..st
                        },
                    )
                } else {
                    ParseOutcome::Fail(msg_expected_one_of(form_of(toks[0]), "json, rcl"@))
                }
            },
            None => ParseOutcome::Fail(msg_expected_one_of(form_of(toks[0]), "json, rcl"@)),
        }
    }
}

/// Consuming `--include`/`-I` and its `alias:file` value: the value splits
/// at its first colon.
pub open spec fn spec_parse_inc(toks: Seq<TokView>, st: StateView) -> ParseOutcome
    decreases toks.len(), 0int,
{
    if toks.len() == 0 {
        spec_finish(st)  // unreachable: callers pass a non-empty stream
    } else {
        match next_value(toks) {
            Some(v) => {
                let k = first_index_from(v, ':', 0);
                if k < v.len() {
                    spec_parse(
                        toks.skip(2),
                        StateView {
                            output_opts: OutputView {
                                includes: inc_insert(
                                    st.output_opts.includes,
                                    v.subrange(0, k),
                                    v.subrange(k + 1, v.len() as int),
                                ),
                                ..st.output_opts
                            },
                            ..st
                        },
                    )
                } else {
                    ParseOutcome::Fail(msg_invalid_value(v, form_of(toks[0])))
                }
            },
            None => ParseOutcome::Fail(msg_missing_value(form_of(toks[0]))),
        }
    }
}

/// Consuming `--width`/`-w` and its value.
pub open spec fn spec_parse_width(toks: Seq<TokView>, st: StateView) -> ParseOutcome
    decreases toks.len(), 0int,
{
    if toks.len() == 0 {
        spec_finish(st)  // unreachable: callers pass a non-empty stream
    } else {
        match next_value(toks) {
            Some(v) => {
                if v.len() > 0 && dec_digits_ok(v) && dec_value(v) <= u32::MAX {
                    spec_parse(
                        toks.skip(2),
                        StateView {
                            format_opts: FormatOptions { width: dec_value(v) as u32 },
                            ..st
                        },
                    )
                } else {
                    ParseOutcome::Fail(msg_invalid_value(v, form_of(toks[0])))
                }
            },
            None => ParseOutcome::Fail(msg_missing_value(form_of(toks[0]))),
        }
    }
}

/// Consuming `--help`/`-h`: remember which help screen to show.
pub open spec fn spec_parse_help(toks: Seq<TokView>, st: StateView) -> ParseOutcome
    decreases toks.len(), 0int,
{
    if toks.len() == 0 {
        spec_finish(st)  // unreachable: callers pass a non-empty stream
    } else {
        let topic = match st.cmd {
            None => HelpTopic::Main,
            Some(CmdName::Evaluate) => HelpTopic::Evaluate,
            Some(CmdName::Query) => HelpTopic::Query,
            Some(CmdName::Format) => HelpTopic::Format,
            Some(CmdName::Highlight) => HelpTopic::Highlight,
        };
        spec_parse(
            toks.skip(1),
            StateView { is_version: false, cmd_help: Some(topic), ..st },
        )
    }
}

/// The parsed target matches its specification-level counterpart.
pub open spec fn target_matches(t: Target, g: TargetView) -> bool {
    match g {
        TargetView::File(v) => t matches Target::File(s) && s@ == v,
        TargetView::Stdin => t is Stdin,
    }
}

pub open spec fn targets_match(ts: Seq<Target>, gs: Seq<TargetView>) -> bool {
    ts.len() == gs.len() && forall|i: int|
        0 <= i < ts.len() ==> target_matches(#[trigger] ts[i], gs[i])
}

/// The parsed output options match their specification-level counterpart.
pub open spec fn opts_match(o: OutputOptions, g: OutputView) -> bool {
    &&& o.format == g.format
    &&& o.sandbox == g.sandbox
    &&& pair_views(o.includes@) == g.includes
}

/// The parsed command matches its specification-level counterpart.
pub open spec fn cmd_matches(c: Cmd, g: CmdView) -> bool {
    match g {
        CmdView::Evaluate { output_opts, format_opts, fname } => {
            &&& c matches Cmd::Evaluate { output_opts: co, format_opts: cf, fname: cn }
            &&& opts_match(co, output_opts)
            &&& cf == format_opts
            &&& target_matches(cn, fname)
        },
        CmdView::Query { output_opts, format_opts, fname, query } => {
            &&& c matches Cmd::Query { output_opts: co, format_opts: cf, fname: cn, query: cq }
            &&& opts_match(co, output_opts)
            &&& cf == format_opts
            &&& target_matches(cn, fname)
            &&& cq@ == query
        },
        CmdView::FormatStdout { format_opts, fname } => {
            &&& c matches Cmd::Format { format_opts: cf, target: Cmd_target }
            &&& cf == format_opts
            &&& Cmd_target matches FormatTarget::Stdout { fname: cn }
            &&& target_matches(cn, fname)
        },
        CmdView::FormatInPlace { format_opts, fnames } => {
            &&& c matches Cmd::Format { format_opts: cf, target: Cmd_target }
            &&& cf == format_opts
            &&& Cmd_target matches FormatTarget::InPlace { fnames: cns }
            &&& targets_match(cns@, fnames)
        },
        CmdView::Highlight { fname } => {
            &&& c matches Cmd::Highlight { fname: cn }
            &&& target_matches(cn, fname)
        },
        CmdView::Help { usage } => {
            &&& c matches Cmd::Help { usage: cu }
            &&& cu@ == usage
        },
        CmdView::Version => c is Version,
    }
}

/// The parse result matches the specification-level outcome: success agrees
/// with success, the parsed values match, and the error message is exactly
/// the one the outcome names.
pub open spec fn outcome_matches(
    r: Result<(GlobalOptions, Cmd), Error>,
    g: ParseOutcome,
) -> bool {
    &&& (r is Ok <==> g is Done)
    &&& (r matches Ok(p) ==> g matches ParseOutcome::Done(gg, cg) && p.0 == gg && cmd_matches(
        p.1,
        cg,
    ))
    &&& (r matches Err(e) ==> g matches ParseOutcome::Fail(m) && e.message@ == m && e.span
        is None)
}

} // verus!

verus! {

/// The parser's accumulated state.
pub struct ParseState {
    pub cmd: Option<CmdName>,
    pub cmd_help: Option<HelpTopic>,
    pub is_version: bool,
    pub in_place: bool,
    pub global_opts: GlobalOptions,
    pub output_opts: OutputOptions,
    pub format_opts: FormatOptions,
    pub targets: Vec<TArg>,
}

impl View for ParseState {
    type V = StateView;

    open spec fn view(&self) -> StateView {
        StateView {
            cmd: self.cmd,
            cmd_help: self.cmd_help,
            is_version: self.is_version,
            in_place: self.in_place,
            global_opts: self.global_opts,
            output_opts: OutputView {
                format: self.output_opts.format,
                sandbox: self.output_opts.sandbox,
                includes: pair_views(self.output_opts.includes@),
            },
            format_opts: self.format_opts,
            targets: self.targets@.map_values(|t: TArg| t@),
        }
    }
}

/// The written form of an option token, for error messages.
fn opt_form(t: &Tok) -> (r: String)
    ensures
        r@ == form_of(t@),
{
    match t {
        Tok::Long(n) => {
            let mut s = "--".to_owned();
            s.append(n.as_str());
            s
        },
        Tok::Short(n) => {
            let mut s = "-".to_owned();
            s.append(n.as_str());
            s
        },
        Tok::Plain(w) => w.as_str().to_owned(),
        Tok::StdInOut => "-".to_owned(),
    }
}

fn err_expected_one_of(t: &Tok, alts: &str) -> (e: Error)
    ensures
        e.message@ == msg_expected_one_of(form_of(t@), alts@),
        e.span is None,
{
    let mut m = "Expected ".to_owned();
    let f = opt_form(t);
    m.append(f.as_str());
    m.append(" to be followed by one of ");
    m.append(alts);
    m.append(". See --help for usage.");
    Error { message: m, span: None }
}

fn err_unknown_option(t: &Tok) -> (e: Error)
    ensures
        e.message@ == msg_unknown_option(form_of(t@)),
        e.span is None,
{
    let mut m = "Unknown option '".to_owned();
    let f = opt_form(t);
    m.append(f.as_str());
    m.append("'. See --help for usage.");
    Error { message: m, span: None }
}

fn err_unknown_command(w: &String) -> (e: Error)
    ensures
        e.message@ == msg_unknown_command(w@),
        e.span is None,
{
    let mut m = "Unknown command '".to_owned();
    m.append(w.as_str());
    m.append("'. See --help for usage.");
    Error { message: m, span: None }
}

fn err_invalid_value(v: &String, t: &Tok) -> (e: Error)
    ensures
        e.message@ == msg_invalid_value(v@, form_of(t@)),
        e.span is None,
{
    let mut m = "'".to_owned();
    m.append(v.as_str());
    m.append("' is not valid for ");
    let f = opt_form(t);
    m.append(f.as_str());
    m.append(". See --help for usage.");
    Error { message: m, span: None }
}

fn err_missing_value(t: &Tok) -> (e: Error)
    ensures
        e.message@ == msg_missing_value(form_of(t@)),
        e.span is None,
{
    let mut m = "Expected a value for ".to_owned();
    let f = opt_form(t);
    m.append(f.as_str());
    m.append(". See --help for usage.");
    Error { message: m, span: None }
}

fn err_const(msg: &str) -> (e: Error)
    ensures
        e.message@ == msg@,
        e.span is None,
{
    Error { message: msg.to_owned(), span: None }
}

/// Pick the sole input target, and complain otherwise.
pub fn get_unique_target(mut targets: Vec<Target>) -> (r: Result<Target, Error>)
    ensures
        targets@.len() == 1 ==> (r matches Ok(t) && t == targets@[0]),
        targets@.len() == 0 ==> (r matches Err(e) && e.message@ == msg_expected_input_file()
            && e.span is None),
        targets@.len() > 1 ==> (r matches Err(e) && e.message@ == msg_too_many_input_files()
            && e.span is None),
{
    match targets.pop() {
        None => Err(err_const("Expected an input file. See --help for usage.")),
        Some(t) => {
            if targets.len() > 0 {
                Err(err_const("Too many input files. See --help for usage."))
            } else {
                Ok(t)
            }
        },
    }
}

/// Turn the collected raw targets into `Target` values.
#[verifier::loop_isolation(false)]
fn to_targets(ts: &Vec<TArg>) -> (r: Vec<Target>)
    ensures
        targets_match(r@, ts@.map_values(|t: TArg| t@).map_values(|t: TArgView| target_view_of(t))),
{
    let ghost goal = ts@.map_values(|t: TArg| t@).map_values(|t: TArgView| target_view_of(t));
    let mut out: Vec<Target> = Vec::new();
    let mut i: usize = 0;
    while i < ts.len()
        invariant
            0 <= i <= ts@.len(),
            out@.len() == i,
            goal == ts@.map_values(|t: TArg| t@).map_values(
                |t: TArgView| target_view_of(t),
            ),
            goal.len() == ts@.len(),
            forall|j: int| 0 <= j < i ==> target_matches(#[trigger] out@[j], goal[j]),
        decreases ts@.len() - i,
    {
        if ts[i].is_stdin {
            out.push(Target::Stdin);
        } else {
            out.push(Target::File(ts[i].raw.clone()));
        }
        i += 1;
    }
    out
}

/// Wrap up once every token is consumed.
fn finish(st: ParseState) -> (r: Result<(GlobalOptions, Cmd), Error>)
    ensures
        outcome_matches(r, spec_finish(st@)),
{
    let ghost gts = st@.targets.map_values(|t: TArgView| target_view_of(t));
    if st.is_version {
        return Ok((st.global_opts, Cmd::Version));
    }
    match st.cmd_help {
        Some(topic) => {
            let usage: &'static str = match topic {
                HelpTopic::Main => USAGE_MAIN,
                HelpTopic::Evaluate => USAGE_EVAL_QUERY,
                HelpTopic::Query => USAGE_EVAL_QUERY,
                HelpTopic::Format => USAGE_FORMAT,
                HelpTopic::Highlight => USAGE_MAIN,
            };
            return Ok((st.global_opts, Cmd::Help { usage }));
        },
        None => {},
    }
    match st.cmd {
        None => Ok((st.global_opts, Cmd::Help { usage: USAGE_MAIN })),
        Some(CmdName::Evaluate) => {
            let fname = match get_unique_target(to_targets(&st.targets)) {
                Ok(t) => t,
                Err(e) => {
                    return Err(e);
                },
            };
            Ok(
                (
                    st.global_opts,
                    Cmd::Evaluate {
                        output_opts: st.output_opts,
                        format_opts: st.format_opts,
                        fname,
                    },
                ),
            )
        },
        Some(CmdName::Query) => {
            if st.targets.len() == 2 {
                let fname = if st.targets[0].is_stdin {
                    Target::Stdin
                } else {
                    Target::File(st.targets[0].raw.clone())
                };
                let query = st.targets[1].raw.clone();
                Ok(
                    (
                        st.global_opts,
                        Cmd::Query {
                            output_opts: st.output_opts,
                            format_opts: st.format_opts,
                            fname,
                            query,
                        },
                    ),
                )
            } else {
                Err(err_const("Expected an input file and a query. See --help for usage."))
            }
        },
        Some(CmdName::Format) => {
            if st.in_place {
                let fnames = to_targets(&st.targets);
                Ok(
                    (
                        st.global_opts,
                        Cmd::Format {
                            format_opts: st.format_opts,
                            target: FormatTarget::InPlace { fnames },
                        },
                    ),
                )
            } else {
                let fname = match get_unique_target(to_targets(&st.targets)) {
                    Ok(t) => t,
                    Err(e) => {
                        return Err(e);
                    },
                };
                Ok(
                    (
                        st.global_opts,
                        Cmd::Format {
                            format_opts: st.format_opts,
                            target: FormatTarget::Stdout { fname },
                        },
                    ),
                )
            }
        },
        Some(CmdName::Highlight) => {
            let fname = match get_unique_target(to_targets(&st.targets)) {
                Ok(t) => t,
                Err(e) => {
                    return Err(e);
                },
            };
            Ok((st.global_opts, Cmd::Highlight { fname }))
        },
    }
}

/// Consume the token stream from `i` on, carrying the state along; options
/// that take a value also consume the plain token after them.
#[verifier::loop_isolation(false)]
fn parse_toks(toks: &Vec<Tok>, i: usize, st: ParseState) -> (r: Result<
    (GlobalOptions, Cmd),
    Error,
>)
    requires
        i <= toks@.len(),
    ensures
        outcome_matches(r, spec_parse(tok_views(toks@).skip(i as int), st@)),
    decreases toks@.len() - i, 1int,
{
    let ghost rest = tok_views(toks@).skip(i as int);
    if i == toks.len() {
        proof {
            assert(rest =~= Seq::<TokView>::empty());
        }
        return finish(st);
    }
    proof {
        assert(rest[0] == toks@[i as int]@);
        assert(rest.skip(1) =~= tok_views(toks@).skip(i as int + 1));
    }
    match &toks[i] {
        Tok::Long(name) => {
            if str_eq_str(name.as_str(), "color") {
                if i + 1 < toks.len() {
                    proof {
                        assert(rest[1] == toks@[i as int + 1]@);
                        assert(rest.skip(2) =~= tok_views(toks@).skip(i as int + 2));
                    }
                    match &toks[i + 1] {
                        Tok::Plain(v) => {
                            let mut st2 = st;
                            if str_eq_str(v.as_str(), "auto") {
                                st2.global_opts = GlobalOptions { markup: None };
                                return parse_toks(toks, i + 2, st2);
                            } else if str_eq_str(v.as_str(), "ansi") {
                                st2.global_opts = GlobalOptions {
                                    markup: Some(MarkupMode::Ansi),
                                };
                                return parse_toks(toks, i + 2, st2);
                            } else if str_eq_str(v.as_str(), "none") {
                                st2.global_opts = GlobalOptions {
                                    markup: Some(MarkupMode::NoColor),
                                };
                                return parse_toks(toks, i + 2, st2);
                            } else {
                                return Err(err_expected_one_of(&toks[i], "auto, ansi, none"));
                            }
                        },
                        _ => {
                            return Err(err_expected_one_of(&toks[i], "auto, ansi, none"));
                        },
                    }
                }
                return Err(err_expected_one_of(&toks[i], "auto, ansi, none"));
            } else if str_eq_str(name.as_str(), "output") {
                parse_output_opt(toks, i, st)
            } else if str_eq_str(name.as_str(), "sandbox") {
                if i + 1 < toks.len() {
                    proof {
                        assert(rest[1] == toks@[i as int + 1]@);
                        assert(rest.skip(2) =~= tok_views(toks@).skip(i as int + 2));
                    }
                    match &toks[i + 1] {
                        Tok::Plain(v) => {
                            let mut st2 = st;
                            if str_eq_str(v.as_str(), "pure") {
                                st2.output_opts.sandbox = SandboxMode::Pure;
                                return parse_toks(toks, i + 2, st2);
                            } else if str_eq_str(v.as_str(), "workdir") {
                                st2.output_opts.sandbox = SandboxMode::Workdir;
                                return parse_toks(toks, i + 2, st2);
                            } else if str_eq_str(v.as_str(), "unrestricted") {
                                st2.output_opts.sandbox = SandboxMode::Unrestricted;
                                return parse_toks(toks, i + 2, st2);
                            } else {
                                return Err(
                                    err_expected_one_of(&toks[i], "pure, workdir, unrestricted"),
                                );
                            }
                        },
                        _ => {
                            return Err(
                                err_expected_one_of(&toks[i], "pure, workdir, unrestricted"),
                            );
                        },
                    }
                }
                return Err(err_expected_one_of(&toks[i], "pure, workdir, unrestricted"));
            } else if str_eq_str(name.as_str(), "include") {
                parse_inc_opt(toks, i, st)
            } else if str_eq_str(name.as_str(), "width") {
                parse_width_opt(toks, i, st)
            } else if str_eq_str(name.as_str(), "in-place") {
                let mut st2 = st;
                st2.in_place = true;
                parse_toks(toks, i + 1, st2)
            } else if str_eq_str(name.as_str(), "help") {
                parse_help_opt(toks, i, st)
            } else if str_eq_str(name.as_str(), "version") {
                let mut st2 = st;
                st2.is_version = true;
                st2.cmd_help = None;
                parse_toks(toks, i + 1, st2)
            } else {
                Err(err_unknown_option(&toks[i]))
            }
        },
        Tok::Short(name) => {
            if str_eq_str(name.as_str(), "o") {
                parse_output_opt(toks, i, st)
            } else if str_eq_str(name.as_str(), "I") {
                parse_inc_opt(toks, i, st)
            } else if str_eq_str(name.as_str(), "w") {
                parse_width_opt(toks, i, st)
            } else if str_eq_str(name.as_str(), "i") {
                let mut st2 = st;
                st2.in_place = true;
                parse_toks(toks, i + 1, st2)
            } else if str_eq_str(name.as_str(), "h") {
                parse_help_opt(toks, i, st)
            } else {
                Err(err_unknown_option(&toks[i]))
            }
        },
        Tok::Plain(word) => {
            if st.cmd.is_none() {
                let mut st2 = st;
                if str_eq_str(word.as_str(), "evaluate") || str_eq_str(word.as_str(), "eval")
                    || str_eq_str(word.as_str(), "e") {
                    st2.cmd = Some(CmdName::Evaluate);
                    parse_toks(toks, i + 1, st2)
                } else if str_eq_str(word.as_str(), "query") || str_eq_str(word.as_str(), "q") {
                    st2.cmd = Some(CmdName::Query);
                    parse_toks(toks, i + 1, st2)
                } else if str_eq_str(word.as_str(), "jq") {
                    st2.cmd = Some(CmdName::Query);
                    st2.output_opts.format = OutputFormat::Json;
                    parse_toks(toks, i + 1, st2)
                } else if str_eq_str(word.as_str(), "format") || str_eq_str(word.as_str(), "fmt")
                    || str_eq_str(word.as_str(), "f") {
                    st2.cmd = Some(CmdName::Format);
                    parse_toks(toks, i + 1, st2)
                } else if str_eq_str(word.as_str(), "highlight") || str_eq_str(
                    word.as_str(),
                    "h",
                ) {
                    st2.cmd = Some(CmdName::Highlight);
                    parse_toks(toks, i + 1, st2)
                } else {
                    Err(err_unknown_command(word))
                }
            } else {
                let mut st2 = st;
                st2.targets.push(TArg { raw: word.as_str().to_owned(), is_stdin: false });
                proof {
                    assert(st2@.targets =~= st@.targets.push(
                        TArgView { raw: word@, is_stdin: false },
                    ));
                }
                parse_toks(toks, i + 1, st2)
            }
        },
        Tok::StdInOut => {
            if st.cmd.is_some() {
                let mut st2 = st;
                st2.targets.push(TArg { raw: "-".to_owned(), is_stdin: true });
                proof {
                    assert(st2@.targets =~= st@.targets.push(
                        TArgView { raw: "-"@, is_stdin: true },
                    ));
                }
                parse_toks(toks, i + 1, st2)
            } else {
                Err(err_unknown_option(&toks[i]))
            }
        },
    }
}

/// `--output`/`-o` and its value.
#[verifier::loop_isolation(false)]
fn parse_output_opt(toks: &Vec<Tok>, i: usize, st: ParseState) -> (r: Result<
    (GlobalOptions, Cmd),
    Error,
>)
    requires
        i < toks@.len(),
    ensures
        outcome_matches(r, spec_parse_output(tok_views(toks@).skip(i as int), st@)),
    decreases toks@.len() - i, 0int,
{
    let ghost rest = tok_views(toks@).skip(i as int);
    let n = toks.len();
    proof {
        assert(rest[0] == toks@[i as int]@);
        assert(i < n);
    }
    if i + 1 < n {
        proof {
            assert(rest[1] == toks@[i as int + 1]@);
            assert(rest.skip(2) =~= tok_views(toks@).skip(i as int + 2));
        }
        match &toks[i + 1] {
            Tok::Plain(v) => {
                let mut st2 = st;
                if str_eq_str(v.as_str(), "json") {
                    st2.output_opts.format = OutputFormat::Json;
                    return parse_toks(toks, i + 2, st2);
                } else if str_eq_str(v.as_str(), "rcl") {
                    st2.output_opts.format = OutputFormat::Rcl;
                    return parse_toks(toks, i + 2, st2);
                } else {
                    return Err(err_expected_one_of(&toks[i], "json, rcl"));
                }
            },
            _ => {
                return Err(err_expected_one_of(&toks[i], "json, rcl"));
            },
        }
    }
    Err(err_expected_one_of(&toks[i], "json, rcl"))
}

/// Record one `(alias, file)` pair: the last occurrence of an alias wins,
/// keeping the place of the first.
#[verifier::loop_isolation(false)]
fn insert_alias(m: &Vec<(String, String)>, alias: &String, fname: &String) -> (r: Vec<
    (String, String),
>)
    ensures
        pair_views(r@) == inc_insert(pair_views(m@), alias@, fname@),
{
    let ghost m0 = pair_views(m@);
    let mut out: Vec<(String, String)> = Vec::new();
    let mut replaced = false;
    let mut j: usize = 0;
    proof {
        assert(m0.skip(0) =~= m0);
        assert(pair_views(out@) + inc_insert(m0, alias@, fname@) =~= inc_insert(
            m0,
            alias@,
            fname@,
        ));
    }
    while j < m.len()
        invariant
            0 <= j <= m@.len(),
            m0 == pair_views(m@),
            m0.len() == m@.len(),
            inc_insert(m0, alias@, fname@) == if replaced {
                pair_views(out@) + m0.skip(j as int)
            } else {
                pair_views(out@) + inc_insert(m0.skip(j as int), alias@, fname@)
            },
        decreases m@.len() - j,
    {
        let ghost pre = pair_views(out@);
        proof {
            assert(m0.skip(j as int)[0] == m0[j as int]);
            assert(m0[j as int] == (m@[j as int].0@, m@[j as int].1@));
            assert(m0.skip(j as int).drop_first() =~= m0.skip(j as int + 1));
        }
        if !replaced && str_eq_str(m[j].0.as_str(), alias.as_str()) {
            out.push((alias.clone(), fname.clone()));
            replaced = true;
            proof {
                assert(pair_views(out@) =~= pre + seq![(alias@, fname@)]);
                assert((pre + seq![(alias@, fname@)]) + m0.skip(j as int + 1) =~= pre + (seq![
                    (alias@, fname@),
                ] + m0.skip(j as int + 1)));
            }
        } else {
            out.push((m[j].0.clone(), m[j].1.clone()));
            proof {
                assert(pair_views(out@) =~= pre + seq![m0[j as int]]);
                assert((pre + seq![m0[j as int]]) + m0.skip(j as int + 1) =~= pre + (seq![
                    m0[j as int],
                ] + m0.skip(j as int + 1)));
                if !replaced {
                    assert((pre + seq![m0[j as int]]) + inc_insert(
                        m0.skip(j as int + 1),
                        alias@,
                        fname@,
                    ) =~= pre + (seq![m0[j as int]] + inc_insert(
                        m0.skip(j as int + 1),
                        alias@,
                        fname@,
                    )));
                }
            }
        }
        j += 1;
    }
    proof {
        assert(m0.skip(j as int) =~= Seq::<(Seq<char>, Seq<char>)>::empty());
    }
    if !replaced {
        let ghost pre = pair_views(out@);
        out.push((alias.clone(), fname.clone()));
        proof {
            assert(pair_views(out@) =~= pre + seq![(alias@, fname@)]);
        }
    } else {
        proof {
            assert(pair_views(out@) + Seq::<(Seq<char>, Seq<char>)>::empty() =~= pair_views(
                out@,
            ));
        }
    }
    out
}

/// `--include`/`-I` and its `alias:file` value.
#[verifier::loop_isolation(false)]
fn parse_inc_opt(toks: &Vec<Tok>, i: usize, st: ParseState) -> (r: Result<
    (GlobalOptions, Cmd),
    Error,
>)
    requires
        i < toks@.len(),
    ensures
        outcome_matches(r, spec_parse_inc(tok_views(toks@).skip(i as int), st@)),
    decreases toks@.len() - i, 0int,
{
    let ghost rest = tok_views(toks@).skip(i as int);
    let n = toks.len();
    proof {
        assert(rest[0] == toks@[i as int]@);
        assert(i < n);
    }
    if i + 1 < n {
        proof {
            assert(rest[1] == toks@[i as int + 1]@);
            assert(rest.skip(2) =~= tok_views(toks@).skip(i as int + 2));
        }
        match &toks[i + 1] {
            Tok::Plain(v) => {
                // The value splits at its first colon into alias and file.
                let vn = v.as_str().unicode_len();
                let mut k: usize = 0;
                while k < vn && v.as_str().get_char(k) != ':'
                    invariant
                        0 <= k <= vn,
                        vn == v@.len(),
                        first_index_from(v@, ':', 0) == first_index_from(v@, ':', k as int),
                    decreases vn - k,
                {
                    k += 1;
                }
                if k < vn {
                    let alias = v.as_str().substring_char(0, k).to_owned();
                    let fname = v.as_str().substring_char(k + 1, vn).to_owned();
                    let mut st2 = st;
                    st2.output_opts.includes = insert_alias(
                        &st2.output_opts.includes,
                        &alias,
                        &fname,
                    );
                    proof {
                        assert(st2@.output_opts.includes == inc_insert(
                            st@.output_opts.includes,
                            v@.subrange(0, k as int),
                            v@.subrange(k as int + 1, v@.len() as int),
                        ));
                    }
                    return parse_toks(toks, i + 2, st2);
                } else {
                    return Err(err_invalid_value(v, &toks[i]));
                }
            },
            _ => {
                return Err(err_missing_value(&toks[i]));
            },
        }
    }
    Err(err_missing_value(&toks[i]))
}

/// `--width`/`-w` and its value.
#[verifier::loop_isolation(false)]
fn parse_width_opt(toks: &Vec<Tok>, i: usize, st: ParseState) -> (r: Result<
    (GlobalOptions, Cmd),
    Error,
>)
    requires
        i < toks@.len(),
    ensures
        outcome_matches(r, spec_parse_width(tok_views(toks@).skip(i as int), st@)),
    decreases toks@.len() - i, 0int,
{
    let ghost rest = tok_views(toks@).skip(i as int);
    let n = toks.len();
    proof {
        assert(rest[0] == toks@[i as int]@);
        assert(i < n);
    }
    if i + 1 < n {
        proof {
            assert(rest[1] == toks@[i as int + 1]@);
            assert(rest.skip(2) =~= tok_views(toks@).skip(i as int + 2));
        }
        match &toks[i + 1] {
            Tok::Plain(v) => {
                match parse_u32(v.as_str()) {
                    Some(n) => {
                        let mut st2 = st;
                        st2.format_opts = FormatOptions { width: n };
                        return parse_toks(toks, i + 2, st2);
                    },
                    None => {
                        return Err(err_invalid_value(v, &toks[i]));
                    },
                }
            },
            _ => {
                return Err(err_missing_value(&toks[i]));
            },
        }
    }
    Err(err_missing_value(&toks[i]))
}

/// `--help`/`-h`: remember which help screen to show.
#[verifier::loop_isolation(false)]
fn parse_help_opt(toks: &Vec<Tok>, i: usize, st: ParseState) -> (r: Result<
    (GlobalOptions, Cmd),
    Error,
>)
    requires
        i < toks@.len(),
    ensures
        outcome_matches(r, spec_parse_help(tok_views(toks@).skip(i as int), st@)),
    decreases toks@.len() - i, 0int,
{
    let n = toks.len();
    proof {
        assert(i < n);
    }
    let mut st2 = st;
    st2.is_version = false;
    st2.cmd_help = Some(
        match st2.cmd {
            None => HelpTopic::Main,
            Some(CmdName::Evaluate) => HelpTopic::Evaluate,
            Some(CmdName::Query) => HelpTopic::Query,
            Some(CmdName::Format) => HelpTopic::Format,
            Some(CmdName::Highlight) => HelpTopic::Highlight,
        },
    );
    proof {
        assert(tok_views(toks@).skip(i as int).skip(1) =~= tok_views(toks@).skip(i as int + 1));
    }
    parse_toks(toks, i + 1, st2)
}

/// Parse the command line. The first argument is the program name.
pub fn parse(args: Vec<String>) -> (r: Result<(GlobalOptions, Cmd), Error>)
    ensures
        args@.len() >= 1 ==> outcome_matches(
            r,
            spec_parse(spec_lex(string_views(args@).skip(1), false), init_state()),
        ),
        args@.len() == 0 ==> ({
            &&& r matches Ok(p)
            &&& p.0 == (GlobalOptions { markup: None })
            &&& p.1 matches Cmd::Help { usage }
            &&& usage@ == USAGE_MAIN@
        }),
{
    if args.len() == 0 {
        return Ok((GlobalOptions::default(), Cmd::Help { usage: USAGE_MAIN }));
    }
    let toks = lex_args(&args, 1);
    let st = ParseState {
        cmd: None,
        cmd_help: None,
        is_version: false,
        in_place: false,
        global_opts: GlobalOptions::default(),
        output_opts: OutputOptions::default(),
        format_opts: FormatOptions::default(),
        targets: Vec::new(),
    };
    proof {
        assert(st@.targets =~= Seq::<TArgView>::empty());
        assert(st@.output_opts.includes =~= Seq::<(Seq<char>, Seq<char>)>::empty());
        assert(st@ == init_state());
        assert(tok_views(toks@).skip(0) =~= tok_views(toks@));
    }
    parse_toks(&toks, 0, st)
}

} // verus!
