//! Command line arguments and the rules that turn them, together with the
//! saved settings, into download requests.

use vstd::prelude::*;
use crate::api::DownloadRequest;
use crate::http::split_on;
use crate::text::{chars_of, parse_usize_chars, parse_usize_spec, push_str, string_of, trim_chars, trimmed};

verus! {

/// Arguments of the `download` and `add` commands.
#[derive(Debug, Clone)]
pub struct DownloadArgs {
    pub url: Option<String>,
    pub links_file: Option<String>,
    pub output: Option<String>,
    pub connections: Option<usize>,
    pub user_agent: Option<String>,
    pub limit: Option<u64>,
    pub experimental_entropy: bool,
    pub daemon: bool,
    pub silent: bool,
    pub json: bool,
    pub yes: bool,
}

/// Shells that completions can be generated for.
#[derive(Clone, Copy, Debug, PartialEq, Eq)]
pub enum ShellChoice {
    Bash,
    Zsh,
    Fish,
    PowerShell,
    Nushell,
}

/// Arguments of the `completions` command.
#[derive(Debug, Clone, Copy)]
pub struct CompletionsArgs {
    pub shell: ShellChoice,
}

/// Subcommands of `config`.
#[derive(Debug, Clone)]
pub enum ConfigCommand {
    Get { key: String },
    Put { key: String, value: String },
    Show,
}

/// Arguments of the `config` command.
#[derive(Debug, Clone)]
pub struct ConfigArgs {
    pub command: ConfigCommand,
}

/// Arguments of the `history` command.
#[derive(Debug, Clone)]
pub struct HistoryArgs {
    pub limit: usize,
    pub query: Option<String>,
}

/// Arguments of the `list` command.
#[derive(Debug, Clone)]
pub struct JobListArgs {
    pub limit: usize,
    pub query: Option<String>,
}

/// Arguments of the commands that act on one daemon job.
#[derive(Debug, Clone, Copy)]
pub struct JobIdArgs {
    pub id: i64,
}

/// Subcommands of `daemon`.
#[derive(Debug, Clone, Copy, PartialEq, Eq)]
pub enum DaemonCommand {
    Run,
    Start,
    Status,
    Stop,
}

/// What the daemon reports about itself.
#[derive(Debug, Clone, Copy, PartialEq, Eq)]
pub struct DaemonStatus {
    pub pid: u32,
    pub active: usize,
    pub queued: usize,
}

/// How a download reports to the terminal.
#[derive(Copy, Clone, Debug, Eq, PartialEq)]
pub enum OutputMode {
    Default,
    Silent,
    Json,
}

impl OutputMode {
    /// JSON events when asked for, else silence when asked for, else progress bars.
    pub fn from_args(args: &DownloadArgs) -> (m: OutputMode)
        ensures
            m == if args.json {
                OutputMode::Json
            } else if args.silent {
                OutputMode::Silent
            } else {
                OutputMode::Default
            },
    {
        if args.json {
            OutputMode::Json
        } else if args.silent {
            OutputMode::Silent
        } else {
            OutputMode::Default
        }
    }
}

/// The text `invalid connections setting: ` followed by `value`.
pub open spec fn bad_connections_text(value: Seq<char>) -> Seq<char> {
    "invalid connections setting: "@ + value
}

/// The number of connections: the flag when given, else the saved setting
/// (which must be a number), else 4.
pub fn resolve_connections(connections: Option<usize>, configured: Option<String>) -> (r: Result<usize, String>)
    ensures
        connections is Some ==> r == Ok::<usize, String>(connections->0),
        connections is None && configured is None ==> r == Ok::<usize, String>(4),
        connections is None && configured is Some ==> match parse_usize_spec(configured->0@) {
            Some(v) => r == Ok::<usize, String>(v),
            None => (r matches Err(m) && m@ == bad_connections_text(configured->0@)),
        },
{
    if let Some(c) = connections {
        return Ok(c);
    }
    match configured {
        Some(value) => match parse_usize_chars(&chars_of(value.as_str())) {
            Some(v) => Ok(v),
            None => {
                let mut msg: Vec<char> = Vec::new();
                push_str(&mut msg, "invalid connections setting: ");
                push_str(&mut msg, value.as_str());
                Err(string_of(msg.as_slice()))
            },
        },
        None => Ok(4),
    }
}

/// The byte count that `bytefmt::parse` reads from `s`, or `None` when it rejects `s`.
pub uninterp spec fn byte_size(s: Seq<char>) -> Option<u64>;

/// The text of the one error that `bytefmt::parse` returns.
pub open spec fn byte_size_error_text() -> Seq<char> {
    "Parse Error. Invalid byte format."@
}


/// Whether `c` is a decimal digit of a script other than Latin (Unicode
/// general category `Nd`, outside `0`..`9`), per Unicode 16.0.
pub open spec fn is_foreign_digit(c: char) -> bool {
    let u = c as u32;
    ||| (0x660 <= u && u <= 0x669)
    ||| (0x6F0 <= u && u <= 0x6F9)
    ||| (0x7C0 <= u && u <= 0x7C9)
    ||| (0x966 <= u && u <= 0x96F)
    ||| (0x9E6 <= u && u <= 0x9EF)
    ||| (0xA66 <= u && u <= 0xA6F)
    ||| (0xAE6 <= u && u <= 0xAEF)
    ||| (0xB66 <= u && u <= 0xB6F)
    ||| (0xBE6 <= u && u <= 0xBEF)
    ||| (0xC66 <= u && u <= 0xC6F)
    ||| (0xCE6 <= u && u <= 0xCEF)
    ||| (0xD66 <= u && u <= 0xD6F)
    ||| (0xDE6 <= u && u <= 0xDEF)
    ||| (0xE50 <= u && u <= 0xE59)
    ||| (0xED0 <= u && u <= 0xED9)
    ||| (0xF20 <= u && u <= 0xF29)
    ||| (0x1040 <= u && u <= 0x1049)
    ||| (0x1090 <= u && u <= 0x1099)
    ||| (0x17E0 <= u && u <= 0x17E9)
    ||| (0x1810 <= u && u <= 0x1819)
    ||| (0x1946 <= u && u <= 0x194F)
    ||| (0x19D0 <= u && u <= 0x19D9)
    ||| (0x1A80 <= u && u <= 0x1A89)
    ||| (0x1A90 <= u && u <= 0x1A99)
    ||| (0x1B50 <= u && u <= 0x1B59)
    ||| (0x1BB0 <= u && u <= 0x1BB9)
    ||| (0x1C40 <= u && u <= 0x1C49)
    ||| (0x1C50 <= u && u <= 0x1C59)
    ||| (0xA620 <= u && u <= 0xA629)
    ||| (0xA8D0 <= u && u <= 0xA8D9)
    ||| (0xA900 <= u && u <= 0xA909)
    ||| (0xA9D0 <= u && u <= 0xA9D9)
    ||| (0xA9F0 <= u && u <= 0xA9F9)
    ||| (0xAA50 <= u && u <= 0xAA59)
    ||| (0xABF0 <= u && u <= 0xABF9)
    ||| (0xFF10 <= u && u <= 0xFF19)
    ||| (0x104A0 <= u && u <= 0x104A9)
    ||| (0x10D30 <= u && u <= 0x10D39)
    ||| (0x10D40 <= u && u <= 0x10D49)
    ||| (0x11066 <= u && u <= 0x1106F)
    ||| (0x110F0 <= u && u <= 0x110F9)
    ||| (0x11136 <= u && u <= 0x1113F)
    ||| (0x111D0 <= u && u <= 0x111D9)
    ||| (0x112F0 <= u && u <= 0x112F9)
    ||| (0x11450 <= u && u <= 0x11459)
    ||| (0x114D0 <= u && u <= 0x114D9)
    ||| (0x11650 <= u && u <= 0x11659)
    ||| (0x116C0 <= u && u <= 0x116C9)
    ||| (0x116D0 <= u && u <= 0x116E3)
    ||| (0x11730 <= u && u <= 0x11739)
    ||| (0x118E0 <= u && u <= 0x118E9)
    ||| (0x11950 <= u && u <= 0x11959)
    ||| (0x11BF0 <= u && u <= 0x11BF9)
    ||| (0x11C50 <= u && u <= 0x11C59)
    ||| (0x11D50 <= u && u <= 0x11D59)
    ||| (0x11DA0 <= u && u <= 0x11DA9)
    ||| (0x11F50 <= u && u <= 0x11F59)
    ||| (0x16130 <= u && u <= 0x16139)
    ||| (0x16A60 <= u && u <= 0x16A69)
    ||| (0x16AC0 <= u && u <= 0x16AC9)
    ||| (0x16B50 <= u && u <= 0x16B59)
    ||| (0x16D70 <= u && u <= 0x16D79)
    ||| (0x1CCF0 <= u && u <= 0x1CCF9)
    ||| (0x1D7CE <= u && u <= 0x1D7FF)
    ||| (0x1E140 <= u && u <= 0x1E149)
    ||| (0x1E2F0 <= u && u <= 0x1E2F9)
    ||| (0x1E4F0 <= u && u <= 0x1E4F9)
    ||| (0x1E5F1 <= u && u <= 0x1E5FA)
    ||| (0x1E950 <= u && u <= 0x1E959)
    ||| (0x1FBF0 <= u && u <= 0x1FBF9)
}

/// Whether `s` holds a decimal digit of a script other than Latin.
pub open spec fn has_foreign_digit(s: Seq<char>) -> bool {
    exists|i: int| 0 <= i < s.len() && is_foreign_digit(#[trigger] s[i])
}

fn foreign_digit(c: char) -> (b: bool)
    ensures
        b == is_foreign_digit(c),
{
    let u = c as u32;
    (0x660 <= u && u <= 0x669) || (0x6F0 <= u && u <= 0x6F9) || (0x7C0 <= u && u <= 0x7C9) || (0x966 <= u && u <= 0x96F) || (0x9E6 <= u && u <= 0x9EF) || (0xA66 <= u && u <= 0xA6F) || (0xAE6 <= u && u <= 0xAEF) || (0xB66 <= u && u <= 0xB6F) || (0xBE6 <= u && u <= 0xBEF) || (0xC66 <= u && u <= 0xC6F) || (0xCE6 <= u && u <= 0xCEF) || (0xD66 <= u && u <= 0xD6F) || (0xDE6 <= u && u <= 0xDEF) || (0xE50 <= u && u <= 0xE59) || (0xED0 <= u && u <= 0xED9) || (0xF20 <= u && u <= 0xF29) || (0x1040 <= u && u <= 0x1049) || (0x1090 <= u && u <= 0x1099) || (0x17E0 <= u && u <= 0x17E9) || (0x1810 <= u && u <= 0x1819) || (0x1946 <= u && u <= 0x194F) || (0x19D0 <= u && u <= 0x19D9) || (0x1A80 <= u && u <= 0x1A89) || (0x1A90 <= u && u <= 0x1A99) || (0x1B50 <= u && u <= 0x1B59) || (0x1BB0 <= u && u <= 0x1BB9) || (0x1C40 <= u && u <= 0x1C49) || (0x1C50 <= u && u <= 0x1C59) || (0xA620 <= u && u <= 0xA629) || (0xA8D0 <= u && u <= 0xA8D9) || (0xA900 <= u && u <= 0xA909) || (0xA9D0 <= u && u <= 0xA9D9) || (0xA9F0 <= u && u <= 0xA9F9) || (0xAA50 <= u && u <= 0xAA59) || (0xABF0 <= u && u <= 0xABF9) || (0xFF10 <= u && u <= 0xFF19) || (0x104A0 <= u && u <= 0x104A9) || (0x10D30 <= u && u <= 0x10D39) || (0x10D40 <= u && u <= 0x10D49) || (0x11066 <= u && u <= 0x1106F) || (0x110F0 <= u && u <= 0x110F9) || (0x11136 <= u && u <= 0x1113F) || (0x111D0 <= u && u <= 0x111D9) || (0x112F0 <= u && u <= 0x112F9) || (0x11450 <= u && u <= 0x11459) || (0x114D0 <= u && u <= 0x114D9) || (0x11650 <= u && u <= 0x11659) || (0x116C0 <= u && u <= 0x116C9) || (0x116D0 <= u && u <= 0x116E3) || (0x11730 <= u && u <= 0x11739) || (0x118E0 <= u && u <= 0x118E9) || (0x11950 <= u && u <= 0x11959) || (0x11BF0 <= u && u <= 0x11BF9) || (0x11C50 <= u && u <= 0x11C59) || (0x11D50 <= u && u <= 0x11D59) || (0x11DA0 <= u && u <= 0x11DA9) || (0x11F50 <= u && u <= 0x11F59) || (0x16130 <= u && u <= 0x16139) || (0x16A60 <= u && u <= 0x16A69) || (0x16AC0 <= u && u <= 0x16AC9) || (0x16B50 <= u && u <= 0x16B59) || (0x16D70 <= u && u <= 0x16D79) || (0x1CCF0 <= u && u <= 0x1CCF9) || (0x1D7CE <= u && u <= 0x1D7FF) || (0x1E140 <= u && u <= 0x1E149) || (0x1E2F0 <= u && u <= 0x1E2F9) || (0x1E4F0 <= u && u <= 0x1E4F9) || (0x1E5F1 <= u && u <= 0x1E5FA) || (0x1E950 <= u && u <= 0x1E959) || (0x1FBF0 <= u && u <= 0x1FBF9)
}

fn contains_foreign_digit(s: &str) -> (b: bool)
    ensures
        b == has_foreign_digit(s@),
{
    let cs = chars_of(s);
    let mut i: usize = 0;
    while i < cs.len()
        invariant
            cs@ == s@,
            i <= cs@.len(),
            forall|k: int| 0 <= k < i ==> !is_foreign_digit(#[trigger] cs@[k]),
        decreases cs.len() - i,
    {
        if foreign_digit(cs[i]) {
            assert(is_foreign_digit(s@[i as int]));
            return true;
        }
        i += 1;
    }
    false
}

/// Calls `bytefmt::parse`. Trusted: the value is whatever bytefmt computes for
/// `s` (only claimed to be a function of `s`); its one error message is the
/// text its source returns. Text with a non-Latin decimal digit is not handed
/// over: bytefmt's pattern takes any Unicode decimal digit (`\d`) as a digit
/// and then panics when the float parser refuses such a digit; on all other
/// text it returns.
#[verifier::external_body]
fn parse_byte_size(s: &str) -> (r: Result<u64, String>)
    requires
        !has_foreign_digit(s@),
    ensures
        r matches Ok(v) ==> byte_size(s@) == Some(v),
        r matches Err(e) ==> byte_size(s@) is None && e@ == byte_size_error_text(),
{
    bytefmt::parse(s).map_err(|e| e.to_string())
}

/// What reading `s` as a byte size gives: bytefmt's value, and a rejection
/// for text with a non-Latin decimal digit (which bytefmt either rejects or
/// panics on).
pub open spec fn byte_size_of(s: Seq<char>) -> Option<u64> {
    if has_foreign_digit(s) {
        None
    } else {
        byte_size(s)
    }
}

/// Reads `s` as a byte size such as `2MB`, `1.5 KiB` or `500`; a rejection
/// carries bytefmt's error text.
pub(crate) fn read_byte_size(s: &str) -> (r: Result<u64, String>)
    ensures
        match byte_size_of(s@) {
            Some(v) => r == Ok::<u64, String>(v),
            None => (r matches Err(e) && e@ == byte_size_error_text()),
        },
{
    if contains_foreign_digit(s) {
        let mut msg: Vec<char> = Vec::new();
        push_str(&mut msg, "Parse Error. Invalid byte format.");
        return Err(string_of(msg.as_slice()));
    }
    parse_byte_size(s)
}

/// Reads the `--limit` flag: a byte size such as `2MB` or `500KB`.
pub fn parse_rate(src: &str) -> (r: Result<u64, String>)
    ensures
        match byte_size_of(src@) {
            Some(v) => r == Ok::<u64, String>(v),
            None => (r matches Err(m) && m@ == "invalid byte size"@),
        },
{
    match read_byte_size(src) {
        Ok(v) => Ok(v),
        Err(_) => {
            let mut msg: Vec<char> = Vec::new();
            push_str(&mut msg, "invalid byte size");
            Err(string_of(msg.as_slice()))
        },
    }
}

/// The text `invalid speed_limit setting: ` followed by `value`, `: ` and `err`.
pub open spec fn bad_limit_text(value: Seq<char>, err: Seq<char>) -> Seq<char> {
    "invalid speed_limit setting: "@ + value + ": "@ + err
}

/// The speed limit: the flag when given, else the saved setting when it is not
/// empty (a byte size such as `2MB`), else none.
pub fn resolve_speed_limit(limit: Option<u64>, configured: Option<String>) -> (r: Result<Option<u64>, String>)
    ensures
        limit is Some ==> r == Ok::<Option<u64>, String>(limit),
        limit is None && (configured is None || configured->0@.len() == 0) ==> r == Ok::<Option<u64>, String>(None),
        limit is None && configured is Some && configured->0@.len() > 0 ==> match byte_size_of(configured->0@) {
            Some(v) => r == Ok::<Option<u64>, String>(Some(v)),
            None => (r matches Err(m) && m@ == bad_limit_text(configured->0@, byte_size_error_text())),
        },
{
    if limit.is_some() {
        return Ok(limit);
    }
    let value = match configured {
        Some(v) => v,
        None => return Ok(None),
    };
    if value.as_str().is_empty() {
        return Ok(None);
    }
    match read_byte_size(value.as_str()) {
        Ok(v) => Ok(Some(v)),
        Err(e) => {
            let mut msg: Vec<char> = Vec::new();
            push_str(&mut msg, "invalid speed_limit setting: ");
            push_str(&mut msg, value.as_str());
            push_str(&mut msg, ": ");
            push_str(&mut msg, e.as_str());
            Err(string_of(msg.as_slice()))
        },
    }
}

/// The non-blank lines of a links file, trimmed.
pub open spec fn links_of(data: Seq<char>) -> Seq<Seq<char>> {
    split_on(data, '\n').map_values(|l: Seq<char>| trimmed(l)).filter(|l: Seq<char>| l.len() > 0)
}

proof fn lemma_split_without_separator(s: Seq<char>, sep: char)
    requires
        !s.contains(sep),
    ensures
        split_on(s, sep) == seq![s],
    decreases s.len(),
{
    if s.len() > 0 {
        let d = s.drop_last();
        assert(!d.contains(sep)) by {
            if d.contains(sep) {
                let k = choose|k: int| 0 <= k < d.len() && d[k] == sep;
                assert(s[k] == sep);
            }
        }
        lemma_split_without_separator(d, sep);
        assert(s.last() != sep) by {
            assert(s[s.len() - 1] == s.last());
        }
        assert(d.push(s.last()) =~= s);
        assert(split_on(s, sep) =~= seq![s]);
    } else {
        assert(s =~= Seq::<char>::empty());
    }
}

proof fn lemma_split_at_separator(a: Seq<char>, b: Seq<char>, sep: char)
    ensures
        split_on(a + seq![sep] + b, sep) == split_on(a, sep) + split_on(b, sep),
    decreases b.len(),
{
    let x = a + seq![sep] + b;
    crate::http::lemma_split_nonempty(a, sep);
    if b.len() == 0 {
        assert(x =~= a.push(sep));
        assert(x.drop_last() =~= a);
        assert(split_on(x, sep) =~= split_on(a, sep) + split_on(b, sep));
    } else {
        let bd = b.drop_last();
        lemma_split_at_separator(a, bd, sep);
        crate::http::lemma_split_nonempty(bd, sep);
        assert(x.drop_last() =~= a + seq![sep] + bd);
        assert(x.last() == b.last());
        let sa = split_on(a, sep);
        let sb = split_on(bd, sep);
        if b.last() == sep {
            assert(split_on(x, sep) =~= sa + split_on(b, sep));
        } else {
            let r = sa + sb;
            assert(r.last() == sb.last());
            assert(r.update(r.len() - 1, r.last().push(b.last())) =~= sa + sb.update(
                sb.len() - 1,
                sb.last().push(b.last()),
            ));
        }
    }
}

/// Law: a links file of one line (no newline) lists that line, trimmed,
/// unless it is blank.
pub proof fn lemma_links_of_one_line(line: Seq<char>)
    requires
        !line.contains('\n'),
    ensures
        links_of(line) == if trimmed(line).len() > 0 { seq![trimmed(line)] } else { Seq::<Seq<char>>::empty() },
{
    lemma_split_without_separator(line, '\n');
    let f = |l: Seq<char>| trimmed(l);
    let p = |l: Seq<char>| l.len() > 0;
    assert(seq![line].map_values(f) =~= Seq::<Seq<char>>::empty().push(trimmed(line)));
    Seq::<Seq<char>>::empty().lemma_filter_push(trimmed(line), p);
    assert(Seq::<Seq<char>>::empty().filter(p) =~= Seq::<Seq<char>>::empty());
}

/// Law: the links of a file are the links of the text before a newline
/// followed by the links of the text after it; no line is lost, the last
/// one (with no newline after it) included.
pub proof fn lemma_links_of_lines(a: Seq<char>, b: Seq<char>)
    ensures
        links_of(a + seq!['\n'] + b) == links_of(a) + links_of(b),
{
    lemma_split_at_separator(a, b, '\n');
    let f = |l: Seq<char>| trimmed(l);
    let p = |l: Seq<char>| l.len() > 0;
    let sa = split_on(a, '\n');
    let sb = split_on(b, '\n');
    assert((sa + sb).map_values(f) =~= sa.map_values(f) + sb.map_values(f));
    Seq::filter_distributes_over_add(sa.map_values(f), sb.map_values(f), p);
}

/// The URLs listed in a links file: one per line, trimmed, blank lines skipped.
pub fn read_links(data: &str) -> (links: Vec<String>)
    ensures
        links.deep_view() == links_of(data@),
{
    let chars = chars_of(data);
    let lines = crate::http::split_chars(&chars, '\n');
    let ghost all = lines.deep_view();
    let mut links: Vec<String> = Vec::new();
    let mut i: usize = 0;
    assert(all.take(0).map_values(|l: Seq<char>| trimmed(l)).filter(|l: Seq<char>| l.len() > 0) =~= Seq::<Seq<char>>::empty());
    while i < lines.len()
        invariant
            all == lines.deep_view(),
            all == split_on(data@, '\n'),
            i <= all.len(),
            links.deep_view() == all.take(i as int).map_values(|l: Seq<char>| trimmed(l)).filter(|l: Seq<char>| l.len() > 0),
        decreases lines.len() - i,
    {
        let t = trim_chars(&lines[i]);
        let ghost before = links.deep_view();
        proof {
            assert(lines@[i as int].deep_view() =~= lines@[i as int]@);
            let f = |l: Seq<char>| trimmed(l);
            let p = |l: Seq<char>| l.len() > 0;
            assert(all.take(i + 1).map_values(f) =~= all.take(i as int).map_values(f).push(trimmed(all[i as int])));
            all.take(i as int).map_values(f).lemma_filter_push(trimmed(all[i as int]), p);
        }
        if t.len() > 0 {
            let s = string_of(t.as_slice());
            links.push(s);
            assert(links.deep_view() =~= before.push(t@));
        }
        i += 1;
    }
    assert(all.take(all.len() as int) =~= all);
    links
}

/// Why the arguments do not describe any download.
#[derive(Debug, Clone, Copy, PartialEq, Eq)]
pub enum RequestError {
    /// Neither a URL nor a links file was given.
    MissingUrl,
    /// `--output` was given together with `--links-file`.
    OutputWithLinksFile,
    /// The links file lists no URL.
    NoLinks,
}

/// Whether the arguments need the links file to be read.
pub fn needs_links_file(args: &DownloadArgs) -> (b: bool)
    ensures
        b == (args.links_file is Some && args.output is None),
{
    args.links_file.is_some() && args.output.is_none()
}

/// The requests that the arguments describe, given the resolved output
/// directory, connection count and speed limit, and the URLs read from the
/// links file (when `needs_links_file` said so): one request for a single URL,
/// or one per listed URL, all saved in `output_dir`.
pub fn build_requests(
    args: DownloadArgs,
    output_dir: String,
    connections: usize,
    limit: Option<u64>,
    links: Option<Vec<String>>,
) -> (r: Result<Vec<DownloadRequest>, RequestError>)
    ensures
        args.links_file is None && args.url is None ==> r == Err::<Vec<DownloadRequest>, RequestError>(RequestError::MissingUrl),
        args.links_file is None && args.url is Some ==> (r matches Ok(v) && v@.len() == 1 && v@[0] == DownloadRequest {
            url: args.url->0,
            output: args.output,
            output_dir: Some(output_dir),
            connections,
            user_agent: args.user_agent,
            limit,
            experimental_entropy: args.experimental_entropy,
        }),
        args.links_file is Some && args.output is Some ==> r == Err::<Vec<DownloadRequest>, RequestError>(RequestError::OutputWithLinksFile),
        args.links_file is Some && args.output is None ==> match links {
            Some(l) => if l@.len() == 0 {
                r == Err::<Vec<DownloadRequest>, RequestError>(RequestError::NoLinks)
            } else {
                (r matches Ok(v) && v@.len() == l@.len() && forall|i: int| 0 <= i < v@.len() ==> {
                    &&& (#[trigger] v@[i]).url@ == l@[i]@
                    &&& v@[i].output is None
                    &&& opt_text(v@[i].output_dir) == Some(output_dir@)
                    &&& v@[i].connections == connections
                    &&& opt_text(v@[i].user_agent) == opt_text(args.user_agent)
                    &&& v@[i].limit == limit
                    &&& v@[i].experimental_entropy == args.experimental_entropy
                })
            },
            None => r == Err::<Vec<DownloadRequest>, RequestError>(RequestError::NoLinks),
        },
{
    let links_file = args.links_file;
    if links_file.is_none() {
        let url = match args.url {
            Some(u) => u,
            None => return Err(RequestError::MissingUrl),
        };
        let mut v: Vec<DownloadRequest> = Vec::new();
        v.push(DownloadRequest {
            url,
            output: args.output,
            output_dir: Some(output_dir),
            connections,
            user_agent: args.user_agent,
            limit,
            experimental_entropy: args.experimental_entropy,
        });
        return Ok(v);
    }
    if args.output.is_some() {
        return Err(RequestError::OutputWithLinksFile);
    }
    let links = match links {
        Some(l) => l,
        None => return Err(RequestError::NoLinks),
    };
    if links.len() == 0 {
        return Err(RequestError::NoLinks);
    }
    let mut requests: Vec<DownloadRequest> = Vec::new();
    let mut i: usize = 0;
    while i < links.len()
        invariant
            i <= links@.len(),
            requests@.len() == i,
            forall|k: int| 0 <= k < i ==> {
                &&& (#[trigger] requests@[k]).url@ == links@[k]@
                &&& requests@[k].output is None
                &&& opt_text(requests@[k].output_dir) == Some(output_dir@)
                &&& requests@[k].connections == connections
                &&& opt_text(requests@[k].user_agent) == opt_text(args.user_agent)
                &&& requests@[k].limit == limit
                &&& requests@[k].experimental_entropy == args.experimental_entropy
            },
        decreases links.len() - i,
    {
        requests.push(DownloadRequest {
            url: links[i].clone(),
            output: None,
            output_dir: Some(output_dir.clone()),
            connections,
            user_agent: copy_text(&args.user_agent),
            limit,
            experimental_entropy: args.experimental_entropy,
        });
        i += 1;
    }
    Ok(requests)
}

pub open spec fn opt_text(o: Option<String>) -> Option<Seq<char>> {
    crate::http::opt_view(o)
}

fn copy_text(o: &Option<String>) -> (r: Option<String>)
    ensures
        opt_text(r) == opt_text(*o),
{
    match o {
        Some(s) => Some(s.clone()),
        None => None,
    }
}

} // verus!
