//! Where a download is written: the URL it names, the file name inferred from
//! the response or the URL path, the output directory, and the resume-state
//! file that sits next to the output.

use vstd::prelude::*;
use crate::error::Error;
use crate::http::{after_last_slash, opt_view, HttpMeta};
use crate::text::{chars_of, push_str, string_of};

verus! {

/// The serialization and the path of the URL that `url::Url::parse` reads
/// from `s`, or `None` when it rejects `s`.
pub uninterp spec fn parsed_url(s: Seq<char>) -> Option<(Seq<char>, Seq<char>)>;

/// A URL accepted by the URL parser: its normalized text and its path.
#[derive(Clone, Debug)]
pub struct ParsedUrl {
    pub href: String,
    pub path: String,
}

/// Parses `s` with `url::Url::parse`, keeping `Url::as_str` and `Url::path`.
/// Trusted: the result is whatever the url crate computes for `s`; nothing is
/// claimed about it beyond being a function of `s`.
#[verifier::external_body]
fn url_parts(s: &str) -> (r: Option<ParsedUrl>)
    ensures
        r is Some <==> parsed_url(s@) is Some,
        r matches Some(u) ==> parsed_url(s@) == Some((u.href@, u.path@)),
{
    match url::Url::parse(s) {
        Ok(u) => Some(ParsedUrl { href: u.as_str().to_string(), path: u.path().to_string() }),
        Err(_) => None,
    }
}

/// The text `invalid url`.
pub open spec fn invalid_url_text() -> Seq<char> {
    seq!['i', 'n', 'v', 'a', 'l', 'i', 'd', ' ', 'u', 'r', 'l']
}

/// Parses the URL of a request; a URL the parser rejects is `Error::InvalidUrl`.
pub fn parse_url(s: &str) -> (r: Result<ParsedUrl, Error>)
    ensures
        r is Ok <==> parsed_url(s@) is Some,
        r matches Ok(u) ==> parsed_url(s@) == Some((u.href@, u.path@)),
        r matches Err(e) ==> e matches Error::InvalidUrl { message } && message@ == invalid_url_text(),
{
    match url_parts(s) {
        Some(u) => Ok(u),
        None => {
            let v: Vec<char> = vec!['i', 'n', 'v', 'a', 'l', 'i', 'd', ' ', 'u', 'r', 'l'];
            Err(Error::InvalidUrl { message: string_of(v.as_slice()) })
        },
    }
}

/// The characters `download`.
pub open spec fn fallback_name() -> Seq<char> {
    seq!['d', 'o', 'w', 'n', 'l', 'o', 'a', 'd']
}

/// The file name of a download: the one the server suggested, else the last
/// segment of the URL path when it is not empty, else `download`.
pub open spec fn inferred_name(url_path: Seq<char>, suggested: Option<Seq<char>>) -> Seq<char> {
    match suggested {
        Some(n) => n,
        None => if after_last_slash(url_path).len() > 0 {
            after_last_slash(url_path)
        } else {
            fallback_name()
        },
    }
}

pub fn infer_filename(url: &ParsedUrl, meta: &HttpMeta) -> (name: String)
    ensures
        name@ == inferred_name(url.path@, opt_view(meta.filename)),
{
    if let Some(name) = &meta.filename {
        return name.clone();
    }
    let path = chars_of(url.path.as_str());
    let mut last: Vec<char> = Vec::new();
    let mut i: usize = 0;
    while i < path.len()
        invariant
            i <= path@.len(),
            last@ == after_last_slash(path@.take(i as int)),
        decreases path.len() - i,
    {
        assert(path@.take(i + 1).drop_last() =~= path@.take(i as int));
        if path[i] == '/' {
            last = Vec::new();
        } else {
            last.push(path[i]);
        }
        i += 1;
        assert(last@ =~= after_last_slash(path@.take(i as int)));
    }
    assert(path@.take(path@.len() as int) =~= path@);
    if last.len() > 0 {
        return string_of(last.as_slice());
    }
    let v: Vec<char> = vec!['d', 'o', 'w', 'n', 'l', 'o', 'a', 'd'];
    string_of(v.as_slice())
}

/// `dir` joined with `name` by Unix path rules (`PathBuf::join`): an absolute
/// `name` replaces `dir`; otherwise a `/` is put between them unless `dir` is
/// empty or already ends with one.
pub open spec fn joined_path(dir: Seq<char>, name: Seq<char>) -> Seq<char> {
    if name.len() > 0 && name[0] == '/' {
        name
    } else if dir.len() == 0 || dir.last() == '/' {
        dir + name
    } else {
        dir + seq!['/'] + name
    }
}

pub fn join_path(dir: &str, name: &str) -> (p: String)
    ensures
        p@ == joined_path(dir@, name@),
{
    let d = chars_of(dir);
    let n = chars_of(name);
    if n.len() > 0 && n[0] == '/' {
        return string_of(n.as_slice());
    }
    let mut out = d;
    if out.len() > 0 && out[out.len() - 1] != '/' {
        out.push('/');
    }
    push_str(&mut out, name);
    string_of(out.as_slice())
}

/// The text `output path is a directory`.
pub open spec fn output_is_directory_text() -> Seq<char> {
    "output path is a directory"@
}

/// The output path of a download: the explicit one, unless it names an
/// existing directory (`output_is_dir`); otherwise the inferred file name,
/// inside `output_dir` when one is given.
pub fn determine_output(
    url: &ParsedUrl,
    meta: &HttpMeta,
    output: Option<String>,
    output_dir: Option<String>,
    output_is_dir: bool,
) -> (r: Result<String, Error>)
    ensures
        output is Some && output_is_dir ==> (r matches Err(Error::Io { message }) && message@
            == output_is_directory_text()),
        output is Some && !output_is_dir ==> r == Ok::<String, Error>(output->0),
        output is None ==> (r matches Ok(p) && p@ == match output_dir {
            Some(d) => joined_path(d@, inferred_name(url.path@, opt_view(meta.filename))),
            None => inferred_name(url.path@, opt_view(meta.filename)),
        }),
{
    if let Some(path) = output {
        if output_is_dir {
            proof {
                reveal_strlit("output path is a directory");
            }
            return Err(Error::Io { message: string_of(chars_of("output path is a directory").as_slice()) });
        }
        return Ok(path);
    }
    let filename = infer_filename(url, meta);
    if let Some(dir) = output_dir {
        return Ok(join_path(dir.as_str(), filename.as_str()));
    }
    Ok(filename)
}

/// The final component of the path `p` (`Path::file_name`), if it has one.
pub uninterp spec fn path_file_name(p: Seq<char>) -> Option<Seq<char>>;

/// The path `p` with its final component replaced by `name` (`Path::with_file_name`).
pub uninterp spec fn path_with_file_name(p: Seq<char>, name: Seq<char>) -> Seq<char>;

/// Calls `std::path::Path::file_name`. Trusted: the result is whatever std
/// computes for `p`, only claimed to be a function of `p`.
#[verifier::external_body]
fn file_name_of(p: &str) -> (r: Option<String>)
    ensures
        opt_view(r) == path_file_name(p@),
{
    std::path::Path::new(p).file_name().map(|n| n.to_string_lossy().into_owned())
}

/// Calls `std::path::Path::with_file_name`. Trusted: the result is whatever
/// std computes for `p` and `name`, only claimed to be a function of them.
#[verifier::external_body]
fn with_file_name_of(p: &str, name: &str) -> (r: String)
    ensures
        r@ == path_with_file_name(p@, name@),
{
    std::path::Path::new(p).with_file_name(name).to_string_lossy().into_owned()
}

/// The characters `.arkama.state`.
pub open spec fn state_suffix() -> Seq<char> {
    seq!['.', 'a', 'r', 'k', 'a', 'm', 'a', '.', 's', 't', 'a', 't', 'e']
}

/// The text `output file name missing`.
pub open spec fn missing_name_text() -> Seq<char> {
    "output file name missing"@
}

/// Where the resume state of `output` is kept: next to it, named after it
/// with `.arkama.state` appended.
pub fn state_path(output: &str) -> (r: Result<String, Error>)
    ensures
        r is Ok <==> path_file_name(output@) is Some,
        r matches Ok(p) ==> p@ == path_with_file_name(output@, path_file_name(output@)->0 + state_suffix()),
        r matches Err(e) ==> e matches Error::State { message } && message@ == missing_name_text(),
{
    let name = match file_name_of(output) {
        Some(n) => n,
        None => {
            proof {
                reveal_strlit("output file name missing");
            }
            return Err(Error::State { message: string_of(chars_of("output file name missing").as_slice()) });
        },
    };
    let mut full = chars_of(name.as_str());
    push_str(&mut full, ".arkama.state");
    proof {
        reveal_strlit(".arkama.state");
        assert(".arkama.state"@ =~= state_suffix());
    }
    let full = string_of(full.as_slice());
    Ok(with_file_name_of(output, full.as_str()))
}

/// The name under which a download is shown: the final component of
/// `output`, or `download` when it has none.
pub fn display_file_name(output: &str) -> (name: String)
    ensures
        name@ == match path_file_name(output@) {
            Some(n) => n,
            None => fallback_name(),
        },
{
    match file_name_of(output) {
        Some(n) => n,
        None => {
            let v: Vec<char> = vec!['d', 'o', 'w', 'n', 'l', 'o', 'a', 'd'];
            string_of(v.as_slice())
        },
    }
}

/// The message of a progress bar for `output`: `file ` and its display name.
pub fn progress_message(output: &str) -> (m: String)
    ensures
        m@ == seq!['f', 'i', 'l', 'e', ' '] + match path_file_name(output@) {
            Some(n) => n,
            None => fallback_name(),
        },
{
    let name = display_file_name(output);
    let mut out: Vec<char> = vec!['f', 'i', 'l', 'e', ' '];
    push_str(&mut out, name.as_str());
    string_of(out.as_slice())
}

} // verus!
