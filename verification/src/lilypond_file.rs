//! A LilyPond file in the making: its content tree and, once it has been
//! saved or compiled elsewhere, the paths it went to. Assembling the file
//! text is pure and lives here; writing, compiling, and viewing are I/O
//! and live with the caller.

use crate::container::Containable;
use crate::lilypond::{render_containable, render_spec, tree_wf};
use vstd::prelude::*;

verus! {

/// Whether a character can appear in a version number.
pub open spec fn is_version_char(c: char) -> bool {
    ('0' <= c && c <= '9') || c == '.'
}

/// Relies on `regex::Regex::find` with the pattern `[0-9.]+`: it returns
/// the leftmost maximal run of ASCII digits and dots, or nothing when the
/// text has no such character. (The pattern is a valid constant, so
/// compiling it cannot fail.)
#[verifier::external_body]
fn first_version_token(s: &str) -> (r: Option<String>)
    ensures
        (exists|i: int| 0 <= i < s@.len() && is_version_char(s@[i])) <==> r is Some,
        r matches Some(t) ==> exists|i: int|
            #![trigger s@.subrange(i, i + t@.len() as int)]
            {
                &&& 0 <= i
                &&& i + t@.len() <= s@.len()
                &&& t@.len() >= 1
                &&& forall|j: int| 0 <= j < i ==> !is_version_char(s@[j])
                &&& t@ == s@.subrange(i, i + t@.len() as int)
                &&& forall|j: int| i <= j < i + t@.len() ==> is_version_char(s@[j])
                &&& (i + t@.len() == s@.len() || !is_version_char(s@[i + t@.len()]))
            },
{
    let re = regex::Regex::new("[0-9.]+").unwrap();
    re.find(s).map(|m| m.as_str().to_string())
}

/// The version number named in a `lilypond --version` banner: its leftmost
/// run of digits and dots, if it has one.
pub fn version_token(banner: &str) -> (r: Option<String>)
    ensures
        (exists|i: int| 0 <= i < banner@.len() && is_version_char(banner@[i])) <==> r is Some,
        r matches Some(t) ==> t@.len() >= 1 && forall|j: int|
            0 <= j < t@.len() ==> is_version_char(t@[j]),
{
    let r = first_version_token(banner);
    proof {
        if r is Some {
            let t = r->Some_0;
            let i = choose|i: int|
                #![trigger banner@.subrange(i, i + t@.len() as int)]
                {
                    &&& 0 <= i
                    &&& i + t@.len() <= banner@.len()
                    &&& t@.len() >= 1
                    &&& forall|j: int| 0 <= j < i ==> !is_version_char(banner@[j])
                    &&& t@ == banner@.subrange(i, i + t@.len() as int)
                    &&& forall|j: int| i <= j < i + t@.len() ==> is_version_char(banner@[j])
                    &&& (i + t@.len() == banner@.len() || !is_version_char(
                        banner@[i + t@.len()],
                    ))
                };
            assert(forall|j: int|
                0 <= j < t@.len() ==> #[trigger] t@[j] == banner@.subrange(
                    i,
                    i + t@.len() as int,
                )[j]);
        }
    }
    r
}

/// The fixed head of every emitted file: the version pin and the English
/// note-name language.
pub open spec fn file_prelude_spec(version: Seq<char>) -> Seq<char> {
    "\\version \""@ + version + "\"\n\\language \"english\""@
}

/// The fixed head of every emitted file.
pub fn file_prelude(version: &str) -> (r: String)
    ensures
        r@ == file_prelude_spec(version@),
{
    let mut out = String::from_str("\\version \"");
    out.append(version);
    out.append("\"\n\\language \"english\"");
    out
}

/// A LilyPond file: one content tree, plus the paths a caller records
/// after saving and compiling it.
#[derive(Debug)]
pub struct File {
    pub source_path: Option<String>,
    pub output_path: Option<String>,
    pub content: Containable,
}

impl File {
    /// A file around the given content, not yet saved anywhere.
    pub fn new(content: Containable) -> (r: Self)
        ensures
            r.content == content,
            r.source_path is None,
            r.output_path is None,
    {
        Self { content, source_path: None, output_path: None }
    }

    /// The full text of the file: the prelude, a blank line, then the
    /// rendered content.
    pub fn file_text(&self, version: &str) -> (r: String)
        requires
            tree_wf(self.content),
        ensures
            r@ == file_prelude_spec(version@) + "\n\n"@ + render_spec(self.content),
    {
        let mut out = file_prelude(version);
        out.append("\n\n");
        let body = render_containable(&self.content);
        out.append(body.as_str());
        out
    }
}

} // verus!

verus! {

/// What lexically cleaning a path yields: a function of the path text alone.
pub uninterp spec fn cleaned_of(path: Seq<char>) -> Seq<char>;

/// Relies on `path_clean::clean`: it reduces repeated slashes and resolves
/// `.` and `..` segments lexically, without touching the filesystem, so
/// the result depends on the path text alone. A `&str` input is UTF-8, so
/// converting the cleaned path back to text loses nothing.
#[verifier::external_body]
fn clean_path(path: &str) -> (r: String)
    ensures
        r@ == cleaned_of(path@),
{
    path_clean::clean(path).to_string_lossy().to_string()
}

/// The absolute, cleaned form of a path to save at: the path itself when
/// it is already rooted, else the current directory joined in front of it.
pub fn absolute_source_path(current_dir: &str, path: &str) -> (r: String)
    ensures
        (path@.len() >= 1 && path@[0] == '/') ==> r@ == cleaned_of(path@),
        !(path@.len() >= 1 && path@[0] == '/') ==> r@ == cleaned_of(
            current_dir@ + "/"@ + path@,
        ),
{
    let len = path.unicode_len();
    if len >= 1 && path.get_char(0) == '/' {
        clean_path(path)
    } else {
        let mut joined = String::from_str(current_dir);
        joined.append("/");
        joined.append(path);
        clean_path(joined.as_str())
    }
}

} // verus!
