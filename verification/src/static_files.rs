//! Static-file fallback: path resolution, the outcome decision, and the
//! bodies served.
//!
//! A virtual path is resolved against the document root by plain string
//! concatenation after stripping its leading slashes — no path-segment
//! normalization takes place, so parent-directory segments pass through
//! unchecked; containing resolution inside the root would change which
//! requests answer 200 and which 404.  The probing of the filesystem and
//! the reading of files belong to the runtime; given its answers, the
//! outcome and every body served are decided here.

use vstd::prelude::*;
use vstd::string::StrSliceExecFns;
use vstd::string::StringExecFns;

verus! {

/// `s` without its leading slashes.
pub open spec fn strip_slashes(s: Seq<char>) -> Seq<char>
    decreases s.len(),
{
    if s.len() > 0 && s[0] == '/' {
        strip_slashes(s.drop_first())
    } else {
        s
    }
}

/// Removes the leading slashes of `s`.
pub fn strip_slashes_str<'a>(s: &'a str) -> (r: &'a str)
    ensures
        r@ == strip_slashes(s@),
{
    let n = s.unicode_len();
    let mut i: usize = 0;
    proof {
        assert(s@.skip(0) =~= s@);
    }
    while i < n
        invariant
            i <= n,
            n == s@.len(),
            strip_slashes(s@) == strip_slashes(s@.skip(i as int)),
            forall|j: int| 0 <= j < i ==> s@[j] == '/',
        decreases n - i,
    {
        if s.get_char(i) != '/' {
            let r = s.substring_char(i, n);
            proof {
                assert(r@ =~= s@.skip(i as int));
            }
            return r;
        }
        proof {
            assert(s@.skip(i as int).drop_first() =~= s@.skip(i + 1));
        }
        i += 1;
    }
    proof {
        assert(s@.skip(n as int) =~= Seq::<char>::empty());
        reveal_strlit("");
        assert(""@ =~= strip_slashes(s@));
    }
    ""
}

/// The filesystem path a virtual path resolves to: the document root with
/// the slash-stripped virtual path appended, nothing normalized.
pub open spec fn resolved_path(root: Seq<char>, virtual_path: Seq<char>) -> Seq<char> {
    root + strip_slashes(virtual_path)
}

/// Resolves `virtual_path` against `root` by concatenation.
pub fn resolve_path(root: &str, virtual_path: &str) -> (r: String)
    ensures
        r@ == resolved_path(root@, virtual_path@),
{
    let mut r = root.to_owned();
    r.append(strip_slashes_str(virtual_path));
    r
}

/// What the static-file fallback does once the filesystem has been probed.
#[derive(PartialEq, Eq, Structural, Debug)]
pub enum StaticOutcome {
    /// The resolved path is a regular file: serve its bytes under a 200
    /// status line.
    ServeFile,
    /// The resolved path is a directory and listing is enabled: serve the
    /// generated listing under a 200 status line.
    ServeListing,
    /// The resolved path is a directory but listing is disabled, or some
    /// other non-file: no response body is produced at all.
    NoBody,
    /// The resolved path does not exist: serve the fixed 404 response.
    NotFound,
}

/// The outcome for a resolved path that `exists`, and is a regular file
/// or a directory as flagged, when listing is `index_of`.
pub open spec fn static_outcome_spec(
    exists: bool,
    is_file: bool,
    is_dir: bool,
    index_of: bool,
) -> StaticOutcome {
    if !exists {
        StaticOutcome::NotFound
    } else if is_file {
        StaticOutcome::ServeFile
    } else if is_dir && index_of {
        StaticOutcome::ServeListing
    } else {
        StaticOutcome::NoBody
    }
}

/// Decides the static-file outcome from the filesystem's answers.
pub fn static_outcome(exists: bool, is_file: bool, is_dir: bool, index_of: bool) -> (r:
    StaticOutcome)
    ensures
        r == static_outcome_spec(exists, is_file, is_dir, index_of),
{
    if !exists {
        StaticOutcome::NotFound
    } else if is_file {
        StaticOutcome::ServeFile
    } else if is_dir && index_of {
        StaticOutcome::ServeListing
    } else {
        StaticOutcome::NoBody
    }
}

/// The entire response sent for a missing path: a 404 status line with
/// its fixed HTML body.
pub open spec fn not_found_response_spec() -> Seq<char> {
    "HTTP/1.1 404 NOT FOUND\r\n\r\n<html><h1>404 not found</h1><hr> powered by corrodedweb</html>"@
}

/// Builds the fixed 404 response.
pub fn not_found_response() -> (r: String)
    ensures
        r@ == not_found_response_spec(),
{
    String::from_str(
        "HTTP/1.1 404 NOT FOUND\r\n\r\n<html><h1>404 not found</h1><hr> powered by corrodedweb</html>",
    )
}

/// One listing entry: a link to `name` under `virtual_path`.
pub open spec fn listing_item(virtual_path: Seq<char>, name: Seq<char>) -> Seq<char> {
    "<li><a href='"@ + virtual_path + "/"@ + name + "'>"@ + name + "</li>"@
}

/// The listing entries for `names`, in the order the filesystem handed
/// them out.
pub open spec fn listing_items(virtual_path: Seq<char>, names: Seq<Seq<char>>) -> Seq<char>
    decreases names.len(),
{
    if names.len() == 0 {
        Seq::empty()
    } else {
        listing_items(virtual_path, names.drop_last()) + listing_item(virtual_path, names.last())
    }
}

/// The directory listing served for `virtual_path`: a header naming the
/// directory, a parent-directory link, and one entry per immediate child.
pub open spec fn index_of_spec(virtual_path: Seq<char>, names: Seq<Seq<char>>) -> Seq<char> {
    "<html>Index of <b>/"@ + virtual_path + "</b><br><br><ul>"@ + "<li><a href='..'>..</li>"@
        + listing_items(virtual_path, names) + "</ul></html>"@
}

/// Builds the directory listing for `virtual_path` from the names of the
/// directory's immediate entries, kept in the order they were handed in.
pub fn generate_index_of(virtual_path: &str, names: &Vec<String>) -> (r: String)
    ensures
        r@ == index_of_spec(virtual_path@, names.deep_view()),
{
    let mut r = String::from_str("<html>Index of <b>/");
    r.append(virtual_path);
    r.append("</b><br><br><ul>");
    r.append("<li><a href='..'>..</li>");
    let n = names.len();
    let mut i: usize = 0;
    while i < n
        invariant
            i <= n,
            n == names@.len(),
            names.deep_view().len() == n,
            forall|j: int| 0 <= j < n ==> names.deep_view()[j] == names@[j]@,
            r@ == "<html>Index of <b>/"@ + virtual_path@ + "</b><br><br><ul>"@
                + "<li><a href='..'>..</li>"@
                + listing_items(virtual_path@, names.deep_view().take(i as int)),
        decreases n - i,
    {
        r.append("<li><a href='");
        r.append(virtual_path);
        r.append("/");
        r.append(names[i].as_str());
        r.append("'>");
        r.append(names[i].as_str());
        r.append("</li>");
        proof {
            assert(names.deep_view().take(i + 1).drop_last() =~= names.deep_view().take(i as int));
            assert(names.deep_view().take(i + 1).last() == names.deep_view()[i as int]);
            assert(r@ =~= "<html>Index of <b>/"@ + virtual_path@ + "</b><br><br><ul>"@
                + "<li><a href='..'>..</li>"@
                + listing_items(virtual_path@, names.deep_view().take(i + 1)));
        }
        i += 1;
    }
    r.append("</ul></html>");
    proof {
        assert(names.deep_view().take(n as int) =~= names.deep_view());
        assert(r@ =~= index_of_spec(virtual_path@, names.deep_view()));
    }
    r
}

} // verus!
