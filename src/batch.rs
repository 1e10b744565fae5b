use vstd::prelude::*;

verus! {

/// `c` read in upper case is `u` (only ASCII letters change case).
pub open spec fn upper_is(c: char, u: char) -> bool {
    if 'a' <= c && c <= 'z' {
        c as int - 32 == u as int
    } else {
        c == u
    }
}

/// `ext` in upper case is `name`.
pub open spec fn upper_matches(ext: Seq<char>, name: Seq<char>) -> bool {
    ext.len() == name.len() && forall|i: int| 0 <= i < ext.len() ==> upper_is(ext[i], name[i])
}

/// `ext` in upper case is one of the image formats that can be written back.
pub open spec fn is_supported_ext(ext: Seq<char>) -> bool {
    ||| upper_matches(ext, "JPEG"@)
    ||| upper_matches(ext, "JPG"@)
    ||| upper_matches(ext, "PNG"@)
    ||| upper_matches(ext, "ICO"@)
    ||| upper_matches(ext, "PNM"@)
    ||| upper_matches(ext, "BMP"@)
    ||| upper_matches(ext, "TIFF"@)
    ||| upper_matches(ext, "TIF"@)
}

fn upper_char_is(c: char, u: char) -> (r: bool)
    ensures
        r == upper_is(c, u),
{
    if 'a' <= c && c <= 'z' {
        (c as u32) - 32 == u as u32
    } else {
        c == u
    }
}

fn upper_str_is(ext: &str, name: &str) -> (r: bool)
    ensures
        r == upper_matches(ext@, name@),
{
    let n = ext.unicode_len();
    if n != name.unicode_len() {
        return false;
    }
    let mut i: usize = 0;
    while i < n
        invariant
            n == ext@.len() == name@.len(),
            i <= n,
            forall|j: int| 0 <= j < i ==> upper_is(ext@[j], name@[j]),
        decreases n - i,
    {
        if !upper_char_is(ext.get_char(i), name.get_char(i)) {
            return false;
        }
        i = i + 1;
    }
    true
}

/// Whether a file with extension `ext` is taken from a directory: its upper
/// case is JPEG, JPG, PNG, ICO, PNM, BMP, TIFF or TIF.
pub fn is_supported_extension(ext: &str) -> (r: bool)
    ensures
        r == is_supported_ext(ext@),
{
    upper_str_is(ext, "JPEG") || upper_str_is(ext, "JPG") || upper_str_is(ext, "PNG")
        || upper_str_is(ext, "ICO") || upper_str_is(ext, "PNM") || upper_str_is(ext, "BMP")
        || upper_str_is(ext, "TIFF") || upper_str_is(ext, "TIF")
}

/// A directory entry with this extension is cropped; one without is not.
pub open spec fn keeps(ext: Option<String>) -> bool {
    match ext {
        Some(e) => is_supported_ext(e@),
        None => false,
    }
}

/// The positions among the first `n` of `exts` that are kept, in order.
pub open spec fn kept_positions(exts: Seq<Option<String>>, n: nat) -> Seq<usize>
    decreases n,
{
    if n == 0 {
        Seq::empty()
    } else {
        let before = kept_positions(exts, (n - 1) as nat);
        if keeps(exts[n - 1]) {
            before.push((n - 1) as usize)
        } else {
            before
        }
    }
}

/// Picks the entries of a directory that are cropped, given each entry's
/// extension (`None` for an entry without one), and returns their
/// positions in listing order.
pub fn select_entries(exts: &Vec<Option<String>>) -> (r: Vec<usize>)
    ensures
        r@ == kept_positions(exts@, exts@.len()),
{
    let mut r: Vec<usize> = Vec::new();
    let mut i: usize = 0;
    while i < exts.len()
        invariant
            i <= exts@.len(),
            r@ == kept_positions(exts@, i as nat),
        decreases exts@.len() - i,
    {
        let keep = match &exts[i] {
            Some(e) => is_supported_extension(e.as_str()),
            None => false,
        };
        if keep {
            r.push(i);
        }
        i = i + 1;
    }
    r
}

/// What the input path names.
#[derive(Clone, Copy, Debug, PartialEq, Eq, Structural)]
pub enum PathKind {
    File,
    Directory,
    Missing,
}

/// The images a run works on.
#[derive(Debug)]
pub enum Candidates {
    /// The path itself, whatever its extension.
    Single,
    /// These positions of the directory's entries.
    Entries(Vec<usize>),
    /// The path names nothing: the run stops and crops nothing.
    NotFound,
}

/// The candidates for a path of the given kind; `exts` are the extensions of
/// a directory's readable entries, and are read only for a directory.
pub fn candidates(kind: PathKind, exts: &Vec<Option<String>>) -> (r: Candidates)
    ensures
        kind == PathKind::File ==> r is Single,
        kind == PathKind::Missing ==> r is NotFound,
        kind == PathKind::Directory ==> (r matches Candidates::Entries(v) && v@ == kept_positions(
            exts@,
            exts@.len(),
        )),
{
    match kind {
        PathKind::File => Candidates::Single,
        PathKind::Directory => Candidates::Entries(select_entries(exts)),
        PathKind::Missing => Candidates::NotFound,
    }
}

/// Where a report line goes.
#[derive(Clone, Copy, Debug, PartialEq, Eq, Structural)]
pub enum Stream {
    Output,
    Error,
}

/// One line for the user.
#[derive(Debug)]
pub struct Report {
    pub stream: Stream,
    pub text: String,
}

/// The line that ends a run whose path names nothing.
pub fn missing_path_report(path: &str) -> (r: Report)
    ensures
        r.stream == Stream::Error,
        r.text@ == "Path "@ + path@ + " does not exist!"@,
{
    let text = String::from_str("Path ").concat(path).concat(" does not exist!");
    Report { stream: Stream::Error, text }
}

/// The line for one image once it is done: `failure` is the error's text if
/// it failed. A failure is always reported; a success only when not `silent`.
pub fn crop_report(path: &str, failure: Option<&str>, silent: bool) -> (r: Option<Report>)
    ensures
        failure matches Some(e) ==> (r matches Some(rep) && rep.stream == Stream::Error
            && rep.text@ == "Cropping image "@ + path@ + " failed: "@ + e@),
        failure is None && silent ==> r is None,
        failure is None && !silent ==> (r matches Some(rep) && rep.stream == Stream::Output
            && rep.text@ == "Cropped "@ + path@),
{
    match failure {
        Some(e) => {
            let text = String::from_str("Cropping image ").concat(path).concat(" failed: ").concat(e);
            Some(Report { stream: Stream::Error, text })
        },
        None => {
            if silent {
                None
            } else {
                let text = String::from_str("Cropped ").concat(path);
                Some(Report { stream: Stream::Output, text })
            }
        },
    }
}

} // verus!
