use crate::error::PipelineError;
use crate::playlist::Segment;
use url::{ParseError, Url};
use vstd::prelude::*;
use vstd::utf8::encode_utf8;

verus! {

/// Longest location, in bytes, that is rewritten. The URL parser counts
/// positions in 32 bits; this bound keeps every rewritten location within
/// them.
pub const MAX_URL_BYTES: usize = 0x1000_0000;

/// Why a string is no absolute URL.
#[derive(Clone, Copy, Debug, PartialEq, Eq, Structural)]
pub enum UrlFault {
    /// It is a relative reference, and there is no base to resolve it against.
    RelativeWithoutBase,
    /// It is malformed.
    Malformed,
}

/// The serialization of the URL that `s` parses to, or why it parses to none.
pub uninterp spec fn url_parsed(s: Seq<char>) -> Result<Seq<char>, UrlFault>;

/// The URL `s` with its query removed; `None` where `s` is no URL.
pub uninterp spec fn url_sans_query(s: Seq<char>) -> Option<Seq<char>>;

/// The path of the URL `s`; `None` where `s` is no URL.
pub uninterp spec fn url_path_of(s: Seq<char>) -> Option<Seq<char>>;

/// The URL `s` with `path` as its path; `None` where `s` is no URL.
pub uninterp spec fn url_with_path_of(s: Seq<char>, path: Seq<char>) -> Option<Seq<char>>;

/// The reference resolved against the URL `base`; `None` where `base` is no
/// URL or the reference cannot be resolved against it.
pub uninterp spec fn url_joined(base: Seq<char>, reference: Seq<char>) -> Option<Seq<char>>;

/// The domain name that is the host of the URL `s`; `None` where `s` is no
/// URL or its host is no domain name.
pub uninterp spec fn url_domain_of(s: Seq<char>) -> Option<Seq<char>>;

/// Calls `Url::parse` of `url` and hands back the URL's serialization, or
/// which kind of error the parser reported.
///
/// Trusted: the result is the named parse of `s`.
#[verifier::external_body]
fn parse_url(s: &str) -> (r: Result<String, UrlFault>)
    ensures
        r matches Ok(u) ==> url_parsed(s@) matches Ok(p) && p == u@,
        r matches Err(e) ==> url_parsed(s@) matches Err(f) && f == e,
{
    match Url::parse(s) {
        Ok(u) => Ok(String::from(u)),
        Err(ParseError::RelativeUrlWithoutBase) => Err(UrlFault::RelativeWithoutBase),
        Err(_) => Err(UrlFault::Malformed),
    }
}

/// Parses `s` with `Url::parse` and calls `Url::set_query(None)` on the URL.
///
/// Trusted: the result is the named URL without its query, `None` where
/// the parse fails.
#[verifier::external_body]
fn url_without_query(s: &str) -> (r: Option<String>)
    requires
        encode_utf8(s@).len() <= MAX_URL_BYTES,
    ensures
        r matches Some(u) ==> url_sans_query(s@) == Some(u@),
        r is None ==> url_sans_query(s@) is None,
{
    let mut u = Url::parse(s).ok()?;
    u.set_query(None);
    Some(String::from(u))
}

/// Parses `s` with `Url::parse` and calls `Url::path` on the URL.
///
/// Trusted: the result is the named path, `None` where the parse fails.
#[verifier::external_body]
fn url_path(s: &str) -> (r: Option<String>)
    ensures
        r matches Some(p) ==> url_path_of(s@) == Some(p@),
        r is None ==> url_path_of(s@) is None,
{
    Some(Url::parse(s).ok()?.path().to_string())
}

/// Parses `s` with `Url::parse` and calls `Url::set_path(path)` on the URL.
///
/// Trusted: the result is the named URL with the new path, `None` where
/// the parse fails.
#[verifier::external_body]
fn url_with_path(s: &str, path: &str) -> (r: Option<String>)
    requires
        encode_utf8(s@).len() <= MAX_URL_BYTES,
        encode_utf8(path@).len() <= MAX_URL_BYTES,
    ensures
        r matches Some(u) ==> url_with_path_of(s@, path@) == Some(u@),
        r is None ==> url_with_path_of(s@, path@) is None,
{
    let mut u = Url::parse(s).ok()?;
    u.set_path(path);
    Some(String::from(u))
}

/// Parses `base` with `Url::parse` and calls `Url::join(reference)` on the
/// URL.
///
/// Trusted: the result is the named resolved URL, `None` where the parse
/// or the join fails.
#[verifier::external_body]
fn url_join(base: &str, reference: &str) -> (r: Option<String>)
    ensures
        r matches Some(u) ==> url_joined(base@, reference@) == Some(u@),
        r is None ==> url_joined(base@, reference@) is None,
{
    Some(String::from(Url::parse(base).ok()?.join(reference).ok()?))
}

/// Parses `s` with `Url::parse` and calls `Url::domain` on the URL.
///
/// Trusted: the result is the named domain, `None` where the parse fails
/// or the URL has no domain name as its host.
#[verifier::external_body]
fn url_domain(s: &str) -> (r: Option<String>)
    ensures
        r matches Some(d) ==> url_domain_of(s@) == Some(d@),
        r is None ==> url_domain_of(s@) is None,
{
    Some(Url::parse(s).ok()?.domain()?.to_string())
}

/// The text begins with `http`: it names a network location, not a local path.
pub open spec fn has_http_prefix(s: Seq<char>) -> bool {
    s.len() >= 4 && s[0] == 'h' && s[1] == 't' && s[2] == 't' && s[3] == 'p'
}

/// Position of the last `c` in `s`, or -1 where `s` holds none.
pub open spec fn last_index_of(s: Seq<char>, c: char) -> int
    decreases s.len(),
{
    if s.len() == 0 {
        -1
    } else if s.last() == c {
        s.len() - 1
    } else {
        last_index_of(s.drop_last(), c)
    }
}

/// The path cut off behind its last `/`; a path without `/` as it is.
pub open spec fn directory_path(path: Seq<char>) -> Seq<char> {
    let i = last_index_of(path, '/');
    if i < 0 {
        path
    } else {
        path.take(i + 1)
    }
}

/// `last_index_of` finds a `c` that no `c` follows, or reports that there
/// is none.
pub proof fn lemma_last_index_of(s: Seq<char>, c: char)
    ensures
        -1 <= last_index_of(s, c) < s.len(),
        last_index_of(s, c) >= 0 ==> s[last_index_of(s, c)] == c,
        forall|j: int| last_index_of(s, c) < j < s.len() ==> #[trigger] s[j] != c,
    decreases s.len(),
{
    if s.len() > 0 && s.last() != c {
        let rest = s.drop_last();
        lemma_last_index_of(rest, c);
        assert forall|j: int| last_index_of(s, c) < j < s.len() implies #[trigger] s[j] != c by {
            if j < rest.len() {
                assert(rest[j] != c);
            }
        }
    }
}

/// The base directory of a manifest's location: for a network location the
/// URL without its query and with its path cut off behind the last `/`;
/// `None` for a local path. A network location that is no URL, or is too
/// long to rewrite, is an error.
pub open spec fn base_directory_of(location: Seq<char>) -> Result<Option<Seq<char>>, PipelineError> {
    if !has_http_prefix(location) {
        Ok(None)
    } else if encode_utf8(location).len() > MAX_URL_BYTES {
        Err(PipelineError::InvalidUri)
    } else {
        match url_sans_query(location) {
            None => Err(PipelineError::InvalidUri),
            Some(stripped) => match url_path_of(stripped) {
                None => Err(PipelineError::InvalidUri),
                Some(path) => if encode_utf8(stripped).len() > MAX_URL_BYTES || encode_utf8(
                    directory_path(path),
                ).len() > MAX_URL_BYTES {
                    Err(PipelineError::InvalidUri)
                } else {
                    match url_with_path_of(stripped, directory_path(path)) {
                        None => Err(PipelineError::InvalidUri),
                        Some(base) => Ok(Some(base)),
                    }
                },
            },
        }
    }
}

/// The absolute location of `reference`: joined to the base where there is
/// one; without a base the reference itself where it is absolute, and
/// `MissingBaseUrl` where it is relative.
pub open spec fn resolved(base: Option<Seq<char>>, reference: Seq<char>) -> Result<
    Seq<char>,
    PipelineError,
> {
    match base {
        Some(b) => match url_joined(b, reference) {
            Some(u) => Ok(u),
            None => Err(PipelineError::InvalidUri),
        },
        None => match url_parsed(reference) {
            Ok(u) => Ok(u),
            Err(UrlFault::RelativeWithoutBase) => Err(PipelineError::MissingBaseUrl),
            Err(UrlFault::Malformed) => Err(PipelineError::InvalidUri),
        },
    }
}

/// The absolute locations of all references, in order, or the error of the
/// first that cannot be resolved.
pub open spec fn resolved_all(base: Option<Seq<char>>, references: Seq<Seq<char>>) -> Result<
    Seq<Seq<char>>,
    PipelineError,
>
    decreases references.len(),
{
    if references.len() == 0 {
        Ok(Seq::empty())
    } else {
        match resolved_all(base, references.drop_last()) {
            Err(e) => Err(e),
            Ok(done) => match resolved(base, references.last()) {
                Ok(u) => Ok(done.push(u)),
                Err(e) => Err(e),
            },
        }
    }
}

/// The `Referer` sent with requests to `url`: `https://`, the URL's domain
/// and `/`. None where the URL has no domain.
pub open spec fn referer_of(url: Seq<char>) -> Option<Seq<char>> {
    match url_domain_of(url) {
        Some(d) => Some("https://"@ + d + "/"@),
        None => None,
    }
}

/// What a list of strings holds.
pub open spec fn texts(v: Seq<String>) -> Seq<Seq<char>> {
    Seq::new(v.len(), |i: int| v[i]@)
}

/// The locations that the segments give for themselves.
pub open spec fn segment_uris(segments: Seq<Segment>) -> Seq<Seq<char>> {
    Seq::new(segments.len(), |i: int| segments[i].uri@)
}

/// What an optional string holds.
pub open spec fn text_of(s: Option<&str>) -> Option<Seq<char>> {
    match s {
        Some(t) => Some(t@),
        None => None,
    }
}

/// Whether the manifest's location names a network location.
pub fn is_network_location(location: &str) -> (b: bool)
    ensures
        b == has_http_prefix(location@),
{
    let n = location.unicode_len();
    n >= 4 && location.get_char(0) == 'h' && location.get_char(1) == 't' && location.get_char(2)
        == 't' && location.get_char(3) == 'p'
}

/// Cuts a path off behind its last `/`.
pub fn directory_of(path: &str) -> (dir: &str)
    ensures
        dir@ == directory_path(path@),
{
    let n = path.unicode_len();
    let mut i: usize = n;
    while i > 0
        invariant
            i <= n,
            n == path@.len(),
            forall|j: int| i <= j < n ==> path@[j] != '/',
        decreases i,
    {
        if path.get_char(i - 1) == '/' {
            proof {
                lemma_last_index_of(path@, '/');
                assert(path@[i - 1] == '/');
            }
            return path.substring_char(0, i);
        }
        i = i - 1;
    }
    proof {
        lemma_last_index_of(path@, '/');
    }
    path
}

/// Derives the base directory against which the manifest's references are
/// resolved.
pub fn base_directory(location: &str) -> (r: Result<Option<String>, PipelineError>)
    ensures
        match base_directory_of(location@) {
            Ok(Some(b)) => r matches Ok(Some(s)) && s@ == b,
            Ok(None) => r matches Ok(None),
            Err(e) => r matches Err(x) && x == e,
        },
{
    if !is_network_location(location) {
        return Ok(None);
    }
    if location.as_bytes().len() > MAX_URL_BYTES {
        return Err(PipelineError::InvalidUri);
    }
    let stripped = match url_without_query(location) {
        Some(s) => s,
        None => {
            return Err(PipelineError::InvalidUri);
        },
    };
    let path = match url_path(stripped.as_str()) {
        Some(p) => p,
        None => {
            return Err(PipelineError::InvalidUri);
        },
    };
    let dir = directory_of(path.as_str());
    if stripped.as_str().as_bytes().len() > MAX_URL_BYTES || dir.as_bytes().len()
        > MAX_URL_BYTES {
        return Err(PipelineError::InvalidUri);
    }
    match url_with_path(stripped.as_str(), dir) {
        Some(base) => Ok(Some(base)),
        None => Err(PipelineError::InvalidUri),
    }
}

/// Resolves a reference of the manifest to an absolute location.
pub fn resolve_uri(base: Option<&str>, reference: &str) -> (r: Result<String, PipelineError>)
    ensures
        match resolved(text_of(base), reference@) {
            Ok(u) => r matches Ok(s) && s@ == u,
            Err(e) => r matches Err(x) && x == e,
        },
{
    match base {
        Some(b) => match url_join(b, reference) {
            Some(u) => Ok(u),
            None => Err(PipelineError::InvalidUri),
        },
        None => match parse_url(reference) {
            Ok(u) => Ok(u),
            Err(UrlFault::RelativeWithoutBase) => Err(PipelineError::MissingBaseUrl),
            Err(UrlFault::Malformed) => Err(PipelineError::InvalidUri),
        },
    }
}

/// Resolves the location of every segment, in manifest order. Fails with
/// the error of the first segment whose location cannot be resolved.
pub fn resolve_segment_uris(base: Option<&str>, segments: &[Segment]) -> (r: Result<
    Vec<String>,
    PipelineError,
>)
    ensures
        match resolved_all(text_of(base), segment_uris(segments@)) {
            Ok(uris) => r matches Ok(v) && texts(v@) == uris,
            Err(e) => r matches Err(x) && x == e,
        },
{
    let mut out: Vec<String> = Vec::new();
    let mut i: usize = 0;
    let ghost refs = segment_uris(segments@);
    assert(refs.take(0) =~= Seq::empty());
    assert(texts(out@) =~= Seq::empty());
    while i < segments.len()
        invariant
            i <= segments@.len(),
            refs == segment_uris(segments@),
            resolved_all(text_of(base), refs.take(i as int)) == Ok::<
                Seq<Seq<char>>,
                PipelineError,
            >(texts(out@)),
        decreases segments@.len() - i,
    {
        proof {
            assert(refs.take(i + 1).drop_last() =~= refs.take(i as int));
            assert(refs.take(i + 1).last() == segments@[i as int].uri@);
        }
        match resolve_uri(base, segments[i].uri.as_str()) {
            Ok(u) => {
                proof {
                    assert(texts(out@.push(u)) =~= texts(out@).push(u@));
                }
                out.push(u);
            },
            Err(e) => {
                proof {
                    lemma_resolved_all_prefix_error(text_of(base), refs, i + 1);
                }
                return Err(e);
            },
        }
        i = i + 1;
    }
    assert(refs.take(i as int) =~= refs);
    Ok(out)
}

/// An error among the first `n` references is the error of the whole list.
proof fn lemma_resolved_all_prefix_error(
    base: Option<Seq<char>>,
    references: Seq<Seq<char>>,
    n: int,
)
    requires
        0 <= n <= references.len(),
        resolved_all(base, references.take(n)) is Err,
    ensures
        resolved_all(base, references) == resolved_all(base, references.take(n)),
    decreases references.len() - n,
{
    if n < references.len() {
        assert(references.take(n + 1).drop_last() =~= references.take(n));
        lemma_resolved_all_prefix_error(base, references, n + 1);
    } else {
        assert(references.take(n) =~= references);
    }
}

/// The `Referer` header for requests to `url`, derived from its domain.
pub fn referer_for(url: &str) -> (r: Option<String>)
    ensures
        match referer_of(url@) {
            Some(t) => r matches Some(s) && s@ == t,
            None => r is None,
        },
{
    match url_domain(url) {
        Some(d) => {
            let mut s = String::from_str("https://");
            s.append(d.as_str());
            s.append("/");
            Some(s)
        },
        None => None,
    }
}

} // verus!
