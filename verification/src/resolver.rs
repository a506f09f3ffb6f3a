//! The identifier resolver: a user-supplied string is either a raw
//! numeric collection id or a collection URL on the catalog site.

use vstd::prelude::*;
use crate::error::ParseError;
use crate::text::{
    all_ascii_digits, all_digits, digits_val, parse_u32_digits, str_eq, trim_spec, trim_str,
};

verus! {

/// The fields of a parsed URL that the resolver reads: the scheme, the
/// host when there is one, and the path split at `/` when the URL can
/// serve as a base.
pub struct UrlParts {
    pub scheme: String,
    pub host: Option<String>,
    pub segments: Option<Vec<String>>,
}

/// Whether url::Url::parse accepts the string as an absolute URL.
pub uninterp spec fn url_is_valid(s: Seq<char>) -> bool;

/// The scheme that url::Url::scheme reports for the parsed string.
pub uninterp spec fn url_scheme_of(s: Seq<char>) -> Seq<char>;

/// The host that url::Url::host_str reports for the parsed string.
pub uninterp spec fn url_host_of(s: Seq<char>) -> Option<Seq<char>>;

/// The path segments that url::Url::path_segments reports for the
/// parsed string.
pub uninterp spec fn url_segments_of(s: Seq<char>) -> Option<Seq<Seq<char>>>;

/// Relies on url::Url::parse, which accepts or rejects the input
/// string alone, and on the accessors scheme, host_str and
/// path_segments, each a pure function of the parsed value.
#[verifier::external_body]
pub(crate) fn parse_url(s: &str) -> (r: Option<UrlParts>)
    ensures
        r is Some <==> url_is_valid(s@),
        r matches Some(p) ==> p.scheme@ == url_scheme_of(s@) && p.host.deep_view() == url_host_of(
            s@,
        ) && p.segments.deep_view() == url_segments_of(s@),
{
    match url::Url::parse(s) {
        Ok(u) => Some(
            UrlParts {
                scheme: u.scheme().to_string(),
                host: u.host_str().map(|h| h.to_string()),
                segments: u.path_segments().map(|ss| ss.map(|x| x.to_string()).collect()),
            },
        ),
        Err(_) => None,
    }
}

/// What resolution returns for a URL with the given scheme, host and
/// The id segment with an optional single leading `+` removed, as an
/// unsigned decimal parse accepts it.
pub open spec fn unsigned_digits(seg: Seq<char>) -> Seq<char> {
    if seg.len() > 0 && seg[0] == '+' {
        seg.drop_first()
    } else {
        seg
    }
}

/// path segments: the host is checked first, then the scheme, then the
/// path shape, then the numeric second segment (decimal digits after
/// an optional `+` sign, fitting in `u32`).
pub open spec fn parts_result(
    scheme: Seq<char>,
    host: Option<Seq<char>>,
    segments: Option<Seq<Seq<char>>>,
) -> Result<u32, ParseError> {
    if host != Some("osucollector.com"@) {
        Err(ParseError::InvalidHost)
    } else if scheme != "https"@ {
        Err(ParseError::InsecureScheme)
    } else if segments is None {
        Err(ParseError::InvalidPath)
    } else if segments->0.len() < 2 || segments->0[0] != "collections"@ {
        Err(ParseError::InvalidPath)
    } else if unsigned_digits(segments->0[1]).len() == 0 || !all_digits(
        unsigned_digits(segments->0[1]),
    ) || digits_val(unsigned_digits(segments->0[1])) > u32::MAX {
        Err(ParseError::NotNumeric)
    } else {
        Ok(digits_val(unsigned_digits(segments->0[1])) as u32)
    }
}

/// Resolves a collection id from the parts of an already parsed URL.
pub fn resolve_from_parts(parts: &UrlParts) -> (r: Result<u32, ParseError>)
    ensures
        r == parts_result(parts.scheme@, parts.host.deep_view(), parts.segments.deep_view()),
{
    let host_ok = match &parts.host {
        Some(h) => str_eq(h.as_str(), "osucollector.com"),
        None => false,
    };
    if !host_ok {
        return Err(ParseError::InvalidHost);
    }
    if !str_eq(parts.scheme.as_str(), "https") {
        return Err(ParseError::InsecureScheme);
    }
    let segments = match &parts.segments {
        Some(v) => v,
        None => {
            return Err(ParseError::InvalidPath);
        },
    };
    if segments.len() < 2 {
        return Err(ParseError::InvalidPath);
    }
    proof {
        assert(parts.segments.deep_view()->0[0] == segments@[0].deep_view());
        assert(parts.segments.deep_view()->0[1] == segments@[1].deep_view());
    }
    if !str_eq(segments[0].as_str(), "collections") {
        return Err(ParseError::InvalidPath);
    }
    let seg = segments[1].as_str();
    let seg_len = seg.unicode_len();
    let id_seg = if seg_len > 0 && seg.get_char(0) == '+' {
        seg.substring_char(1, seg_len)
    } else {
        seg
    };
    proof {
        assert(id_seg@ =~= unsigned_digits(segments@[1]@));
    }
    if id_seg.unicode_len() == 0 {
        return Err(ParseError::NotNumeric);
    }
    if !all_ascii_digits(id_seg) {
        return Err(ParseError::NotNumeric);
    }
    match parse_u32_digits(id_seg) {
        Some(v) => Ok(v),
        None => Err(ParseError::NotNumeric),
    }
}

/// What the resolver returns for a given input string: after trimming,
/// either the empty-input error, the literal numeric id, or the result
/// of URL resolution.
pub open spec fn resolve_spec(s: Seq<char>) -> Result<u32, ParseError> {
    let t = trim_spec(s);
    if t.len() == 0 {
        Err(ParseError::EmptyInput)
    } else if all_digits(t) {
        if digits_val(t) <= u32::MAX {
            Ok(digits_val(t) as u32)
        } else {
            Err(ParseError::NotNumeric)
        }
    } else if !url_is_valid(t) {
        Err(ParseError::MalformedUrl)
    } else {
        parts_result(url_scheme_of(t), url_host_of(t), url_segments_of(t))
    }
}

/// Parses a collection identifier: a raw numeric id, or a catalog URL
/// of the form `https://osucollector.com/collections/<id>`.
pub fn parse_collection_id(input: &str) -> (r: Result<u32, ParseError>)
    ensures
        r == resolve_spec(input@),
{
    let trimmed = trim_str(input);
    if trimmed.unicode_len() == 0 {
        return Err(ParseError::EmptyInput);
    }
    if all_ascii_digits(trimmed) {
        return match parse_u32_digits(trimmed) {
            Some(v) => Ok(v),
            None => Err(ParseError::NotNumeric),
        };
    }
    match parse_url(trimmed) {
        None => Err(ParseError::MalformedUrl),
        Some(parts) => resolve_from_parts(&parts),
    }
}

/// A URL on a foreign host fails with InvalidHost, and one on the
/// right host with an insecure scheme fails with InsecureScheme,
/// whatever the path holds: the result never depends on the segments.
pub proof fn lemma_host_scheme_checked_before_path(
    scheme: Seq<char>,
    host: Option<Seq<char>>,
    segs1: Option<Seq<Seq<char>>>,
    segs2: Option<Seq<Seq<char>>>,
)
    ensures
        host != Some("osucollector.com"@) ==> parts_result(scheme, host, segs1) == Err::<
            u32,
            ParseError,
        >(ParseError::InvalidHost),
        host == Some("osucollector.com"@) && scheme != "https"@ ==> parts_result(
            scheme,
            host,
            segs1,
        ) == Err::<u32, ParseError>(ParseError::InsecureScheme),
        host != Some("osucollector.com"@) || scheme != "https"@ ==> parts_result(
            scheme,
            host,
            segs1,
        ) == parts_result(scheme, host, segs2),
{
}

} // verus!
