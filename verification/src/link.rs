//! Links: what the `url` and `urlencoding` crates make of them.
use vstd::prelude::*;

use crate::error::ValidationError;

verus! {

/// The errors of the `url` crate's parser; opaque here.
#[verifier::external_type_specification]
#[verifier::external_body]
pub struct ExParseError(url::ParseError);

/// Whether `url::Url::parse` accepts the text as an absolute URL.
pub uninterp spec fn url_parses(text: Seq<char>) -> bool;

/// What `url::Url::scheme` gives for the URL parsed from the text.
pub uninterp spec fn url_scheme(text: Seq<char>) -> Seq<char>;

/// What `url::Url::host_str` gives for the URL parsed from the text.
pub uninterp spec fn url_host(text: Seq<char>) -> Option<Seq<char>>;

/// What `url::Url::path_segments` gives for the URL parsed from the text.
pub uninterp spec fn url_path_segments(text: Seq<char>) -> Option<Seq<Seq<char>>>;

/// What `urlencoding::decode` makes of the text; absent where the decoded bytes are no UTF-8.
pub uninterp spec fn percent_decoded(text: Seq<char>) -> Option<Seq<char>>;

/// Whether `s` spells a dot, plainly or percent-encoded.
pub open spec fn is_dot(s: Seq<char>) -> bool {
    s == "."@ || s == "%2e"@ || s == "%2E"@
}

/// Whether `s` spells `.` or `..`, plainly or percent-encoded.
pub open spec fn is_dot_segment(s: Seq<char>) -> bool {
    is_dot(s) || exists|i: int|
        0 <= i <= s.len() && is_dot(#[trigger] s.take(i)) && is_dot(s.skip(i))
}

/// The parts of an absolute URL that the downloader looks at.
#[derive(Debug, Clone)]
pub struct ParsedUrl {
    pub scheme: String,
    pub host: Option<String>,
    /// The segments of the path, still percent-encoded; absent where the path is not a list of
    /// segments.
    pub segments: Option<Vec<String>>,
}

impl ParsedUrl {
    /// The host as a sequence of characters.
    pub open spec fn host_view(&self) -> Option<Seq<char>> {
        match self.host {
            Some(h) => Some(h@),
            None => None,
        }
    }

    /// The path's segments as sequences of characters.
    pub open spec fn segments_view(&self) -> Option<Seq<Seq<char>>> {
        match self.segments {
            Some(s) => Some(s@.map_values(|p: String| p@)),
            None => None,
        }
    }

    /// Whether the parts are those of the URL that `text` spells.
    pub open spec fn spells(&self, text: Seq<char>) -> bool {
        &&& self.scheme@ == url_scheme(text)
        &&& self.host_view() == url_host(text)
        &&& self.segments_view() == url_path_segments(text)
    }

    /// Whether no segment of the path spells `.` or `..`.
    pub open spec fn has_no_dot_segment(&self) -> bool {
        match self.segments_view() {
            Some(s) => forall|i: int| 0 <= i < s.len() ==> !is_dot_segment(#[trigger] s[i]),
            None => true,
        }
    }

    /// Takes a link apart. The path of a link with the scheme `http` or `https` has no segment
    /// left that spells `.` or `..`.
    pub fn parse(text: &str) -> (r: Result<ParsedUrl, ValidationError>)
        ensures
            match r {
                Ok(u) => url_parses(text@) && u.spells(text@) && (u.scheme@ == "http"@
                    || u.scheme@ == "https"@ ==> u.has_no_dot_segment()),
                Err(e) => !url_parses(text@) && e == ValidationError::InvalidUrl,
            },
    {
        match parse_url(text) {
            Ok(u) => Ok(u),
            Err(_) => Err(ValidationError::InvalidUrl),
        }
    }

    /// The host as the name under which a server is remembered.
    pub open spec fn domain_text(&self) -> Seq<char> {
        match self.host {
            Some(h) => h@,
            None => "unknown"@,
        }
    }

    /// The host as the name under which a server is remembered; `unknown` without a host.
    pub fn domain(&self) -> (r: String)
        ensures
            r@ == self.domain_text(),
    {
        match &self.host {
            Some(h) => h.clone(),
            None => "unknown".to_owned(),
        }
    }
}

pub(crate) proof fn lemma_dots_are_dot_segments()
    ensures
        is_dot_segment("."@),
        is_dot_segment(".."@),
{
    reveal_strlit(".");
    reveal_strlit("..");
    let s = ".."@;
    assert(s.take(1) =~= "."@);
    assert(s.skip(1) =~= "."@);
}

pub(crate) proof fn lemma_download_is_no_dot_segment()
    ensures
        !is_dot_segment("download"@),
{
    reveal_strlit(".");
    reveal_strlit("%2e");
    reveal_strlit("%2E");
    reveal_strlit("download");
    let s = "download"@;
    assert(s[0] == 'd');
    assert forall|i: int| 0 <= i <= s.len() implies !(is_dot(#[trigger] s.take(i)) && is_dot(
        s.skip(i),
    )) by {
        assert(s.take(i).len() == i);
        if i > 0 {
            assert(s.take(i)[0] == 'd');
        }
        assert("."@[0] == '.' && "%2e"@[0] == '%' && "%2E"@[0] == '%');
    }
}

/// `url::Url::parse` on the text. Whether it succeeds, and the scheme, host and path segments
/// of what it gives, depend on the text alone; its accessors `scheme`, `host_str` and
/// `path_segments` hand them out. Under the schemes `http` and `https` the parser resolves the
/// segments that spell `.` or `..`, percent-encoded or not, and leaves none of them in the path.
#[verifier::external_body]
fn parse_url(text: &str) -> (r: Result<ParsedUrl, url::ParseError>)
    ensures
        r is Ok <==> url_parses(text@),
        r matches Ok(u) ==> u.scheme@ == url_scheme(text@) && u.host_view() == url_host(text@)
            && u.segments_view() == url_path_segments(text@),
        r matches Ok(u) ==> (u.scheme@ == "http"@ || u.scheme@ == "https"@
            ==> u.has_no_dot_segment()),
{
    let u = url::Url::parse(text)?;
    Ok(ParsedUrl {
        scheme: u.scheme().to_string(),
        host: u.host_str().map(|h| h.to_string()),
        segments: u.path_segments().map(|s| s.map(|p| p.to_string()).collect()),
    })
}

/// `urlencoding::decode` on the text: its percent-encoded bytes replaced by the bytes they
/// stand for, if the outcome is UTF-8. A text without `%` is left as it is, and only a text that
/// spells `.` or `..` is decoded to one of these.
#[verifier::external_body]
pub(crate) fn percent_decode(text: &str) -> (r: Option<String>)
    ensures
        r is Some <==> percent_decoded(text@) is Some,
        r matches Some(d) ==> percent_decoded(text@) == Some(d@),
        !text@.contains('%') ==> r is Some && r->0@ == text@,
        r matches Some(d) ==> (d@ == "."@ || d@ == ".."@ ==> is_dot_segment(text@)),
{
    urlencoding::decode(text).ok().map(|d| d.into_owned())
}

/// A link that is taken apart has the scheme, host and path segments of the URL; text that is no
/// URL is refused as such.
pub proof fn law_links_are_taken_apart(text: &str, r: Result<ParsedUrl, ValidationError>)
    requires
        call_ensures(ParsedUrl::parse, (text,), r),
    ensures
        r is Ok <==> url_parses(text@),
        r matches Err(e) ==> e == ValidationError::InvalidUrl,
        r matches Ok(u) ==> {
            &&& u.scheme@ == url_scheme(text@)
            &&& u.host is Some <==> url_host(text@) is Some
            &&& u.host matches Some(h) ==> url_host(text@) == Some(h@)
            &&& u.segments is Some <==> url_path_segments(text@) is Some
            &&& u.segments matches Some(list) ==> list@.len() == url_path_segments(text@)->0.len()
            &&& forall|i: int|
                u.segments is Some && 0 <= i < u.segments->0@.len() ==> (
                #[trigger] u.segments->0@[i])@ == url_path_segments(text@)->0[i]
        },
{
    if r is Ok && r->Ok_0.segments is Some {
        let list = r->Ok_0.segments->0;
        let views = r->Ok_0.segments_view()->0;
        assert(views.len() == list@.len());
        assert forall|i: int| 0 <= i < list@.len() implies (#[trigger] list@[i])@ == views[i] by {
        }
    }
}

/// A server is remembered under its host, or as `unknown`.
pub proof fn law_domains(url: &ParsedUrl, r: String)
    requires
        call_ensures(ParsedUrl::domain, (url,), r),
    ensures
        url.host matches Some(h) ==> r@ == h@,
        url.host is None ==> r@ == "unknown"@,
{
}

/// A dot is spelled in three ways, and `.` and `..` are one and two of them.
pub proof fn law_dot_segments(a: Seq<char>, b: Seq<char>)
    requires
        a == "."@ || a == "%2e"@ || a == "%2E"@,
        b == "."@ || b == "%2e"@ || b == "%2E"@,
    ensures
        is_dot_segment(a),
        is_dot_segment(a + b),
{
    assert((a + b).take(a.len() as int) =~= a);
    assert((a + b).skip(a.len() as int) =~= b);
}

/// Nothing else than one or two spellings of a dot is a dot segment.
pub proof fn law_only_dots_are_dot_segments(s: Seq<char>)
    requires
        is_dot_segment(s),
    ensures
        exists|a: Seq<char>, b: Seq<char>| #[trigger]
            (a + b) == s && (a == "."@ || a == "%2e"@ || a == "%2E"@) && (b.len() == 0 || b == "."@
                || b == "%2e"@ || b == "%2E"@),
{
    if s == "."@ || s == "%2e"@ || s == "%2E"@ {
        assert(s + Seq::<char>::empty() =~= s);
    } else {
        let i = choose|i: int|
            0 <= i <= s.len() && is_dot(#[trigger] s.take(i)) && is_dot(s.skip(i));
        assert(s.take(i) + s.skip(i) =~= s);
    }
}

} // verus!
