//! Where the image to watermark is stored: bucket and object key of an
//! `s3://bucket/key` URL, or of an HTTP URL whose path starts with the
//! bucket.

use vstd::prelude::*;
use vstd::string::StrSliceExecFns;
use crate::request::{has_char, first_index, string_option_view};
use crate::watermark::chars_of;

verus! {

/// Why a URL names no stored object.
#[derive(Clone, Copy, Debug, PartialEq, Eq, Structural)]
pub enum S3UrlError {
    /// An `s3://` URL that does not parse as a URL.
    Unparsable,
    /// An `s3://` URL whose parsed scheme is not `s3`.
    NotS3Scheme,
    /// An `s3://` URL without a host.
    MissingBucket,
    /// An `s3://` URL with an empty host or without a path.
    MissingBucketOrKey,
    /// Any other URL that does not name a bucket and a key in its path.
    NotS3OrHttp,
}

/// Scheme, host and path of the URL that `s` parses to, as a URL parser
/// following the WHATWG URL standard finds them; `None` where `s` is no URL.
pub uninterp spec fn url_parts(s: Seq<char>) -> Option<(Seq<char>, Option<Seq<char>>, Seq<char>)>;

struct UrlParts {
    scheme: String,
    host: Option<String>,
    path: String,
}

/// Relies on url::Url::parse, and on the parsed URL's `scheme`, `host_str`
/// and `path`.
#[verifier::external_body]
fn parse_url(s: &str) -> (r: Option<UrlParts>)
    ensures
        match r {
            Some(p) => url_parts(s@) == Some((p.scheme@, string_option_view(p.host), p.path@)),
            None => url_parts(s@) is None,
        },
{
    match url::Url::parse(s) {
        Ok(u) => Some(
            UrlParts {
                scheme: u.scheme().to_string(),
                host: u.host_str().map(|h| h.to_string()),
                path: u.path().to_string(),
            },
        ),
        Err(_) => None,
    }
}

/// A path of slash-separated segments: it starts with `/`.
pub open spec fn has_segments(path: Seq<char>) -> bool {
    path.len() > 0 && path[0] == '/'
}

/// The segments of such a path, joined again by `/`.
pub open spec fn joined_segments(path: Seq<char>) -> Seq<char> {
    path.subrange(1, path.len() as int)
}

/// Bucket and key that a URL names: for an `s3://` URL its host and its
/// path segments; for another URL its first path segment and the segments
/// after it, where there are at least two and neither part is empty.
pub open spec fn s3_location(url: Seq<char>) -> Result<(Seq<char>, Seq<char>), S3UrlError> {
    if url.len() >= 5 && url.subrange(0, 5) == "s3://"@ {
        match url_parts(url) {
            None => Err(S3UrlError::Unparsable),
            Some((scheme, host, path)) => {
                if scheme != "s3"@ {
                    Err(S3UrlError::NotS3Scheme)
                } else {
                    match host {
                        None => Err(S3UrlError::MissingBucket),
                        Some(h) => {
                            if h.len() > 0 && has_segments(path) {
                                Ok((h, joined_segments(path)))
                            } else {
                                Err(S3UrlError::MissingBucketOrKey)
                            }
                        },
                    }
                }
            },
        }
    } else {
        match url_parts(url) {
            Some((_, _, path)) => {
                let rest = joined_segments(path);
                let bucket = rest.subrange(0, first_index(rest, '/'));
                let object = rest.subrange(first_index(rest, '/') + 1, rest.len() as int);
                if has_segments(path) && has_char(rest, '/') && bucket.len() > 0 && object.len()
                    > 0 {
                    Ok((bucket, object))
                } else {
                    Err(S3UrlError::NotS3OrHttp)
                }
            },
            None => Err(S3UrlError::NotS3OrHttp),
        }
    }
}

pub open spec fn location_view(r: Result<(String, String), S3UrlError>) -> Result<
    (Seq<char>, Seq<char>),
    S3UrlError,
> {
    match r {
        Ok((b, o)) => Ok((b@, o@)),
        Err(e) => Err(e),
    }
}

/// Bucket and object key named by a storage URL (see `s3_location`).
pub fn parse_s3_url(s3_url: &str) -> (r: Result<(String, String), S3UrlError>)
    ensures
        location_view(r) == s3_location(s3_url@),
{
    let is_s3: bool = s3_url.unicode_len() >= 5 && s3_url.substring_char(0, 5).to_owned()
        == "s3://".to_owned();
    let parts = parse_url(s3_url);
    if is_s3 {
        match parts {
            None => Err(S3UrlError::Unparsable),
            Some(p) => {
                if p.scheme != "s3".to_owned() {
                    return Err(S3UrlError::NotS3Scheme);
                }
                let path = chars_of(p.path.as_str());
                match p.host {
                    None => Err(S3UrlError::MissingBucket),
                    Some(h) => {
                        if h.as_str().unicode_len() > 0 && path.len() > 0 && path[0] == '/' {
                            let key = p.path.as_str().substring_char(1, path.len()).to_owned();
                            Ok((h, key))
                        } else {
                            Err(S3UrlError::MissingBucketOrKey)
                        }
                    },
                }
            },
        }
    } else {
        match parts {
            None => Err(S3UrlError::NotS3OrHttp),
            Some(p) => {
                let path = chars_of(p.path.as_str());
                let n: usize = path.len();
                if n == 0 || path[0] != '/' {
                    return Err(S3UrlError::NotS3OrHttp);
                }
                let ghost rest = joined_segments(path@);
                let slash = find_slash(&path);
                if slash == n {
                    proof {
                        assert(!has_char(rest, '/')) by {
                            if has_char(rest, '/') {
                                let i = choose|i: int| 0 <= i < rest.len() && rest[i] == '/';
                                assert(path@[1 + i] == '/');
                            }
                        }
                    }
                    return Err(S3UrlError::NotS3OrHttp);
                }
                proof {
                    lemma_first_slash(rest, slash - 1);
                    assert(rest.subrange(0, slash - 1) =~= path@.subrange(1, slash as int));
                    assert(rest.subrange(slash - 1 + 1, rest.len() as int) =~= path@.subrange(
                        slash + 1,
                        n as int,
                    ));
                }
                if slash == 1 || slash + 1 == n {
                    return Err(S3UrlError::NotS3OrHttp);
                }
                let bucket = p.path.as_str().substring_char(1, slash).to_owned();
                let object = p.path.as_str().substring_char(slash + 1, n).to_owned();
                Ok((bucket, object))
            },
        }
    }
}

proof fn lemma_first_slash(s: Seq<char>, k: int)
    requires
        0 <= k < s.len(),
        s[k] == '/',
        forall|j: int| 0 <= j < k ==> s[j] != '/',
    ensures
        has_char(s, '/'),
        first_index(s, '/') == k,
{
    let i = first_index(s, '/');
    assert(0 <= i < s.len() && s[i] == '/' && forall|j: int| 0 <= j < i ==> s[j] != '/');
    if i < k {
        assert(s[i] != '/');
    }
    if i > k {
        assert(s[k] != '/');
    }
}

/// Index of the first `/` after the leading one, or the length.
fn find_slash(path: &Vec<char>) -> (r: usize)
    requires
        path@.len() >= 1,
    ensures
        1 <= r <= path@.len(),
        r < path@.len() ==> path@[r as int] == '/',
        forall|j: int| 1 <= j < r ==> path@[j] != '/',
{
    let mut i: usize = 1;
    while i < path.len() && path[i] != '/'
        invariant
            1 <= i <= path@.len(),
            forall|j: int| 1 <= j < i ==> path@[j] != '/',
        decreases path@.len() - i,
    {
        i = i + 1;
    }
    i
}

} // verus!
