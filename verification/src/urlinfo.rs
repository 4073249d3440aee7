//! Plain-value views of parsed URLs, and the origin identity rules.
//!
//! The url parser supplies a URL's normalized spelling, its host and its
//! origin; this module holds them as plain values, derives the origin key
//! `(prefix, host)` with default-port folding, and computes the reversed
//! host column.

use vstd::prelude::*;
use vstd::string::StrSliceExecFns;
use vstd::string::StringExecFns;

verus! {

/// The origin of a URL as the parser reports it: either opaque, or a
/// `(scheme, host, port)` triple.
#[verifier::ext_equal]
pub enum OriginKind {
    Opaque,
    Tuple { scheme: String, host: String, port: u16 },
}

/// Ghost view of `OriginKind`.
#[verifier::ext_equal]
pub enum OriginKindSpec {
    Opaque,
    Tuple { scheme: Seq<char>, host: Seq<char>, port: u16 },
}

impl View for OriginKind {
    type V = OriginKindSpec;

    open spec fn view(&self) -> OriginKindSpec {
        match self {
            OriginKind::Opaque => OriginKindSpec::Opaque,
            OriginKind::Tuple { scheme, host, port } => OriginKindSpec::Tuple {
                scheme: scheme@,
                host: host@,
                port: *port,
            },
        }
    }
}

/// What the library reads of a parsed URL: its normalized spelling, its
/// host (absent for non-hierarchical URLs), and its origin.
pub struct UrlParts {
    pub spelling: String,
    pub host: Option<String>,
    pub origin: OriginKind,
}

/// Ghost view of `UrlParts`.
#[verifier::ext_equal]
pub struct UrlPartsSpec {
    pub spelling: Seq<char>,
    pub host: Option<Seq<char>>,
    pub origin: OriginKindSpec,
}

impl View for UrlParts {
    type V = UrlPartsSpec;

    open spec fn view(&self) -> UrlPartsSpec {
        UrlPartsSpec {
            spelling: self.spelling@,
            host: match self.host {
                Some(h) => Some(h@),
                None => None,
            },
            origin: self.origin@,
        }
    }
}

/// What the url parser yields for a string: `None` where parsing fails,
/// otherwise the normalized serialization, the host and the origin.
pub uninterp spec fn parsed_url(s: Seq<char>) -> Option<UrlPartsSpec>;

/// Relies on url's `Url::parse`, `Url::as_str`, `Url::host_str` and
/// `Url::origin`: each is a pure function of the URL string alone. The body
/// only converts the parser's answers into plain values, one arm per
/// origin variant.
#[verifier::external_body]
pub fn parse_url(s: &str) -> (r: Option<UrlParts>)
    ensures
        r is Some <==> parsed_url(s@) is Some,
        r matches Some(p) ==> (parsed_url(s@) matches Some(ps) && p@ == ps),
{
    let u = match url::Url::parse(s) {
        Ok(u) => u,
        Err(_) => return None,
    };
    let spelling = u.as_str().to_string();
    let host = u.host_str().map(|h| h.to_string());
    let origin = match u.origin() {
        url::Origin::Opaque(_) => OriginKind::Opaque,
        url::Origin::Tuple(scheme, host, port) => OriginKind::Tuple {
            scheme,
            host: host.to_string(),
            port,
        },
    };
    Some(UrlParts { spelling, host, origin })
}

/// The character for one decimal digit.
pub open spec fn digit_char(d: int) -> char {
    if d == 0 {
        '0'
    } else if d == 1 {
        '1'
    } else if d == 2 {
        '2'
    } else if d == 3 {
        '3'
    } else if d == 4 {
        '4'
    } else if d == 5 {
        '5'
    } else if d == 6 {
        '6'
    } else if d == 7 {
        '7'
    } else if d == 8 {
        '8'
    } else {
        '9'
    }
}

/// Decimal digits of a non-negative number, most significant first.
pub open spec fn spec_decimal(n: int) -> Seq<char>
    decreases n,
{
    if n < 10 {
        seq![digit_char(n)]
    } else {
        spec_decimal(n / 10).push(digit_char(n % 10))
    }
}

/// Appends one decimal digit character to a string.
fn append_digit(out: &mut String, d: u8)
    requires
        d < 10,
    ensures
        final(out)@ == old(out)@ + seq![digit_char(d as int)],
{
    proof {
        reveal_strlit("0");
        reveal_strlit("1");
        reveal_strlit("2");
        reveal_strlit("3");
        reveal_strlit("4");
        reveal_strlit("5");
        reveal_strlit("6");
        reveal_strlit("7");
        reveal_strlit("8");
        reveal_strlit("9");
    }
    match d {
        0 => out.append("0"),
        1 => out.append("1"),
        2 => out.append("2"),
        3 => out.append("3"),
        4 => out.append("4"),
        5 => out.append("5"),
        6 => out.append("6"),
        7 => out.append("7"),
        8 => out.append("8"),
        _ => out.append("9"),
    }
    proof {
        assert(final(out)@ =~= old(out)@ + seq![digit_char(d as int)]);
    }
}

/// Appends the decimal spelling of a port number to a string.
fn append_decimal(out: &mut String, n: u16)
    ensures
        final(out)@ == old(out)@ + spec_decimal(n as int),
    decreases n,
{
    if n >= 10 {
        append_decimal(out, n / 10);
    }
    append_digit(out, (n % 10) as u8);
    proof {
        assert(final(out)@ =~= old(out)@ + spec_decimal(n as int));
    }
}

/// The origin identity key for a `(scheme, host, port)` triple: the prefix
/// is the scheme plus `://`; a non-default port is folded into the host as
/// `host:port`, while the default ports 443 for https and 80 for http are
/// omitted.
pub open spec fn spec_origin_key(scheme: Seq<char>, host: Seq<char>, port: u16) -> (Seq<
    char,
>, Seq<char>) {
    if scheme == "https"@ && port == 443 {
        ("https://"@, host)
    } else if scheme == "https"@ {
        ("https://"@, host + ":"@ + spec_decimal(port as int))
    } else if scheme == "http"@ && port == 80 {
        ("http://"@, host)
    } else if scheme == "http"@ {
        ("http://"@, host + ":"@ + spec_decimal(port as int))
    } else {
        (scheme + "://"@, host + ":"@ + spec_decimal(port as int))
    }
}

/// The `host:port` spelling used when a port is folded into the host.
fn host_with_port(host: &String, port: u16) -> (r: String)
    ensures
        r@ == host@ + ":"@ + spec_decimal(port as int),
{
    let mut h = host.clone();
    h.append(":");
    append_decimal(&mut h, port);
    h
}

/// The origin identity key `(prefix, host)` of a tuple origin, per
/// `spec_origin_key`.
pub fn origin_key(scheme: &String, host: &String, port: u16) -> (r: (String, String))
    ensures
        r.0@ == spec_origin_key(scheme@, host@, port).0,
        r.1@ == spec_origin_key(scheme@, host@, port).1,
{
    let https = String::from_str("https");
    let http = String::from_str("http");
    if scheme.eq(&https) {
        let prefix = String::from_str("https://");
        if port == 443 {
            (prefix, host.clone())
        } else {
            (prefix, host_with_port(host, port))
        }
    } else if scheme.eq(&http) {
        let prefix = String::from_str("http://");
        if port == 80 {
            (prefix, host.clone())
        } else {
            (prefix, host_with_port(host, port))
        }
    } else {
        let mut prefix = scheme.clone();
        prefix.append("://");
        (prefix, host_with_port(host, port))
    }
}

/// The reversed-host column value: the host's characters reversed, with a
/// trailing `.` separator.
pub open spec fn spec_reverse_host(host: Seq<char>) -> Seq<char> {
    host.reverse().push('.')
}

/// Reverses a host string character by character and appends the trailing
/// separator.
pub fn reverse_host(host: &str) -> (r: String)
    ensures
        r@ == spec_reverse_host(host@),
{
    let n = host.unicode_len();
    let mut out = String::new();
    let mut i: usize = n;
    while i > 0
        invariant
            n == host@.len(),
            0 <= i <= n,
            out@ == host@.skip(i as int).reverse(),
        decreases i,
    {
        i = i - 1;
        let c = host.substring_char(i, i + 1);
        out.append(c);
        proof {
            assert(out@ =~= host@.skip(i as int).reverse());
        }
    }
    proof {
        assert(host@.skip(0) =~= host@);
    }
    out.append(".");
    proof {
        reveal_strlit(".");
        assert(out@ =~= spec_reverse_host(host@));
    }
    out
}

/// The display title of an entry: `None` where the source title is empty.
pub open spec fn spec_display_title(title: Seq<char>) -> Option<Seq<char>> {
    if title.len() == 0 {
        None
    } else {
        Some(title)
    }
}

/// Derives the display title for an entry: an empty source title maps to
/// no title at all.
pub fn display_title(title: &str) -> (r: Option<&str>)
    ensures
        title@.len() == 0 ==> r is None,
        title@.len() != 0 ==> (r matches Some(t) && t@ == title@),
{
    if title.is_empty() {
        None
    } else {
        Some(title)
    }
}

} // verus!
