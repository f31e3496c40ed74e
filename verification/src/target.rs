//! The push target: where the outbound connection goes, as read from the
//! configured push URL.
//!
//! A push URL has the shape `rtmp://host[:port][/path][?query]`. The
//! authority runs from the scheme to the first `/` or `?`; the host is the
//! authority up to its first `:`, the port what follows that `:`; the query
//! is everything after the first `?`.

use crate::decimal::{decimal_text, port_of, parse_port, render_port};
use crate::scan::{decode, find_either, first_of, free_of};
use vstd::prelude::*;

verus! {

/// The port of the protocol, used where the URL names none.
pub const DEFAULT_RTMP_PORT: u16 = 1935;

/// Why a push URL was refused.
#[derive(Clone, Copy, Debug, PartialEq, Eq, Structural)]
pub enum TargetParseError {
    /// The URL does not begin with `rtmp://`.
    UnsupportedScheme,
    /// Nothing stands where the host belongs.
    MissingHost,
    /// A `:` follows the host, but what comes after it is no port number.
    InvalidPort,
}

/// Where to open the outbound connection.
#[derive(Clone, Debug, PartialEq, Eq)]
pub struct PushTarget {
    pub host: String,
    pub port: u16,
    pub query: Option<String>,
}

/// A `PushTarget` as plain values.
pub struct TargetModel {
    pub host: Seq<char>,
    pub port: u16,
    pub query: Option<Seq<char>>,
}

/// An optional string as plain values.
pub open spec fn text_model(text: Option<String>) -> Option<Seq<char>> {
    match text {
        Some(t) => Some(t@),
        None => None,
    }
}

impl View for PushTarget {
    type V = TargetModel;

    open spec fn view(&self) -> TargetModel {
        TargetModel { host: self.host@, port: self.port, query: text_model(self.query) }
    }
}

/// The scheme that every push URL begins with.
pub open spec fn scheme() -> Seq<char> {
    seq!['r', 't', 'm', 'p', ':', '/', '/']
}

/// Whether `url` begins with the scheme.
pub open spec fn has_scheme(url: Seq<char>) -> bool {
    url.len() >= 7 && url.take(7) == scheme()
}

/// The authority of a URL, given what follows its scheme.
pub open spec fn authority_of(rest: Seq<char>) -> Seq<char> {
    rest.take(first_of(rest, '/', '?'))
}

/// The host named by an authority.
pub open spec fn host_of(authority: Seq<char>) -> Seq<char> {
    authority.take(first_of(authority, ':', ':'))
}

/// What an authority gives as its port, if it has a `:`.
pub open spec fn port_text_of(authority: Seq<char>) -> Option<Seq<char>> {
    let colon = first_of(authority, ':', ':');
    if colon < authority.len() {
        Some(authority.skip(colon + 1))
    } else {
        None
    }
}

/// The query of a URL, given what follows its scheme.
pub open spec fn query_of(rest: Seq<char>) -> Option<Seq<char>> {
    let mark = first_of(rest, '?', '?');
    if mark < rest.len() {
        Some(rest.skip(mark + 1))
    } else {
        None
    }
}

/// What a push URL resolves to.
pub open spec fn resolve_spec(url: Seq<char>, default_port: u16) -> Result<
    TargetModel,
    TargetParseError,
> {
    let rest = url.skip(7);
    let authority = authority_of(rest);
    let host = host_of(authority);
    let query = query_of(rest);
    if !has_scheme(url) {
        Err(TargetParseError::UnsupportedScheme)
    } else if host.len() == 0 {
        Err(TargetParseError::MissingHost)
    } else {
        match port_text_of(authority) {
            None => Ok(TargetModel { host, port: default_port, query }),
            Some(digits) => match port_of(digits) {
                Some(port) => Ok(TargetModel { host, port, query }),
                None => Err(TargetParseError::InvalidPort),
            },
        }
    }
}

impl TargetModel {
    /// A host is not empty and holds none of the characters that end it.
    pub open spec fn well_formed(self) -> bool {
        &&& self.host.len() > 0
        &&& free_of(self.host, ':', ':')
        &&& free_of(self.host, '/', '?')
    }

    /// The target as `host:port`.
    pub open spec fn address(self) -> Seq<char> {
        self.host + seq![':'] + decimal_text(self.port as nat)
    }

    /// The query as a session is given it: with its `?` in front.
    pub open spec fn search(self) -> Option<Seq<char>> {
        match self.query {
            Some(q) => Some(seq!['?'] + q),
            None => None,
        }
    }

    /// The shortest push URL that names this target.
    pub open spec fn url(self) -> Seq<char> {
        scheme() + self.address() + match self.search() {
            Some(s) => s,
            None => Seq::<char>::empty(),
        }
    }
}

/// Whether `text` begins with the scheme.
fn starts_with_scheme(text: &Vec<char>) -> (yes: bool)
    ensures
        yes == has_scheme(text@),
{
    if text.len() < 7 {
        return false;
    }
    let yes = text[0] == 'r' && text[1] == 't' && text[2] == 'm' && text[3] == 'p' && text[4] == ':'
        && text[5] == '/' && text[6] == '/';
    proof {
        if yes {
            assert(text@.take(7) =~= scheme());
        } else {
            assert(forall|i: int| 0 <= i < 7 ==> text@.take(7)[i] == text@[i]);
        }
    }
    yes
}

impl PushTarget {
    /// Resolves a push URL. `default_port` is the port of a URL that names
    /// none.
    ///
    /// The URL is refused if it does not begin with `rtmp://`, if its host is
    /// empty, or if a `:` follows the host without a port number in
    /// `0..=65535` after it.
    pub fn resolve(url: &str, default_port: u16) -> (resolved: Result<PushTarget, TargetParseError>)
        ensures
            match resolved {
                Ok(target) => resolve_spec(url@, default_port) == Ok::<
                    TargetModel,
                    TargetParseError,
                >(target@) && target@.well_formed(),
                Err(error) => resolve_spec(url@, default_port) == Err::<
                    TargetModel,
                    TargetParseError,
                >(error),
            },
    {
        let text = decode(url);
        if !starts_with_scheme(&text) {
            return Err(TargetParseError::UnsupportedScheme);
        }
        let end = text.len();
        let authority_end = find_either(&text, 7, end, '/', '?');
        let host_end = find_either(&text, 7, authority_end, ':', ':');
        let mark = find_either(&text, 7, end, '?', '?');
        let ghost rest = url@.skip(7);
        let ghost authority = authority_of(rest);
        proof {
            assert(text@.subrange(7, end as int) =~= rest);
            assert(text@.subrange(7, authority_end as int) =~= authority);
            assert(url@.subrange(7, host_end as int) =~= host_of(authority));
            lemma_resolved_is_well_formed(url@, default_port);
        }
        if host_end == 7 {
            return Err(TargetParseError::MissingHost);
        }
        let port = if host_end < authority_end {
            assert(text@.subrange(host_end + 1, authority_end as int) =~= authority.skip(
                host_end - 7 + 1,
            ));
            match parse_port(&text, host_end + 1, authority_end) {
                Some(port) => port,
                None => {
                    return Err(TargetParseError::InvalidPort);
                },
            }
        } else {
            default_port
        };
        let query = if mark < end {
            assert(url@.subrange(mark + 1, end as int) =~= rest.skip(mark - 7 + 1));
            Some(url.substring_char(mark + 1, end).to_owned())
        } else {
            None
        };
        let host = url.substring_char(7, host_end).to_owned();
        Ok(PushTarget { host, port, query })
    }

    /// The target as `host:port`, the form in which a connection is asked
    /// for.
    pub fn address(&self) -> (text: String)
        ensures
            text@ == self@.address(),
    {
        proof {
            reveal_strlit(":");
        }
        let mut text = self.host.clone();
        text.append(":");
        text.append(render_port(self.port).as_str());
        assert(text@ =~= self@.address());
        text
    }

    /// The query as a session is given it: with its `?` in front.
    pub fn search(&self) -> (text: Option<String>)
        ensures
            text_model(text) == self@.search(),
    {
        proof {
            reveal_strlit("?");
        }
        match &self.query {
            Some(query) => {
                let mut text = "?".to_owned();
                text.append(query.as_str());
                assert(text@ =~= seq!['?'] + query@);
                Some(text)
            },
            None => None,
        }
    }
}

/// Whatever a URL resolves to has a host that is not empty and ends where a
/// `:`, `/` or `?` would begin.
pub proof fn lemma_resolved_is_well_formed(url: Seq<char>, default_port: u16)
    ensures
        resolve_spec(url, default_port) matches Ok(target) ==> target.well_formed(),
{
    let rest = url.skip(7);
    let authority = authority_of(rest);
    let host = host_of(authority);
    crate::scan::lemma_first_of_found(rest, '/', '?');
    crate::scan::lemma_first_of_found(authority, ':', ':');
    crate::scan::lemma_first_of_bounds(rest, '/', '?');
    crate::scan::lemma_first_of_bounds(authority, ':', ':');
    assert forall|i: int| 0 <= i < host.len() implies #[trigger] host[i] != '/' && host[i]
        != '?' by {
        assert(host[i] == authority[i]);
    }
}

/// Resolving is a left inverse of writing a URL: the URL written for a
/// well-formed target resolves to that target, whatever the default port.
pub proof fn lemma_url_resolves_to_target(target: TargetModel, default_port: u16)
    requires
        target.well_formed(),
    ensures
        resolve_spec(target.url(), default_port) == Ok::<TargetModel, TargetParseError>(target),
{
    let url = target.url();
    let host = target.host;
    let digits = decimal_text(target.port as nat);
    let tail = match target.search() {
        Some(s) => s,
        None => Seq::<char>::empty(),
    };
    let rest = url.skip(7);
    let split: int = host.len() as int;
    let reach: int = split + 1 + digits.len();
    crate::decimal::lemma_decimal_text_is_decimal(target.port as nat);
    crate::decimal::lemma_decimal_round_trip(target.port as nat);
    assert(url.take(7) =~= scheme());
    assert(rest =~= host + seq![':'] + digits + tail);
    assert forall|i: int| 0 <= i < reach implies #[trigger] rest.take(reach)[i] != '/'
        && rest.take(reach)[i] != '?' by {
        if i < split {
            assert(rest[i] == host[i]);
        } else if i > split {
            assert(rest[i] == digits[i - split - 1]);
        }
    }
    crate::scan::lemma_first_of_is(rest, '/', '?', reach);
    let authority = authority_of(rest);
    assert(authority =~= host + seq![':'] + digits);
    assert forall|i: int| 0 <= i < split implies #[trigger] authority.take(split)[i] != ':' by {
        assert(authority[i] == host[i]);
    }
    crate::scan::lemma_first_of_is(authority, ':', ':', split);
    assert(host_of(authority) =~= host);
    assert(authority.skip(split + 1) =~= digits);
    match target.query {
        Some(q) => {
            assert(rest[reach] == '?');
            crate::scan::lemma_first_of_is(rest, '?', '?', reach);
            assert(rest.skip(reach + 1) =~= q);
        },
        None => {
            assert(rest.take(reach) =~= rest);
            crate::scan::lemma_first_of_is(rest, '?', '?', reach);
        },
    }
}

} // verus!
