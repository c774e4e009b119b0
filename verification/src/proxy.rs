//! The sandbox's HTTP CONNECT proxy: which requests it forwards to the
//! broker.
use vstd::prelude::*;
use crate::text::{decimal, is_digit, lemma_decimal_value, lemma_split_at_last, chars_of, rfind_char, rfind_char_in, contains_char, contains_char_in, slice_chars, string_of, parse_unsigned, parse_unsigned_chars};
use crate::policy::has_ascii_upper;
use crate::paths::seqs_of;
use crate::task::{words, split_words, lines, lines_of};

verus! {

/// Where the proxy listens inside the sandbox.
pub const PROXY_ADDRESS: &'static str = "127.0.0.1:18080";

/// The longest request header the proxy reads.
pub const MAX_HEADER_BYTES: usize = 8192;

/// Why a CONNECT request was refused.
#[derive(Clone, Copy, PartialEq, Eq, Structural, Debug)]
pub enum ProxyError {
    /// `empty proxy request`
    EmptyRequest,
    /// `only HTTP CONNECT is supported`
    NotConnect,
    /// `CONNECT destination is missing`
    MissingDestination,
    /// `CONNECT destination must be HOST:PORT`
    NoPort,
    /// `invalid CONNECT destination`
    InvalidDestination,
}

/// Whether a `HOST:PORT` destination may be asked of the broker: split at
/// the last `:`, the host is not empty, lowercase, free of `/`, `@`, `[`
/// and `]`, and the port is a `u16`.
pub open spec fn destination_fault(d: Seq<char>) -> Option<ProxyError> {
    match rfind_char(d, ':') {
        None => Some(ProxyError::NoPort),
        Some(p) => {
            let host = d.subrange(0, p);
            let port = d.subrange(p + 1, d.len() as int);
            if host.len() == 0 || has_ascii_upper(host) || contains_char(host, '/') || contains_char(host, '@')
                || contains_char(host, '[') || contains_char(host, ']')
                || parse_unsigned(port, 65535) is None {
                Some(ProxyError::InvalidDestination)
            } else {
                None
            }
        },
    }
}

/// A destination `host:port` is accepted whenever the host is not empty
/// and holds no ASCII capital and none of `/`, `@`, `[`, `]`, and the port
/// is a `u16` numeral: any other host character, `-` and `.` among them,
/// is allowed.
pub proof fn law_destination_accepted(host: Seq<char>, port: u16)
    requires
        host.len() > 0,
        forall|i: int| 0 <= i < host.len() ==> {
            let c = #[trigger] host[i];
            !('A' <= c && c <= 'Z') && c != '/' && c != '@' && c != '[' && c != ']'
        },
    ensures
        destination_fault(host + seq![':'] + decimal(port as nat)) is None,
{
    let p = decimal(port as nat);
    lemma_decimal_value(port as nat);
    assert forall|i: int| 0 <= i < p.len() implies p[i] != ':' by {
        assert(is_digit(p[i]));
    }
    lemma_split_at_last(host, p, ':');
    assert(is_digit(p[0]));
    assert(crate::text::unsigned_digits(p) == p);
    assert(!has_ascii_upper(host));
    assert(!contains_char(host, '/'));
    assert(!contains_char(host, '@'));
    assert(!contains_char(host, '['));
    assert(!contains_char(host, ']'));
}

/// A destination whose host (the text before its last `:`) is empty or
/// holds an ASCII capital, `/`, `@`, `[` or `]` is refused, whatever the
/// port.
pub proof fn law_destination_refused(host: Seq<char>, port: Seq<char>)
    requires
        forall|i: int| 0 <= i < port.len() ==> port[i] != ':',
        host.len() == 0 || exists|i: int| 0 <= i < host.len() && {
            let c = #[trigger] host[i];
            ('A' <= c && c <= 'Z') || c == '/' || c == '@' || c == '[' || c == ']'
        },
    ensures
        destination_fault(host + seq![':'] + port) is Some,
{
    lemma_split_at_last(host, port, ':');
    if host.len() > 0 {
        let i = choose|i: int| 0 <= i < host.len() && {
            let c = #[trigger] host[i];
            ('A' <= c && c <= 'Z') || c == '/' || c == '@' || c == '[' || c == ']'
        };
        let c = host[i];
        if 'A' <= c && c <= 'Z' {
            assert(has_ascii_upper(host));
        } else if c == '/' {
            assert(contains_char(host, '/'));
        } else if c == '@' {
            assert(contains_char(host, '@'));
        } else if c == '[' {
            assert(contains_char(host, '['));
        } else {
            assert(contains_char(host, ']'));
        }
    }
}

fn upper_in(s: &Vec<char>) -> (b: bool)
    ensures
        b == has_ascii_upper(s@),
{
    let mut i: usize = 0;
    while i < s.len()
        invariant
            i <= s@.len(),
            forall|k: int| 0 <= k < i ==> !('A' <= #[trigger] s@[k] && s@[k] <= 'Z'),
        decreases s@.len() - i,
    {
        if 'A' <= s[i] && s[i] <= 'Z' {
            return true;
        }
        i = i + 1;
    }
    false
}

/// Checks a CONNECT destination.
pub fn validate_destination(destination: &str) -> (r: Result<(), ProxyError>)
    ensures
        r is Ok <==> destination_fault(destination@) is None,
        r matches Err(e) ==> destination_fault(destination@) == Some(e),
{
    let cs = chars_of(destination);
    let p = match rfind_char_in(cs.as_slice(), ':') {
        None => {
            return Err(ProxyError::NoPort);
        },
        Some(p) => p,
    };
    let n = cs.len();
    let host = slice_chars(cs.as_slice(), 0, p);
    let port = slice_chars(cs.as_slice(), p + 1, n);
    if host.len() == 0 || upper_in(&host) || contains_char_in(host.as_slice(), '/') || contains_char_in(host.as_slice(), '@')
        || contains_char_in(host.as_slice(), '[') || contains_char_in(host.as_slice(), ']') {
        return Err(ProxyError::InvalidDestination);
    }
    match parse_unsigned_chars(port.as_slice(), 65535) {
        None => Err(ProxyError::InvalidDestination),
        Some(_) => Ok(()),
    }
}

/// The destination of a proxy request header, or why it is refused: the
/// first line must be `CONNECT <destination> ...` with a valid destination.
pub open spec fn connect_destination(header: Seq<char>) -> Result<Seq<char>, ProxyError> {
    if lines(header).len() == 0 {
        Err(ProxyError::EmptyRequest)
    } else {
        let fields = words(lines(header)[0]);
        if fields.len() == 0 || fields[0] != "CONNECT"@ {
            Err(ProxyError::NotConnect)
        } else if fields.len() < 2 {
            Err(ProxyError::MissingDestination)
        } else {
            match destination_fault(fields[1]) {
                Some(e) => Err(e),
                None => Ok(fields[1]),
            }
        }
    }
}

/// Reads the destination out of a CONNECT request header.
pub fn parse_connect(header: &str) -> (r: Result<String, ProxyError>)
    ensures
        r matches Ok(d) ==> connect_destination(header@) == Ok::<Seq<char>, ProxyError>(d@),
        r matches Err(e) ==> connect_destination(header@) == Err::<Seq<char>, ProxyError>(e),
{
    let ls = lines_of(header);
    assert(seqs_of(ls@).len() == ls@.len());
    if ls.len() == 0 {
        return Err(ProxyError::EmptyRequest);
    }
    assert(seqs_of(ls@)[0] == ls@[0]@);
    let fields = split_words(ls[0].as_slice());
    assert(seqs_of(fields@).len() == fields@.len());
    let connect = chars_of("CONNECT");
    if fields.len() == 0 {
        return Err(ProxyError::NotConnect);
    }
    assert(seqs_of(fields@)[0] == fields@[0]@);
    if !crate::text::chars_eq(fields[0].as_slice(), connect.as_slice()) {
        return Err(ProxyError::NotConnect);
    }
    if fields.len() < 2 {
        return Err(ProxyError::MissingDestination);
    }
    assert(seqs_of(fields@)[1] == fields@[1]@);
    let d = string_of(fields[1].as_slice());
    validate_destination(d.as_str())?;
    Ok(d)
}

/// A header is complete once it ends with an empty line (`\r\n\r\n`).
pub open spec fn header_complete(bytes: Seq<u8>) -> bool {
    bytes.len() >= 4 && bytes.subrange(bytes.len() - 4, bytes.len() as int) == seq![13u8, 10u8, 13u8, 10u8]
}

/// What the proxy does after reading one more byte of a header: finish,
/// read on, or give up at the size limit.
#[derive(Clone, Copy, PartialEq, Eq, Structural, Debug)]
pub enum HeaderStep {
    Complete,
    More,
    TooLarge,
}

/// The next step for the header read so far.
pub fn header_step(bytes: &Vec<u8>) -> (s: HeaderStep)
    ensures
        s == (if header_complete(bytes@) {
            HeaderStep::Complete
        } else if bytes@.len() < MAX_HEADER_BYTES {
            HeaderStep::More
        } else {
            HeaderStep::TooLarge
        }),
{
    let n = bytes.len();
    if n >= 4 && bytes[n - 4] == 13 && bytes[n - 3] == 10 && bytes[n - 2] == 13 && bytes[n - 1] == 10 {
        assert(bytes@.subrange(n - 4, n as int) =~= seq![13u8, 10u8, 13u8, 10u8]);
        return HeaderStep::Complete;
    }
    proof {
        if n >= 4 {
            let t = bytes@.subrange(n - 4, n as int);
            if t == seq![13u8, 10u8, 13u8, 10u8] {
                assert(t[0] == bytes@[n - 4]);
                assert(t[1] == bytes@[n - 3]);
                assert(t[2] == bytes@[n - 2]);
                assert(t[3] == bytes@[n - 1]);
            }
        }
    }
    if n < MAX_HEADER_BYTES {
        HeaderStep::More
    } else {
        HeaderStep::TooLarge
    }
}

/// The text a [`ProxyError`] is reported with.
pub open spec fn proxy_error_text(e: ProxyError) -> Seq<char> {
    match e {
        ProxyError::EmptyRequest => "empty proxy request"@,
        ProxyError::NotConnect => "only HTTP CONNECT is supported"@,
        ProxyError::MissingDestination => "CONNECT destination is missing"@,
        ProxyError::NoPort => "CONNECT destination must be HOST:PORT"@,
        ProxyError::InvalidDestination => "invalid CONNECT destination"@,
    }
}

impl ProxyError {
    /// The error text.
    pub fn message(&self) -> (m: String)
        ensures
            m@ == proxy_error_text(*self),
    {
        match self {
            ProxyError::EmptyRequest => "empty proxy request".to_owned(),
            ProxyError::NotConnect => "only HTTP CONNECT is supported".to_owned(),
            ProxyError::MissingDestination => "CONNECT destination is missing".to_owned(),
            ProxyError::NoPort => "CONNECT destination must be HOST:PORT".to_owned(),
            ProxyError::InvalidDestination => "invalid CONNECT destination".to_owned(),
        }
    }
}

} // verus!
