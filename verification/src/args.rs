use vstd::prelude::*;

verus! {

/// Error returned when a configuration keyword is not recognised.
#[derive(Clone, Copy, Debug, PartialEq, Eq, Structural)]
pub enum ParseError {
    UnknownKeyword,
}

/// Output format selection for logs and metrics.
#[derive(Clone, Copy, Debug, PartialEq, Eq, Structural)]
pub enum LogStructure {
    Debug,
    Pretty,
    Json,
}

/// ASCII lowercase of one character; everything outside 'A'..='Z' is unchanged.
pub open spec fn lower_char(c: char) -> char {
    if 'A' <= c && c <= 'Z' {
        (((c as u8) + 32) as char)
    } else {
        c
    }
}

/// ASCII lowercase of a character sequence.
pub open spec fn lower_chars(s: Seq<char>) -> Seq<char> {
    s.map_values(|c: char| lower_char(c))
}

/// Transport selection: connectionless datagrams or a length-framed stream.
#[derive(Clone, Copy, Debug, PartialEq, Eq, Structural)]
pub enum Protocol {
    Udp,
    Tcp,
}

/// Internet address family selection.
#[derive(Clone, Copy, Debug, PartialEq, Eq, Structural)]
pub enum Family {
    INET,
    INET6,
}

/// Query-generator variant: all satisfy the same dispatch contract and differ
/// only in how each query's content is derived.
#[derive(Clone, Copy, Debug, PartialEq, Eq, Structural)]
pub enum GenType {
    Static,
    RandomPkt,
    RandomQName,
    RandomLabel,
}

/// What parsing a log-structure keyword yields: the match is ASCII case-insensitive.
pub open spec fn spec_parse_log_structure(s: Seq<char>) -> Result<LogStructure, ParseError> {
    if lower_chars(s) == seq!['j', 's', 'o', 'n'] {
        Ok(LogStructure::Json)
    } else if lower_chars(s) == seq!['p', 'r', 'e', 't', 't', 'y'] {
        Ok(LogStructure::Pretty)
    } else if lower_chars(s) == seq!['d', 'e', 'b', 'u', 'g'] {
        Ok(LogStructure::Debug)
    } else {
        Err(ParseError::UnknownKeyword)
    }
}

/// ASCII-lowercase one character.
fn lower(c: char) -> (r: char)
    ensures
        r == lower_char(c),
{
    if 'A' <= c && c <= 'Z' {
        ((c as u8) + 32) as char
    } else {
        c
    }
}

/// True exactly when the ASCII lowercase of `s` equals `t`.
fn matches_lower(s: &str, t: &[char]) -> (r: bool)
    ensures
        r == (lower_chars(s@) == t@),
{
    let n = s.unicode_len();
    if n != t.len() {
        assert(lower_chars(s@).len() == s@.len());
        return false;
    }
    let mut i: usize = 0;
    while i < n
        invariant
            0 <= i <= n,
            n == s@.len(),
            n == t@.len(),
            forall|j: int| 0 <= j < i ==> lower_char(s@[j]) == t@[j],
        decreases n - i,
    {
        if lower(s.get_char(i)) != t[i] {
            assert(lower_chars(s@)[i as int] != t@[i as int]);
            return false;
        }
        i = i + 1;
    }
    assert(lower_chars(s@) =~= t@);
    true
}

/// What parsing a protocol keyword yields: the match is ASCII case-insensitive.
pub open spec fn spec_parse_protocol(s: Seq<char>) -> Result<Protocol, ParseError> {
    if lower_chars(s) == seq!['u', 'd', 'p'] {
        Ok(Protocol::Udp)
    } else if lower_chars(s) == seq!['t', 'c', 'p'] {
        Ok(Protocol::Tcp)
    } else {
        Err(ParseError::UnknownKeyword)
    }
}

/// What parsing a family keyword yields: the match is ASCII case-insensitive.
pub open spec fn spec_parse_family(s: Seq<char>) -> Result<Family, ParseError> {
    if lower_chars(s) == seq!['i', 'n', 'e', 't'] {
        Ok(Family::INET)
    } else if lower_chars(s) == seq!['i', 'n', 'e', 't', '6'] {
        Ok(Family::INET6)
    } else {
        Err(ParseError::UnknownKeyword)
    }
}

/// What parsing a generator keyword yields: the match is ASCII case-insensitive.
pub open spec fn spec_parse_gen_type(s: Seq<char>) -> Result<GenType, ParseError> {
    if lower_chars(s) == seq!['s', 't', 'a', 't', 'i', 'c'] {
        Ok(GenType::Static)
    } else if lower_chars(s) == seq!['r', 'a', 'n', 'd', 'o', 'm', 'p', 'k', 't'] {
        Ok(GenType::RandomPkt)
    } else if lower_chars(s) == seq!['r', 'a', 'n', 'd', 'o', 'm', 'q', 'n', 'a', 'm', 'e'] {
        Ok(GenType::RandomQName)
    } else if lower_chars(s) == seq!['r', 'a', 'n', 'd', 'o', 'm', 'l', 'a', 'b', 'e', 'l'] {
        Ok(GenType::RandomLabel)
    } else {
        Err(ParseError::UnknownKeyword)
    }
}

impl LogStructure {
    /// Parse a log-structure keyword, ASCII case-insensitively.
    pub fn from_str(s: &str) -> (r: Result<LogStructure, ParseError>)
        ensures
            r == spec_parse_log_structure(s@),
    {
        let json: [char; 4] = ['j', 's', 'o', 'n'];
        let pretty: [char; 6] = ['p', 'r', 'e', 't', 't', 'y'];
        let debug: [char; 5] = ['d', 'e', 'b', 'u', 'g'];
        if matches_lower(s, json.as_slice()) {
            Ok(LogStructure::Json)
        } else if matches_lower(s, pretty.as_slice()) {
            Ok(LogStructure::Pretty)
        } else if matches_lower(s, debug.as_slice()) {
            Ok(LogStructure::Debug)
        } else {
            Err(ParseError::UnknownKeyword)
        }
    }
}

impl Protocol {
    /// Parse a protocol keyword, ASCII case-insensitively.
    pub fn from_str(s: &str) -> (r: Result<Protocol, ParseError>)
        ensures
            r == spec_parse_protocol(s@),
    {
        let udp: [char; 3] = ['u', 'd', 'p'];
        let tcp: [char; 3] = ['t', 'c', 'p'];
        if matches_lower(s, udp.as_slice()) {
            Ok(Protocol::Udp)
        } else if matches_lower(s, tcp.as_slice()) {
            Ok(Protocol::Tcp)
        } else {
            Err(ParseError::UnknownKeyword)
        }
    }
}

impl Family {
    /// Parse a family keyword, ASCII case-insensitively.
    pub fn from_str(s: &str) -> (r: Result<Family, ParseError>)
        ensures
            r == spec_parse_family(s@),
    {
        let inet: [char; 4] = ['i', 'n', 'e', 't'];
        let inet6: [char; 5] = ['i', 'n', 'e', 't', '6'];
        if matches_lower(s, inet.as_slice()) {
            Ok(Family::INET)
        } else if matches_lower(s, inet6.as_slice()) {
            Ok(Family::INET6)
        } else {
            Err(ParseError::UnknownKeyword)
        }
    }
}

impl GenType {
    /// Parse a generator keyword, ASCII case-insensitively.
    pub fn from_str(s: &str) -> (r: Result<GenType, ParseError>)
        ensures
            r == spec_parse_gen_type(s@),
    {
        let st: [char; 6] = ['s', 't', 'a', 't', 'i', 'c'];
        let rp: [char; 9] = ['r', 'a', 'n', 'd', 'o', 'm', 'p', 'k', 't'];
        let rq: [char; 11] = ['r', 'a', 'n', 'd', 'o', 'm', 'q', 'n', 'a', 'm', 'e'];
        let rl: [char; 11] = ['r', 'a', 'n', 'd', 'o', 'm', 'l', 'a', 'b', 'e', 'l'];
        if matches_lower(s, st.as_slice()) {
            Ok(GenType::Static)
        } else if matches_lower(s, rp.as_slice()) {
            Ok(GenType::RandomPkt)
        } else if matches_lower(s, rq.as_slice()) {
            Ok(GenType::RandomQName)
        } else if matches_lower(s, rl.as_slice()) {
            Ok(GenType::RandomLabel)
        } else {
            Err(ParseError::UnknownKeyword)
        }
    }
}

} // verus!
