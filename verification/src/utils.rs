//! Free-standing input checks: host names handed to other commands and
//! well-known protocol ports.
use vstd::prelude::*;
use crate::text::split_on;
use crate::text::split_chars;
use crate::text::str_to_chars;
use crate::text::chars_to_string;
use crate::text::lower_seq;
use crate::text::lower_chars;
use crate::text::str_eq;
use crate::ip::is_digit;
use crate::ip::is_ip_literal;
use crate::ip::check_ip_literal;

verus! {

/// Why a host input is neither an IP literal nor a well-formed FQDN.
#[derive(Debug, Clone, Copy, PartialEq, Eq, Structural)]
pub enum FqdnError {
    /// The input is empty.
    Empty,
    /// The input is longer than 255 characters.
    TooLong,
    /// The input ends with a period.
    TrailingDot,
    /// A label is empty.
    EmptyLabel,
    /// A label is longer than 63 characters.
    LabelTooLong,
    /// A label starts or ends with a hyphen.
    HyphenEdge,
    /// A label holds a character that is no ASCII letter, digit or hyphen.
    InvalidChar,
}

pub open spec fn is_alnum(c: char) -> bool {
    is_digit(c) || ('a' <= c && c <= 'z') || ('A' <= c && c <= 'Z')
}

/// The first fault of one label, if any: it must be nonempty, at most 63
/// characters, hyphen-free at both ends, and hold only ASCII letters, digits
/// and hyphens.
pub open spec fn label_error(p: Seq<char>) -> Option<FqdnError> {
    if p.len() == 0 {
        Some(FqdnError::EmptyLabel)
    } else if p.len() > 63 {
        Some(FqdnError::LabelTooLong)
    } else if p[0] == '-' || p.last() == '-' {
        Some(FqdnError::HyphenEdge)
    } else if exists|i: int| 0 <= i < p.len() && !(is_alnum(#[trigger] p[i]) || p[i] == '-') {
        Some(FqdnError::InvalidChar)
    } else {
        None
    }
}

/// The first fault over the labels, left to right.
pub open spec fn labels_error(parts: Seq<Seq<char>>) -> Option<FqdnError>
    decreases parts.len(),
{
    if parts.len() == 0 {
        None
    } else if label_error(parts.first()) is Some {
        label_error(parts.first())
    } else {
        labels_error(parts.drop_first())
    }
}

/// The verdict on a host input: an IP literal passes as it is; anything else
/// must be a well-formed FQDN — nonempty, at most 255 characters, no
/// trailing period, every dot-separated label in order.
pub open spec fn fqdn_check(s: Seq<char>) -> Option<FqdnError> {
    if is_ip_literal(s) {
        None
    } else if s.len() == 0 {
        Some(FqdnError::Empty)
    } else if s.len() > 255 {
        Some(FqdnError::TooLong)
    } else if s.last() == '.' {
        Some(FqdnError::TrailingDot)
    } else {
        labels_error(split_on(s, '.'))
    }
}

/// The first fault of one label, computed.
fn label_check(p: &Vec<char>) -> (r: Option<FqdnError>)
    ensures
        r == label_error(p@),
{
    if p.len() == 0 {
        return Some(FqdnError::EmptyLabel);
    }
    if p.len() > 63 {
        return Some(FqdnError::LabelTooLong);
    }
    if p[0] == '-' || p[p.len() - 1] == '-' {
        return Some(FqdnError::HyphenEdge);
    }
    let mut j: usize = 0;
    while j < p.len()
        invariant
            j <= p.len(),
            1 <= p.len() <= 63,
            p@[0] != '-',
            p@.last() != '-',
            forall|k: int| 0 <= k < j ==> is_alnum(#[trigger] p@[k]) || p@[k] == '-',
        decreases p.len() - j,
    {
        let c = p[j];
        if !(('0' <= c && c <= '9') || ('a' <= c && c <= 'z') || ('A' <= c && c <= 'Z') || c
            == '-') {
            proof {
                assert(!(is_alnum(p@[j as int]) || p@[j as int] == '-'));
            }
            return Some(FqdnError::InvalidChar);
        }
        j = j + 1;
    }
    None
}

/// Accepts an IP literal of either family, or a well-formed FQDN, and says
/// which fault an input has otherwise.
pub fn validate_fqdn_or_ip(s: &str) -> (r: Result<(), FqdnError>)
    ensures
        match r {
            Ok(_) => fqdn_check(s@) is None,
            Err(e) => fqdn_check(s@) == Some(e),
        },
{
    let chars = str_to_chars(s);
    if check_ip_literal(&chars) {
        return Ok(());
    }
    let n = chars.len();
    if n == 0 {
        return Err(FqdnError::Empty);
    }
    if n > 255 {
        return Err(FqdnError::TooLong);
    }
    if chars[n - 1] == '.' {
        return Err(FqdnError::TrailingDot);
    }
    let parts = split_chars(&chars, '.');
    let ghost part_seq = split_on(s@, '.');
    proof {
        assert(part_seq.skip(0) =~= part_seq);
    }
    let mut i: usize = 0;
    while i < parts.len()
        invariant
            i <= parts.len(),
            parts.deep_view() == part_seq,
            part_seq == split_on(s@, '.'),
            !is_ip_literal(s@),
            s@.len() > 0,
            s@.len() <= 255,
            s@.last() != '.',
            labels_error(part_seq) == labels_error(part_seq.skip(i as int)),
        decreases parts.len() - i,
    {
        proof {
            assert(parts.deep_view()[i as int] =~= parts@[i as int]@);
            assert(part_seq.skip(i as int).first() == part_seq[i as int]);
            assert(part_seq.skip(i as int).drop_first() =~= part_seq.skip(i + 1 as int));
        }
        match label_check(&parts[i]) {
            Some(e) => {
                proof {
                    assert(labels_error(part_seq.skip(i as int)) == Some(e));
                }
                return Err(e);
            },
            None => {},
        }
        i = i + 1;
    }
    proof {
        assert(part_seq.skip(part_seq.len() as int) =~= Seq::<Seq<char>>::empty());
    }
    Ok(())
}

/// The default port of a well-known protocol name, compared without regard
/// to case; unknown names map to zero.
pub open spec fn spec_port(p: Seq<char>) -> u16 {
    if p == "http"@ {
        80
    } else if p == "https"@ {
        443
    } else if p == "ftp"@ {
        21
    } else if p == "ssh"@ {
        22
    } else if p == "smtp"@ {
        25
    } else if p == "pop3"@ {
        110
    } else if p == "imap"@ {
        143
    } else {
        0
    }
}

/// The default port of a protocol name, case-insensitively.
pub fn port_from_protocol(proto: &str) -> (r: u16)
    ensures
        r == spec_port(lower_seq(proto@)),
{
    let chars = str_to_chars(proto);
    let low = lower_chars(&chars);
    let s = chars_to_string(&low);
    if str_eq(s.as_str(), "http") {
        80
    } else if str_eq(s.as_str(), "https") {
        443
    } else if str_eq(s.as_str(), "ftp") {
        21
    } else if str_eq(s.as_str(), "ssh") {
        22
    } else if str_eq(s.as_str(), "smtp") {
        25
    } else if str_eq(s.as_str(), "pop3") {
        110
    } else if str_eq(s.as_str(), "imap") {
        143
    } else {
        0
    }
}

} // verus!
