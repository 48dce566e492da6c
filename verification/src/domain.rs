//! Syntax-validated domain names.
//!
//! A [`Domain`] is produced only by the validated factory [`Domain::new`]: the
//! raw input must not read as an IP address literal, its rightmost label (the
//! TLD) must be two to sixty-three characters long, and every other label one
//! to sixty-three. The accepted name is normalized to ASCII lowercase with a
//! trailing dot, and is immutable afterwards.
use vstd::prelude::*;
use crate::text::split_on;
use crate::text::split_chars;
use crate::text::str_to_chars;
use crate::text::chars_to_string;
use crate::text::lower_seq;
use crate::text::lower_chars;
use crate::text::no_upper;
use crate::text::append_chars;
use crate::text::lemma_split_on_len;
use crate::text::lemma_split_on_push;
use crate::text::lemma_split_on_lower;
use crate::text::lemma_lower_seq_no_upper;
use crate::ip::is_ip_literal;
use crate::ip::check_ip_literal;
use crate::ip::lemma_trailing_dot_not_ip;

verus! {

/// Why a raw input is no valid domain name.
#[derive(Debug, Clone, Copy, PartialEq, Eq, Structural)]
pub enum SyntaxError {
    /// The input reads as an IPv4 or IPv6 address literal.
    IpAddress,
    /// The rightmost label is shorter than two or longer than sixty-three
    /// characters.
    TldLength,
    /// A label other than the rightmost is empty or longer than sixty-three
    /// characters.
    LabelLength,
}

pub open spec fn label_len_ok(p: Seq<char>) -> bool {
    1 <= p.len() <= 63
}

pub open spec fn tld_len_ok(p: Seq<char>) -> bool {
    2 <= p.len() <= 63
}

/// The label-length check on a raw (undotted) input: the rightmost label is
/// the TLD, every other label must be nonempty and short enough.
pub open spec fn label_syntax_error(s: Seq<char>) -> Option<SyntaxError> {
    let parts = split_on(s, '.');
    if !tld_len_ok(parts.last()) {
        Some(SyntaxError::TldLength)
    } else if exists|i: int| 0 <= i < parts.len() - 1 && !label_len_ok(#[trigger] parts[i]) {
        Some(SyntaxError::LabelLength)
    } else {
        None
    }
}

/// The full syntax check on a raw input: no IP literal, then label lengths.
pub open spec fn raw_syntax_error(s: Seq<char>) -> Option<SyntaxError> {
    if is_ip_literal(s) {
        Some(SyntaxError::IpAddress)
    } else {
        label_syntax_error(s)
    }
}

/// The shape of a stored, normalized name: lowercase, a trailing dot (so the
/// final piece of the dot-split is empty), a TLD of two to sixty-three
/// characters, and every leading label of one to sixty-three.
pub open spec fn normalized_domain(s: Seq<char>) -> bool {
    let parts = split_on(s, '.');
    parts.len() >= 2 && parts.last().len() == 0 && tld_len_ok(parts[parts.len() - 2]) && (forall|
        i: int,
    |
        0 <= i < parts.len() - 2 ==> label_len_ok(#[trigger] parts[i])) && no_upper(s)
}

/// The TLD of a normalized name: the piece before the trailing empty one.
pub open spec fn spec_tld(s: Seq<char>) -> Seq<char> {
    let parts = split_on(s, '.');
    parts[parts.len() - 2]
}

/// The root domain of a normalized name: the second-level label joined with
/// the TLD, or the TLD alone when there is no second-level label.
pub open spec fn spec_root_domain(s: Seq<char>) -> Seq<char> {
    let parts = split_on(s, '.');
    if parts.len() >= 3 {
        parts[parts.len() - 3] + seq!['.'] + parts[parts.len() - 2]
    } else {
        parts[parts.len() - 2]
    }
}

/// An immutable, syntax-validated, lowercase-normalized domain name with a
/// trailing dot, such as `example.com.`.
#[derive(Debug)]
pub struct Domain {
    text: String,
    tld: String,
}

impl View for Domain {
    type V = Seq<char>;

    closed spec fn view(&self) -> Seq<char> {
        self.text@
    }
}

impl Domain {
    /// Well-formedness: the stored text is a normalized name that reads as
    /// no address literal, and the cached TLD is its rightmost label.
    pub closed spec fn wf(&self) -> bool {
        normalized_domain(self@) && !is_ip_literal(self@) && self.tld@ == spec_tld(self@)
    }

    /// The validated factory: rejects IP literals and bad label lengths,
    /// otherwise lowercases the input and appends the trailing dot.
    pub fn new(domain: String) -> (r: Result<Domain, SyntaxError>)
        ensures
            match r {
                Ok(d) => raw_syntax_error(domain@) is None && d@ == lower_seq(domain@).push('.')
                    && d.wf(),
                Err(e) => raw_syntax_error(domain@) == Some(e),
            },
    {
        let chars = str_to_chars(domain.as_str());
        if check_ip_literal(&chars) {
            return Err(SyntaxError::IpAddress);
        }
        if let Err(e) = Self::is_rfc_compliant(domain.as_str()) {
            return Err(e);
        }
        let ghost raw_parts = split_on(domain@, '.');
        proof {
            lemma_split_on_len(domain@, '.');
        }
        let parts = split_chars(&chars, '.');
        let n = parts.len();
        proof {
            assert(n >= 1);
        }
        let mut lowered = lower_chars(&chars);
        lowered.push('.');
        let text = chars_to_string(&lowered);
        let tld_lowered = lower_chars(&parts[n - 1]);
        let tld = chars_to_string(&tld_lowered);
        proof {
            let s = lower_seq(domain@).push('.');
            assert(text@ == s);
            lemma_split_on_push(lower_seq(domain@), '.', '.');
            lemma_split_on_lower(domain@, '.');
            let lparts = split_on(lower_seq(domain@), '.');
            let sparts = split_on(s, '.');
            assert(sparts == lparts.push(Seq::<char>::empty()));
            assert(sparts.len() == raw_parts.len() + 1);
            assert(sparts.last().len() == 0);
            assert(sparts[sparts.len() - 2] == lparts[lparts.len() - 1]);
            assert(lparts[lparts.len() - 1] == lower_seq(raw_parts[raw_parts.len() - 1]));
            assert(raw_parts.last() == raw_parts[raw_parts.len() - 1]);
            assert(tld_len_ok(sparts[sparts.len() - 2]));
            assert forall|i: int| 0 <= i < sparts.len() - 2 implies label_len_ok(
                #[trigger] sparts[i],
            ) by {
                assert(sparts[i] == lparts[i]);
                assert(lparts[i] == lower_seq(raw_parts[i]));
                assert(label_len_ok(raw_parts[i]));
            }
            lemma_lower_seq_no_upper(domain@);
            assert forall|i: int| 0 <= i < s.len() implies !('A' <= #[trigger] s[i] && s[i]
                <= 'Z') by {
                if i < s.len() - 1 {
                    assert(s[i] == lower_seq(domain@)[i]);
                } else {
                    assert(s[i] == '.');
                }
            }
            assert(normalized_domain(s));
            assert(s.last() == '.');
            lemma_trailing_dot_not_ip(s);
            assert(parts.deep_view()[n - 1] =~= parts@[n - 1]@);
            assert(tld@ == lower_seq(raw_parts[raw_parts.len() - 1]));
            assert(tld@ == spec_tld(s));
        }
        Ok(Domain { text, tld })
    }

    /// The normalized text, ending with the trailing dot.
    pub fn as_str(&self) -> (r: &str)
        ensures
            r@ == self@,
    {
        self.text.as_str()
    }

    /// The rightmost label of the name.
    pub fn tld(&self) -> (r: Option<&str>)
        requires
            self.wf(),
        ensures
            r matches Some(t) && t@ == spec_tld(self@),
    {
        Some(self.tld.as_str())
    }

    /// The second-level label joined with the TLD.
    pub fn root_domain(&self) -> (r: String)
        requires
            self.wf(),
        ensures
            r@ == spec_root_domain(self@),
    {
        let chars = str_to_chars(self.text.as_str());
        let parts = split_chars(&chars, '.');
        let n = parts.len();
        proof {
            assert(parts.deep_view().len() == split_on(self@, '.').len());
            assert(n >= 2);
        }
        if n >= 3 {
            let mut v: Vec<char> = Vec::new();
            append_chars(&mut v, &parts[n - 3]);
            v.push('.');
            append_chars(&mut v, &parts[n - 2]);
            proof {
                assert(parts.deep_view()[n - 3] =~= parts@[n - 3]@);
                assert(parts.deep_view()[n - 2] =~= parts@[n - 2]@);
                assert(v@ =~= spec_root_domain(self@));
            }
            chars_to_string(&v)
        } else {
            proof {
                assert(parts.deep_view()[n - 2] =~= parts@[n - 2]@);
            }
            chars_to_string(&parts[n - 2])
        }
    }

    /// The label-length check on a raw input, usable on its own: the
    /// rightmost label must be two to sixty-three characters, every other
    /// label one to sixty-three.
    pub fn is_rfc_compliant(domain: &str) -> (r: Result<(), SyntaxError>)
        ensures
            match r {
                Ok(_) => label_syntax_error(domain@) is None,
                Err(e) => label_syntax_error(domain@) == Some(e),
            },
    {
        let chars = str_to_chars(domain);
        let parts = split_chars(&chars, '.');
        proof {
            lemma_split_on_len(domain@, '.');
        }
        let n = parts.len();
        proof {
            assert(parts.deep_view()[n - 1] =~= parts@[n - 1]@);
            assert(split_on(domain@, '.').last() == parts.deep_view()[n - 1]);
        }
        let tld_part_len = parts[n - 1].len();
        if tld_part_len < 2 || tld_part_len > 63 {
            return Err(SyntaxError::TldLength);
        }
        let mut i: usize = 0;
        while i < n - 1
            invariant
            n == parts.len(),
            n >= 1,
            i <= n - 1,
            parts.deep_view() == split_on(domain@, '.'),
            tld_len_ok(split_on(domain@, '.').last()),
            forall|k: int| 0 <= k < i ==> label_len_ok(#[trigger] split_on(domain@, '.')[k]),
            decreases n - 1 - i,
        {
            proof {
                assert(parts.deep_view()[i as int] =~= parts@[i as int]@);
            }
            let len = parts[i].len();
            if len < 1 || len > 63 {
                proof {
                    assert(!label_len_ok(split_on(domain@, '.')[i as int]));
                    assert(label_syntax_error(domain@) == Some(SyntaxError::LabelLength));
                }
                return Err(SyntaxError::LabelLength);
            }
            i = i + 1;
        }
        Ok(())
    }
}

} // verus!
