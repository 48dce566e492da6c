//! Immutable snapshots of the TLD registry.
//!
//! A snapshot is built from a line-oriented registry listing: one TLD per
//! line, comment lines beginning with `#` ignored, a trailing carriage return
//! stripped, empty lines skipped, every entry lowercased. A snapshot is never
//! merged or edited; a refresh replaces it wholesale.
use vstd::prelude::*;
use crate::text::split_on;
use crate::text::split_chars;
use crate::text::str_to_chars;
use crate::text::chars_to_string;
use crate::text::lower_seq;
use crate::text::lower_char_exec;
use crate::text::no_upper;
use crate::text::str_eq;
use crate::text::lemma_lower_seq_no_upper;

verus! {

/// A registry line with a trailing carriage return stripped.
pub open spec fn clean_line(l: Seq<char>) -> Seq<char> {
    if l.len() > 0 && l.last() == '\r' {
        l.drop_last()
    } else {
        l
    }
}

/// Whether a cleaned registry line lists a TLD: nonempty and no comment.
pub open spec fn keep_line(l: Seq<char>) -> bool {
    l.len() > 0 && l[0] != '#'
}

/// The set of lowercased TLDs listed by the given lines.
pub open spec fn tlds_of_lines(lines: Seq<Seq<char>>) -> Set<Seq<char>>
    decreases lines.len(),
{
    if lines.len() == 0 {
        Set::empty()
    } else {
        let rest = tlds_of_lines(lines.drop_last());
        let l = clean_line(lines.last());
        if keep_line(l) {
            rest.insert(lower_seq(l))
        } else {
            rest
        }
    }
}

/// The set of TLDs denoted by a registry listing.
pub open spec fn spec_parse_tlds(text: Seq<char>) -> Set<Seq<char>> {
    tlds_of_lines(split_on(text, '\n'))
}

/// An immutable set of lowercase TLD strings.
#[derive(Debug)]
pub struct TldSnapshot {
    entries: Vec<String>,
}

impl View for TldSnapshot {
    type V = Set<Seq<char>>;

    closed spec fn view(&self) -> Set<Seq<char>> {
        self.entries.deep_view().to_set()
    }
}

/// Whether `t` occurs among the entries, by linear scan.
fn entries_contain(entries: &Vec<String>, t: &str) -> (r: bool)
    ensures
        r == entries.deep_view().to_set().contains(t@),
{
    let mut i: usize = 0;
    while i < entries.len()
        invariant
            i <= entries.len(),
            forall|j: int| 0 <= j < i ==> entries.deep_view()[j] != t@,
        decreases entries.len() - i,
    {
        proof {
            assert(entries.deep_view()[i as int] =~= entries@[i as int]@);
        }
        if str_eq(entries[i].as_str(), t) {
            proof {
                assert(entries.deep_view().contains(t@));
            }
            return true;
        }
        i = i + 1;
    }
    proof {
        assert(!entries.deep_view().contains(t@));
    }
    false
}

impl TldSnapshot {
    /// Every member of the snapshot is lowercase.
    pub open spec fn wf(&self) -> bool {
        forall|x: Seq<char>| self@.contains(x) ==> no_upper(x)
    }

    /// Parses a registry listing into the set of TLDs it lists.
    pub fn parse(text: &str) -> (r: TldSnapshot)
        ensures
            r@ == spec_parse_tlds(text@),
            r.wf(),
    {
        let chars = str_to_chars(text);
        let lines = split_chars(&chars, '\n');
        let ghost line_seq = split_on(text@, '\n');
        let mut entries: Vec<String> = Vec::new();
        proof {
            assert(entries.deep_view() =~= Seq::<Seq<char>>::empty());
            assert(entries.deep_view().to_set() =~= Set::<Seq<char>>::empty());
            assert(line_seq.take(0) =~= Seq::<Seq<char>>::empty());
        }
        let mut i: usize = 0;
        while i < lines.len()
            invariant
                i <= lines.len(),
                lines.deep_view() == line_seq,
                entries.deep_view().to_set() == tlds_of_lines(line_seq.take(i as int)),
                forall|j: int|
                    0 <= j < entries.len() ==> no_upper(#[trigger] entries.deep_view()[j]),
            decreases lines.len() - i,
        {
            let line = &lines[i];
            proof {
                assert(lines.deep_view()[i as int] =~= lines@[i as int]@);
                assert(line_seq.take(i + 1 as int).drop_last() =~= line_seq.take(i as int));
                assert(line_seq.take(i + 1 as int).last() == line_seq[i as int]);
            }
            let line_len = line.len();
            let kept_len: usize = if line_len > 0 && line[line_len - 1] == '\r' {
                line_len - 1
            } else {
                line_len
            };
            proof {
                assert(line@.take(kept_len as int) =~= clean_line(line_seq[i as int]));
            }
            if kept_len > 0 && line[0] != '#' {
                let mut low: Vec<char> = Vec::new();
                let mut j: usize = 0;
                while j < kept_len
                    invariant
                        j <= kept_len,
                        kept_len <= line@.len(),
                        low@ == lower_seq(line@.take(kept_len as int)).take(j as int),
                    decreases kept_len - j,
                {
                    low.push(lower_char_exec(line[j]));
                    proof {
                        assert(low@ =~= lower_seq(line@.take(kept_len as int)).take(j + 1 as int));
                    }
                    j = j + 1;
                }
                proof {
                    let full = lower_seq(line@.take(kept_len as int));
                    assert(full.take(full.len() as int) =~= full);
                }
                let e = chars_to_string(&low);
                let ghost old_entries = entries.deep_view();
                if !entries_contain(&entries, e.as_str()) {
                    entries.push(e);
                    proof {
                        assert(entries.deep_view() =~= old_entries.push(e@));
                        old_entries.lemma_push_to_set_commute(e@);
                        assert(entries.deep_view().to_set() =~= old_entries.to_set().insert(e@));
                        lemma_lower_seq_no_upper(clean_line(line_seq[i as int]));
                        assert forall|j2: int| 0 <= j2 < entries.len() implies no_upper(
                            #[trigger] entries.deep_view()[j2],
                        ) by {
                            if j2 < entries.len() - 1 {
                                assert(entries.deep_view()[j2] == old_entries[j2]);
                            }
                        }
                    }
                } else {
                    proof {
                        assert(old_entries.to_set().insert(e@) =~= old_entries.to_set());
                    }
                }
                proof {
                    assert(entries.deep_view().to_set() =~= tlds_of_lines(
                        line_seq.take(i + 1 as int),
                    ));
                }
            } else {
                proof {
                    assert(!keep_line(clean_line(line_seq[i as int])));
                    assert(entries.deep_view().to_set() =~= tlds_of_lines(
                        line_seq.take(i + 1 as int),
                    ));
                }
            }
            i = i + 1;
        }
        proof {
            assert(line_seq.take(line_seq.len() as int) =~= line_seq);
            assert forall|x: Seq<char>| entries.deep_view().to_set().contains(x) implies no_upper(
                x,
            ) by {
                assert(entries.deep_view().contains(x));
                let w = choose|j: int|
                    0 <= j < entries.deep_view().len() && entries.deep_view()[j] == x;
                assert(no_upper(entries.deep_view()[w]));
            }
        }
        TldSnapshot { entries }
    }

    /// Whether the snapshot lists `tld`.
    pub fn contains_tld(&self, tld: &str) -> (r: bool)
        ensures
            r == self@.contains(tld@),
    {
        entries_contain(&self.entries, tld)
    }
}

} // verus!
