//! Recognizers for IPv4 and IPv6 address literals.
//!
//! A raw domain input that reads as an address literal must be rejected by the
//! domain parser, so the exact shape of a literal is spelled out here: an IPv4
//! literal is four dot-separated decimal octets (no leading zeros, each at
//! most 255); an IPv6 literal is colon-separated groups of one to four hex
//! digits, with at most one `::` compression and an optional embedded IPv4
//! tail, totalling eight groups.
use vstd::prelude::*;
use crate::text::split_on;
use crate::text::split_chars;
use crate::text::lemma_split_on_len;

verus! {

pub open spec fn is_digit(c: char) -> bool {
    '0' <= c && c <= '9'
}

pub open spec fn digit_val(c: char) -> int {
    c as int - '0' as int
}

pub open spec fn all_digits(p: Seq<char>) -> bool {
    forall|i: int| 0 <= i < p.len() ==> is_digit(#[trigger] p[i])
}

/// The number denoted by a sequence of decimal digits, most significant first.
pub open spec fn dec_value(p: Seq<char>) -> int
    decreases p.len(),
{
    if p.len() == 0 {
        0
    } else {
        dec_value(p.drop_last()) * 10 + digit_val(p.last())
    }
}

/// One decimal octet of a dotted-quad address: one to three digits, no
/// leading zero, value at most 255.
pub open spec fn is_dec_octet(p: Seq<char>) -> bool {
    1 <= p.len() <= 3 && all_digits(p) && (p.len() > 1 ==> p[0] != '0') && dec_value(p) <= 255
}

/// Four dot-separated decimal octets.
pub open spec fn is_ipv4_literal(s: Seq<char>) -> bool {
    let ps = split_on(s, '.');
    ps.len() == 4 && forall|i: int| 0 <= i < 4 ==> is_dec_octet(#[trigger] ps[i])
}

pub open spec fn is_hex_digit(c: char) -> bool {
    is_digit(c) || ('a' <= c && c <= 'f') || ('A' <= c && c <= 'F')
}

/// One colon-separated group: one to four hex digits.
pub open spec fn is_h16(p: Seq<char>) -> bool {
    1 <= p.len() <= 4 && forall|i: int| 0 <= i < p.len() ==> is_hex_digit(#[trigger] p[i])
}

/// Groups before a `::` compression: plain hex groups only.
pub open spec fn head_groups_ok(gs: Seq<Seq<char>>) -> bool {
    forall|i: int| 0 <= i < gs.len() ==> is_h16(#[trigger] gs[i])
}

/// Groups that may end the address: hex groups, the last of which may
/// instead be an embedded IPv4 literal.
pub open spec fn tail_groups_ok(gs: Seq<Seq<char>>) -> bool {
    gs.len() >= 1 && (forall|i: int| 0 <= i < gs.len() - 1 ==> is_h16(#[trigger] gs[i])) && (is_h16(
        gs.last(),
    ) || is_ipv4_literal(gs.last()))
}

/// How many 16-bit groups a tail stands for: an IPv4 tail counts as two.
pub open spec fn tail_group_count(gs: Seq<Seq<char>>) -> int {
    if is_ipv4_literal(gs.last()) {
        gs.len() + 1int
    } else {
        gs.len() as int
    }
}

pub open spec fn dcolon_at(s: Seq<char>, i: int) -> bool {
    0 <= i && i + 1 < s.len() && s[i] == ':' && s[i + 1] == ':'
}

pub open spec fn has_dcolon(s: Seq<char>) -> bool {
    exists|i: int| dcolon_at(s, i)
}

/// Index of the first `::` of `s`; meaningful only when one exists.
pub open spec fn first_dcolon(s: Seq<char>) -> int
    decreases s.len(),
{
    if s.len() < 2 {
        0
    } else if s[0] == ':' && s[1] == ':' {
        0
    } else {
        1 + first_dcolon(s.skip(1))
    }
}

pub proof fn lemma_first_dcolon(s: Seq<char>)
    ensures
        first_dcolon(s) >= 0,
        has_dcolon(s) ==> dcolon_at(s, first_dcolon(s)),
        forall|j: int| 0 <= j < first_dcolon(s) ==> !dcolon_at(s, j),
    decreases s.len(),
{
    if s.len() < 2 {
        assert(forall|j: int| !dcolon_at(s, j));
    } else if s[0] == ':' && s[1] == ':' {
    } else {
        lemma_first_dcolon(s.skip(1));
        assert forall|j: int| dcolon_at(s, j) implies j >= 1 by {
            if j == 0 {
                assert(s[0] == ':' && s[1] == ':');
            }
        }
        if has_dcolon(s) {
            let w = choose|i: int| dcolon_at(s, i);
            assert(dcolon_at(s.skip(1), w - 1));
            assert(dcolon_at(s, 1 + first_dcolon(s.skip(1))));
        }
        assert forall|j: int| 0 <= j < first_dcolon(s) implies !dcolon_at(s, j) by {
            if j >= 1 {
                assert(!dcolon_at(s.skip(1), j - 1));
            }
        }
    }
}

/// An IPv6 literal: with a `::`, valid head and tail group lists totalling at
/// most seven groups; without one, exactly eight groups.
pub open spec fn is_ipv6_literal(s: Seq<char>) -> bool {
    if has_dcolon(s) {
        let i = first_dcolon(s);
        let l = s.take(i);
        let r = s.skip(i + 2);
        let lok = l.len() == 0 || head_groups_ok(split_on(l, ':'));
        let lcount: int = if l.len() == 0 {
            0
        } else {
            split_on(l, ':').len() as int
        };
        let rok = r.len() == 0 || tail_groups_ok(split_on(r, ':'));
        let rcount: int = if r.len() == 0 {
            0
        } else {
            tail_group_count(split_on(r, ':'))
        };
        lok && rok && lcount + rcount <= 7
    } else {
        let gs = split_on(s, ':');
        tail_groups_ok(gs) && tail_group_count(gs) == 8
    }
}

/// An address literal of either family.
pub open spec fn is_ip_literal(s: Seq<char>) -> bool {
    is_ipv4_literal(s) || is_ipv6_literal(s)
}

/// A sequence ending in a dot is no address literal of either family: an
/// IPv4 literal ends with a digit of its final octet, and an IPv6 literal
/// ends with a hex digit of its final group or with that same IPv4 shape.
pub proof fn lemma_trailing_dot_not_ip(s: Seq<char>)
    requires
        s.len() > 0,
        s.last() == '.',
    ensures
        !is_ip_literal(s),
{
    lemma_dot_ending_not_ipv4(s);
    if is_ipv6_literal(s) {
        lemma_first_dcolon(s);
        if has_dcolon(s) {
            let i = first_dcolon(s);
            let r = s.skip(i + 2);
            if r.len() == 0 {
                assert(s.last() == s[i + 1]);
                assert(false);
            } else {
                assert(r.last() == s.last());
                lemma_dot_ending_no_tail(r);
            }
        } else {
            lemma_dot_ending_no_tail(s);
        }
    }
}

/// A sequence ending in a dot cannot close a colon-separated tail: its final
/// group would end in a dot too, which neither a hex group nor an embedded
/// IPv4 literal does.
proof fn lemma_dot_ending_no_tail(r: Seq<char>)
    requires
        r.len() > 0,
        r.last() == '.',
    ensures
        !tail_groups_ok(split_on(r, ':')),
{
    crate::text::lemma_split_on_last(r, ':');
    let gs = split_on(r, ':');
    if tail_groups_ok(gs) {
        let g = gs.last();
        assert(g.len() > 0 && g.last() == '.');
        assert(!is_h16(g)) by {
            if is_h16(g) {
                assert(is_hex_digit(g[g.len() - 1]));
            }
        }
        lemma_dot_ending_not_ipv4(g);
    }
}

/// A sequence ending in a dot is no IPv4 literal: the final octet would be
/// empty.
proof fn lemma_dot_ending_not_ipv4(s: Seq<char>)
    requires
        s.len() > 0,
        s.last() == '.',
    ensures
        !is_ipv4_literal(s),
{
    crate::text::lemma_split_on_last(s, '.');
    let ps = split_on(s, '.');
    if is_ipv4_literal(s) {
        assert(ps.last() == ps[3]);
        assert(is_dec_octet(ps[3]));
    }
}

/// Whether `p` is a decimal octet, computed.
fn check_dec_octet(p: &Vec<char>) -> (r: bool)
    ensures
        r == is_dec_octet(p@),
{
    if p.len() < 1 || p.len() > 3 {
        return false;
    }
    if p.len() > 1 && p[0] == '0' {
        return false;
    }
    let mut val: u32 = 0;
    let mut j: usize = 0;
    while j < p.len()
        invariant
            j <= p.len(),
            p.len() <= 3,
            forall|k: int| 0 <= k < j ==> is_digit(#[trigger] p@[k]),
            val == dec_value(p@.take(j as int)),
            j == 0 ==> val == 0,
            j == 1 ==> val <= 9,
            j == 2 ==> val <= 99,
            j == 3 ==> val <= 999,
        decreases p.len() - j,
    {
        let c = p[j];
        if !('0' <= c && c <= '9') {
            return false;
        }
        proof {
            assert(p@.take(j + 1 as int).drop_last() =~= p@.take(j as int));
            assert(p@.take(j + 1 as int).last() == p@[j as int]);
        }
        val = val * 10 + (c as u32 - '0' as u32);
        j = j + 1;
    }
    proof {
        assert(p@.take(p@.len() as int) =~= p@);
    }
    val <= 255
}

/// Whether `s` is four dot-separated decimal octets, computed.
pub fn check_ipv4(v: &Vec<char>) -> (r: bool)
    ensures
        r == is_ipv4_literal(v@),
{
    let parts = split_chars(v, '.');
    if parts.len() != 4 {
        return false;
    }
    let mut i: usize = 0;
    while i < 4
        invariant
            i <= 4,
            parts.len() == 4,
            parts.deep_view() == split_on(v@, '.'),
            forall|k: int| 0 <= k < i ==> is_dec_octet(#[trigger] split_on(v@, '.')[k]),
        decreases 4 - i,
    {
        proof {
            assert(parts.deep_view()[i as int] =~= parts@[i as int]@);
        }
        if !check_dec_octet(&parts[i]) {
            return false;
        }
        i = i + 1;
    }
    true
}

/// Whether `p` is a group of one to four hex digits, computed.
fn check_h16(p: &Vec<char>) -> (r: bool)
    ensures
        r == is_h16(p@),
{
    if p.len() < 1 || p.len() > 4 {
        return false;
    }
    let mut j: usize = 0;
    while j < p.len()
        invariant
            j <= p.len(),
            forall|k: int| 0 <= k < j ==> is_hex_digit(#[trigger] p@[k]),
        decreases p.len() - j,
    {
        let c = p[j];
        if !(('0' <= c && c <= '9') || ('a' <= c && c <= 'f') || ('A' <= c && c <= 'F')) {
            return false;
        }
        j = j + 1;
    }
    true
}

/// Whether the colon-separated groups `gs` may end an address, and if so how
/// many 16-bit groups they stand for.
fn check_tail(gs: &Vec<Vec<char>>) -> (r: Option<usize>)
    requires
        gs.len() >= 1,
        gs.len() <= 8,
    ensures
        r is Some <==> tail_groups_ok(gs.deep_view()),
        r matches Some(n) ==> n == tail_group_count(gs.deep_view()),
{
    let mut i: usize = 0;
    let last: usize = gs.len() - 1;
    while i < last
        invariant
            i <= last,
            last == gs.len() - 1,
            forall|k: int| 0 <= k < i ==> is_h16(#[trigger] gs.deep_view()[k]),
        decreases last - i,
    {
        proof {
            assert(gs.deep_view()[i as int] =~= gs@[i as int]@);
        }
        if !check_h16(&gs[i]) {
            return None;
        }
        i = i + 1;
    }
    proof {
        assert(gs.deep_view()[last as int] =~= gs@[last as int]@);
        assert(gs.deep_view().last() == gs.deep_view()[last as int]);
    }
    if check_h16(&gs[last]) {
        proof {
            assert(!is_ipv4_literal(gs.deep_view().last())) by {
                let p = gs.deep_view().last();
                if is_ipv4_literal(p) {
                    lemma_split_on_len(p, '.');
                    let ps = split_on(p, '.');
                    assert(is_dec_octet(ps[0]));
                    assert(is_dec_octet(ps[1]));
                    lemma_octets_join(p);
                }
            }
        }
        Some(gs.len())
    } else if check_ipv4(&gs[last]) {
        Some(gs.len() + 1)
    } else {
        None
    }
}

/// A sequence whose dot-split has two or more octet pieces holds a dot, so it
/// is no hex group.
proof fn lemma_octets_join(p: Seq<char>)
    requires
        split_on(p, '.').len() >= 2,
    ensures
        exists|i: int| 0 <= i < p.len() && p[i] == '.',
    decreases p.len(),
{
    if p.len() == 0 {
    } else if p[0] == '.' {
    } else {
        let rest = split_on(p.skip(1), '.');
        lemma_split_on_len(p.skip(1), '.');
        assert(split_on(p, '.').len() == rest.skip(1).len() + 1);
        lemma_octets_join(p.skip(1));
        let w = choose|i: int| 0 <= i < p.skip(1).len() && p.skip(1)[i] == '.';
        assert(p[w + 1] == '.');
    }
}

/// Copies `v[a..b]` into a fresh vector.
fn subvec(v: &Vec<char>, a: usize, b: usize) -> (r: Vec<char>)
    requires
        a <= b <= v.len(),
    ensures
        r@ == v@.subrange(a as int, b as int),
{
    let mut out: Vec<char> = Vec::new();
    let mut i: usize = a;
    while i < b
        invariant
            a <= i <= b <= v.len(),
            out@ == v@.subrange(a as int, i as int),
        decreases b - i,
    {
        out.push(v[i]);
        proof {
            assert(out@ =~= v@.subrange(a as int, i + 1 as int));
        }
        i = i + 1;
    }
    out
}

/// Whether `v` is an IPv6 literal, computed.
pub fn check_ipv6(v: &Vec<char>) -> (r: bool)
    ensures
        r == is_ipv6_literal(v@),
{
    proof {
        lemma_first_dcolon(v@);
    }
    let n = v.len();
    let mut i: usize = 0;
    let mut found: bool = false;
    if n >= 2 {
        while i < n - 1 && !found
            invariant
                n >= 2,
                i <= n - 1,
                n == v@.len(),
                !found ==> forall|j: int| 0 <= j < i ==> !dcolon_at(v@, j),
                found ==> dcolon_at(v@, i as int) && forall|j: int| 0 <= j < i ==> !dcolon_at(
                    v@,
                    j,
                ),
            decreases n - i, (if found { 0int } else { 1int }),
        {
            if v[i] == ':' && v[i + 1] == ':' {
                found = true;
            } else {
                i = i + 1;
            }
        }
    }
    if !found {
        proof {
            assert(forall|j: int| dcolon_at(v@, j) ==> 0 <= j && j + 1 < v@.len());
            assert(!has_dcolon(v@));
        }
        let gs = split_chars(v, ':');
        proof {
            lemma_split_on_len(v@, ':');
        }
        if gs.len() > 8 {
            proof {
                assert(tail_group_count(split_on(v@, ':')) >= split_on(v@, ':').len());
            }
            return false;
        }
        match check_tail(&gs) {
            Some(count) => count == 8,
            None => false,
        }
    } else {
        proof {
            assert(has_dcolon(v@));
            assert(first_dcolon(v@) == i as int);
        }
        let l = subvec(v, 0, i);
        let r = subvec(v, i + 2, n);
        proof {
            assert(l@ =~= v@.take(i as int));
            assert(r@ =~= v@.skip(i + 2));
        }
        let mut lcount: usize = 0;
        let mut lok: bool = true;
        if l.len() > 0 {
            let lgs = split_chars(&l, ':');
            proof {
                lemma_split_on_len(l@, ':');
            }
            let mut k: usize = 0;
            while k < lgs.len()
                invariant
                    k <= lgs.len(),
                    lgs.deep_view() == split_on(l@, ':'),
                    lok == (forall|t: int| 0 <= t < k ==> is_h16(#[trigger] lgs.deep_view()[t])),
                decreases lgs.len() - k,
            {
                proof {
                    assert(lgs.deep_view()[k as int] =~= lgs@[k as int]@);
                }
                if !check_h16(&lgs[k]) {
                    lok = false;
                    proof {
                        assert(!is_h16(lgs.deep_view()[k as int]));
                    }
                    k = lgs.len();
                } else {
                    k = k + 1;
                }
            }
            lcount = lgs.len();
            proof {
                assert(lok == head_groups_ok(split_on(l@, ':')));
            }
        }
        if !lok {
            proof {
                assert(!is_ipv6_literal(v@));
            }
            return false;
        }
        let mut rcount: usize = 0;
        if r.len() > 0 {
            let rgs = split_chars(&r, ':');
            proof {
                lemma_split_on_len(r@, ':');
            }
            if rgs.len() > 7 {
                proof {
                    assert(tail_group_count(split_on(r@, ':')) >= split_on(r@, ':').len());
                }
                return false;
            }
            match check_tail(&rgs) {
                Some(count) => {
                    rcount = count;
                },
                None => {
                    return false;
                },
            }
        }
        lcount <= 7 && rcount <= 7 && lcount + rcount <= 7
    }
}

/// Whether `v` is an address literal of either family, computed.
pub fn check_ip_literal(v: &Vec<char>) -> (r: bool)
    ensures
        r == is_ip_literal(v@),
{
    if check_ipv4(v) {
        true
    } else {
        check_ipv6(v)
    }
}

} // verus!
