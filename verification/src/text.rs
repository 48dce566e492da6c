//! Character-sequence utilities shared by the domain parser and the registry
//! listing parser: ASCII lowercasing, separator splitting, and conversions
//! between `&str`, `Vec<char>` and `String`.
use vstd::prelude::*;
use vstd::string::*;

verus! {

/// ASCII lowercase of one character; characters outside `'A'..='Z'` are kept.
pub open spec fn lower_char(c: char) -> char {
    if 'A' <= c && c <= 'Z' {
        (c as u8 + 32) as char
    } else {
        c
    }
}

/// ASCII lowercase applied to every character of a sequence.
pub open spec fn lower_seq(s: Seq<char>) -> Seq<char> {
    Seq::new(s.len(), |i: int| lower_char(s[i]))
}

/// Holds when no character of `s` is an ASCII uppercase letter.
pub open spec fn no_upper(s: Seq<char>) -> bool {
    forall|i: int| 0 <= i < s.len() ==> !('A' <= #[trigger] s[i] && s[i] <= 'Z')
}

pub proof fn lemma_lower_seq_no_upper(s: Seq<char>)
    ensures
        no_upper(lower_seq(s)),
        no_upper(s) ==> lower_seq(s) == s,
{
    assert forall|i: int| 0 <= i < lower_seq(s).len() implies !('A' <= #[trigger] lower_seq(s)[i]
        && lower_seq(s)[i] <= 'Z') by {
        assert(lower_seq(s)[i] == lower_char(s[i]));
    }
    if no_upper(s) {
        assert(lower_seq(s) =~= s);
    }
}

/// ASCII lowercase of one character, computed.
pub fn lower_char_exec(c: char) -> (r: char)
    ensures
        r == lower_char(c),
{
    if 'A' <= c && c <= 'Z' {
        (c as u8 + 32) as char
    } else {
        c
    }
}

/// ASCII lowercase of a character vector, computed.
pub fn lower_chars(v: &Vec<char>) -> (r: Vec<char>)
    ensures
        r@ == lower_seq(v@),
{
    let mut out: Vec<char> = Vec::new();
    let mut i: usize = 0;
    while i < v.len()
        invariant
            i <= v.len(),
            out@ == lower_seq(v@.take(i as int)),
        decreases v.len() - i,
    {
        let c = lower_char_exec(v[i]);
        out.push(c);
        proof {
            assert(out@ =~= lower_seq(v@.take(i + 1 as int)));
        }
        i = i + 1;
    }
    proof {
        assert(v@.take(v@.len() as int) =~= v@);
    }
    out
}

/// The characters of a string slice, as a vector.
pub fn str_to_chars(s: &str) -> (r: Vec<char>)
    ensures
        r@ == s@,
{
    let n = s.unicode_len();
    let mut out: Vec<char> = Vec::new();
    let mut i: usize = 0;
    while i < n
        invariant
            i <= n,
            n == s@.len(),
            out@ == s@.take(i as int),
        decreases n - i,
    {
        let c = s.get_char(i);
        out.push(c);
        proof {
            assert(out@ =~= s@.take(i + 1 as int));
        }
        i = i + 1;
    }
    proof {
        assert(s@.take(s@.len() as int) =~= s@);
    }
    out
}

/// Relies on `String`'s `FromIterator<char>`: collecting characters yields the
/// string made of exactly those characters, in order.
#[verifier::external_body]
pub fn chars_to_string(v: &Vec<char>) -> (r: String)
    ensures
        r@ == v@,
{
    v.iter().collect()
}

/// The pieces of `s` between occurrences of `sep`, in order. Splitting keeps
/// empty pieces: a leading, trailing or doubled separator yields an empty
/// piece, and the empty sequence yields one empty piece.
pub open spec fn split_on(s: Seq<char>, sep: char) -> Seq<Seq<char>>
    decreases s.len(),
{
    if s.len() == 0 {
        seq![Seq::<char>::empty()]
    } else if s[0] == sep {
        seq![Seq::<char>::empty()] + split_on(s.skip(1), sep)
    } else {
        let rest = split_on(s.skip(1), sep);
        seq![seq![s[0]] + rest[0]] + rest.skip(1)
    }
}

pub proof fn lemma_split_on_len(s: Seq<char>, sep: char)
    ensures
        split_on(s, sep).len() >= 1,
    decreases s.len(),
{
    if s.len() == 0 {
    } else {
        lemma_split_on_len(s.skip(1), sep);
    }
}

/// Appending one character to `s` either extends the last piece (an ordinary
/// character) or appends a fresh empty piece (the separator itself).
pub proof fn lemma_split_on_push(s: Seq<char>, sep: char, c: char)
    ensures
        c == sep ==> split_on(s.push(c), sep) == split_on(s, sep).push(Seq::<char>::empty()),
        c != sep ==> split_on(s.push(c), sep) == split_on(s, sep).update(
            split_on(s, sep).len() - 1,
            split_on(s, sep).last().push(c),
        ),
    decreases s.len(),
{
    lemma_split_on_len(s, sep);
    if s.len() == 0 {
        assert(s.push(c) =~= seq![c]);
        assert(s.push(c).skip(1) =~= Seq::<char>::empty());
        assert(split_on(Seq::<char>::empty(), sep) == seq![Seq::<char>::empty()]);
        assert(s =~= Seq::<char>::empty());
        if c == sep {
            assert(split_on(s.push(c), sep) =~~= split_on(s, sep).push(Seq::<char>::empty()));
        } else {
            assert(split_on(s.push(c), sep) =~~= split_on(s, sep).update(
                split_on(s, sep).len() - 1,
                split_on(s, sep).last().push(c),
            ));
        }
    } else {
        lemma_split_on_push(s.skip(1), sep, c);
        lemma_split_on_len(s.skip(1), sep);
        assert(s.push(c)[0] == s[0]);
        assert(s.push(c).skip(1) =~= s.skip(1).push(c));
        if c == sep {
            if s[0] == sep {
                assert(split_on(s.push(c), sep) =~~= split_on(s, sep).push(Seq::<char>::empty()));
            } else {
                let rest = split_on(s.skip(1), sep);
                let restp = split_on(s.skip(1).push(c), sep);
                assert(restp == rest.push(Seq::<char>::empty()));
                assert(restp[0] == rest[0]);
                assert(restp.skip(1) =~~= rest.skip(1).push(Seq::<char>::empty()));
                assert(split_on(s.push(c), sep) =~~= split_on(s, sep).push(Seq::<char>::empty()));
            }
        } else {
            if s[0] == sep {
                let rest = split_on(s.skip(1), sep);
                let restp = split_on(s.skip(1).push(c), sep);
                assert(restp == rest.update(rest.len() - 1, rest.last().push(c)));
                assert(split_on(s.push(c), sep) =~~= split_on(s, sep).update(
                    split_on(s, sep).len() - 1,
                    split_on(s, sep).last().push(c),
                ));
            } else {
                let rest = split_on(s.skip(1), sep);
                let restp = split_on(s.skip(1).push(c), sep);
                assert(restp == rest.update(rest.len() - 1, rest.last().push(c)));
                if rest.len() == 1 {
                    assert(restp[0] == rest[0].push(c));
                    assert(split_on(s.push(c), sep) =~~= split_on(s, sep).update(
                        split_on(s, sep).len() - 1,
                        split_on(s, sep).last().push(c),
                    ));
                } else {
                    assert(restp[0] == rest[0]);
                    assert(restp.skip(1) =~~= rest.skip(1).update(
                        rest.skip(1).len() - 1,
                        rest.skip(1).last().push(c),
                    ));
                    assert(split_on(s.push(c), sep) =~~= split_on(s, sep).update(
                        split_on(s, sep).len() - 1,
                        split_on(s, sep).last().push(c),
                    ));
                }
            }
        }
    }
}

/// The final piece of a split mirrors the final character of the sequence:
/// it is empty exactly when the sequence is empty or ends with the
/// separator, and otherwise ends with that same character.
pub proof fn lemma_split_on_last(s: Seq<char>, sep: char)
    ensures
        s.len() == 0 ==> split_on(s, sep).last().len() == 0,
        s.len() > 0 && s.last() == sep ==> split_on(s, sep).last().len() == 0,
        s.len() > 0 && s.last() != sep ==> split_on(s, sep).last().len() > 0 && split_on(
            s,
            sep,
        ).last().last() == s.last(),
{
    if s.len() > 0 {
        lemma_split_on_len(s.drop_last(), sep);
        lemma_split_on_push(s.drop_last(), sep, s.last());
        assert(s.drop_last().push(s.last()) =~= s);
    }
}

/// Lowercasing commutes with splitting when the separator is no letter:
/// the pieces of the lowercased sequence are the lowercased pieces.
pub proof fn lemma_split_on_lower(s: Seq<char>, sep: char)
    requires
        !('A' <= sep && sep <= 'Z'),
        !('a' <= sep && sep <= 'z'),
    ensures
        split_on(lower_seq(s), sep).len() == split_on(s, sep).len(),
        forall|i: int|
            0 <= i < split_on(s, sep).len() ==> #[trigger] split_on(lower_seq(s), sep)[i]
                == lower_seq(split_on(s, sep)[i]),
    decreases s.len(),
{
    let ls = lower_seq(s);
    if s.len() == 0 {
        assert(ls =~= Seq::<char>::empty());
        assert(lower_seq(Seq::<char>::empty()) =~= Seq::<char>::empty());
    } else {
        lemma_split_on_lower(s.skip(1), sep);
        lemma_split_on_len(s.skip(1), sep);
        assert(ls.skip(1) =~= lower_seq(s.skip(1)));
        assert(ls[0] == lower_char(s[0]));
        assert(lower_char(s[0]) == sep <==> s[0] == sep);
        if s[0] == sep {
            assert(split_on(ls, sep) =~= seq![Seq::<char>::empty()] + split_on(
                lower_seq(s.skip(1)),
                sep,
            ));
            assert(lower_seq(Seq::<char>::empty()) =~= Seq::<char>::empty());
            assert forall|i: int| 0 <= i < split_on(s, sep).len() implies #[trigger] split_on(
                ls,
                sep,
            )[i] == lower_seq(split_on(s, sep)[i]) by {
                if i > 0 {
                    assert(split_on(s, sep)[i] == split_on(s.skip(1), sep)[i - 1]);
                }
            }
        } else {
            let rest = split_on(s.skip(1), sep);
            let lrest = split_on(lower_seq(s.skip(1)), sep);
            assert(split_on(ls, sep) =~= seq![seq![ls[0]] + lrest[0]] + lrest.skip(1));
            assert(lrest[0] == lower_seq(rest[0]));
            assert(seq![ls[0]] + lower_seq(rest[0]) =~= lower_seq(seq![s[0]] + rest[0]));
            assert forall|i: int| 0 <= i < split_on(s, sep).len() implies #[trigger] split_on(
                ls,
                sep,
            )[i] == lower_seq(split_on(s, sep)[i]) by {
                if i > 0 {
                    assert(split_on(s, sep)[i] == rest[i]);
                    assert(split_on(ls, sep)[i] == lrest[i]);
                }
            }
        }
    }
}

/// The pieces of `v` between occurrences of `sep`, computed.
pub fn split_chars(v: &Vec<char>, sep: char) -> (parts: Vec<Vec<char>>)
    ensures
        parts.deep_view() == split_on(v@, sep),
{
    let mut parts: Vec<Vec<char>> = Vec::new();
    let mut cur: Vec<char> = Vec::new();
    let mut i: usize = 0;
    proof {
        assert(v@.take(0) =~= Seq::<char>::empty());
        assert(parts.deep_view().push(cur@) =~~= split_on(v@.take(0), sep));
    }
    while i < v.len()
        invariant
            i <= v.len(),
            parts.deep_view().push(cur@) == split_on(v@.take(i as int), sep),
        decreases v.len() - i,
    {
        let c = v[i];
        proof {
            assert(v@.take(i + 1 as int) =~= v@.take(i as int).push(v@[i as int]));
            lemma_split_on_push(v@.take(i as int), sep, c);
            lemma_split_on_len(v@.take(i as int), sep);
        }
        if c == sep {
            let ghost old_parts = parts.deep_view();
            let ghost old_cur = cur@;
            parts.push(cur);
            cur = Vec::new();
            proof {
                assert(parts.deep_view() =~~= old_parts.push(old_cur));
                assert(parts.deep_view().push(cur@) =~~= split_on(v@.take(i + 1 as int), sep));
            }
        } else {
            let ghost old_parts = parts.deep_view();
            let ghost old_cur = cur@;
            cur.push(c);
            proof {
                let s = split_on(v@.take(i as int), sep);
                assert(old_parts.push(old_cur).last() == old_cur);
                assert(parts.deep_view().push(cur@) =~= s.update(s.len() - 1, s.last().push(c)));
            }
        }
        i = i + 1;
    }
    let ghost old_parts = parts.deep_view();
    let ghost old_cur = cur@;
    parts.push(cur);
    proof {
        assert(v@.take(v@.len() as int) =~= v@);
        assert(parts.deep_view() =~~= old_parts.push(old_cur));
    }
    parts
}

/// Appends every character of `src` to `dst`.
pub fn append_chars(dst: &mut Vec<char>, src: &Vec<char>)
    ensures
        final(dst)@ == old(dst)@ + src@,
{
    let mut i: usize = 0;
    while i < src.len()
        invariant
            i <= src.len(),
            dst@ == old(dst)@ + src@.take(i as int),
        decreases src.len() - i,
    {
        dst.push(src[i]);
        proof {
            assert(old(dst)@ + src@.take(i + 1 as int) =~= (old(dst)@ + src@.take(i as int)).push(
                src@[i as int],
            ));
        }
        i = i + 1;
    }
    proof {
        assert(src@.take(src@.len() as int) =~= src@);
    }
}

/// Whether the two string slices hold the same characters.
pub fn str_eq(a: &str, b: &str) -> (r: bool)
    ensures
        r == (a@ == b@),
{
    let na = a.unicode_len();
    let nb = b.unicode_len();
    if na != nb {
        proof {
            assert(a@ != b@);
        }
        return false;
    }
    let mut i: usize = 0;
    while i < na
        invariant
            i <= na,
            na == a@.len(),
            na == b@.len(),
            forall|j: int| 0 <= j < i ==> a@[j] == b@[j],
        decreases na - i,
    {
        if a.get_char(i) != b.get_char(i) {
            return false;
        }
        i = i + 1;
    }
    proof {
        assert(a@ =~= b@);
    }
    true
}

} // verus!
