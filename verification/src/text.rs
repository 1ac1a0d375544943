//! Character-level text utilities: exact and ASCII-case-insensitive string
//! comparison, splitting on a separator, and discarding empty segments.

use vstd::prelude::*;
use vstd::string::StrSliceExecFns;
use vstd::string::StringExecFns;

verus! {

/// Exact comparison of two string slices, by characters.
pub fn str_eq(a: &str, b: &str) -> (r: bool)
    ensures
        r == (a@ == b@),
{
    let alen = a.unicode_len();
    let blen = b.unicode_len();
    if alen != blen {
        assert(a@ != b@) by {
            assert(a@.len() != b@.len());
        }
        return false;
    }
    let mut i: usize = 0;
    while i < alen
        invariant
            alen == a@.len(),
            alen == b@.len(),
            i <= alen,
            forall|j: int| 0 <= j < i ==> a@[j] == b@[j],
        decreases alen - i,
    {
        if a.get_char(i) != b.get_char(i) {
            return false;
        }
        i += 1;
    }
    assert(a@ =~= b@);
    true
}

/// The character's code, with ASCII capital letters folded to lower case.
pub open spec fn lower_code(c: char) -> int {
    if 65 <= c as int && c as int <= 90 {
        c as int + 32
    } else {
        c as int
    }
}

/// Whether two character sequences are equal up to ASCII case.
pub open spec fn eq_ignore_ascii_case(a: Seq<char>, b: Seq<char>) -> bool {
    a.len() == b.len() && forall|i: int| 0 <= i < a.len() ==> lower_code(a[i]) == lower_code(b[i])
}

fn lower_code_exec(c: char) -> (r: u32)
    ensures
        r == lower_code(c),
{
    let u = c as u32;
    if 65 <= u && u <= 90 {
        u + 32
    } else {
        u
    }
}

/// Comparison of two string slices up to ASCII case, by characters.
pub fn str_eq_ignore_ascii_case(a: &str, b: &str) -> (r: bool)
    ensures
        r == eq_ignore_ascii_case(a@, b@),
{
    let alen = a.unicode_len();
    let blen = b.unicode_len();
    if alen != blen {
        return false;
    }
    let mut i: usize = 0;
    while i < alen
        invariant
            alen == a@.len(),
            alen == b@.len(),
            i <= alen,
            forall|j: int| 0 <= j < i ==> lower_code(a@[j]) == lower_code(b@[j]),
        decreases alen - i,
    {
        if lower_code_exec(a.get_char(i)) != lower_code_exec(b.get_char(i)) {
            return false;
        }
        i += 1;
    }
    true
}

/// The segments of `s` delimited by `sep`: splitting the empty sequence gives
/// one empty segment, and each separator occurrence ends a segment.
pub open spec fn split_chars(s: Seq<char>, sep: char) -> Seq<Seq<char>>
    decreases s.len(),
{
    if s.len() == 0 {
        seq![Seq::<char>::empty()]
    } else if s[0] == sep {
        seq![Seq::<char>::empty()] + split_chars(s.drop_first(), sep)
    } else {
        let rest = split_chars(s.drop_first(), sep);
        seq![seq![s[0]] + rest[0]] + rest.drop_first()
    }
}

pub proof fn lemma_split_chars_len(s: Seq<char>, sep: char)
    ensures
        split_chars(s, sep).len() >= 1,
    decreases s.len(),
{
    if s.len() == 0 {
    } else if s[0] == sep {
        lemma_split_chars_len(s.drop_first(), sep);
    } else {
        lemma_split_chars_len(s.drop_first(), sep);
    }
}

/// Appending one character extends the last segment, or — when it is the
/// separator — ends it and opens a new empty one.
pub proof fn lemma_split_chars_push(s: Seq<char>, sep: char, c: char)
    ensures
        split_chars(s.push(c), sep) == (if c == sep {
            split_chars(s, sep).push(Seq::<char>::empty())
        } else {
            split_chars(s, sep).update(
                split_chars(s, sep).len() - 1,
                split_chars(s, sep).last().push(c),
            )
        }),
    decreases s.len(),
{
    lemma_split_chars_len(s, sep);
    let sp = s.push(c);
    if s.len() == 0 {
        assert(sp[0] == c);
        assert(sp.drop_first() =~= Seq::<char>::empty());
        assert(split_chars(s, sep) == seq![Seq::<char>::empty()]);
        assert(split_chars(sp.drop_first(), sep) == seq![Seq::<char>::empty()]);
        if c == sep {
            assert(split_chars(sp, sep) =~~= split_chars(s, sep).push(Seq::<char>::empty()));
        } else {
            assert(split_chars(sp, sep) =~~= split_chars(s, sep).update(
                0,
                split_chars(s, sep).last().push(c),
            ));
        }
    } else {
        assert(sp[0] == s[0]);
        assert(sp.drop_first() =~= s.drop_first().push(c));
        lemma_split_chars_push(s.drop_first(), sep, c);
        lemma_split_chars_len(s.drop_first(), sep);
        let r = split_chars(s.drop_first(), sep);
        let rp = split_chars(s.drop_first().push(c), sep);
        if s[0] == sep {
            if c == sep {
                assert(split_chars(sp, sep) =~~= split_chars(s, sep).push(Seq::<char>::empty()));
            } else {
                assert(split_chars(sp, sep) =~~= split_chars(s, sep).update(
                    split_chars(s, sep).len() - 1,
                    split_chars(s, sep).last().push(c),
                ));
            }
        } else {
            if c == sep {
                assert(rp == r.push(Seq::<char>::empty()));
                assert(rp[0] == r[0]);
                assert(rp.drop_first() =~= r.drop_first().push(Seq::<char>::empty()));
                assert(split_chars(sp, sep) =~~= split_chars(s, sep).push(Seq::<char>::empty()));
            } else {
                assert(rp == r.update(r.len() - 1, r.last().push(c)));
                if r.len() == 1 {
                    assert(rp[0] == r[0].push(c));
                    assert(seq![s[0]] + r[0].push(c) =~= (seq![s[0]] + r[0]).push(c));
                    assert(split_chars(sp, sep) =~~= split_chars(s, sep).update(
                        split_chars(s, sep).len() - 1,
                        split_chars(s, sep).last().push(c),
                    ));
                } else {
                    assert(rp[0] == r[0]);
                    assert(rp.drop_first() =~= r.drop_first().update(
                        r.len() - 2,
                        r.last().push(c),
                    ));
                    assert(split_chars(s, sep).last() == r.last());
                    assert(split_chars(sp, sep) =~~= split_chars(s, sep).update(
                        split_chars(s, sep).len() - 1,
                        split_chars(s, sep).last().push(c),
                    ));
                }
            }
        }
    }
}

/// Splits a string on a separator character, keeping empty segments.
pub fn split_str(s: &str, sep: char) -> (r: Vec<String>)
    ensures
        r.deep_view() == split_chars(s@, sep),
{
    let len = s.unicode_len();
    let mut out: Vec<String> = Vec::new();
    let mut seg_start: usize = 0;
    let mut i: usize = 0;
    proof {
        assert(s@.take(0) =~= Seq::<char>::empty());
        assert(s@.subrange(0, 0) =~= Seq::<char>::empty());
    }
    while i < len
        invariant
            len == s@.len(),
            i <= len,
            seg_start <= i,
            split_chars(s@.take(i as int), sep) == out.deep_view().push(
                s@.subrange(seg_start as int, i as int),
            ),
        decreases len - i,
    {
        let c = s.get_char(i);
        proof {
            lemma_split_chars_push(s@.take(i as int), sep, c);
            lemma_split_chars_len(s@.take(i as int), sep);
            assert(s@.take(i as int + 1) =~= s@.take(i as int).push(s@[i as int]));
        }
        if c == sep {
            let ghost prev_dv = out.deep_view();
            out.push(s.substring_char(seg_start, i).to_owned());
            proof {
                assert(out.deep_view() =~= prev_dv.push(s@.subrange(seg_start as int, i as int)));
                assert(s@.subrange(i as int + 1, i as int + 1) =~= Seq::<char>::empty());
                assert(split_chars(s@.take(i as int + 1), sep) =~= out.deep_view().push(
                    s@.subrange(i as int + 1, i as int + 1),
                ));
            }
            seg_start = i + 1;
        } else {
            proof {
                let dv = out.deep_view();
                let old_seg = s@.subrange(seg_start as int, i as int);
                assert(old_seg.push(s@[i as int]) =~= s@.subrange(seg_start as int, i as int + 1));
                assert(dv.push(old_seg).last() == old_seg);
                assert(dv.push(old_seg).update(dv.len() as int, old_seg.push(s@[i as int])) =~~= dv
                    .push(s@.subrange(seg_start as int, i as int + 1)));
            }
        }
        i += 1;
    }
    let ghost prev_dv = out.deep_view();
    out.push(s.substring_char(seg_start, len).to_owned());
    proof {
        assert(out.deep_view() =~= prev_dv.push(s@.subrange(seg_start as int, len as int)));
        assert(s@.take(len as int) =~= s@);
    }
    out
}

/// The sequence with its empty segments discarded, order kept.
pub open spec fn drop_empty(ss: Seq<Seq<char>>) -> Seq<Seq<char>>
    decreases ss.len(),
{
    if ss.len() == 0 {
        Seq::<Seq<char>>::empty()
    } else {
        let rest = drop_empty(ss.drop_first());
        if ss[0].len() == 0 {
            rest
        } else {
            seq![ss[0]] + rest
        }
    }
}

fn drop_empty_from(v: &Vec<String>, i: usize) -> (r: Vec<String>)
    requires
        i <= v@.len(),
    ensures
        r.deep_view() == drop_empty(v.deep_view().skip(i as int)),
    decreases v@.len() - i,
{
    if i == v.len() {
        let out: Vec<String> = Vec::new();
        assert(out.deep_view() =~= drop_empty(v.deep_view().skip(i as int)));
        return out;
    }
    let rest = drop_empty_from(v, i + 1);
    assert(v.deep_view().skip(i as int).drop_first() =~= v.deep_view().skip(i as int + 1));
    assert(v.deep_view().skip(i as int)[0] == v@[i as int]@);
    if v[i].as_str().is_empty() {
        rest
    } else {
        let mut out = rest;
        out.insert(0, v[i].clone());
        assert(out.deep_view() =~= drop_empty(v.deep_view().skip(i as int)));
        out
    }
}

/// Splits a string on a separator character and discards empty segments, as
/// resource-path specifications are read.
pub fn split_nonempty(s: &str, sep: char) -> (r: Vec<String>)
    ensures
        r.deep_view() == drop_empty(split_chars(s@, sep)),
{
    let parts = split_str(s, sep);
    let out = drop_empty_from(&parts, 0);
    assert(parts.deep_view().skip(0) =~= parts.deep_view());
    out
}

} // verus!
