//! Verified text utilities: character access, whitespace splitting, trimming,
//! substring search, pattern removal and decimal formatting, all over the
//! character sequences the parsing and lookup code works with.
//!
//! Unicode case folding and the alphanumeric classification stay with the
//! standard library behind named results; everything else is defined here.

use vstd::prelude::*;

verus! {

/// The name of what `str::to_lowercase` returns: a function of the characters
/// alone.
pub uninterp spec fn lower_of(s: Seq<char>) -> Seq<char>;

/// Lowercases a string.
///
/// Relies on `str::to_lowercase`: the result depends on the characters alone,
/// and an empty string stays empty.
#[verifier::external_body]
pub(crate) fn to_lowercase(s: &str) -> (r: String)
    ensures
        r@ == lower_of(s@),
        s@.len() == 0 ==> r@.len() == 0,
{
    s.to_lowercase()
}

/// The name of what `char::is_alphanumeric` returns: a classification of the
/// character alone.
pub uninterp spec fn alnum_of(c: char) -> bool;

/// Whether a character is alphanumeric.
///
/// Relies on `char::is_alphanumeric`: the classification depends on the
/// character alone.
#[verifier::external_body]
pub(crate) fn is_alphanumeric_char(c: char) -> (r: bool)
    ensures
        r == alnum_of(c),
{
    c.is_alphanumeric()
}

/// Appends one character to a string.
///
/// Relies on `String::push`: the string grows by exactly that character.
#[verifier::external_body]
pub(crate) fn push_char(s: &mut String, c: char)
    ensures
        final(s)@ == old(s)@.push(c),
{
    s.push(c);
}

/// The Unicode white-space characters, the set `str::trim` and
/// `str::split_whitespace` go by.
pub open spec fn spec_is_space(c: char) -> bool {
    let u = c as u32;
    (9 <= u && u <= 13) || u == 32 || u == 0x85 || u == 0xa0 || u == 0x1680 || (0x2000 <= u && u
        <= 0x200a) || u == 0x2028 || u == 0x2029 || u == 0x202f || u == 0x205f || u == 0x3000
}

/// Whether a character is white space.
pub fn is_space(c: char) -> (r: bool)
    ensures
        r == spec_is_space(c),
{
    let u = c as u32;
    (9 <= u && u <= 13) || u == 32 || u == 0x85 || u == 0xa0 || u == 0x1680 || (0x2000 <= u && u
        <= 0x200a) || u == 0x2028 || u == 0x2029 || u == 0x202f || u == 0x205f || u == 0x3000
}

/// The characters of a string, as an indexable vector.
pub fn chars_of(s: &str) -> (v: Vec<char>)
    ensures
        v@ == s@,
{
    broadcast use vstd::string::axiom_spec_iter;

    let mut v: Vec<char> = Vec::new();
    for c in it: s.chars()
        invariant
            it.seq() == s@,
            v@ == it.seq().take(it.index() as int),
    {
        v.push(c);
    }
    proof {
        assert(s@.take(s@.len() as int) == s@);
    }
    v
}

/// A string holding exactly these characters.
pub fn string_from_chars(v: &Vec<char>) -> (s: String)
    ensures
        s@ == v@,
{
    let mut s = String::new();
    let mut i: usize = 0;
    while i < v.len()
        invariant
            0 <= i <= v@.len(),
            s@ == v@.take(i as int),
        decreases v@.len() - i,
    {
        push_char(&mut s, v[i]);
        proof {
            assert(v@.take(i + 1) == v@.take(i as int).push(v@[i as int]));
        }
        i = i + 1;
    }
    proof {
        assert(v@.take(v@.len() as int) == v@);
    }
    s
}

/// Whether the characters of `a` equal those of `b`.
pub fn eq_chars(a: &Vec<char>, b: &Vec<char>) -> (r: bool)
    ensures
        r == (a@ == b@),
{
    if a.len() != b.len() {
        return false;
    }
    let mut i: usize = 0;
    while i < a.len()
        invariant
            0 <= i <= a@.len(),
            a@.len() == b@.len(),
            forall|j: int| 0 <= j < i ==> a@[j] == b@[j],
        decreases a@.len() - i,
    {
        if a[i] != b[i] {
            return false;
        }
        i = i + 1;
    }
    proof {
        assert(a@ =~= b@);
    }
    true
}

/// Whether `p` is a prefix of `s`.
pub open spec fn spec_is_prefix(p: Seq<char>, s: Seq<char>) -> bool {
    p.len() <= s.len() && s.take(p.len() as int) == p
}

/// Whether the characters of `p` start the characters of `s`.
pub fn starts_with_chars(s: &Vec<char>, p: &Vec<char>) -> (r: bool)
    ensures
        r == spec_is_prefix(p@, s@),
{
    if p.len() > s.len() {
        proof {
            assert(!spec_is_prefix(p@, s@));
        }
        return false;
    }
    let mut i: usize = 0;
    while i < p.len()
        invariant
            0 <= i <= p@.len(),
            p@.len() <= s@.len(),
            forall|j: int| 0 <= j < i ==> s@[j] == p@[j],
        decreases p@.len() - i,
    {
        if s[i] != p[i] {
            proof {
                assert(s@.take(p@.len() as int)[i as int] != p@[i as int]);
            }
            return false;
        }
        i = i + 1;
    }
    proof {
        assert(s@.take(p@.len() as int) =~= p@);
    }
    true
}

/// Whether `p` occurs in `s` at offset `i`.
pub open spec fn spec_match_at(s: Seq<char>, p: Seq<char>, i: int) -> bool {
    0 <= i && i + p.len() <= s.len() && s.subrange(i, i + p.len()) == p
}

/// Whether `p` occurs somewhere in `s` (an empty `p` always does).
pub open spec fn spec_contains_seq(s: Seq<char>, p: Seq<char>) -> bool {
    exists|i: int| spec_match_at(s, p, i)
}

/// Whether `p` occurs at offset `at` of `s`.
fn matches_at(s: &Vec<char>, p: &Vec<char>, at: usize) -> (r: bool)
    requires
        at + p@.len() <= s@.len(),
    ensures
        r == spec_match_at(s@, p@, at as int),
{
    let n = s.len();
    let mut i: usize = 0;
    while i < p.len()
        invariant
            0 <= i <= p@.len(),
            at + p@.len() <= s@.len(),
            n == s@.len(),
            forall|j: int| 0 <= j < i ==> s@[at + j] == p@[j],
        decreases p@.len() - i,
    {
        proof {
            assert(at + i < n);
        }
        if s[at + i] != p[i] {
            proof {
                assert(s@.subrange(at as int, at + p@.len())[i as int] != p@[i as int]);
            }
            return false;
        }
        i = i + 1;
    }
    proof {
        assert(s@.subrange(at as int, at + p@.len()) =~= p@);
    }
    true
}

/// Whether the characters of `p` occur anywhere in the characters of `s`.
pub fn contains_chars(s: &Vec<char>, p: &Vec<char>) -> (r: bool)
    ensures
        r == spec_contains_seq(s@, p@),
{
    if p.len() > s.len() {
        proof {
            assert forall|i: int| !spec_match_at(s@, p@, i) by {}
        }
        return false;
    }
    if p.len() == 0 {
        proof {
            assert(s@.subrange(0, 0) =~= p@);
            assert(spec_match_at(s@, p@, 0));
        }
        return true;
    }
    let mut at: usize = 0;
    while at <= s.len() - p.len()
        invariant
            1 <= p@.len() <= s@.len(),
            0 <= at <= s@.len() - p@.len() + 1,
            forall|i: int| 0 <= i < at ==> !spec_match_at(s@, p@, i),
        decreases s@.len() - p@.len() + 1 - at,
    {
        if matches_at(s, p, at) {
            return true;
        }
        at = at + 1;
    }
    proof {
        assert forall|i: int| !spec_match_at(s@, p@, i) by {}
    }
    false
}

/// The white-space-separated words of `s`, accumulated left to right: `cur`
/// is the word under construction when the scan stands at `i`.
pub open spec fn spec_words_from(s: Seq<char>, i: int, cur: Seq<char>) -> Seq<Seq<char>>
    recommends
        0 <= i <= s.len(),
    decreases s.len() - i,
{
    if i < 0 || i >= s.len() {
        if cur.len() > 0 {
            seq![cur]
        } else {
            Seq::<Seq<char>>::empty()
        }
    } else if spec_is_space(s[i]) {
        (if cur.len() > 0 {
            seq![cur]
        } else {
            Seq::<Seq<char>>::empty()
        }) + spec_words_from(s, i + 1, Seq::<char>::empty())
    } else {
        spec_words_from(s, i + 1, cur.push(s[i]))
    }
}

/// The white-space-separated words of `s`, in order, each non-empty.
pub open spec fn spec_words(s: Seq<char>) -> Seq<Seq<char>> {
    spec_words_from(s, 0, Seq::<char>::empty())
}

/// The views of a vector of character vectors.
pub open spec fn spec_views_of(ws: Seq<Vec<char>>) -> Seq<Seq<char>> {
    ws.map_values(|w: Vec<char>| w@)
}

/// Splits `s` at white space into its words, dropping all separators.
pub fn split_whitespace_chars(s: &Vec<char>) -> (r: Vec<Vec<char>>)
    ensures
        spec_views_of(r@) == spec_words(s@),
{
    let mut out: Vec<Vec<char>> = Vec::new();
    let mut cur: Vec<char> = Vec::new();
    let mut i: usize = 0;
    proof {
        assert(spec_views_of(out@) =~= Seq::<Seq<char>>::empty());
    }
    while i < s.len()
        invariant
            0 <= i <= s@.len(),
            spec_views_of(out@) + spec_words_from(s@, i as int, cur@) == spec_words(s@),
        decreases s@.len() - i,
    {
        if is_space(s[i]) {
            proof {
                assert(spec_words_from(s@, i as int, cur@) == (if cur@.len() > 0 {
                    seq![cur@]
                } else {
                    Seq::<Seq<char>>::empty()
                }) + spec_words_from(s@, i + 1, Seq::<char>::empty()));
            }
            if cur.len() > 0 {
                let ghost vo = spec_views_of(out@);
                let ghost cv = cur@;
                out.push(cur);
                cur = Vec::new();
                proof {
                    assert(cur@ =~= Seq::<char>::empty());
                    assert(spec_views_of(out@) =~= vo.push(cv));
                    assert(vo.push(cv) =~= vo + seq![cv]);
                    assert((vo + seq![cv]) + spec_words_from(s@, i + 1, cur@) =~= vo + (seq![cv]
                        + spec_words_from(s@, i + 1, cur@)));
                }
            } else {
                proof {
                    assert(cur@ =~= Seq::<char>::empty());
                    assert(Seq::<Seq<char>>::empty() + spec_words_from(s@, i + 1, cur@)
                        =~= spec_words_from(s@, i + 1, cur@));
                }
            }
        } else {
            proof {
                assert(spec_words_from(s@, i as int, cur@) == spec_words_from(
                    s@,
                    i + 1,
                    cur@.push(s@[i as int]),
                ));
            }
            cur.push(s[i]);
        }
        i = i + 1;
    }
    proof {
        assert(spec_words_from(s@, s@.len() as int, cur@) == (if cur@.len() > 0 {
            seq![cur@]
        } else {
            Seq::<Seq<char>>::empty()
        }));
    }
    if cur.len() > 0 {
        let ghost vo = spec_views_of(out@);
        let ghost cv = cur@;
        out.push(cur);
        proof {
            assert(spec_views_of(out@) =~= vo.push(cv));
            assert(vo.push(cv) =~= vo + seq![cv]);
            assert(spec_views_of(out@) =~= spec_words(s@));
        }
    } else {
        proof {
            assert(spec_views_of(out@) + Seq::<Seq<char>>::empty() =~= spec_views_of(out@));
            assert(spec_views_of(out@) =~= spec_words(s@));
        }
    }
    out
}

/// `s` with every occurrence of `pat` removed, scanning left to right past
/// each match.
pub open spec fn spec_remove_all(s: Seq<char>, pat: Seq<char>) -> Seq<char>
    recommends
        pat.len() >= 1,
    decreases s.len(),
    when pat.len() >= 1
{
    if s.len() == 0 {
        s
    } else if spec_is_prefix(pat, s) {
        spec_remove_all(s.skip(pat.len() as int), pat)
    } else {
        seq![s[0]] + spec_remove_all(s.skip(1), pat)
    }
}

/// Removes every occurrence of `pat` from `s`, scanning left to right.
pub fn remove_all_chars(s: &Vec<char>, pat: &Vec<char>) -> (r: Vec<char>)
    requires
        pat@.len() >= 1,
    ensures
        r@ == spec_remove_all(s@, pat@),
{
    let mut out: Vec<char> = Vec::new();
    let mut i: usize = 0;
    proof {
        assert(s@.skip(0) =~= s@);
        assert(out@ + spec_remove_all(s@, pat@) =~= spec_remove_all(s@, pat@));
    }
    while i < s.len()
        invariant
            0 <= i <= s@.len(),
            pat@.len() >= 1,
            out@ + spec_remove_all(s@.skip(i as int), pat@) == spec_remove_all(s@, pat@),
        decreases s@.len() - i,
    {
        let rest_len = s.len() - i;
        if pat.len() <= rest_len && matches_at(s, pat, i) {
            proof {
                let rest = s@.skip(i as int);
                assert(rest.take(pat@.len() as int) =~= s@.subrange(i as int, i + pat@.len()));
                assert(spec_is_prefix(pat@, rest));
                assert(rest.skip(pat@.len() as int) =~= s@.skip(i + pat@.len()));
            }
            i = i + pat.len();
        } else {
            proof {
                let rest = s@.skip(i as int);
                assert(rest.len() > 0);
                if pat@.len() <= rest.len() {
                    assert(rest.take(pat@.len() as int) =~= s@.subrange(i as int, i + pat@.len()));
                }
                assert(!spec_is_prefix(pat@, rest));
                assert(rest.skip(1) =~= s@.skip(i + 1));
                assert(out@ + seq![rest[0]] =~= out@.push(s@[i as int]));
                assert((out@ + seq![rest[0]]) + spec_remove_all(s@.skip(i + 1), pat@)
                    =~= out@ + spec_remove_all(rest, pat@));
            }
            out.push(s[i]);
            i = i + 1;
        }
    }
    proof {
        assert(s@.skip(s@.len() as int) =~= Seq::<char>::empty());
        assert(out@ + Seq::<char>::empty() =~= out@);
    }
    out
}

/// `s` without its leading white space.
pub open spec fn spec_trim_start(s: Seq<char>) -> Seq<char>
    decreases s.len(),
{
    if s.len() > 0 && spec_is_space(s[0]) {
        spec_trim_start(s.skip(1))
    } else {
        s
    }
}

/// `s` without its trailing white space.
pub open spec fn spec_trim_end(s: Seq<char>) -> Seq<char>
    decreases s.len(),
{
    if s.len() > 0 && spec_is_space(s.last()) {
        spec_trim_end(s.drop_last())
    } else {
        s
    }
}

/// `s` without leading and trailing white space, as `str::trim` leaves it.
pub open spec fn spec_trim(s: Seq<char>) -> Seq<char> {
    spec_trim_end(spec_trim_start(s))
}

/// Trims white space from both ends.
pub fn trim_chars(s: &Vec<char>) -> (r: Vec<char>)
    ensures
        r@ == spec_trim(s@),
{
    let mut lo: usize = 0;
    proof {
        assert(s@.skip(0) =~= s@);
    }
    while lo < s.len() && is_space(s[lo])
        invariant
            0 <= lo <= s@.len(),
            spec_trim_start(s@.skip(lo as int)) == spec_trim_start(s@),
        decreases s@.len() - lo,
    {
        proof {
            assert(s@.skip(lo as int).skip(1) =~= s@.skip(lo + 1));
        }
        lo = lo + 1;
    }
    proof {
        if lo < s@.len() {
            assert(spec_trim_start(s@) == s@.skip(lo as int));
        } else {
            assert(s@.skip(lo as int).len() == 0);
            assert(spec_trim_start(s@) == s@.skip(lo as int));
        }
    }
    let mut hi: usize = s.len();
    proof {
        assert(s@.skip(lo as int).take(s@.len() - lo) =~= s@.skip(lo as int));
    }
    while hi > lo && is_space(s[hi - 1])
        invariant
            lo <= hi <= s@.len(),
            spec_trim_start(s@) == s@.skip(lo as int),
            spec_trim_end(s@.skip(lo as int).take(hi - lo)) == spec_trim_end(s@.skip(lo as int)),
        decreases hi,
    {
        proof {
            let cut = s@.skip(lo as int).take(hi - lo);
            assert(cut.len() == hi - lo);
            assert(cut.last() == s@[hi - 1]);
            assert(cut.drop_last() =~= s@.skip(lo as int).take(hi - 1 - lo));
        }
        hi = hi - 1;
    }
    proof {
        let cut = s@.skip(lo as int).take(hi - lo);
        if hi > lo {
            assert(cut.last() == s@[hi - 1]);
            assert(!spec_is_space(cut.last()));
            assert(spec_trim_end(cut) == cut);
        } else {
            assert(cut.len() == 0);
            assert(spec_trim_end(cut) == cut);
        }
    }
    let mut out: Vec<char> = Vec::new();
    let mut i: usize = lo;
    while i < hi
        invariant
            lo <= i <= hi <= s@.len(),
            out@ == s@.skip(lo as int).take(i - lo),
        decreases hi - i,
    {
        out.push(s[i]);
        proof {
            assert(s@.skip(lo as int).take(i + 1 - lo) =~= s@.skip(lo as int).take(
                i - lo,
            ).push(s@[i as int]));
        }
        i = i + 1;
    }
    proof {
        assert(out@ == spec_trim(s@));
    }
    out
}

/// Copies a list of strings; the copy equals the original.
pub fn clone_strings(v: &Vec<String>) -> (r: Vec<String>)
    ensures
        r@ == v@,
{
    let mut r: Vec<String> = Vec::new();
    let mut i: usize = 0;
    while i < v.len()
        invariant
            0 <= i <= v@.len(),
            r@ == v@.take(i as int),
        decreases v@.len() - i,
    {
        r.push(v[i].clone());
        proof {
            assert(v@.take(i + 1) == v@.take(i as int).push(v@[i as int]));
        }
        i = i + 1;
    }
    proof {
        assert(v@.take(v@.len() as int) == v@);
    }
    r
}

/// The characters of `v` from `from` (inclusive) to `to` (exclusive).
pub fn sub_chars(v: &Vec<char>, from: usize, to: usize) -> (r: Vec<char>)
    requires
        from <= to <= v@.len(),
    ensures
        r@ == v@.subrange(from as int, to as int),
{
    let mut r: Vec<char> = Vec::new();
    let mut i: usize = from;
    while i < to
        invariant
            from <= i <= to <= v@.len(),
            r@ == v@.subrange(from as int, i as int),
        decreases to - i,
    {
        r.push(v[i]);
        proof {
            assert(v@.subrange(from as int, i + 1) == v@.subrange(from as int, i as int).push(
                v@[i as int],
            ));
        }
        i = i + 1;
    }
    r
}

/// `s` without its leading run of `c`.
pub open spec fn spec_trim_start_char(s: Seq<char>, c: char) -> Seq<char>
    decreases s.len(),
{
    if s.len() > 0 && s[0] == c {
        spec_trim_start_char(s.skip(1), c)
    } else {
        s
    }
}

/// `s` without its trailing run of `c`.
pub open spec fn spec_trim_end_char(s: Seq<char>, c: char) -> Seq<char>
    decreases s.len(),
{
    if s.len() > 0 && s.last() == c {
        spec_trim_end_char(s.drop_last(), c)
    } else {
        s
    }
}

/// `s` without leading and trailing runs of `c`, as `str::trim_matches`
/// leaves it.
pub open spec fn spec_trim_char(s: Seq<char>, c: char) -> Seq<char> {
    spec_trim_end_char(spec_trim_start_char(s, c), c)
}

/// Trims runs of one character from both ends.
pub fn trim_char(s: &Vec<char>, c: char) -> (r: Vec<char>)
    ensures
        r@ == spec_trim_char(s@, c),
{
    let mut lo: usize = 0;
    proof {
        assert(s@.skip(0) =~= s@);
    }
    while lo < s.len() && s[lo] == c
        invariant
            0 <= lo <= s@.len(),
            spec_trim_start_char(s@.skip(lo as int), c) == spec_trim_start_char(s@, c),
        decreases s@.len() - lo,
    {
        proof {
            assert(s@.skip(lo as int).skip(1) =~= s@.skip(lo + 1));
        }
        lo = lo + 1;
    }
    proof {
        if lo < s@.len() {
            assert(spec_trim_start_char(s@, c) == s@.skip(lo as int));
        } else {
            assert(s@.skip(lo as int).len() == 0);
            assert(spec_trim_start_char(s@, c) == s@.skip(lo as int));
        }
    }
    let mut hi: usize = s.len();
    proof {
        assert(s@.skip(lo as int).take(s@.len() - lo) =~= s@.skip(lo as int));
    }
    while hi > lo && s[hi - 1] == c
        invariant
            lo <= hi <= s@.len(),
            spec_trim_start_char(s@, c) == s@.skip(lo as int),
            spec_trim_end_char(s@.skip(lo as int).take(hi - lo), c) == spec_trim_end_char(
                s@.skip(lo as int),
                c,
            ),
        decreases hi,
    {
        proof {
            let cut = s@.skip(lo as int).take(hi - lo);
            assert(cut.len() == hi - lo);
            assert(cut.last() == s@[hi - 1]);
            assert(cut.drop_last() =~= s@.skip(lo as int).take(hi - 1 - lo));
        }
        hi = hi - 1;
    }
    proof {
        let cut = s@.skip(lo as int).take(hi - lo);
        if hi > lo {
            assert(cut.last() == s@[hi - 1]);
            assert(spec_trim_end_char(cut, c) == cut);
        } else {
            assert(cut.len() == 0);
            assert(spec_trim_end_char(cut, c) == cut);
        }
    }
    let mut out: Vec<char> = Vec::new();
    let mut i: usize = lo;
    while i < hi
        invariant
            lo <= i <= hi <= s@.len(),
            out@ == s@.skip(lo as int).take(i - lo),
        decreases hi - i,
    {
        out.push(s[i]);
        proof {
            assert(s@.skip(lo as int).take(i + 1 - lo) =~= s@.skip(lo as int).take(i - lo).push(
                s@[i as int],
            ));
        }
        i = i + 1;
    }
    proof {
        assert(out@ == spec_trim_char(s@, c));
    }
    out
}

/// The position of the first `c` at or after `i` in `s`.
pub open spec fn spec_find_char_from(s: Seq<char>, c: char, i: int) -> Option<int>
    recommends
        0 <= i <= s.len(),
    decreases s.len() - i,
{
    if i < 0 || i >= s.len() {
        None
    } else if s[i] == c {
        Some(i)
    } else {
        spec_find_char_from(s, c, i + 1)
    }
}

/// The position of the first `c` in `s`.
pub open spec fn spec_find_char(s: Seq<char>, c: char) -> Option<int> {
    spec_find_char_from(s, c, 0)
}

/// Finds the first occurrence of `c`.
pub fn find_char(s: &Vec<char>, c: char) -> (r: Option<usize>)
    ensures
        match r {
            Some(i) => spec_find_char(s@, c) == Some(i as int) && i < s@.len() && s@[i as int]
                == c,
            None => spec_find_char(s@, c) is None,
        },
{
    let mut i: usize = 0;
    while i < s.len()
        invariant
            0 <= i <= s@.len(),
            spec_find_char(s@, c) == spec_find_char_from(s@, c, i as int),
        decreases s@.len() - i,
    {
        if s[i] == c {
            return Some(i);
        }
        i = i + 1;
    }
    None
}

/// The position of the first white-space character at or after `i` in `s`.
pub open spec fn spec_find_space_from(s: Seq<char>, i: int) -> Option<int>
    recommends
        0 <= i <= s.len(),
    decreases s.len() - i,
{
    if i < 0 || i >= s.len() {
        None
    } else if spec_is_space(s[i]) {
        Some(i)
    } else {
        spec_find_space_from(s, i + 1)
    }
}

/// The position of the first white-space character in `s`.
pub open spec fn spec_find_space(s: Seq<char>) -> Option<int> {
    spec_find_space_from(s, 0)
}

/// Finds the first white-space character.
pub fn find_space(s: &Vec<char>) -> (r: Option<usize>)
    ensures
        match r {
            Some(i) => spec_find_space(s@) == Some(i as int) && i < s@.len(),
            None => spec_find_space(s@) is None,
        },
{
    let mut i: usize = 0;
    while i < s.len()
        invariant
            0 <= i <= s@.len(),
            spec_find_space(s@) == spec_find_space_from(s@, i as int),
        decreases s@.len() - i,
    {
        if is_space(s[i]) {
            return Some(i);
        }
        i = i + 1;
    }
    None
}

/// The position of the last `c` in `s`.
pub open spec fn spec_rfind_char(s: Seq<char>, c: char) -> Option<int>
    decreases s.len(),
{
    if s.len() == 0 {
        None
    } else if s.last() == c {
        Some(s.len() - 1)
    } else {
        spec_rfind_char(s.drop_last(), c)
    }
}

/// Finds the last occurrence of `c`.
pub fn rfind_char(s: &Vec<char>, c: char) -> (r: Option<usize>)
    ensures
        match r {
            Some(i) => spec_rfind_char(s@, c) == Some(i as int) && i < s@.len(),
            None => spec_rfind_char(s@, c) is None,
        },
{
    let mut i: usize = s.len();
    proof {
        assert(s@.take(s@.len() as int) =~= s@);
    }
    while i > 0
        invariant
            0 <= i <= s@.len(),
            spec_rfind_char(s@, c) == spec_rfind_char(s@.take(i as int), c),
        decreases i,
    {
        proof {
            let cut = s@.take(i as int);
            assert(cut.last() == s@[i - 1]);
            assert(cut.drop_last() =~= s@.take(i - 1));
        }
        if s[i - 1] == c {
            return Some(i - 1);
        }
        i = i - 1;
    }
    proof {
        assert(s@.take(0).len() == 0);
    }
    None
}

/// The segments of `s`, split at `sep`, accumulated left to right: `cur` is
/// the segment under construction when the scan stands at `i`. Segments may
/// be empty; a trailing separator yields a trailing empty segment.
pub open spec fn spec_split_from(s: Seq<char>, sep: char, i: int, cur: Seq<char>) -> Seq<Seq<char>>
    recommends
        0 <= i <= s.len(),
    decreases s.len() - i,
{
    if i < 0 || i >= s.len() {
        seq![cur]
    } else if s[i] == sep {
        seq![cur] + spec_split_from(s, sep, i + 1, Seq::<char>::empty())
    } else {
        spec_split_from(s, sep, i + 1, cur.push(s[i]))
    }
}

/// The segments of `s` between occurrences of `sep`, in order, possibly empty.
pub open spec fn spec_split(s: Seq<char>, sep: char) -> Seq<Seq<char>> {
    spec_split_from(s, sep, 0, Seq::<char>::empty())
}

/// The lines of `s`: its segments between newlines.
pub open spec fn spec_lines(s: Seq<char>) -> Seq<Seq<char>> {
    spec_split(s, '\n')
}

/// Splits `s` at every occurrence of `sep`.
pub fn split_at_char(s: &Vec<char>, sep: char) -> (r: Vec<Vec<char>>)
    ensures
        spec_views_of(r@) == spec_split(s@, sep),
{
    let mut out: Vec<Vec<char>> = Vec::new();
    let mut cur: Vec<char> = Vec::new();
    let mut i: usize = 0;
    proof {
        assert(spec_views_of(out@) =~= Seq::<Seq<char>>::empty());
        assert(Seq::<Seq<char>>::empty() + spec_split(s@, sep) =~= spec_split(s@, sep));
    }
    while i < s.len()
        invariant
            0 <= i <= s@.len(),
            spec_views_of(out@) + spec_split_from(s@, sep, i as int, cur@) == spec_split(s@, sep),
        decreases s@.len() - i,
    {
        if s[i] == sep {
            proof {
                assert(spec_split_from(s@, sep, i as int, cur@) == seq![cur@] + spec_split_from(
                    s@,
                    sep,
                    i + 1,
                    Seq::<char>::empty(),
                ));
            }
            let ghost vo = spec_views_of(out@);
            let ghost cv = cur@;
            out.push(cur);
            cur = Vec::new();
            proof {
                assert(cur@ =~= Seq::<char>::empty());
                assert(spec_views_of(out@) =~= vo.push(cv));
                assert(vo.push(cv) =~= vo + seq![cv]);
                assert((vo + seq![cv]) + spec_split_from(s@, sep, i + 1, cur@) =~= vo + (seq![cv]
                    + spec_split_from(s@, sep, i + 1, cur@)));
            }
        } else {
            proof {
                assert(spec_split_from(s@, sep, i as int, cur@) == spec_split_from(
                    s@,
                    sep,
                    i + 1,
                    cur@.push(s@[i as int]),
                ));
            }
            cur.push(s[i]);
        }
        i = i + 1;
    }
    proof {
        assert(spec_split_from(s@, sep, s@.len() as int, cur@) == seq![cur@]);
    }
    let ghost vo = spec_views_of(out@);
    let ghost cv = cur@;
    out.push(cur);
    proof {
        assert(spec_views_of(out@) =~= vo.push(cv));
        assert(vo.push(cv) =~= vo + seq![cv]);
        assert(spec_views_of(out@) =~= spec_split(s@, sep));
    }
    out
}

/// Splits `s` at newlines into its lines.
pub fn split_lines_chars(s: &Vec<char>) -> (r: Vec<Vec<char>>)
    ensures
        spec_views_of(r@) == spec_lines(s@),
{
    split_at_char(s, '\n')
}

/// The decimal digits of `n`, most significant first.
pub open spec fn spec_decimal(n: int) -> Seq<char>
    recommends
        n >= 0,
    decreases n,
{
    if n <= 9 {
        seq![spec_digit_char(if n < 0 { 0 } else { n })]
    } else {
        spec_decimal(n / 10) + seq![spec_digit_char(n % 10)]
    }
}

/// The character of one decimal digit.
pub open spec fn spec_digit_char(d: int) -> char {
    if d == 0 {
        '0'
    } else if d == 1 {
        '1'
    } else if d == 2 {
        '2'
    } else if d == 3 {
        '3'
    } else if d == 4 {
        '4'
    } else if d == 5 {
        '5'
    } else if d == 6 {
        '6'
    } else if d == 7 {
        '7'
    } else if d == 8 {
        '8'
    } else {
        '9'
    }
}

/// One decimal digit as a character.
fn digit_char(d: u64) -> (c: char)
    requires
        d <= 9,
    ensures
        c == spec_digit_char(d as int),
{
    match d {
        0 => '0',
        1 => '1',
        2 => '2',
        3 => '3',
        4 => '4',
        5 => '5',
        6 => '6',
        7 => '7',
        8 => '8',
        _ => '9',
    }
}

/// The decimal digits of `n`, most significant first.
pub fn decimal_chars(n: u64) -> (r: Vec<char>)
    ensures
        r@ == spec_decimal(n as int),
    decreases n,
{
    if n <= 9 {
        let mut r: Vec<char> = Vec::new();
        r.push(digit_char(n));
        proof {
            assert(r@ =~= spec_decimal(n as int));
        }
        r
    } else {
        let mut r = decimal_chars(n / 10);
        r.push(digit_char(n % 10));
        proof {
            assert(r@ =~= spec_decimal(n as int / 10) + seq![spec_digit_char(n as int % 10)]);
        }
        r
    }
}

/// Appends the decimal form of `n` to a string.
pub fn append_decimal(s: &mut String, n: u64)
    ensures
        final(s)@ == old(s)@ + spec_decimal(n as int),
{
    let digits = decimal_chars(n);
    let mut i: usize = 0;
    while i < digits.len()
        invariant
            0 <= i <= digits@.len(),
            digits@ == spec_decimal(n as int),
            s@ == old(s)@ + digits@.take(i as int),
        decreases digits@.len() - i,
    {
        push_char(s, digits[i]);
        proof {
            assert(old(s)@ + digits@.take(i + 1) =~= (old(s)@ + digits@.take(i as int)).push(
                digits@[i as int],
            ));
        }
        i = i + 1;
    }
    proof {
        assert(digits@.take(digits@.len() as int) == digits@);
    }
}

} // verus!
