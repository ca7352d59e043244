//! Character-level text operations with their mathematical meaning.
//!
//! Strings are modelled by their view, a `Seq<char>`. The executable helpers
//! work on `Vec<char>` and are proved against the spec functions below.
use vstd::prelude::*;

verus! {

/// `p` is a prefix of `s`.
pub open spec fn has_prefix(s: Seq<char>, p: Seq<char>) -> bool {
    p.len() <= s.len() && s.subrange(0, p.len() as int) == p
}

/// `p` is a suffix of `s`.
pub open spec fn has_suffix(s: Seq<char>, p: Seq<char>) -> bool {
    p.len() <= s.len() && s.subrange(s.len() - p.len(), s.len() as int) == p
}

/// `p` occurs in `s` starting at position `i`.
pub open spec fn occurs_at(s: Seq<char>, p: Seq<char>, i: int) -> bool {
    0 <= i && i + p.len() <= s.len() && s.subrange(i, i + p.len()) == p
}

/// `p` occurs somewhere in `s`.
pub open spec fn contains_seq(s: Seq<char>, p: Seq<char>) -> bool {
    exists|i: int| occurs_at(s, p, i)
}

/// `c` occurs in `s`.
pub open spec fn contains_char(s: Seq<char>, c: char) -> bool {
    exists|i: int| 0 <= i < s.len() && s[i] == c
}

/// No character of `s` is a line feed.
pub open spec fn no_newline(s: Seq<char>) -> bool {
    forall|i: int| 0 <= i < s.len() ==> s[i] != '\n'
}

/// Every occurrence of `pat` in `s`, found left to right without overlap,
/// replaced by `rep` (the meaning of `str::replace`).
pub open spec fn replace_all(s: Seq<char>, pat: Seq<char>, rep: Seq<char>) -> Seq<char>
    decreases s.len(),
{
    if pat.len() == 0 || s.len() < pat.len() {
        s
    } else if has_prefix(s, pat) {
        rep + replace_all(s.skip(pat.len() as int), pat, rep)
    } else {
        seq![s[0]] + replace_all(s.drop_first(), pat, rep)
    }
}

/// `s` with every occurrence of the character `c` removed.
pub open spec fn remove_char(s: Seq<char>, c: char) -> Seq<char>
    decreases s.len(),
{
    if s.len() == 0 {
        s
    } else if s[0] == c {
        remove_char(s.drop_first(), c)
    } else {
        seq![s[0]] + remove_char(s.drop_first(), c)
    }
}

/// Position of the first occurrence of `c` in `s`, or `s.len()` when there is none.
pub open spec fn first_index_of(s: Seq<char>, c: char) -> int
    decreases s.len(),
{
    if s.len() == 0 {
        0
    } else if s[0] == c {
        0
    } else {
        1 + first_index_of(s.drop_first(), c)
    }
}

/// The pieces of `s` between occurrences of `sep` (the meaning of `str::split`
/// with a one-character pattern): always at least one piece.
pub open spec fn split_on(s: Seq<char>, sep: char) -> Seq<Seq<char>>
    decreases s.len(),
{
    proof {
        lemma_first_index_of_bounds(s, sep);
    }
    let i = first_index_of(s, sep);
    if i >= s.len() {
        seq![s]
    } else {
        seq![s.take(i)] + split_on(s.skip(i + 1), sep)
    }
}

/// The first index of a character lies within the text (or at its end).
pub proof fn lemma_first_index_of_bounds(s: Seq<char>, c: char)
    ensures
        0 <= first_index_of(s, c) <= s.len(),
        first_index_of(s, c) < s.len() ==> s[first_index_of(s, c)] == c,
        forall|j: int| 0 <= j < first_index_of(s, c) ==> s[j] != c,
    decreases s.len(),
{
    if s.len() > 0 && s[0] != c {
        lemma_first_index_of_bounds(s.drop_first(), c);
        assert forall|j: int| 0 <= j < first_index_of(s, c) implies s[j] != c by {
            if j > 0 {
                assert(s[j] == s.drop_first()[j - 1]);
            }
        }
    }
}

/// The pieces joined with `sep` between neighbours (the meaning of `join`).
pub open spec fn join_with(parts: Seq<Seq<char>>, sep: Seq<char>) -> Seq<char>
    decreases parts.len(),
{
    if parts.len() == 0 {
        Seq::empty()
    } else if parts.len() == 1 {
        parts[0]
    } else {
        join_with(parts.drop_last(), sep) + sep + parts.last()
    }
}

/// The two-character sequence `//`.
pub open spec fn double_slash() -> Seq<char> {
    seq!['/', '/']
}

/// The one-character sequence `/`.
pub open spec fn single_slash() -> Seq<char> {
    seq!['/']
}

/// Replacing an occurrence of `pat` by a shorter `rep` never makes the text longer,
/// and makes it strictly shorter when `pat` occurs.
pub proof fn lemma_replace_all_shrinks(s: Seq<char>, pat: Seq<char>, rep: Seq<char>)
    requires
        pat.len() > 0,
        rep.len() < pat.len(),
    ensures
        replace_all(s, pat, rep).len() <= s.len(),
        contains_seq(s, pat) ==> replace_all(s, pat, rep).len() < s.len(),
    decreases s.len(),
{
    if s.len() < pat.len() {
        if contains_seq(s, pat) {
            let i = choose|i: int| occurs_at(s, pat, i);
            assert(false);
        }
    } else if has_prefix(s, pat) {
        lemma_replace_all_shrinks(s.skip(pat.len() as int), pat, rep);
    } else {
        lemma_replace_all_shrinks(s.drop_first(), pat, rep);
        if contains_seq(s, pat) {
            let i = choose|i: int| occurs_at(s, pat, i);
            if i == 0 {
                assert(s.subrange(0, pat.len() as int) == pat);
                assert(false);
            } else {
                assert(s.drop_first().subrange(i - 1, i - 1 + pat.len()) =~= s.subrange(
                    i,
                    i + pat.len(),
                ));
                assert(occurs_at(s.drop_first(), pat, i - 1));
            }
        }
    }
}

/// The text with runs of `/` repeatedly halved until no `//` remains: the
/// result of replacing `//` by `/` for as long as `//` occurs.
pub open spec fn collapse_double_slashes(s: Seq<char>) -> Seq<char>
    decreases s.len(),
{
    if contains_seq(s, double_slash()) {
        proof {
            lemma_replace_all_shrinks(s, double_slash(), single_slash());
        }
        collapse_double_slashes(replace_all(s, double_slash(), single_slash()))
    } else {
        s
    }
}

/// After collapsing, `//` never occurs.
pub proof fn lemma_collapse_has_no_double_slash(s: Seq<char>)
    ensures
        !contains_seq(collapse_double_slashes(s), double_slash()),
    decreases s.len(),
{
    if contains_seq(s, double_slash()) {
        lemma_replace_all_shrinks(s, double_slash(), single_slash());
        lemma_collapse_has_no_double_slash(replace_all(s, double_slash(), single_slash()));
    }
}

/// The characters of a string slice, in order.
pub fn chars_of(s: &str) -> (v: Vec<char>)
    ensures
        v@ == s@,
{
    let n = s.unicode_len();
    let mut v: Vec<char> = Vec::new();
    let mut i: usize = 0;
    while i < n
        invariant
            n == s@.len(),
            i <= n,
            v@ == s@.take(i as int),
        decreases n - i,
    {
        let c = s.get_char(i);
        v.push(c);
        i = i + 1;
        assert(v@ =~= s@.take(i as int));
    }
    assert(v@ =~= s@);
    v
}

/// A string made of the given characters.
pub fn string_of(v: &Vec<char>) -> (s: String)
    ensures
        s@ == v@,
{
    let mut s = String::new();
    let mut i: usize = 0;
    while i < v.len()
        invariant
            i <= v.len(),
            s@ == v@.take(i as int),
        decreases v.len() - i,
    {
        s.push(v[i]);
        i = i + 1;
        assert(s@ =~= v@.take(i as int));
    }
    assert(s@ =~= v@);
    s
}

/// The concatenation of two character sequences.
pub fn concat(a: &Vec<char>, b: &Vec<char>) -> (r: Vec<char>)
    ensures
        r@ == a@ + b@,
{
    let mut r = a.clone();
    let mut i: usize = 0;
    while i < b.len()
        invariant
            i <= b.len(),
            r@ == a@ + b@.take(i as int),
        decreases b.len() - i,
    {
        r.push(b[i]);
        i = i + 1;
        assert(r@ =~= a@ + b@.take(i as int));
    }
    assert(b@.take(b.len() as int) =~= b@);
    r
}

/// The characters of `s` from position `from` on.
pub fn skip_chars(s: &Vec<char>, from: usize) -> (r: Vec<char>)
    requires
        from <= s.len(),
    ensures
        r@ == s@.skip(from as int),
{
    let mut r: Vec<char> = Vec::new();
    let mut i: usize = from;
    while i < s.len()
        invariant
            from <= i <= s.len(),
            r@ == s@.subrange(from as int, i as int),
        decreases s.len() - i,
    {
        r.push(s[i]);
        i = i + 1;
        assert(r@ =~= s@.subrange(from as int, i as int));
    }
    assert(r@ =~= s@.skip(from as int));
    r
}

/// The first `n` characters of `s`.
pub fn take_chars(s: &Vec<char>, n: usize) -> (r: Vec<char>)
    requires
        n <= s.len(),
    ensures
        r@ == s@.take(n as int),
{
    let mut r: Vec<char> = Vec::new();
    let mut i: usize = 0;
    while i < n
        invariant
            n <= s.len(),
            i <= n,
            r@ == s@.take(i as int),
        decreases n - i,
    {
        r.push(s[i]);
        i = i + 1;
        assert(r@ =~= s@.take(i as int));
    }
    r
}

/// Two character sequences are equal.
pub fn chars_eq(a: &Vec<char>, b: &Vec<char>) -> (r: bool)
    ensures
        r == (a@ == b@),
{
    if a.len() != b.len() {
        return false;
    }
    let mut i: usize = 0;
    while i < a.len()
        invariant
            a.len() == b.len(),
            i <= a.len(),
            a@.take(i as int) == b@.take(i as int),
        decreases a.len() - i,
    {
        if a[i] != b[i] {
            assert(a@[i as int] != b@[i as int]);
            return false;
        }
        assert(a@.take(i + 1) =~= a@.take(i as int).push(a@[i as int]));
        assert(b@.take(i + 1) =~= b@.take(i as int).push(b@[i as int]));
        i = i + 1;
    }
    assert(a@ =~= a@.take(a.len() as int));
    assert(b@ =~= b@.take(b.len() as int));
    true
}

/// Two string slices hold the same characters.
pub fn str_eq(a: &str, b: &str) -> (r: bool)
    ensures
        r == (a@ == b@),
{
    let va = chars_of(a);
    let vb = chars_of(b);
    chars_eq(&va, &vb)
}

/// `p` occurs in `s` at position `at`.
pub fn occurs_at_exec(s: &Vec<char>, p: &Vec<char>, at: usize) -> (r: bool)
    ensures
        r == occurs_at(s@, p@, at as int),
{
    if p.len() > s.len() || at > s.len() - p.len() {
        return false;
    }
    let mut i: usize = 0;
    while i < p.len()
        invariant
            at + p.len() <= s.len(),
            i <= p.len(),
            forall|j: int| 0 <= j < i ==> s@[at + j] == p@[j],
        decreases p.len() - i,
    {
        if s[at + i] != p[i] {
            assert(s@.subrange(at as int, at + p.len())[i as int] != p@[i as int]);
            return false;
        }
        i = i + 1;
    }
    assert(s@.subrange(at as int, at + p.len()) =~= p@);
    true
}

/// `p` is a prefix of `s`.
pub fn starts_with(s: &Vec<char>, p: &Vec<char>) -> (r: bool)
    ensures
        r == has_prefix(s@, p@),
{
    occurs_at_exec(s, p, 0)
}

/// `p` is a suffix of `s`.
pub fn ends_with(s: &Vec<char>, p: &Vec<char>) -> (r: bool)
    ensures
        r == has_suffix(s@, p@),
{
    if p.len() > s.len() {
        return false;
    }
    occurs_at_exec(s, p, s.len() - p.len())
}

/// `p` occurs somewhere in `s`.
pub fn contains(s: &Vec<char>, p: &Vec<char>) -> (r: bool)
    ensures
        r == contains_seq(s@, p@),
{
    if p.len() == 0 {
        assert(s@.subrange(0, 0) =~= p@);
        assert(occurs_at(s@, p@, 0));
        return true;
    }
    let mut i: usize = 0;
    while i < s.len()
        invariant
            p.len() > 0,
            i <= s.len(),
            forall|j: int| 0 <= j < i ==> !occurs_at(s@, p@, j),
        decreases s.len() - i,
    {
        if s.len() - i < p.len() {
            assert forall|j: int| 0 <= j implies !occurs_at(s@, p@, j) by {
                if j >= i {
                    assert(j + p.len() > s.len());
                }
            }
            return false;
        }
        if occurs_at_exec(s, p, i) {
            return true;
        }
        i = i + 1;
    }
    assert forall|j: int| 0 <= j implies !occurs_at(s@, p@, j) by {
        if j >= i {
            assert(j + p.len() > s.len());
        }
    }
    false
}

/// The character `c` occurs in `s`.
pub fn contains_char_exec(s: &Vec<char>, c: char) -> (r: bool)
    ensures
        r == contains_char(s@, c),
{
    let mut i: usize = 0;
    while i < s.len()
        invariant
            i <= s.len(),
            forall|j: int| 0 <= j < i ==> s@[j] != c,
        decreases s.len() - i,
    {
        if s[i] == c {
            return true;
        }
        i = i + 1;
    }
    false
}

/// Unfolding `replace_all` one step on a suffix of the input.
proof fn lemma_replace_all_step(s: Seq<char>, pat: Seq<char>, rep: Seq<char>, i: int)
    requires
        pat.len() > 0,
        0 <= i < s.len(),
    ensures
        occurs_at(s, pat, i) ==> replace_all(s.skip(i), pat, rep) == rep + replace_all(
            s.skip(i + pat.len()),
            pat,
            rep,
        ),
        !occurs_at(s, pat, i) ==> replace_all(s.skip(i), pat, rep) == seq![s[i]]
            + replace_all(s.skip(i + 1), pat, rep),
{
    let t = s.skip(i);
    if occurs_at(s, pat, i) {
        assert(t.subrange(0, pat.len() as int) =~= s.subrange(i, i + pat.len()));
        assert(t.skip(pat.len() as int) =~= s.skip(i + pat.len()));
    } else {
        assert(t.drop_first() =~= s.skip(i + 1));
        if t.len() < pat.len() {
            lemma_replace_all_identity_when_short(t.drop_first(), pat, rep);
            assert(t =~= seq![s[i]] + t.drop_first());
        } else {
            assert(t.subrange(0, pat.len() as int) =~= s.subrange(i, i + pat.len()));
        }
    }
}

/// A text shorter than the pattern is left unchanged.
proof fn lemma_replace_all_identity_when_short(s: Seq<char>, pat: Seq<char>, rep: Seq<char>)
    requires
        s.len() < pat.len(),
    ensures
        replace_all(s, pat, rep) == s,
{
}

/// Every occurrence of `pat` in `s` replaced by `rep`, left to right.
pub fn replace_all_exec(s: &Vec<char>, pat: &Vec<char>, rep: &Vec<char>) -> (r: Vec<char>)
    requires
        pat.len() > 0,
    ensures
        r@ == replace_all(s@, pat@, rep@),
{
    let mut out: Vec<char> = Vec::new();
    let mut i: usize = 0;
    assert(s@.skip(0) =~= s@);
    assert(out@ + replace_all(s@, pat@, rep@) =~= replace_all(s@, pat@, rep@));
    while i < s.len()
        invariant
            pat.len() > 0,
            i <= s.len(),
            replace_all(s@, pat@, rep@) == out@ + replace_all(s@.skip(i as int), pat@, rep@),
        decreases s.len() - i,
    {
        proof {
            lemma_replace_all_step(s@, pat@, rep@, i as int);
        }
        if occurs_at_exec(s, pat, i) {
            let ghost old_out = out@;
            let mut j: usize = 0;
            while j < rep.len()
                invariant
                    j <= rep.len(),
                    out@ == old_out + rep@.take(j as int),
                decreases rep.len() - j,
            {
                out.push(rep[j]);
                j = j + 1;
                assert(out@ =~= old_out + rep@.take(j as int));
            }
            assert(rep@.take(rep.len() as int) =~= rep@);
            assert(out@ + replace_all(s@.skip(i + pat.len()), pat@, rep@) =~= old_out + (rep@
                + replace_all(s@.skip(i + pat.len()), pat@, rep@)));
            i = i + pat.len();
        } else {
            let ghost old_out = out@;
            out.push(s[i]);
            assert(out@ + replace_all(s@.skip(i + 1), pat@, rep@) =~= old_out + (seq![s@[i as int]]
                + replace_all(s@.skip(i + 1), pat@, rep@)));
            i = i + 1;
        }
    }
    assert(s@.skip(i as int) =~= Seq::<char>::empty());
    assert(out@ + Seq::<char>::empty() =~= out@);
    out
}

/// `s` with every `c` removed.
pub fn remove_char_exec(s: &Vec<char>, c: char) -> (r: Vec<char>)
    ensures
        r@ == remove_char(s@, c),
{
    let mut out: Vec<char> = Vec::new();
    let mut k: usize = 0;
    assert(s@.skip(0) =~= s@);
    assert(out@ + remove_char(s@, c) =~= remove_char(s@, c));
    while k < s.len()
        invariant
            k <= s.len(),
            remove_char(s@, c) == out@ + remove_char(s@.skip(k as int), c),
        decreases s.len() - k,
    {
        let ghost rest = s@.skip(k as int);
        assert(rest.drop_first() =~= s@.skip(k + 1));
        if s[k] != c {
            let ghost old_out = out@;
            out.push(s[k]);
            assert(out@ + remove_char(s@.skip(k + 1), c) =~= old_out + (seq![s@[k as int]]
                + remove_char(s@.skip(k + 1), c)));
        }
        k = k + 1;
    }
    assert(s@.skip(k as int) =~= Seq::<char>::empty());
    assert(out@ + Seq::<char>::empty() =~= out@);
    out
}

/// Repeatedly replaces `//` by `/` until `//` no longer occurs.
pub fn collapse_double_slashes_exec(s: &Vec<char>) -> (r: Vec<char>)
    ensures
        r@ == collapse_double_slashes(s@),
        !contains_seq(r@, double_slash()),
{
    let dslash: Vec<char> = vec!['/', '/'];
    let slash: Vec<char> = vec!['/'];
    assert(dslash@ =~= double_slash());
    assert(slash@ =~= single_slash());
    let mut cur = s.clone();
    while contains(&cur, &dslash)
        invariant
            dslash@ == double_slash(),
            slash@ == single_slash(),
            collapse_double_slashes(cur@) == collapse_double_slashes(s@),
        decreases cur@.len(),
    {
        proof {
            lemma_replace_all_shrinks(cur@, double_slash(), single_slash());
        }
        cur = replace_all_exec(&cur, &dslash, &slash);
    }
    proof {
        lemma_collapse_has_no_double_slash(s@);
    }
    cur
}

} // verus!

verus! {

/// The Unicode `White_Space` characters: the ones `char::is_whitespace`
/// accepts and `str::trim` removes.
pub open spec fn is_white_space(c: char) -> bool {
    let u = c as u32;
    (0x09 <= u <= 0x0d) || u == 0x20 || u == 0x85 || u == 0xa0 || u == 0x1680 || (0x2000 <= u
        <= 0x200a) || u == 0x2028 || u == 0x2029 || u == 0x202f || u == 0x205f || u == 0x3000
}

/// `s` without its leading white space.
pub open spec fn trim_start(s: Seq<char>) -> Seq<char>
    decreases s.len(),
{
    if s.len() > 0 && is_white_space(s[0]) {
        trim_start(s.drop_first())
    } else {
        s
    }
}

/// `s` without its trailing white space.
pub open spec fn trim_end(s: Seq<char>) -> Seq<char>
    decreases s.len(),
{
    if s.len() > 0 && is_white_space(s.last()) {
        trim_end(s.drop_last())
    } else {
        s
    }
}

/// `s` without leading and trailing white space (the meaning of `str::trim`).
pub open spec fn trim(s: Seq<char>) -> Seq<char> {
    trim_end(trim_start(s))
}

/// `c` is a `White_Space` character.
pub fn is_white_space_exec(c: char) -> (r: bool)
    ensures
        r == is_white_space(c),
{
    let u = c as u32;
    (0x09 <= u && u <= 0x0d) || u == 0x20 || u == 0x85 || u == 0xa0 || u == 0x1680 || (0x2000 <= u
        && u <= 0x200a) || u == 0x2028 || u == 0x2029 || u == 0x202f || u == 0x205f || u == 0x3000
}

/// The characters of `s` without leading and trailing white space.
pub fn trim_chars(s: &Vec<char>) -> (r: Vec<char>)
    ensures
        r@ == trim(s@),
{
    let mut i: usize = 0;
    assert(s@.skip(0) =~= s@);
    while i < s.len() && is_white_space_exec(s[i])
        invariant
            i <= s.len(),
            trim_start(s@) == trim_start(s@.skip(i as int)),
        decreases s.len() - i,
    {
        assert(s@.skip(i as int).drop_first() =~= s@.skip(i + 1));
        i = i + 1;
    }
    let ghost t = s@.skip(i as int);
    assert(trim_start(t) == t);
    let mut j: usize = s.len();
    assert(t.take(t.len() as int) =~= t);
    while j > i && is_white_space_exec(s[j - 1])
        invariant
            i <= j <= s.len(),
            t == s@.skip(i as int),
            trim_end(t) == trim_end(t.take(j - i)),
        decreases j,
    {
        assert(t.take(j - i).drop_last() =~= t.take(j - 1 - i));
        assert(t.take(j - i).last() == s@[j - 1]);
        j = j - 1;
    }
    assert(j > i ==> t.take(j - i).last() == s@[j - 1]);
    let mut r: Vec<char> = Vec::new();
    let mut k: usize = i;
    while k < j
        invariant
            i <= k <= j <= s.len(),
            r@ == s@.subrange(i as int, k as int),
        decreases j - k,
    {
        r.push(s[k]);
        k = k + 1;
        assert(r@ =~= s@.subrange(i as int, k as int));
    }
    assert(r@ =~= t.take(j - i));
    r
}

/// A string slice without leading and trailing white space, as a new string.
pub fn trimmed(s: &str) -> (r: String)
    ensures
        r@ == trim(s@),
{
    let v = chars_of(s);
    string_of(&trim_chars(&v))
}

} // verus!

verus! {

/// The position of the first `c` in `s`, or `s.len()` when `c` does not occur.
pub fn first_index_of_exec(s: &Vec<char>, c: char) -> (r: usize)
    ensures
        r == first_index_of(s@, c),
        r <= s.len(),
{
    proof {
        lemma_first_index_of_bounds(s@, c);
    }
    let mut i: usize = 0;
    while i < s.len() && s[i] != c
        invariant
            i <= s.len(),
            forall|j: int| 0 <= j < i ==> s@[j] != c,
        decreases s.len() - i,
    {
        i = i + 1;
    }
    proof {
        lemma_first_index_of_is(s@, c, i as int);
    }
    i
}

/// `first_index_of` is the first position holding `c` (or the length).
pub proof fn lemma_first_index_of_is(s: Seq<char>, c: char, k: int)
    requires
        0 <= k <= s.len(),
        k < s.len() ==> s[k] == c,
        forall|j: int| 0 <= j < k ==> s[j] != c,
    ensures
        first_index_of(s, c) == k,
    decreases s.len(),
{
    if s.len() > 0 && s[0] != c {
        assert forall|j: int| 0 <= j < k - 1 implies s.drop_first()[j] != c by {
            assert(s.drop_first()[j] == s[j + 1]);
        }
        lemma_first_index_of_is(s.drop_first(), c, k - 1);
    }
}

/// The character sequences held by a vector of vectors.
pub open spec fn views_of(v: Seq<Vec<char>>) -> Seq<Seq<char>> {
    v.map_values(|x: Vec<char>| x@)
}

/// The pieces of `s` between occurrences of `sep`.
pub fn split_on_exec(s: &Vec<char>, sep: char) -> (r: Vec<Vec<char>>)
    ensures
        views_of(r@) == split_on(s@, sep),
{
    let mut out: Vec<Vec<char>> = Vec::new();
    let mut start: usize = 0;
    let mut i: usize = 0;
    assert(s@.skip(0) =~= s@);
    assert(views_of(out@) + split_on(s@, sep) =~= split_on(s@, sep));
    while i < s.len()
        invariant
            start <= i <= s.len(),
            views_of(out@) + split_on(s@.skip(start as int), sep) == split_on(s@, sep),
            forall|j: int| start <= j < i ==> s@[j] != sep,
        decreases s.len() - i,
    {
        if s[i] == sep {
            let ghost t = s@.skip(start as int);
            proof {
                assert forall|j: int| 0 <= j < i - start implies t[j] != sep by {
                    assert(t[j] == s@[start + j]);
                }
                lemma_first_index_of_is(t, sep, i - start);
                assert(t.take(i - start) =~= s@.subrange(start as int, i as int));
                assert(t.skip(i - start + 1) =~= s@.skip(i + 1));
            }
            let piece = take_chars(&skip_chars(s, start), i - start);
            let ghost old_out = out@;
            out.push(piece);
            assert(views_of(out@) =~= views_of(old_out).push(piece@));
            assert(views_of(out@) + split_on(s@.skip(i + 1), sep) =~= views_of(old_out) + split_on(
                t,
                sep,
            ));
            start = i + 1;
        }
        i = i + 1;
    }
    let ghost t = s@.skip(start as int);
    proof {
        assert forall|j: int| 0 <= j < t.len() implies t[j] != sep by {
            assert(t[j] == s@[start + j]);
        }
        lemma_first_index_of_is(t, sep, t.len() as int);
    }
    let piece = skip_chars(s, start);
    let ghost old_out = out@;
    out.push(piece);
    assert(views_of(out@) =~= views_of(old_out) + seq![t]);
    out
}

/// Joining one more piece appends the separator and the piece.
pub proof fn lemma_join_with_push(parts: Seq<Seq<char>>, sep: Seq<char>, i: int)
    requires
        1 <= i < parts.len(),
    ensures
        join_with(parts.take(i + 1), sep) == join_with(parts.take(i), sep) + sep + parts[i],
{
    assert(parts.take(i + 1).drop_last() =~= parts.take(i));
}

/// The pieces joined with `sep` between neighbours.
pub fn join_with_exec(parts: &Vec<Vec<char>>, sep: &Vec<char>) -> (r: Vec<char>)
    ensures
        r@ == join_with(views_of(parts@), sep@),
{
    if parts.len() == 0 {
        return Vec::new();
    }
    let mut out = parts[0].clone();
    let mut i: usize = 1;
    assert(views_of(parts@).take(1) =~= seq![parts@[0]@]);
    while i < parts.len()
        invariant
            1 <= i <= parts.len(),
            out@ == join_with(views_of(parts@).take(i as int), sep@),
        decreases parts.len() - i,
    {
        proof {
            lemma_join_with_push(views_of(parts@), sep@, i as int);
        }
        out = concat(&concat(&out, sep), &parts[i]);
        i = i + 1;
    }
    assert(views_of(parts@).take(i as int) =~= views_of(parts@));
    out
}

} // verus!
