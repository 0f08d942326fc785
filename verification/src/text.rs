//! Character-level text routines: whitespace trimming and splitting,
//! substring search, joining, and the conversions between `&str`,
//! `String` and vectors of characters that the rest of the crate uses.
use vstd::prelude::*;

verus! {

/// Whitespace in the sense of Unicode's `White_Space` property, the set
/// that `char::is_whitespace` tests for.
pub open spec fn is_white_space(c: char) -> bool {
    let x = c as u32;
    ||| 9 <= x <= 13
    ||| x == 32
    ||| x == 0x85
    ||| x == 0xa0
    ||| x == 0x1680
    ||| 0x2000 <= x <= 0x200a
    ||| x == 0x2028
    ||| x == 0x2029
    ||| x == 0x202f
    ||| x == 0x205f
    ||| x == 0x3000
}

/// `s` without its leading whitespace.
pub open spec fn trim_start_spec(s: Seq<char>) -> Seq<char>
    decreases s.len(),
{
    if s.len() > 0 && is_white_space(s[0]) {
        trim_start_spec(s.drop_first())
    } else {
        s
    }
}

/// `s` without its trailing whitespace.
pub open spec fn trim_end_spec(s: Seq<char>) -> Seq<char>
    decreases s.len(),
{
    if s.len() > 0 && is_white_space(s.last()) {
        trim_end_spec(s.drop_last())
    } else {
        s
    }
}

/// `s` without leading and trailing whitespace (what `str::trim` returns).
pub open spec fn trim_spec(s: Seq<char>) -> Seq<char> {
    trim_end_spec(trim_start_spec(s))
}

/// Number of characters at the front of `s` before the first whitespace.
pub open spec fn word_len(s: Seq<char>) -> nat
    decreases s.len(),
{
    if s.len() == 0 || is_white_space(s[0]) {
        0
    } else {
        1 + word_len(s.drop_first())
    }
}

/// The maximal runs of non-whitespace characters of `s`, in order
/// (what `str::split_whitespace` yields).
pub open spec fn split_whitespace_spec(s: Seq<char>) -> Seq<Seq<char>>
    decreases s.len(),
{
    if s.len() == 0 {
        seq![]
    } else if is_white_space(s[0]) {
        split_whitespace_spec(s.drop_first())
    } else {
        let n = word_len(s);
        proof {
            lemma_word_len_bound(s);
        }
        seq![s.take(n as int)] + split_whitespace_spec(s.skip(n as int))
    }
}

/// The elements of `parts`, with `sep` between each two neighbours.
pub open spec fn join_spec(parts: Seq<Seq<char>>, sep: Seq<char>) -> Seq<char>
    decreases parts.len(),
{
    if parts.len() == 0 {
        seq![]
    } else if parts.len() == 1 {
        parts[0]
    } else {
        join_spec(parts.drop_last(), sep) + sep + parts.last()
    }
}

/// The elements of `parts` one after the other.
pub open spec fn concat_spec(parts: Seq<Seq<char>>) -> Seq<char>
    decreases parts.len(),
{
    if parts.len() == 0 {
        seq![]
    } else {
        concat_spec(parts.drop_last()) + parts.last()
    }
}

/// `s` with its whitespace runs collapsed to single spaces and its ends
/// trimmed: `s.split_whitespace().collect::<Vec<_>>().join(" ")`.
pub open spec fn collapse_whitespace_spec(s: Seq<char>) -> Seq<char> {
    join_spec(split_whitespace_spec(s), seq![' '])
}

/// `p` occurs in `s` as a contiguous run of characters.
pub open spec fn contains_spec(s: Seq<char>, p: Seq<char>) -> bool {
    exists|i: int| 0 <= i <= s.len() - p.len() && #[trigger] s.subrange(i, i + p.len()) == p
}

/// `s` begins with `p`.
pub open spec fn starts_with_spec(s: Seq<char>, p: Seq<char>) -> bool {
    p.len() <= s.len() && s.subrange(0, p.len() as int) == p
}

/// `s` ends with `p`.
pub open spec fn ends_with_spec(s: Seq<char>, p: Seq<char>) -> bool {
    p.len() <= s.len() && s.subrange(s.len() - p.len(), s.len() as int) == p
}

/// What follows the last `sep` in `s`, or all of `s` when `sep` does not
/// occur (the last item of `str::split(sep)`).
pub open spec fn last_piece_spec(s: Seq<char>, sep: char) -> Seq<char>
    decreases s.len(),
{
    if s.len() == 0 {
        s
    } else if s.last() == sep {
        seq![]
    } else {
        last_piece_spec(s.drop_last(), sep).push(s.last())
    }
}

/// The pieces of `s` between occurrences of `sep`, in order (what
/// `str::split(sep)` yields); there is always at least one piece.
pub open spec fn split_spec(s: Seq<char>, sep: char) -> Seq<Seq<char>>
    decreases s.len(),
{
    if s.len() == 0 {
        seq![seq![]]
    } else {
        let rest = split_spec(s.drop_last(), sep);
        if s.last() == sep {
            rest.push(seq![])
        } else {
            rest.update(rest.len() - 1, rest.last().push(s.last()))
        }
    }
}

/// `s` without every trailing `c` (what `str::trim_end_matches(c)` returns).
pub open spec fn trim_end_char_spec(s: Seq<char>, c: char) -> Seq<char>
    decreases s.len(),
{
    if s.len() > 0 && s.last() == c {
        trim_end_char_spec(s.drop_last(), c)
    } else {
        s
    }
}

/// Code point of the ASCII lower case of `c`; other characters keep theirs.
pub open spec fn ascii_lower(c: char) -> u32 {
    if 65 <= (c as u32) <= 90 {
        (c as u32 + 32) as u32
    } else {
        c as u32
    }
}

/// `a` and `b` are equal up to ASCII case (`str::eq_ignore_ascii_case`).
pub open spec fn eq_ignore_ascii_case_spec(a: Seq<char>, b: Seq<char>) -> bool {
    a.len() == b.len() && forall|i: int| 0 <= i < a.len() ==> ascii_lower(#[trigger] a[i]) == ascii_lower(b[i])
}

/// The lower-case mapping of `s` that `str::to_lowercase` computes (Unicode's
/// full case mapping, which a few lines cannot state).
pub uninterp spec fn lowercase(s: Seq<char>) -> Seq<char>;

/// Trusted: `str::to_lowercase`, whose result is a function of the
/// characters of `s` alone (it depends on no locale). The contract names it.
#[verifier::external_body]
pub(crate) fn to_lowercase(s: &str) -> (r: String)
    ensures
        r@ == lowercase(s@),
{
    s.to_lowercase()
}

/// Trusted: `String::push`, which appends one character.
#[verifier::external_body]
fn push_char(s: &mut String, c: char)
    ensures
        final(s)@ == old(s)@.push(c),
{
    s.push(c)
}

/// The characters of `s`, in order.
pub fn chars_of(s: &str) -> (v: Vec<char>)
    ensures
        v@ == s@,
{
    let mut v: Vec<char> = Vec::new();
    for c in it: s.chars()
        invariant
            it.seq() == s@,
            v@ == it.seq().take(it.index() as int),
    {
        v.push(c);
    }
    v
}

/// The characters `v[from..to]` as a `String`.
pub fn string_of(v: &Vec<char>, from: usize, to: usize) -> (r: String)
    requires
        from <= to <= v@.len(),
    ensures
        r@ == v@.subrange(from as int, to as int),
{
    let mut r = String::new();
    let mut i = from;
    while i < to
        invariant
            from <= i <= to <= v@.len(),
            r@ == v@.subrange(from as int, i as int),
        decreases to - i,
    {
        push_char(&mut r, v[i]);
        i = i + 1;
        assert(r@ =~= v@.subrange(from as int, i as int));
    }
    r
}

/// A copy of `s` as a `String`.
pub fn owned(s: &str) -> (r: String)
    ensures
        r@ == s@,
{
    s.to_owned()
}

/// Whether `c` is whitespace (`char::is_whitespace`).
pub fn is_whitespace(c: char) -> (r: bool)
    ensures
        r == is_white_space(c),
{
    let x = c as u32;
    (9 <= x && x <= 13) || x == 32 || x == 0x85 || x == 0xa0 || x == 0x1680 || (0x2000 <= x && x
        <= 0x200a) || x == 0x2028 || x == 0x2029 || x == 0x202f || x == 0x205f || x == 0x3000
}

proof fn lemma_trim_start_step(s: Seq<char>, i: int)
    requires
        0 <= i < s.len(),
        is_white_space(s[i]),
    ensures
        trim_start_spec(s.skip(i)) == trim_start_spec(s.skip(i + 1)),
{
    assert(s.skip(i).drop_first() =~= s.skip(i + 1));
}

proof fn lemma_trim_end_step(s: Seq<char>, a: int, b: int)
    requires
        0 <= a < b <= s.len(),
        is_white_space(s[b - 1]),
    ensures
        trim_end_spec(s.subrange(a, b)) == trim_end_spec(s.subrange(a, b - 1)),
{
    assert(s.subrange(a, b).drop_last() =~= s.subrange(a, b - 1));
}

/// Bounds of `trim_spec(v@)` inside `v`.
pub fn trim_bounds(v: &Vec<char>) -> (r: (usize, usize))
    ensures
        r.0 <= r.1 <= v@.len(),
        v@.subrange(r.0 as int, r.1 as int) == trim_spec(v@),
{
    let n = v.len();
    let mut start: usize = 0;
    assert(v@.skip(0) =~= v@);
    while start < n && is_whitespace(v[start])
        invariant
            start <= n == v@.len(),
            trim_start_spec(v@) == trim_start_spec(v@.skip(start as int)),
        decreases n - start,
    {
        proof {
            lemma_trim_start_step(v@, start as int);
        }
        start = start + 1;
    }
    assert(trim_start_spec(v@) == v@.subrange(start as int, n as int)) by {
        assert(v@.skip(start as int) =~= v@.subrange(start as int, n as int));
    }
    let mut end: usize = n;
    while end > start && is_whitespace(v[end - 1])
        invariant
            start <= end <= n == v@.len(),
            trim_spec(v@) == trim_end_spec(v@.subrange(start as int, end as int)),
        decreases end,
    {
        proof {
            lemma_trim_end_step(v@, start as int, end as int);
        }
        end = end - 1;
    }
    (start, end)
}

/// `s` without leading and trailing whitespace (`str::trim`).
pub fn trim(s: &str) -> (r: String)
    ensures
        r@ == trim_spec(s@),
{
    let v = chars_of(s);
    let (a, b) = trim_bounds(&v);
    string_of(&v, a, b)
}

/// A word is never longer than the text it starts.
pub proof fn lemma_word_len_bound(s: Seq<char>)
    ensures
        word_len(s) <= s.len(),
    decreases s.len(),
{
    if s.len() > 0 && !is_white_space(s[0]) {
        lemma_word_len_bound(s.drop_first());
    }
}

/// The word that starts at `i` ends at `j` when `v[i..j]` holds no
/// whitespace and `j` is the end or a whitespace.
proof fn lemma_word_len(s: Seq<char>, i: int, j: int)
    requires
        0 <= i <= j <= s.len(),
        forall|k: int| i <= k < j ==> !is_white_space(#[trigger] s[k]),
        j == s.len() || is_white_space(s[j]),
    ensures
        word_len(s.skip(i)) == j - i,
    decreases j - i,
{
    if i < j {
        lemma_word_len(s, i + 1, j);
        assert(s.skip(i).drop_first() =~= s.skip(i + 1));
    } else {
        if j < s.len() {
            assert(s.skip(i)[0] == s[j]);
        }
    }
}

/// The words of `v@` (`split_whitespace`), each as a `String`.
pub fn split_whitespace(v: &Vec<char>) -> (r: Vec<String>)
    ensures
        r.deep_view() == split_whitespace_spec(v@),
{
    let n = v.len();
    let mut r: Vec<String> = Vec::new();
    let mut i: usize = 0;
    assert(v@.skip(0) =~= v@);
    while i < n
        invariant
            i <= n == v@.len(),
            r.deep_view() + split_whitespace_spec(v@.skip(i as int)) == split_whitespace_spec(v@),
        decreases n - i,
    {
        if is_whitespace(v[i]) {
            proof {
                assert(v@.skip(i as int).drop_first() =~= v@.skip(i + 1));
            }
            i = i + 1;
        } else {
            let mut j = i + 1;
            while j < n && !is_whitespace(v[j])
                invariant
                    i < j <= n == v@.len(),
                    forall|k: int| i <= k < j ==> !is_white_space(#[trigger] v@[k]),
                decreases n - j,
            {
                j = j + 1;
            }
            let w = string_of(v, i, j);
            proof {
                lemma_word_len(v@, i as int, j as int);
                let t = v@.skip(i as int);
                assert(t[0] == v@[i as int]);
                assert(t.take((j - i) as int) =~= v@.subrange(i as int, j as int));
                assert(t.skip((j - i) as int) =~= v@.skip(j as int));
                assert(split_whitespace_spec(t) == seq![v@.subrange(i as int, j as int)]
                    + split_whitespace_spec(v@.skip(j as int)));
            }
            let ghost before = r.deep_view();
            r.push(w);
            proof {
                assert(r.deep_view() =~= before.push(v@.subrange(i as int, j as int)));
                assert(r.deep_view() + split_whitespace_spec(v@.skip(j as int)) =~= before + (seq![
                    v@.subrange(i as int, j as int)
                ] + split_whitespace_spec(v@.skip(j as int))));
            }
            i = j;
        }
    }
    proof {
        assert(v@.skip(n as int) =~= Seq::<char>::empty());
        assert(r.deep_view() + Seq::<Seq<char>>::empty() =~= r.deep_view());
    }
    r
}

/// The strings of `parts` joined with `sep` between neighbours (`join`).
pub fn join(parts: &Vec<String>, sep: &str) -> (r: String)
    ensures
        r@ == join_spec(parts.deep_view(), sep@),
{
    let mut r = String::new();
    let ghost dv = parts.deep_view();
    let mut i: usize = 0;
    while i < parts.len()
        invariant
            i <= parts@.len(),
            dv == parts.deep_view(),
            r@ == join_spec(dv.take(i as int), sep@),
        decreases parts@.len() - i,
    {
        if i > 0 {
            r.append(sep);
        }
        r.append(parts[i].as_str());
        proof {
            assert(dv.take(i + 1).drop_last() =~= dv.take(i as int));
            if i == 0 {
                assert(r@ =~= dv.take(1)[0]);
            }
        }
        i = i + 1;
    }
    assert(dv.take(i as int) =~= dv);
    r
}

/// `v@` with whitespace runs collapsed to single spaces and its ends trimmed.
pub fn collapse_whitespace(v: &Vec<char>) -> (r: String)
    ensures
        r@ == collapse_whitespace_spec(v@),
{
    let words = split_whitespace(v);
    let r = join(&words, " ");
    proof {
        reveal_strlit(" ");
        assert(" "@ =~= seq![' ']);
    }
    r
}

/// Whether `p@` occurs in `s@`.
pub fn contains_chars(s: &Vec<char>, p: &Vec<char>) -> (r: bool)
    ensures
        r == contains_spec(s@, p@),
{
    let n = s.len();
    let m = p.len();
    if m > n {
        return false;
    }
    let mut i: usize = 0;
    while i <= n - m
        invariant
            m <= n,
            n == s@.len(),
            m == p@.len(),
            i <= n - m + 1,
            forall|k: int| 0 <= k < i ==> #[trigger] s@.subrange(k, k + m) != p@,
        decreases n - m + 1 - i,
    {
        let mut j: usize = 0;
        while j < m && s[i + j] == p[j]
            invariant
                i <= n - m,
                m <= n,
                n == s@.len(),
                m == p@.len(),
                j <= m,
                forall|l: int| 0 <= l < j ==> s@[i + l] == p@[l],
            decreases m - j,
        {
            j = j + 1;
        }
        if j == m {
            assert(s@.subrange(i as int, i + m) =~= p@);
            return true;
        }
        assert(s@.subrange(i as int, i + m)[j as int] == s@[i + j]);
        i = i + 1;
    }
    false
}

/// Whether the text `p` occurs in `s@`.
pub fn contains_str(s: &Vec<char>, p: &str) -> (r: bool)
    ensures
        r == contains_spec(s@, p@),
{
    let pv = chars_of(p);
    contains_chars(s, &pv)
}

/// Whether `s@` begins with the text `p`.
pub fn starts_with_str(s: &Vec<char>, p: &str) -> (r: bool)
    ensures
        r == starts_with_spec(s@, p@),
{
    let pv = chars_of(p);
    if pv.len() > s.len() {
        return false;
    }
    let mut j: usize = 0;
    while j < pv.len()
        invariant
            pv@ == p@,
            pv@.len() <= s@.len(),
            j <= pv@.len(),
            forall|l: int| 0 <= l < j ==> s@[l] == pv@[l],
        decreases pv@.len() - j,
    {
        if s[j] != pv[j] {
            assert(s@.subrange(0, pv@.len() as int)[j as int] == s@[j as int]);
            return false;
        }
        j = j + 1;
    }
    assert(s@.subrange(0, pv@.len() as int) =~= pv@);
    true
}

/// Whether `s@` ends with the text `p`.
pub fn ends_with_str(s: &Vec<char>, p: &str) -> (r: bool)
    ensures
        r == ends_with_spec(s@, p@),
{
    let pv = chars_of(p);
    let n = s.len();
    let m = pv.len();
    if m > n {
        return false;
    }
    let mut j: usize = 0;
    while j < m
        invariant
            pv@ == p@,
            m == pv@.len(),
            n == s@.len(),
            m <= n,
            j <= m,
            forall|l: int| 0 <= l < j ==> s@[n - m + l] == pv@[l],
        decreases m - j,
    {
        if s[n - m + j] != pv[j] {
            assert(s@.subrange(n - m, n as int)[j as int] == s@[n - m + j]);
            return false;
        }
        j = j + 1;
    }
    assert(s@.subrange(n - m, n as int) =~= pv@);
    true
}

proof fn lemma_last_piece(s: Seq<char>, sep: char, k: int)
    requires
        0 <= k <= s.len(),
        forall|l: int| k <= l < s.len() ==> #[trigger] s[l] != sep,
        k == 0 || s[k - 1] == sep,
    ensures
        last_piece_spec(s, sep) == s.skip(k),
    decreases s.len(),
{
    if s.len() == 0 {
        assert(s.skip(k) =~= s);
    } else if k == s.len() {
        assert(s.skip(k) =~= Seq::<char>::empty());
    } else {
        lemma_last_piece(s.drop_last(), sep, k);
        assert(s.drop_last().skip(k).push(s.last()) =~= s.skip(k));
    }
}

/// What follows the last `sep` in `v@` (all of it when `sep` does not occur).
pub fn last_piece(v: &Vec<char>, sep: char) -> (r: String)
    ensures
        r@ == last_piece_spec(v@, sep),
{
    let n = v.len();
    let mut k: usize = n;
    while k > 0 && v[k - 1] != sep
        invariant
            k <= n == v@.len(),
            forall|l: int| k <= l < n ==> #[trigger] v@[l] != sep,
        decreases k,
    {
        k = k - 1;
    }
    proof {
        lemma_last_piece(v@, sep, k as int);
        assert(v@.skip(k as int) =~= v@.subrange(k as int, n as int));
    }
    string_of(v, k, n)
}

/// The last item of `split(sep)` is what follows the last `sep`, so
/// `last_piece` gives what `split(sep).next_back()` gives.
pub proof fn lemma_split_last_piece(s: Seq<char>, sep: char)
    ensures
        split_spec(s, sep).len() >= 1,
        split_spec(s, sep).last() == last_piece_spec(s, sep),
    decreases s.len(),
{
    if s.len() > 0 {
        lemma_split_last_piece(s.drop_last(), sep);
    }
}

/// The pieces of `v@` between the occurrences of `sep` (`split(sep)`).
pub fn split_on(v: &Vec<char>, sep: char) -> (r: Vec<String>)
    ensures
        r.deep_view() == split_spec(v@, sep),
{
    let n = v.len();
    let mut r: Vec<String> = Vec::new();
    let mut start: usize = 0;
    let mut i: usize = 0;
    proof {
        assert(v@.take(0) =~= Seq::<char>::empty());
        assert(v@.subrange(0, 0) =~= Seq::<char>::empty());
        assert(split_spec(Seq::<char>::empty(), sep) == seq![Seq::<char>::empty()]);
        assert(r.deep_view().push(v@.subrange(0, 0)) =~= seq![Seq::<char>::empty()]);
    }
    while i < n
        invariant
            start <= i <= n == v@.len(),
            forall|l: int| start <= l < i ==> #[trigger] v@[l] != sep,
            start == 0 || v@[start - 1] == sep,
            r.deep_view().push(v@.subrange(start as int, i as int)) == split_spec(
                v@.take(i as int),
                sep,
            ),
        decreases n - i,
    {
        let ghost t = v@.take(i + 1);
        assert(t.drop_last() =~= v@.take(i as int));
        assert(t.last() == v@[i as int]);
        assert(v@.subrange(start as int, i as int).push(v@[i as int]) =~= v@.subrange(
            start as int,
            i + 1,
        ));
        assert(v@.subrange((i + 1) as int, (i + 1) as int) =~= Seq::<char>::empty());
        if v[i] == sep {
            let piece = string_of(v, start, i);
            let ghost before = r.deep_view();
            r.push(piece);
            assert(r.deep_view() =~= before.push(v@.subrange(start as int, i as int)));
            assert(r.deep_view().push(v@.subrange((i + 1) as int, (i + 1) as int)) =~= split_spec(
                t,
                sep,
            ));
            start = i + 1;
        } else {
            assert(r.deep_view().push(v@.subrange(start as int, i + 1)) =~= split_spec(t, sep));
        }
        i = i + 1;
    }
    let piece = string_of(v, start, n);
    let ghost before = r.deep_view();
    r.push(piece);
    assert(r.deep_view() =~= before.push(v@.subrange(start as int, n as int)));
    assert(v@.take(n as int) =~= v@);
    r
}

/// `s` without its trailing `c` characters (`trim_end_matches(c)`).
pub fn trim_end_char(s: &str, c: char) -> (r: String)
    ensures
        r@ == trim_end_char_spec(s@, c),
{
    let v = chars_of(s);
    let mut end: usize = v.len();
    assert(v@.subrange(0, end as int) =~= v@);
    while end > 0 && v[end - 1] == c
        invariant
            end <= v@.len(),
            trim_end_char_spec(v@, c) == trim_end_char_spec(v@.subrange(0, end as int), c),
        decreases end,
    {
        assert(v@.subrange(0, end as int).drop_last() =~= v@.subrange(0, end - 1));
        end = end - 1;
    }
    string_of(&v, 0, end)
}

fn lower_ascii(c: char) -> (r: u32)
    ensures
        r == ascii_lower(c),
{
    let x = c as u32;
    if 65 <= x && x <= 90 {
        x + 32
    } else {
        x
    }
}

/// Whether `s` equals `t` up to ASCII case (`str::eq_ignore_ascii_case`).
pub fn eq_ignore_ascii_case(s: &str, t: &str) -> (r: bool)
    ensures
        r == eq_ignore_ascii_case_spec(s@, t@),
{
    let a = chars_of(s);
    let b = chars_of(t);
    if a.len() != b.len() {
        return false;
    }
    let mut i: usize = 0;
    while i < a.len()
        invariant
            a@ == s@,
            b@ == t@,
            a@.len() == b@.len(),
            i <= a@.len(),
            forall|k: int| 0 <= k < i ==> ascii_lower(#[trigger] a@[k]) == ascii_lower(b@[k]),
        decreases a@.len() - i,
    {
        if lower_ascii(a[i]) != lower_ascii(b[i]) {
            return false;
        }
        i = i + 1;
    }
    true
}

/// Whether the text `s` equals the text `t`.
pub fn str_eq(s: &str, t: &str) -> (r: bool)
    ensures
        r == (s@ == t@),
{
    let a = owned(s);
    let b = owned(t);
    a == b
}

/// Text placed between two others occurs in the whole.
pub proof fn lemma_contains_middle(a: Seq<char>, b: Seq<char>, c: Seq<char>)
    ensures
        contains_spec(a + b + c, b),
{
    let w = a + b + c;
    assert(w.subrange(a.len() as int, (a.len() + b.len()) as int) =~= b);
}

/// What occurs in a text occurs in that text with more after it.
pub proof fn lemma_contains_prefix(a: Seq<char>, b: Seq<char>, p: Seq<char>)
    requires
        contains_spec(a, p),
    ensures
        contains_spec(a + b, p),
{
    let i = choose|i: int| 0 <= i <= a.len() - p.len() && #[trigger] a.subrange(i, i + p.len()) == p;
    assert((a + b).subrange(i, i + p.len()) =~= a.subrange(i, i + p.len()));
}

/// Each part occurs in the parts joined by a separator.
pub proof fn lemma_join_contains_part(parts: Seq<Seq<char>>, sep: Seq<char>, i: int)
    requires
        0 <= i < parts.len(),
    ensures
        contains_spec(join_spec(parts, sep), parts[i]),
    decreases parts.len(),
{
    if parts.len() == 1 {
        lemma_contains_middle(seq![], parts[0], seq![]);
        assert(Seq::<char>::empty() + parts[0] + Seq::<char>::empty() =~= parts[0]);
    } else if i == parts.len() - 1 {
        lemma_contains_middle(join_spec(parts.drop_last(), sep) + sep, parts.last(), seq![]);
        assert(join_spec(parts.drop_last(), sep) + sep + parts.last() + Seq::<char>::empty()
            =~= join_spec(parts, sep));
    } else {
        lemma_join_contains_part(parts.drop_last(), sep, i);
        lemma_contains_prefix(join_spec(parts.drop_last(), sep), sep + parts.last(), parts[i]);
        assert(join_spec(parts.drop_last(), sep) + (sep + parts.last()) =~= join_spec(parts, sep));
    }
}

/// What occurs in a text occurs in that text with more before it.
pub proof fn lemma_contains_suffix(a: Seq<char>, b: Seq<char>, p: Seq<char>)
    requires
        contains_spec(b, p),
    ensures
        contains_spec(a + b, p),
{
    let i = choose|i: int| 0 <= i <= b.len() - p.len() && #[trigger] b.subrange(i, i + p.len()) == p;
    assert((a + b).subrange(a.len() + i, a.len() + i + p.len()) =~= b.subrange(i, i + p.len()));
}

/// What occurs in a part of a text occurs in the text.
pub proof fn lemma_contains_trans(s: Seq<char>, m: Seq<char>, p: Seq<char>)
    requires
        contains_spec(s, m),
        contains_spec(m, p),
    ensures
        contains_spec(s, p),
{
    let i = choose|i: int| 0 <= i <= s.len() - m.len() && #[trigger] s.subrange(i, i + m.len()) == m;
    let j = choose|j: int| 0 <= j <= m.len() - p.len() && #[trigger] m.subrange(j, j + p.len()) == p;
    assert(s.subrange(i + j, i + j + p.len()) =~= m.subrange(j, j + p.len()));
}

/// Each part occurs in the parts put one after the other.
pub proof fn lemma_concat_contains_part(parts: Seq<Seq<char>>, i: int)
    requires
        0 <= i < parts.len(),
    ensures
        contains_spec(concat_spec(parts), parts[i]),
    decreases parts.len(),
{
    if i == parts.len() - 1 {
        lemma_contains_middle(concat_spec(parts.drop_last()), parts.last(), seq![]);
        assert(concat_spec(parts.drop_last()) + parts.last() + Seq::<char>::empty() =~= concat_spec(parts));
    } else {
        lemma_concat_contains_part(parts.drop_last(), i);
        lemma_contains_prefix(concat_spec(parts.drop_last()), parts.last(), parts[i]);
    }
}

} // verus!
