//! Character-level text utilities shared by the commands: splitting on
//! whitespace and on separators, trimming, joining, and comparing.

use vstd::prelude::*;

verus! {

broadcast use vstd::string::group_string_axioms;

/// Appends one character to a string (`String::push`).
#[verifier::external_body]
pub(crate) fn push_char(s: &mut String, c: char)
    ensures
        final(s)@ == old(s)@.push(c),
{
    s.push(c);
}

/// The string whose UTF-8 encoding is `bytes`, or `None` when `bytes` is not
/// valid UTF-8 (`String::from_utf8`).
#[verifier::external_body]
pub(crate) fn string_from_utf8(bytes: Vec<u8>) -> (r: Option<String>)
    ensures
        r is Some <==> vstd::utf8::valid_utf8(bytes@),
        r matches Some(s) ==> s@ == vstd::utf8::decode_utf8(bytes@),
{
    String::from_utf8(bytes).ok()
}

/// The characters of a string slice, in order.
pub fn chars_of(s: &str) -> (out: Vec<char>)
    ensures
        out@ == s@,
{
    let mut out: Vec<char> = Vec::new();
    for c in it: s.chars()
        invariant
            out@ == it.seq().take(it.index() as int),
            it.seq() == s@,
    {
        out.push(c);
    }
    out
}

/// A string holding exactly the given characters.
pub fn string_of(chars: &Vec<char>) -> (out: String)
    ensures
        out@ == chars@,
{
    let mut out = String::new();
    let mut i: usize = 0;
    while i < chars.len()
        invariant
            i <= chars.len(),
            out@ == chars@.take(i as int),
        decreases chars.len() - i,
    {
        push_char(&mut out, chars[i]);
        assert(chars@.take(i + 1) == chars@.take(i as int).push(chars@[i as int]));
        i = i + 1;
    }
    assert(chars@.take(chars.len() as int) == chars@);
    out
}

/// Appends characters to a vector.
pub fn extend_chars(out: &mut Vec<char>, more: &Vec<char>)
    ensures
        final(out)@ == old(out)@ + more@,
{
    let mut i: usize = 0;
    while i < more.len()
        invariant
            i <= more.len(),
            out@ == old(out)@ + more@.take(i as int),
        decreases more.len() - i,
    {
        out.push(more[i]);
        assert(more@.take(i + 1) == more@.take(i as int).push(more@[i as int]));
        i = i + 1;
    }
    assert(more@.take(more.len() as int) == more@);
}

/// Whether two character sequences are equal.
pub fn chars_eq(a: &Vec<char>, b: &Vec<char>) -> (r: bool)
    ensures
        r == (a@ == b@),
{
    if a.len() != b.len() {
        return false;
    }
    let mut i: usize = 0;
    while i < a.len()
        invariant
            a.len() == b.len(),
            i <= a.len(),
            forall|j: int| 0 <= j < i ==> a@[j] == b@[j],
        decreases a.len() - i,
    {
        if a[i] != b[i] {
            return false;
        }
        i = i + 1;
    }
    assert(a@ =~= b@);
    true
}

/// Whether a string slice holds no characters (`str::is_empty`).
pub fn is_empty_text(s: &str) -> (r: bool)
    ensures
        r == (s@.len() == 0),
{
    chars_of(s).len() == 0
}

/// Whether two string slices hold the same characters.
pub fn text_eq(a: &str, b: &str) -> (r: bool)
    ensures
        r == (a@ == b@),
{
    let x = chars_of(a);
    let y = chars_of(b);
    chars_eq(&x, &y)
}

/// The character sequences held by a list of character vectors.
pub open spec fn views(v: Seq<Vec<char>>) -> Seq<Seq<char>> {
    Seq::new(v.len(), |i: int| v[i]@)
}

// ── Whitespace ───────────────────────────────────────────────────────────────

/// Characters with the Unicode `White_Space` property (what `char::is_whitespace`
/// tests for).
pub open spec fn is_ws(c: char) -> bool {
    ||| ('\u{9}' <= c && c <= '\u{d}')
    ||| c == ' '
    ||| c == '\u{85}'
    ||| c == '\u{a0}'
    ||| c == '\u{1680}'
    ||| ('\u{2000}' <= c && c <= '\u{200a}')
    ||| c == '\u{2028}'
    ||| c == '\u{2029}'
    ||| c == '\u{202f}'
    ||| c == '\u{205f}'
    ||| c == '\u{3000}'
}

pub fn is_whitespace_char(c: char) -> (r: bool)
    ensures
        r == is_ws(c),
{
    ('\u{9}' <= c && c <= '\u{d}') || c == ' ' || c == '\u{85}' || c == '\u{a0}'
        || c == '\u{1680}' || ('\u{2000}' <= c && c <= '\u{200a}') || c == '\u{2028}'
        || c == '\u{2029}' || c == '\u{202f}' || c == '\u{205f}' || c == '\u{3000}'
}

pub open spec fn no_ws(s: Seq<char>) -> bool {
    forall|i: int| 0 <= i < s.len() ==> !is_ws(#[trigger] s[i])
}

/// The word in progress, as a list of zero or one words.
pub open spec fn flush(cur: Seq<char>) -> Seq<Seq<char>> {
    if cur.len() == 0 {
        seq![]
    } else {
        seq![cur]
    }
}

/// Words of `s` when `cur` has already been read as the start of the first one.
pub open spec fn words_from(s: Seq<char>, cur: Seq<char>) -> Seq<Seq<char>>
    decreases s.len(),
{
    if s.len() == 0 {
        flush(cur)
    } else if is_ws(s[0]) {
        flush(cur) + words_from(s.drop_first(), seq![])
    } else {
        words_from(s.drop_first(), cur.push(s[0]))
    }
}

/// The maximal runs of non-whitespace characters, in order (`str::split_whitespace`).
pub open spec fn words(s: Seq<char>) -> Seq<Seq<char>> {
    words_from(s, seq![])
}

pub fn split_whitespace(s: &Vec<char>) -> (out: Vec<Vec<char>>)
    ensures
        views(out@) == words(s@),
{
    let mut out: Vec<Vec<char>> = Vec::new();
    let mut cur: Vec<char> = Vec::new();
    let mut i: usize = 0;
    assert(s@.skip(0) == s@);
    assert(views(out@) =~= Seq::<Seq<char>>::empty());
    while i < s.len()
        invariant
            i <= s.len(),
            views(out@) + words_from(s@.skip(i as int), cur@) == words(s@),
        decreases s.len() - i,
    {
        let ghost rest = s@.skip(i as int);
        assert(rest[0] == s@[i as int]);
        assert(rest.drop_first() == s@.skip(i + 1));
        let c = s[i];
        if is_whitespace_char(c) {
            if cur.len() > 0 {
                let ghost before = views(out@);
                out.push(cur);
                assert(views(out@) =~= before.push(cur@));
                assert(before + flush(cur@) == before.push(cur@));
            } else {
                assert(views(out@) + flush(cur@) == views(out@));
            }
            assert(views(out@) + (flush(cur@) + words_from(rest.drop_first(), seq![]))
                == (views(out@) + flush(cur@)) + words_from(rest.drop_first(), seq![]));
            cur = Vec::new();
        } else {
            cur.push(c);
        }
        i = i + 1;
    }
    assert(s@.skip(i as int).len() == 0);
    if cur.len() > 0 {
        let ghost before = views(out@);
        out.push(cur);
        assert(views(out@) =~= before.push(cur@));
    } else {
        assert(views(out@) + flush(cur@) == views(out@));
    }
    out
}

// ── Splitting on a separator ─────────────────────────────────────────────────

/// Pieces of `s` between occurrences of `sep`, when `cur` has already been read
/// as the start of the first piece.
pub open spec fn pieces_from(s: Seq<char>, sep: char, cur: Seq<char>) -> Seq<Seq<char>>
    decreases s.len(),
{
    if s.len() == 0 {
        seq![cur]
    } else if s[0] == sep {
        seq![cur] + pieces_from(s.drop_first(), sep, seq![])
    } else {
        pieces_from(s.drop_first(), sep, cur.push(s[0]))
    }
}

/// The pieces of `s` between occurrences of `sep`, empty ones included
/// (`str::split` with a character pattern).
pub open spec fn split_on(s: Seq<char>, sep: char) -> Seq<Seq<char>> {
    pieces_from(s, sep, seq![])
}

pub fn split_chars(s: &Vec<char>, sep: char) -> (out: Vec<Vec<char>>)
    ensures
        views(out@) == split_on(s@, sep),
{
    let mut out: Vec<Vec<char>> = Vec::new();
    let mut cur: Vec<char> = Vec::new();
    let mut i: usize = 0;
    assert(s@.skip(0) == s@);
    assert(views(out@) =~= Seq::<Seq<char>>::empty());
    while i < s.len()
        invariant
            i <= s.len(),
            views(out@) + pieces_from(s@.skip(i as int), sep, cur@) == split_on(s@, sep),
        decreases s.len() - i,
    {
        let ghost rest = s@.skip(i as int);
        assert(rest[0] == s@[i as int]);
        assert(rest.drop_first() == s@.skip(i + 1));
        let c = s[i];
        if c == sep {
            let ghost before = views(out@);
            out.push(cur);
            assert(views(out@) =~= before.push(cur@));
            assert(before + (seq![cur@] + pieces_from(rest.drop_first(), sep, seq![]))
                == before.push(cur@) + pieces_from(rest.drop_first(), sep, seq![]));
            cur = Vec::new();
        } else {
            cur.push(c);
        }
        i = i + 1;
    }
    assert(s@.skip(i as int).len() == 0);
    let ghost before = views(out@);
    out.push(cur);
    assert(views(out@) =~= before.push(cur@));
    out
}

/// Index of the first occurrence of `c` in `s`.
pub open spec fn find_char(s: Seq<char>, c: char) -> Option<int>
    decreases s.len(),
{
    if s.len() == 0 {
        None
    } else if s[0] == c {
        Some(0)
    } else {
        match find_char(s.drop_first(), c) {
            Some(i) => Some(i + 1),
            None => None,
        }
    }
}

/// `s` split at its first `sep`: the part before and the part after
/// (`str::split_once`).
pub open spec fn split_once(s: Seq<char>, sep: char) -> Option<(Seq<char>, Seq<char>)> {
    match find_char(s, sep) {
        Some(i) => Some((s.take(i), s.skip(i + 1))),
        None => None,
    }
}

pub proof fn lemma_find_char(s: Seq<char>, c: char)
    ensures
        find_char(s, c) matches Some(i) ==> 0 <= i < s.len() && s[i] == c
            && forall|j: int| 0 <= j < i ==> s[j] != c,
        find_char(s, c) is None ==> forall|j: int| 0 <= j < s.len() ==> s[j] != c,
    decreases s.len(),
{
    if s.len() > 0 {
        lemma_find_char(s.drop_first(), c);
        assert forall|j: int| 1 <= j < s.len() implies s[j] == s.drop_first()[j - 1] by {}
    }
}

pub fn split_once_chars(s: &Vec<char>, sep: char) -> (r: Option<(Vec<char>, Vec<char>)>)
    ensures
        match split_once(s@, sep) {
            Some((a, b)) => r matches Some((x, y)) && x@ == a && y@ == b,
            None => r is None,
        },
{
    proof { lemma_find_char(s@, sep); }
    let mut i: usize = 0;
    while i < s.len()
        invariant
            i <= s.len(),
            forall|j: int| 0 <= j < i ==> s@[j] != sep,
        decreases s.len() - i,
    {
        if s[i] == sep {
            let mut a: Vec<char> = Vec::new();
            let mut k: usize = 0;
            while k < i
                invariant
                    k <= i < s.len(),
                    a@ == s@.take(k as int),
                decreases i - k,
            {
                a.push(s[k]);
                assert(s@.take(k + 1) == s@.take(k as int).push(s@[k as int]));
                k = k + 1;
            }
            let mut b: Vec<char> = Vec::new();
            let mut m: usize = i + 1;
            while m < s.len()
                invariant
                    i + 1 <= m <= s.len(),
                    b@ == s@.subrange(i + 1, m as int),
                decreases s.len() - m,
            {
                b.push(s[m]);
                assert(s@.subrange(i + 1, m + 1) == s@.subrange(i + 1, m as int).push(s@[m as int]));
                m = m + 1;
            }
            proof {
                lemma_find_char(s@, sep);
                assert(s@[i as int] == sep);
                let f = find_char(s@, sep).unwrap();
                if f < i { assert(s@[f] != sep); }
                if f > i { assert(s@[i as int] != sep); }
                assert(s@.skip(i + 1) == s@.subrange(i + 1, s.len() as int));
            }
            return Some((a, b));
        }
        i = i + 1;
    }
    None
}

// ── Joining ─────────────────────────────────────────────────────────────────

/// The parts joined with `sep` between consecutive parts (`[T]::join`).
pub open spec fn join(parts: Seq<Seq<char>>, sep: Seq<char>) -> Seq<char>
    decreases parts.len(),
{
    if parts.len() == 0 {
        seq![]
    } else if parts.len() == 1 {
        parts[0]
    } else {
        parts[0] + sep + join(parts.drop_first(), sep)
    }
}

/// Joining one more part appends the separator and that part.
pub proof fn lemma_join_push(parts: Seq<Seq<char>>, sep: Seq<char>, x: Seq<char>)
    ensures
        join(parts.push(x), sep) == if parts.len() == 0 { x } else { join(parts, sep) + sep + x },
    decreases parts.len(),
{
    if parts.len() == 0 {
        assert(parts.push(x) =~= seq![x]);
    } else if parts.len() == 1 {
        assert(parts.push(x).drop_first() =~= seq![x]);
        assert(parts.push(x)[0] == parts[0]);
        assert(join(seq![x], sep) == x);
        assert(join(parts.push(x), sep) == parts[0] + sep + x);
    } else {
        lemma_join_push(parts.drop_first(), sep, x);
        assert(parts.push(x).drop_first() =~= parts.drop_first().push(x));
        assert(parts.push(x)[0] == parts[0]);
        assert(join(parts.push(x), sep) == parts[0] + sep + join(parts.drop_first().push(x), sep));
        assert(parts[0] + sep + (join(parts.drop_first(), sep) + sep + x)
            =~= (parts[0] + sep + join(parts.drop_first(), sep)) + sep + x);
    }
}

pub fn join_chars(parts: &Vec<Vec<char>>, sep: &Vec<char>) -> (out: Vec<char>)
    ensures
        out@ == join(views(parts@), sep@),
{
    let mut out: Vec<char> = Vec::new();
    let mut i: usize = 0;
    let ghost dv = views(parts@);
    while i < parts.len()
        invariant
            i <= parts.len(),
            dv == views(parts@),
            dv.len() == parts.len(),
            out@ == join(dv.take(i as int), sep@),
        decreases parts.len() - i,
    {
        proof {
            assert(dv.take(i + 1) == dv.take(i as int).push(dv[i as int]));
            lemma_join_push(dv.take(i as int), sep@, dv[i as int]);
        }
        assert(dv[i as int] == parts[i as int]@);
        if i > 0 {
            extend_chars(&mut out, sep);
        }
        extend_chars(&mut out, &parts[i]);
        proof {
            if i == 0 {
                assert(out@ =~= parts[0]@);
            }
        }
        i = i + 1;
    }
    assert(dv.take(parts.len() as int) == dv);
    out
}

/// A word without whitespace continues the word in progress.
pub proof fn lemma_words_from_no_ws(p: Seq<char>, t: Seq<char>, cur: Seq<char>)
    requires
        no_ws(p),
    ensures
        words_from(p + t, cur) == words_from(t, cur + p),
    decreases p.len(),
{
    if p.len() == 0 {
        assert(p + t =~= t);
        assert(cur + p =~= cur);
    } else {
        assert((p + t)[0] == p[0]);
        assert((p + t).drop_first() =~= p.drop_first() + t);
        lemma_words_from_no_ws(p.drop_first(), t, cur.push(p[0]));
        assert(cur.push(p[0]) + p.drop_first() =~= cur + p);
    }
}

/// Splitting text made by joining non-empty whitespace-free words with a
/// single space gives back the words.
pub proof fn lemma_words_of_join(parts: Seq<Seq<char>>)
    requires
        forall|i: int| 0 <= i < parts.len() ==> (#[trigger] parts[i]).len() > 0 && no_ws(parts[i]),
    ensures
        words(join(parts, seq![' '])) == parts,
    decreases parts.len(),
{
    let e: Seq<char> = seq![];
    if parts.len() == 0 {
    } else if parts.len() == 1 {
        lemma_words_from_no_ws(parts[0], e, e);
        assert(parts[0] + e =~= parts[0]);
        assert(e + parts[0] =~= parts[0]);
        assert(words_from(e, parts[0]) == seq![parts[0]]);
        assert(seq![parts[0]] =~= parts);
    } else {
        let rest = parts.drop_first();
        assert forall|i: int| 0 <= i < rest.len() implies (#[trigger] rest[i]).len() > 0 && no_ws(rest[i]) by {
            assert(rest[i] == parts[i + 1]);
        }
        lemma_words_of_join(rest);
        let tail = seq![' '] + join(rest, seq![' ']);
        assert(join(parts, seq![' ']) =~= parts[0] + tail);
        lemma_words_from_no_ws(parts[0], tail, e);
        assert(e + parts[0] =~= parts[0]);
        assert(tail[0] == ' ');
        assert(tail.drop_first() =~= join(rest, seq![' ']));
        assert(words_from(tail, parts[0]) == flush(parts[0]) + words(join(rest, seq![' '])));
        assert(flush(parts[0]) + rest =~= parts);
    }
}

/// A leading whitespace character does not start a word.
pub proof fn lemma_words_leading_ws(c: char, x: Seq<char>)
    requires
        is_ws(c),
    ensures
        words(seq![c] + x) == words(x),
{
    let s = seq![c] + x;
    assert(s[0] == c);
    assert(s.drop_first() =~= x);
    assert(flush(seq![]) + words_from(x, seq![]) =~= words_from(x, seq![]));
}

/// A trailing whitespace character does not change the words.
pub proof fn lemma_words_trailing_ws(x: Seq<char>, c: char, cur: Seq<char>)
    requires
        is_ws(c),
    ensures
        words_from(x.push(c), cur) == words_from(x, cur),
    decreases x.len(),
{
    if x.len() == 0 {
        let s = x.push(c);
        assert(s[0] == c);
        assert(s.drop_first() =~= Seq::<char>::empty());
        assert(words_from(Seq::<char>::empty(), seq![]) =~= Seq::<Seq<char>>::empty());
        assert(flush(cur) + Seq::<Seq<char>>::empty() =~= flush(cur));
    } else {
        let s = x.push(c);
        assert(s[0] == x[0]);
        assert(s.drop_first() =~= x.drop_first().push(c));
        if is_ws(x[0]) {
            lemma_words_trailing_ws(x.drop_first(), c, seq![]);
        } else {
            lemma_words_trailing_ws(x.drop_first(), c, cur.push(x[0]));
        }
    }
}

/// Pieces after a run without the separator: the run continues the piece in progress.
pub proof fn lemma_pieces_from_no_sep(p: Seq<char>, t: Seq<char>, sep: char, cur: Seq<char>)
    requires
        !p.contains(sep),
    ensures
        pieces_from(p + t, sep, cur) == pieces_from(t, sep, cur + p),
    decreases p.len(),
{
    if p.len() == 0 {
        assert(p + t =~= t);
        assert(cur + p =~= cur);
    } else {
        assert((p + t)[0] == p[0]);
        assert((p + t).drop_first() =~= p.drop_first() + t);
        assert(!p.drop_first().contains(sep)) by {
            if p.drop_first().contains(sep) {
                let i = choose|i: int| 0 <= i < p.drop_first().len() && p.drop_first()[i] == sep;
                assert(p[i + 1] == sep);
            }
        }
        assert(p[0] != sep) by {
            if p[0] == sep {
                assert(p.contains(sep));
            }
        }
        lemma_pieces_from_no_sep(p.drop_first(), t, sep, cur.push(p[0]));
        assert(cur.push(p[0]) + p.drop_first() =~= cur + p);
    }
}

/// Splitting `p`, a separator, then `r` gives `p` followed by the pieces of `r`.
pub proof fn lemma_split_on_cons(p: Seq<char>, sep: char, r: Seq<char>)
    requires
        !p.contains(sep),
    ensures
        split_on(p + seq![sep] + r, sep) == seq![p] + split_on(r, sep),
        split_on(p, sep) == seq![p],
{
    let e: Seq<char> = seq![];
    let t = seq![sep] + r;
    assert(p + seq![sep] + r =~= p + t);
    lemma_pieces_from_no_sep(p, t, sep, e);
    assert(e + p =~= p);
    assert(t[0] == sep);
    assert(t.drop_first() =~= r);
    lemma_pieces_from_no_sep(p, e, sep, e);
    assert(p + e =~= p);
}

// ── Trimming ────────────────────────────────────────────────────────────────

pub open spec fn trim_start(s: Seq<char>) -> Seq<char>
    decreases s.len(),
{
    if s.len() > 0 && is_ws(s[0]) {
        trim_start(s.drop_first())
    } else {
        s
    }
}

pub open spec fn trim_end(s: Seq<char>) -> Seq<char>
    decreases s.len(),
{
    if s.len() > 0 && is_ws(s.last()) {
        trim_end(s.drop_last())
    } else {
        s
    }
}

/// `s` without leading and trailing whitespace (`str::trim`).
pub open spec fn trim(s: Seq<char>) -> Seq<char> {
    trim_end(trim_start(s))
}

pub fn trim_chars(s: &Vec<char>) -> (out: Vec<char>)
    ensures
        out@ == trim(s@),
{
    let mut lo: usize = 0;
    assert(s@.skip(0) == s@);
    while lo < s.len() && is_whitespace_char(s[lo])
        invariant
            lo <= s.len(),
            trim_start(s@.skip(lo as int)) == trim_start(s@),
        decreases s.len() - lo,
    {
        assert(s@.skip(lo as int).drop_first() == s@.skip(lo + 1));
        lo = lo + 1;
    }
    let mut hi: usize = s.len();
    while hi > lo && is_whitespace_char(s[hi - 1])
        invariant
            lo <= hi <= s.len(),
            trim_start(s@) == s@.skip(lo as int),
            trim_end(s@.subrange(lo as int, hi as int)) == trim(s@),
        decreases hi - lo,
    {
        assert(s@.subrange(lo as int, hi as int).drop_last() == s@.subrange(lo as int, hi - 1));
        hi = hi - 1;
    }
    proof {
        if lo < s.len() {
            assert(s@.skip(lo as int)[0] == s@[lo as int]);
        }
        assert(s@.skip(lo as int) == s@.subrange(lo as int, s.len() as int));
    }
    let mut out: Vec<char> = Vec::new();
    let mut k: usize = lo;
    while k < hi
        invariant
            lo <= k <= hi <= s.len(),
            out@ == s@.subrange(lo as int, k as int),
        decreases hi - k,
    {
        out.push(s[k]);
        assert(s@.subrange(lo as int, k + 1) == s@.subrange(lo as int, k as int).push(s@[k as int]));
        k = k + 1;
    }
    proof {
        if hi > lo {
            assert(s@.subrange(lo as int, hi as int).last() == s@[hi - 1]);
        }
    }
    out
}

/// `s` without trailing whitespace (`str::trim_end`).
pub fn trim_end_string(s: String) -> (r: String)
    ensures
        r@ == trim_end(s@),
{
    let chars = chars_of(s.as_str());
    let mut hi: usize = chars.len();
    assert(chars@.take(hi as int) == chars@);
    while hi > 0 && is_whitespace_char(chars[hi - 1])
        invariant
            hi <= chars.len(),
            trim_end(chars@.take(hi as int)) == trim_end(s@),
        decreases hi,
    {
        assert(chars@.take(hi as int).drop_last() == chars@.take(hi - 1));
        hi = hi - 1;
    }
    let mut out: Vec<char> = Vec::new();
    let mut k: usize = 0;
    while k < hi
        invariant
            k <= hi <= chars.len(),
            out@ == chars@.take(k as int),
        decreases hi - k,
    {
        out.push(chars[k]);
        assert(chars@.take(k + 1) == chars@.take(k as int).push(chars@[k as int]));
        k = k + 1;
    }
    proof {
        if hi > 0 {
            assert(chars@.take(hi as int).last() == chars@[hi - 1]);
        }
    }
    string_of(&out)
}

} // verus!
