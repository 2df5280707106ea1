//! Character-level helpers shared by the assembler: conversions between `str`
//! and character vectors, splitting, trimming and decimal numbers.
use vstd::prelude::*;

verus! {

/// Appends one character to a `String` by std's `String::push`. Trusted:
/// the string's characters afterwards are its old characters followed by `c`,
/// as std documents for `push`.
#[verifier::external_body]
fn push_char(s: &mut String, c: char)
    ensures
        final(s)@ == old(s)@.push(c),
{
    s.push(c)
}

/// The characters of `s`, in order.
pub fn chars_of(s: &str) -> (v: Vec<char>)
    ensures
        v@ == s@,
{
    let mut v: Vec<char> = Vec::new();
    for c in it: s.chars()
        invariant
            v@ == it.seq().take(it.index() as int),
            it.seq() == s@,
    {
        v.push(c);
    }
    v
}

/// Appends the characters of `w` to `v`.
pub fn extend_chars(v: &mut Vec<char>, w: &[char])
    ensures
        final(v)@ == old(v)@ + w@,
{
    let mut i: usize = 0;
    while i < w.len()
        invariant
            i <= w@.len(),
            v@ == old(v)@ + w@.take(i as int),
        decreases w@.len() - i,
    {
        v.push(w[i]);
        i = i + 1;
        assert(v@ == old(v)@ + w@.take(i as int));
    }
    assert(w@.take(w@.len() as int) == w@);
}

/// Whether `a` and `b` hold the same characters.
pub fn chars_eq(a: &[char], b: &[char]) -> (r: bool)
    ensures
        r == (a@ == b@),
{
    if a.len() != b.len() {
        return false;
    }
    let mut i: usize = 0;
    while i < a.len()
        invariant
            a@.len() == b@.len(),
            i <= a@.len(),
            forall|j: int| 0 <= j < i ==> a@[j] == b@[j],
        decreases a@.len() - i,
    {
        if a[i] != b[i] {
            return false;
        }
        i = i + 1;
    }
    assert(a@ =~= b@);
    true
}

/// Whether the characters `s` spell `lit`.
pub fn chars_is(s: &[char], lit: &str) -> (b: bool)
    ensures
        b == (s@ == lit@),
{
    let l = chars_of(lit);
    if s.len() != l.len() {
        return false;
    }
    let mut i: usize = 0;
    while i < s.len()
        invariant
            s@.len() == l@.len(),
            l@ == lit@,
            i <= s@.len(),
            forall|j: int| 0 <= j < i ==> s@[j] == l@[j],
        decreases s@.len() - i,
    {
        if s[i] != l[i] {
            return false;
        }
        i = i + 1;
    }
    assert(s@ =~= l@);
    true
}

/// A `String` holding exactly the characters of `cs`.
pub fn string_of(cs: &[char]) -> (s: String)
    ensures
        s@ == cs@,
{
    let mut s = String::new();
    let mut i: usize = 0;
    while i < cs.len()
        invariant
            i <= cs@.len(),
            s@ == cs@.take(i as int),
        decreases cs@.len() - i,
    {
        push_char(&mut s, cs[i]);
        i = i + 1;
        assert(s@ == cs@.take(i as int));
    }
    assert(cs@.take(cs@.len() as int) == cs@);
    s
}


/// Unicode `White_Space`: the characters that `char::is_whitespace` accepts.
pub open spec fn is_space(c: char) -> bool {
    let u = c as u32;
    ||| 0x9 <= u <= 0xD
    ||| u == 0x20
    ||| u == 0x85
    ||| u == 0xA0
    ||| u == 0x1680
    ||| 0x2000 <= u <= 0x200A
    ||| u == 0x2028
    ||| u == 0x2029
    ||| u == 0x202F
    ||| u == 0x205F
    ||| u == 0x3000
}

/// Decides `is_space`.
pub fn char_is_space(c: char) -> (b: bool)
    ensures
        b == is_space(c),
        b == unicode_white_space(c),
{
    proof {
        lemma_is_space_white(c);
    }
    let u = c as u32;
    (0x9 <= u && u <= 0xD) || u == 0x20 || u == 0x85 || u == 0xA0 || u == 0x1680 || (0x2000 <= u
        && u <= 0x200A) || u == 0x2028 || u == 0x2029 || u == 0x202F || u == 0x205F || u == 0x3000
}

/// `s` without its leading white space.
pub open spec fn trim_start(s: Seq<char>) -> Seq<char>
    decreases s.len(),
{
    if s.len() > 0 && is_space(s[0]) {
        trim_start(s.drop_first())
    } else {
        s
    }
}

/// `s` without its trailing white space.
pub open spec fn trim_end(s: Seq<char>) -> Seq<char>
    decreases s.len(),
{
    if s.len() > 0 && is_space(s.last()) {
        trim_end(s.drop_last())
    } else {
        s
    }
}

/// `s` without white space at either end, as `str::trim` gives it.
pub open spec fn trim(s: Seq<char>) -> Seq<char> {
    trim_end(trim_start(s))
}

proof fn lemma_trim_start_skip(s: Seq<char>, i: int)
    requires
        0 <= i <= s.len(),
        forall|j: int| 0 <= j < i ==> is_space(#[trigger] s[j]),
    ensures
        trim_start(s) == trim_start(s.skip(i)),
    decreases i,
{
    if i > 0 {
        lemma_trim_start_skip(s.drop_first(), i - 1);
        assert(s.drop_first().skip(i - 1) == s.skip(i));
    } else {
        assert(s.skip(0) == s);
    }
}

proof fn lemma_trim_end_take(s: Seq<char>, k: int)
    requires
        0 <= k <= s.len(),
        forall|j: int| k <= j < s.len() ==> is_space(#[trigger] s[j]),
    ensures
        trim_end(s) == trim_end(s.take(k)),
    decreases s.len() - k,
{
    if k < s.len() {
        lemma_trim_end_take(s.drop_last(), k);
        assert(s.drop_last().take(k) == s.take(k));
    } else {
        assert(s.take(k) == s);
    }
}

/// The characters of `s` without white space at either end.
pub fn trim_chars(s: &[char]) -> (t: Vec<char>)
    ensures
        t@ == trim(s@),
{
    let mut i: usize = 0;
    while i < s.len() && char_is_space(s[i])
        invariant
            i <= s@.len(),
            forall|j: int| 0 <= j < i ==> is_space(#[trigger] s@[j]),
        decreases s@.len() - i,
    {
        i = i + 1;
    }
    let mut k: usize = s.len();
    while k > i && char_is_space(s[k - 1])
        invariant
            i <= k <= s@.len(),
            forall|j: int| k <= j < s@.len() ==> is_space(#[trigger] s@[j]),
        decreases k,
    {
        k = k - 1;
    }
    let mut t: Vec<char> = Vec::new();
    let mut m: usize = i;
    while m < k
        invariant
            i <= m <= k <= s@.len(),
            t@ == s@.subrange(i as int, m as int),
        decreases k - m,
    {
        t.push(s[m]);
        m = m + 1;
    }
    proof {
        lemma_trim_start_skip(s@, i as int);
        let u = s@.skip(i as int);
        assert(trim_start(u) == u);
        lemma_trim_end_take(u, (k - i) as int);
        assert(u.take((k - i) as int) == t@);
        assert(trim_end(t@) == t@);
    }
    t
}

/// The characters with Unicode's White_Space property, by which std's
/// `char::is_whitespace` and `str::trim` go: tab, line feed, vertical tab,
/// form feed, carriage return, space, next line, no-break space, ogham space
/// mark, the spaces from en quad to hair space, line and paragraph
/// separator, narrow no-break space, medium mathematical space and
/// ideographic space.
pub open spec fn unicode_white_space(c: char) -> bool {
    ||| c == '\t'
    ||| c == '\n'
    ||| c == '\u{0B}'
    ||| c == '\u{0C}'
    ||| c == '\r'
    ||| c == ' '
    ||| c == '\u{85}'
    ||| c == '\u{A0}'
    ||| c == '\u{1680}'
    ||| c == '\u{2000}'
    ||| c == '\u{2001}'
    ||| c == '\u{2002}'
    ||| c == '\u{2003}'
    ||| c == '\u{2004}'
    ||| c == '\u{2005}'
    ||| c == '\u{2006}'
    ||| c == '\u{2007}'
    ||| c == '\u{2008}'
    ||| c == '\u{2009}'
    ||| c == '\u{200A}'
    ||| c == '\u{2028}'
    ||| c == '\u{2029}'
    ||| c == '\u{202F}'
    ||| c == '\u{205F}'
    ||| c == '\u{3000}'
}

proof fn lemma_is_space_white(c: char)
    ensures
        is_space(c) == unicode_white_space(c),
{
}

proof fn lemma_trim_end_keeps_first(s: Seq<char>)
    requires
        s.len() > 0,
        !is_space(s[0]),
    ensures
        trim_end(s).len() > 0,
        trim_end(s)[0] == s[0],
    decreases s.len(),
{
    if is_space(s.last()) {
        lemma_trim_end_keeps_first(s.drop_last());
    }
}

proof fn lemma_trim_start_keeps_last(s: Seq<char>)
    requires
        s.len() > 0,
        !is_space(s.last()),
    ensures
        trim_start(s).len() > 0,
        trim_start(s).last() == s.last(),
    decreases s.len(),
{
    if is_space(s[0]) {
        assert(s.len() > 1);
        assert(s.drop_first().last() == s.last());
        lemma_trim_start_keeps_last(s.drop_first());
    }
}

proof fn lemma_trim_start_push(l: Seq<char>, c: char)
    ensures
        trim_start(l.push(c)) == (if trim_start(l).len() == 0 {
            trim_start(seq![c])
        } else {
            trim_start(l).push(c)
        }),
    decreases l.len(),
{
    if l.len() == 0 {
        assert(l.push(c) =~= seq![c]);
    } else if is_space(l[0]) {
        assert(l.push(c).drop_first() =~= l.drop_first().push(c));
        lemma_trim_start_push(l.drop_first(), c);
    }
}

/// `trim` strips exactly the white space characters: one at either end of
/// a text goes, and any other character at an end stays there.
pub proof fn lemma_trim_strips_white_space(c: char, l: Seq<char>)
    ensures
        unicode_white_space(c) ==> trim(seq![c] + l) == trim(l) && trim(l.push(c)) == trim(l),
        !unicode_white_space(c) ==> trim(seq![c] + l).len() > 0 && trim(seq![c] + l)[0] == c
            && trim(l.push(c)).len() > 0 && trim(l.push(c)).last() == c,
{
    lemma_is_space_white(c);
    let front = seq![c] + l;
    assert(front.drop_first() =~= l);
    assert(front[0] == c);
    lemma_trim_start_push(l, c);
    assert(seq![c].drop_first() =~= Seq::<char>::empty());
    assert(l.push(c).last() == c);
    if unicode_white_space(c) {
        assert(trim_start(front) == trim_start(l));
        if trim_start(l).len() > 0 {
            let x = trim_start(l);
            assert(x.push(c).drop_last() =~= x);
            assert(x.push(c).last() == c);
            assert(trim_end(x.push(c)) == trim_end(x));
        } else {
            assert(trim_start(seq![c]) == trim_start(Seq::<char>::empty()));
            assert(trim_start(Seq::<char>::empty()) =~= Seq::<char>::empty());
            assert(trim_start(l.push(c)) =~= Seq::<char>::empty());
            assert(trim_start(l) =~= Seq::<char>::empty());
        }
    } else {
        assert(trim_start(front) == front);
        lemma_trim_end_keeps_first(front);
        lemma_trim_start_keeps_last(l.push(c));
        let t = trim_start(l.push(c));
        assert(t.last() == c);
    }
}

/// The pieces of `s` between occurrences of `sep`, as `str::split` with a
/// `char` pattern gives them: one more piece than there are separators.
pub open spec fn split(s: Seq<char>, sep: char) -> Seq<Seq<char>>
    decreases s.len(),
{
    if s.len() == 0 {
        seq![Seq::empty()]
    } else if s.last() == sep {
        split(s.drop_last(), sep).push(Seq::empty())
    } else {
        let p = split(s.drop_last(), sep);
        p.update(p.len() - 1, p.last().push(s.last()))
    }
}

pub proof fn lemma_split_len(s: Seq<char>, sep: char)
    ensures
        split(s, sep).len() >= 1,
    decreases s.len(),
{
    if s.len() > 0 {
        lemma_split_len(s.drop_last(), sep);
    }
}

/// The character sequences that a vector of character vectors holds.
pub open spec fn views(v: Seq<Vec<char>>) -> Seq<Seq<char>> {
    v.map_values(|x: Vec<char>| x@)
}

/// A word of an instruction's text: not empty, without white space or `;`.
pub open spec fn clean_word(w: Seq<char>) -> bool {
    &&& w.len() > 0
    &&& forall|i: int| 0 <= i < w.len() ==> !is_space(#[trigger] w[i]) && w[i] != ';'
}

/// `s` holds no `c`.
pub open spec fn lacks(s: Seq<char>, c: char) -> bool {
    forall|i: int| 0 <= i < s.len() ==> s[i] != c
}

/// A string without the separator splits into itself alone.
pub proof fn lemma_split_lacking(s: Seq<char>, sep: char)
    requires
        lacks(s, sep),
    ensures
        split(s, sep) == seq![s],
    decreases s.len(),
{
    if s.len() > 0 {
        let p = s.drop_last();
        assert(lacks(p, sep)) by {
            assert forall|i: int| 0 <= i < p.len() implies p[i] != sep by {
                assert(p[i] == s[i]);
            }
        }
        lemma_split_lacking(p, sep);
        assert(s.last() == s[s.len() - 1]);
        assert(p.push(s.last()) =~= s);
        assert(split(s, sep) =~= seq![s]);
    } else {
        assert(s =~= Seq::<char>::empty());
    }
}

/// Splitting `x`, a separator, then `y` (without the separator) gives the
/// pieces of `x` and then `y`.
pub proof fn lemma_split_append(x: Seq<char>, y: Seq<char>, sep: char)
    requires
        lacks(y, sep),
    ensures
        split(x + seq![sep] + y, sep) == split(x, sep).push(y),
    decreases y.len(),
{
    let s = x + seq![sep] + y;
    if y.len() == 0 {
        assert(s.drop_last() =~= x);
        assert(s.last() == sep);
        assert(y =~= Seq::<char>::empty());
    } else {
        let yp = y.drop_last();
        assert(lacks(yp, sep)) by {
            assert forall|i: int| 0 <= i < yp.len() implies yp[i] != sep by {
                assert(yp[i] == y[i]);
            }
        }
        lemma_split_append(x, yp, sep);
        assert(s.drop_last() =~= x + seq![sep] + yp);
        assert(s.last() == y[y.len() - 1]);
        lemma_split_len(x + seq![sep] + yp, sep);
        assert(yp.push(y.last()) =~= y);
        assert(split(s, sep) =~= split(x, sep).push(y));
    }
}

/// A string that neither starts nor ends with white space is its own trim.
pub proof fn lemma_trim_tight(s: Seq<char>)
    requires
        s.len() > 0,
        !is_space(s[0]),
        !is_space(s.last()),
    ensures
        trim(s) == s,
{
    assert(trim_start(s) == s);
}

/// The pieces of `s` between occurrences of `sep` (see `split`).
pub fn split_chars(s: &[char], sep: char) -> (pieces: Vec<Vec<char>>)
    ensures
        views(pieces@) == split(s@, sep),
{
    let mut pieces: Vec<Vec<char>> = Vec::new();
    let mut cur: Vec<char> = Vec::new();
    let mut i: usize = 0;
    while i < s.len()
        invariant
            i <= s@.len(),
            views(pieces@).push(cur@) == split(s@.take(i as int), sep),
        decreases s@.len() - i,
    {
        let c = s[i];
        let ghost prev = s@.take(i as int);
        assert(s@.take(i + 1).drop_last() == prev);
        proof { lemma_split_len(prev, sep); }
        if c == sep {
            let done = cur;
            pieces.push(done);
            cur = Vec::new();
        } else {
            cur.push(c);
        }
        i = i + 1;
        assert(views(pieces@).push(cur@) =~= split(s@.take(i as int), sep));
    }
    assert(s@.take(s@.len() as int) == s@);
    let ghost before = views(pieces@);
    pieces.push(cur);
    assert(views(pieces@) =~= before.push(cur@));
    pieces
}


/// `p` without one trailing carriage return.
pub open spec fn strip_cr(p: Seq<char>) -> Seq<char> {
    if p.len() > 0 && p.last() == '\r' {
        p.drop_last()
    } else {
        p
    }
}

/// The lines of `s`, as `str::lines` gives them: split at `'\n'`, a `'\r'`
/// just before a `'\n'` removed, and no empty last line after a final `'\n'`.
pub open spec fn lines(s: Seq<char>) -> Seq<Seq<char>> {
    let pieces = split(s, '\n');
    let body = pieces.drop_last().map_values(|p: Seq<char>| strip_cr(p));
    if pieces.last().len() == 0 {
        body
    } else {
        body.push(pieces.last())
    }
}

/// The lines of `s` (see `lines`).
pub fn lines_of(s: &[char]) -> (ls: Vec<Vec<char>>)
    ensures
        views(ls@) == lines(s@),
{
    let pieces = split_chars(s, '\n');
    proof { lemma_split_len(s@, '\n'); }
    let n = pieces.len();
    let ghost pv = views(pieces@);
    let mut ls: Vec<Vec<char>> = Vec::new();
    let mut i: usize = 0;
    while i + 1 < n
        invariant
            n == pieces@.len(),
            n >= 1,
            pv == views(pieces@),
            i + 1 <= n,
            views(ls@) == pv.take(i as int).map_values(|p: Seq<char>| strip_cr(p)),
        decreases n - i,
    {
        let p = &pieces[i];
        let mut q: Vec<char> = Vec::new();
        let mut m: usize = 0;
        let len = if p.len() > 0 && p[p.len() - 1] == '\r' { p.len() - 1 } else { p.len() };
        while m < len
            invariant
                len <= p@.len(),
                m <= len,
                q@ == p@.take(m as int),
            decreases len - m,
        {
            q.push(p[m]);
            m = m + 1;
        }
        assert(q@ == strip_cr(pv[i as int]));
        let ghost before = views(ls@);
        ls.push(q);
        i = i + 1;
        assert(views(ls@) =~= before.push(q@));
        assert(views(ls@) =~= pv.take(i as int).map_values(|p: Seq<char>| strip_cr(p)));
    }
    assert(pv.take(i as int) == pv.drop_last());
    let last = &pieces[n - 1];
    if last.len() > 0 {
        let mut q: Vec<char> = Vec::new();
        let mut m: usize = 0;
        while m < last.len()
            invariant
                m <= last@.len(),
                q@ == last@.take(m as int),
            decreases last@.len() - m,
        {
            q.push(last[m]);
            m = m + 1;
        }
        assert(q@ == last@);
        let ghost before = views(ls@);
        ls.push(q);
        assert(views(ls@) =~= before.push(q@));
    }
    ls
}

/// The part of `s` before the first `c` and the part after it, or `None`
/// when `c` does not occur (`str::split_once`).
pub open spec fn split_once(s: Seq<char>, c: char) -> Option<(Seq<char>, Seq<char>)>
    decreases s.len(),
{
    if s.len() == 0 {
        None
    } else if s[0] == c {
        Some((Seq::empty(), s.drop_first()))
    } else {
        match split_once(s.drop_first(), c) {
            Some((a, b)) => Some((seq![s[0]] + a, b)),
            None => None,
        }
    }
}

proof fn lemma_split_once_at(s: Seq<char>, c: char, i: int)
    requires
        0 <= i <= s.len(),
        forall|j: int| 0 <= j < i ==> #[trigger] s[j] != c,
        i < s.len() ==> s[i] == c,
    ensures
        split_once(s, c) == if i < s.len() {
            Some((s.take(i), s.skip(i + 1)))
        } else {
            None::<(Seq<char>, Seq<char>)>
        },
    decreases i,
{
    if i > 0 {
        lemma_split_once_at(s.drop_first(), c, i - 1);
        assert(seq![s[0]] + s.drop_first().take(i - 1) == s.take(i));
        if i < s.len() {
            assert(s.drop_first().skip(i) == s.skip(i + 1));
        }
    } else if s.len() > 0 {
        assert(s.take(0) == Seq::<char>::empty());
        assert(s.skip(1) == s.drop_first());
    }
}

/// The parts of `s` before and after the first `c` (see `split_once`).
pub fn split_once_chars(s: &[char], c: char) -> (r: Option<(Vec<char>, Vec<char>)>)
    ensures
        match r {
            Some((a, b)) => split_once(s@, c) == Some((a@, b@)),
            None => split_once(s@, c) is None,
        },
{
    let mut i: usize = 0;
    while i < s.len() && s[i] != c
        invariant
            i <= s@.len(),
            forall|j: int| 0 <= j < i ==> #[trigger] s@[j] != c,
        decreases s@.len() - i,
    {
        i = i + 1;
    }
    proof { lemma_split_once_at(s@, c, i as int); }
    if i == s.len() {
        return None;
    }
    let mut a: Vec<char> = Vec::new();
    let mut m: usize = 0;
    while m < i
        invariant
            i < s@.len(),
            m <= i,
            a@ == s@.take(m as int),
        decreases i - m,
    {
        a.push(s[m]);
        m = m + 1;
    }
    let mut b: Vec<char> = Vec::new();
    let mut k: usize = i + 1;
    while k < s.len()
        invariant
            i < k <= s@.len(),
            b@ == s@.subrange(i + 1, k as int),
        decreases s@.len() - k,
    {
        b.push(s[k]);
        k = k + 1;
    }
    assert(b@ == s@.skip(i + 1));
    Some((a, b))
}

} // verus!
