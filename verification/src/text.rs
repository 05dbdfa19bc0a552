//! Character-level string helpers: whitespace trimming, splitting on a
//! pattern, substring search and joining, each stated over `Seq<char>`.
use vstd::prelude::*;
use vstd::string::*;

verus! {

/// The views of a sequence of strings.
pub open spec fn views(v: Seq<String>) -> Seq<Seq<char>> {
    v.map_values(|x: String| x@)
}

/// Unicode `White_Space`, the property that `char::is_whitespace` tests.
pub open spec fn is_white_space(c: char) -> bool {
    let u = c as u32;
    ||| 0x09 <= u <= 0x0D
    ||| u == 0x20
    ||| u == 0x85
    ||| u == 0xA0
    ||| u == 0x1680
    ||| 0x2000 <= u <= 0x200A
    ||| u == 0x2028
    ||| u == 0x2029
    ||| u == 0x202F
    ||| u == 0x205F
    ||| u == 0x3000
}

/// `s` without its leading white space.
pub open spec fn trim_start_spec(s: Seq<char>) -> Seq<char>
    decreases s.len(),
{
    if s.len() > 0 && is_white_space(s[0]) {
        trim_start_spec(s.drop_first())
    } else {
        s
    }
}

/// `s` without its trailing white space.
pub open spec fn trim_end_spec(s: Seq<char>) -> Seq<char>
    decreases s.len(),
{
    if s.len() > 0 && is_white_space(s.last()) {
        trim_end_spec(s.drop_last())
    } else {
        s
    }
}

/// `s` without leading and trailing white space (`str::trim`).
pub open spec fn trim_spec(s: Seq<char>) -> Seq<char> {
    trim_end_spec(trim_start_spec(s))
}

/// `s` without any trailing occurrence of `c` (`str::trim_end_matches` with a `char`).
pub open spec fn strip_trailing_spec(s: Seq<char>, c: char) -> Seq<char>
    decreases s.len(),
{
    if s.len() > 0 && s.last() == c {
        strip_trailing_spec(s.drop_last(), c)
    } else {
        s
    }
}

/// `p` occurs in `s` starting at index `i`.
pub open spec fn matches_at(s: Seq<char>, p: Seq<char>, i: int) -> bool {
    0 <= i && i + p.len() <= s.len() && s.subrange(i, i + p.len()) =~= p
}

/// `p` occurs somewhere in `s` (`str::contains`).
pub open spec fn contains_spec(s: Seq<char>, p: Seq<char>) -> bool {
    exists|i: int| matches_at(s, p, i)
}

/// The pieces of `s` from `piece_start` on, scanning for `p` from index `i`:
/// occurrences of `p` are taken leftmost first and do not overlap.
pub open spec fn split_scan(s: Seq<char>, p: Seq<char>, piece_start: int, i: int) -> Seq<Seq<char>>
    decreases s.len() - i,
{
    if p.len() == 0 || i < 0 || i + p.len() > s.len() {
        seq![s.subrange(piece_start, s.len() as int)]
    } else if matches_at(s, p, i) {
        seq![s.subrange(piece_start, i)] + split_scan(s, p, i + p.len(), i + p.len())
    } else {
        split_scan(s, p, piece_start, i + 1)
    }
}

/// The pieces of `s` between the occurrences of the non-empty pattern `p` (`str::split`).
pub open spec fn split_spec(s: Seq<char>, p: Seq<char>) -> Seq<Seq<char>> {
    split_scan(s, p, 0, 0)
}

/// The pieces joined with `sep` between each two of them.
pub open spec fn join_spec(parts: Seq<Seq<char>>, sep: Seq<char>) -> Seq<char>
    decreases parts.len(),
{
    if parts.len() == 0 {
        Seq::empty()
    } else if parts.len() == 1 {
        parts[0]
    } else {
        join_spec(parts.drop_last(), sep) + sep + parts.last()
    }
}

proof fn lemma_trim_start_front(s: Seq<char>)
    ensures
        trim_start_spec(s).len() == 0 || !is_white_space(trim_start_spec(s)[0]),
    decreases s.len(),
{
    if s.len() > 0 && is_white_space(s[0]) {
        lemma_trim_start_front(s.drop_first());
    }
}

proof fn lemma_trim_end_shape(s: Seq<char>)
    ensures
        trim_end_spec(s).len() <= s.len(),
        trim_end_spec(s) =~= s.subrange(0, trim_end_spec(s).len() as int),
        trim_end_spec(s).len() == 0 || !is_white_space(trim_end_spec(s).last()),
    decreases s.len(),
{
    if s.len() > 0 && is_white_space(s.last()) {
        lemma_trim_end_shape(s.drop_last());
        let t = trim_end_spec(s.drop_last());
        assert(s.drop_last().subrange(0, t.len() as int) =~= s.subrange(0, t.len() as int));
    } else {
        assert(s.subrange(0, s.len() as int) =~= s);
    }
}

/// A trimmed string that is not empty neither starts nor ends with white space.
pub proof fn lemma_trim_leaves_no_white_space_at_ends(s: Seq<char>)
    ensures
        trim_spec(s).len() > 0 ==> !is_white_space(trim_spec(s)[0]) && !is_white_space(
            trim_spec(s).last(),
        ),
{
    let u = trim_start_spec(s);
    lemma_trim_start_front(s);
    lemma_trim_end_shape(u);
    let t = trim_end_spec(u);
    if t.len() > 0 {
        assert(t[0] == u[0]);
    }
}

proof fn lemma_join_cons(x: Seq<char>, rest: Seq<Seq<char>>, sep: Seq<char>)
    requires
        rest.len() > 0,
    ensures
        join_spec(seq![x] + rest, sep) == x + sep + join_spec(rest, sep),
    decreases rest.len(),
{
    let all = seq![x] + rest;
    if rest.len() == 1 {
        assert(all.drop_last() =~= seq![x]);
        assert(all.last() == rest[0]);
        assert(join_spec(seq![x], sep) == x);
        assert(join_spec(rest, sep) == rest[0]);
    } else {
        lemma_join_cons(x, rest.drop_last(), sep);
        assert(all.drop_last() =~= seq![x] + rest.drop_last());
        assert(all.last() == rest.last());
        assert(join_spec(all, sep) == join_spec(all.drop_last(), sep) + sep + all.last());
        assert(join_spec(rest, sep) == join_spec(rest.drop_last(), sep) + sep + rest.last());
        assert(x + sep + join_spec(rest.drop_last(), sep) + sep + rest.last() =~= x + sep + (
        join_spec(rest.drop_last(), sep) + sep + rest.last()));
    }
}

proof fn lemma_split_scan_join(s: Seq<char>, p: Seq<char>, piece_start: int, i: int)
    requires
        p.len() > 0,
        0 <= piece_start <= i,
        piece_start <= s.len(),
    ensures
        split_scan(s, p, piece_start, i).len() > 0,
        join_spec(split_scan(s, p, piece_start, i), p) == s.subrange(piece_start, s.len() as int),
    decreases s.len() - i,
{
    if i + p.len() > s.len() {
    } else if matches_at(s, p, i) {
        let next = i + p.len();
        lemma_split_scan_join(s, p, next, next);
        let rest = split_scan(s, p, next, next);
        lemma_join_cons(s.subrange(piece_start, i), rest, p);
        assert(s.subrange(piece_start, i) + p + s.subrange(next, s.len() as int) =~= s.subrange(
            piece_start,
            s.len() as int,
        ));
    } else {
        lemma_split_scan_join(s, p, piece_start, i + 1);
    }
}

/// Joining the pieces of a split with the pattern gives back the string.
pub proof fn lemma_join_of_split(s: Seq<char>, p: Seq<char>)
    requires
        p.len() > 0,
    ensures
        join_spec(split_spec(s, p), p) == s,
{
    lemma_split_scan_join(s, p, 0, 0);
    assert(s.subrange(0, s.len() as int) =~= s);
}

/// The characters of `s`, in order.
pub fn chars_of(s: &str) -> (out: Vec<char>)
    ensures
        out@ == s@,
{
    let mut out: Vec<char> = Vec::new();
    for c in it: s.chars()
        invariant
            out@ == it.seq().take(it.index() as int),
            it.seq() == s@,
    {
        out.push(c);
    }
    out
}

/// An owned copy of `s`.
pub fn owned(s: &str) -> (out: String)
    ensures
        out@ == s@,
{
    s.to_owned()
}

/// The characters of `s` from `from` to `to`, as a new string.
pub fn slice_chars(s: &str, from: usize, to: usize) -> (out: String)
    requires
        from <= to <= s@.len(),
    ensures
        out@ == s@.subrange(from as int, to as int),
{
    owned(s.substring_char(from, to))
}

/// `a` followed by `b`.
pub fn concat2(a: &str, b: &str) -> (out: String)
    ensures
        out@ == a@ + b@,
{
    let mut out = owned(a);
    out.append(b);
    out
}

/// `a`, `b` and `c` in a row.
pub fn concat3(a: &str, b: &str, c: &str) -> (out: String)
    ensures
        out@ == a@ + b@ + c@,
{
    let mut out = owned(a);
    out.append(b);
    out.append(c);
    out
}

/// `a`, `b`, `c` and `d` in a row.
pub fn concat4(a: &str, b: &str, c: &str, d: &str) -> (out: String)
    ensures
        out@ == a@ + b@ + c@ + d@,
{
    let mut out = owned(a);
    out.append(b);
    out.append(c);
    out.append(d);
    out
}

/// Whether `a` and `b` hold the same characters.
pub fn str_eq(a: &str, b: &str) -> (r: bool)
    ensures
        r == (a@ == b@),
{
    let x = chars_of(a);
    let y = chars_of(b);
    if x.len() != y.len() {
        return false;
    }
    let mut i: usize = 0;
    while i < x.len()
        invariant
            x@ == a@,
            y@ == b@,
            x@.len() == y@.len(),
            i <= x@.len(),
            forall|j: int| 0 <= j < i ==> x@[j] == y@[j],
        decreases x.len() - i,
    {
        if x[i] != y[i] {
            return false;
        }
        i = i + 1;
    }
    assert(x@ =~= y@);
    true
}

/// Whether `c` is white space (`char::is_whitespace`).
pub fn is_white_space_char(c: char) -> (b: bool)
    ensures
        b == is_white_space(c),
{
    let u = c as u32;
    (0x09 <= u && u <= 0x0D) || u == 0x20 || u == 0x85 || u == 0xA0 || u == 0x1680 || (0x2000 <= u
        && u <= 0x200A) || u == 0x2028 || u == 0x2029 || u == 0x202F || u == 0x205F || u == 0x3000
}

proof fn lemma_trim_start_skips(s: Seq<char>, k: int)
    requires
        0 <= k <= s.len(),
        forall|j: int| 0 <= j < k ==> is_white_space(#[trigger] s[j]),
        k == s.len() || !is_white_space(s[k]),
    ensures
        trim_start_spec(s) =~= s.subrange(k, s.len() as int),
    decreases k,
{
    if k > 0 {
        assert(is_white_space(s[0]));
        let t = s.drop_first();
        assert forall|j: int| 0 <= j < k - 1 implies is_white_space(#[trigger] t[j]) by {
            assert(t[j] == s[j + 1]);
        }
        if k - 1 < t.len() {
            assert(t[k - 1] == s[k]);
        }
        lemma_trim_start_skips(t, k - 1);
        assert(t.subrange(k - 1, t.len() as int) =~= s.subrange(k, s.len() as int));
    } else {
        assert(s.subrange(0, s.len() as int) =~= s);
    }
}

proof fn lemma_trim_end_skips(s: Seq<char>, k: int)
    requires
        0 <= k <= s.len(),
        forall|j: int| k <= j < s.len() ==> is_white_space(#[trigger] s[j]),
        k == 0 || !is_white_space(s[k - 1]),
    ensures
        trim_end_spec(s) =~= s.subrange(0, k),
    decreases s.len() - k,
{
    if k < s.len() {
        assert(is_white_space(s[s.len() - 1]));
        let t = s.drop_last();
        assert forall|j: int| k <= j < t.len() implies is_white_space(#[trigger] t[j]) by {
            assert(t[j] == s[j]);
        }
        if k > 0 {
            assert(t[k - 1] == s[k - 1]);
        }
        lemma_trim_end_skips(t, k);
        assert(t.subrange(0, k) =~= s.subrange(0, k));
    } else {
        assert(s.subrange(0, k) =~= s);
    }
}

/// `s` without leading and trailing white space (`str::trim`).
pub fn trim(s: &str) -> (out: String)
    ensures
        out@ == trim_spec(s@),
{
    let cs = chars_of(s);
    let n = cs.len();
    let mut a: usize = 0;
    while a < n && is_white_space_char(cs[a])
        invariant
            cs@ == s@,
            n == cs@.len(),
            a <= n,
            forall|j: int| 0 <= j < a ==> is_white_space(#[trigger] cs@[j]),
        decreases n - a,
    {
        a = a + 1;
    }
    let mut b: usize = n;
    while b > a && is_white_space_char(cs[b - 1])
        invariant
            cs@ == s@,
            n == cs@.len(),
            a <= b <= n,
            forall|j: int| b <= j < n ==> is_white_space(#[trigger] cs@[j]),
        decreases b,
    {
        b = b - 1;
    }
    proof {
        lemma_trim_start_skips(s@, a as int);
        let t = s@.subrange(a as int, n as int);
        assert forall|j: int| b - a <= j < t.len() implies is_white_space(#[trigger] t[j]) by {
            assert(t[j] == s@[j + a]);
        }
        if b > a {
            assert(t[b - a - 1] == s@[b - 1]);
        }
        lemma_trim_end_skips(t, b - a);
        assert(t.subrange(0, b - a) =~= s@.subrange(a as int, b as int));
    }
    slice_chars(s, a, b)
}

proof fn lemma_strip_trailing(s: Seq<char>, c: char, k: int)
    requires
        0 <= k <= s.len(),
        forall|j: int| k <= j < s.len() ==> #[trigger] s[j] == c,
        k == 0 || s[k - 1] != c,
    ensures
        strip_trailing_spec(s, c) =~= s.subrange(0, k),
    decreases s.len() - k,
{
    if k < s.len() {
        assert(s.last() == c);
        let t = s.drop_last();
        assert forall|j: int| k <= j < t.len() implies #[trigger] t[j] == c by {
            assert(t[j] == s[j]);
        }
        if k > 0 {
            assert(t[k - 1] == s[k - 1]);
        }
        lemma_strip_trailing(t, c, k);
        assert(t.subrange(0, k) =~= s.subrange(0, k));
    } else {
        assert(s.subrange(0, k) =~= s);
    }
}

/// `s` without any trailing occurrence of `c` (`str::trim_end_matches`).
pub fn strip_trailing(s: &str, c: char) -> (out: String)
    ensures
        out@ == strip_trailing_spec(s@, c),
{
    let cs = chars_of(s);
    let mut b: usize = cs.len();
    while b > 0 && cs[b - 1] == c
        invariant
            cs@ == s@,
            b <= cs@.len(),
            forall|j: int| b <= j < cs@.len() ==> #[trigger] cs@[j] == c,
        decreases b,
    {
        b = b - 1;
    }
    proof {
        lemma_strip_trailing(s@, c, b as int);
    }
    slice_chars(s, 0, b)
}

/// Whether `p` occurs in `s` at index `i`.
fn matches_at_exec(s: &Vec<char>, p: &Vec<char>, i: usize) -> (b: bool)
    ensures
        b == matches_at(s@, p@, i as int),
{
    if i > s.len() || p.len() > s.len() - i {
        return false;
    }
    let sl = s.len();
    let mut j: usize = 0;
    while j < p.len()
        invariant
            sl == s@.len(),
            i + p@.len() <= s@.len(),
            j <= p@.len(),
            forall|k: int| 0 <= k < j ==> s@[i + k] == p@[k],
        decreases p.len() - j,
    {
        assert(i + j < s@.len());
        if s[i + j] != p[j] {
            assert(s@.subrange(i as int, i + p@.len())[j as int] != p@[j as int]);
            return false;
        }
        j = j + 1;
    }
    assert(s@.subrange(i as int, i + p@.len()) =~= p@);
    true
}

/// Whether `p` occurs in `s` (`str::contains`).
pub fn contains(s: &str, p: &str) -> (b: bool)
    ensures
        b == contains_spec(s@, p@),
{
    let cs = chars_of(s);
    let ps = chars_of(p);
    let n = cs.len();
    let m = ps.len();
    let mut i: usize = 0;
    while i <= n && m <= n - i
        invariant
            cs@ == s@,
            ps@ == p@,
            n == s@.len(),
            m == p@.len(),
            i <= n + 1,
            forall|k: int| 0 <= k < i ==> !matches_at(s@, p@, k),
        decreases n + 1 - i,
    {
        if m == 0 {
            assert(s@.subrange(i as int, i as int) =~= p@);
        }
        if matches_at_exec(&cs, &ps, i) {
            return true;
        }
        i = i + 1;
    }
    proof {
        assert forall|k: int| !matches_at(s@, p@, k) by {
            if 0 <= k < i {
            }
        }
    }
    false
}

/// The pieces of `s` between the occurrences of `p` (`str::split`).
pub fn split(s: &str, p: &str) -> (out: Vec<String>)
    requires
        p@.len() > 0,
    ensures
        views(out@) == split_spec(s@, p@),
{
    let cs = chars_of(s);
    let ps = chars_of(p);
    let n = cs.len();
    let m = ps.len();
    let mut out: Vec<String> = Vec::new();
    let mut piece_start: usize = 0;
    let mut i: usize = 0;
    while i <= n && m <= n - i
        invariant
            cs@ == s@,
            ps@ == p@,
            n == s@.len(),
            m == p@.len(),
            m > 0,
            piece_start <= i,
            i <= n + 1,
            piece_start <= n,
            views(out@) + split_scan(s@, p@, piece_start as int, i as int) == split_spec(s@, p@),
        decreases n + 1 - i,
    {
        if matches_at_exec(&cs, &ps, i) {
            let piece = slice_chars(s, piece_start, i);
            proof {
                assert(views(out@.push(piece)) =~= views(out@).push(piece@));
                assert(seq![piece@] + split_scan(s@, p@, i + m, i + m) == split_scan(
                    s@,
                    p@,
                    piece_start as int,
                    i as int,
                ));
                assert(views(out@).push(piece@) + split_scan(s@, p@, i + m, i + m) =~= views(out@)
                    + (seq![piece@] + split_scan(s@, p@, i + m, i + m)));
            }
            out.push(piece);
            i = i + m;
            piece_start = i;
        } else {
            i = i + 1;
        }
    }
    let piece = slice_chars(s, piece_start, n);
    proof {
        assert(split_scan(s@, p@, piece_start as int, i as int) == seq![piece@]);
        assert(views(out@.push(piece)) =~= views(out@).push(piece@));
        assert(views(out@) + seq![piece@] =~= views(out@).push(piece@));
    }
    out.push(piece);
    out
}

/// The strings joined with `sep` between each two of them (`[String]::join`).
pub fn join(parts: &Vec<String>, sep: &str) -> (out: String)
    ensures
        out@ == join_spec(views(parts@), sep@),
{
    let mut out = String::new();
    let mut i: usize = 0;
    while i < parts.len()
        invariant
            i <= parts@.len(),
            out@ == join_spec(views(parts@).take(i as int), sep@),
        decreases parts.len() - i,
    {
        proof {
            let t = views(parts@).take(i + 1);
            assert(t.drop_last() =~= views(parts@).take(i as int));
            assert(t.last() == parts@[i as int]@);
            if i == 0 {
                assert(views(parts@).take(0) =~= Seq::<Seq<char>>::empty());
            }
        }
        if i > 0 {
            out.append(sep);
        }
        out.append(parts[i].as_str());
        i = i + 1;
    }
    assert(views(parts@).take(parts@.len() as int) =~= views(parts@));
    out
}

} // verus!
