//! Character-level text operations on `Vec<char>` and their models on `Seq<char>`.

use vstd::prelude::*;

verus! {

/// Unicode `White_Space`: the set that `char::is_whitespace` and `str::trim` use.
pub open spec fn is_white_space(c: char) -> bool {
    let n = c as u32;
    ||| (0x09 <= n && n <= 0x0D)
    ||| n == 0x20
    ||| n == 0x85
    ||| n == 0xA0
    ||| n == 0x1680
    ||| (0x2000 <= n && n <= 0x200A)
    ||| n == 0x2028
    ||| n == 0x2029
    ||| n == 0x202F
    ||| n == 0x205F
    ||| n == 0x3000
}

/// `s` without the characters satisfying `p` at its start.
pub open spec fn drop_while(s: Seq<char>, p: spec_fn(char) -> bool) -> Seq<char>
    decreases s.len(),
{
    if s.len() > 0 && p(s[0]) {
        drop_while(s.drop_first(), p)
    } else {
        s
    }
}

/// `s` without the characters satisfying `p` at its end.
pub open spec fn drop_while_end(s: Seq<char>, p: spec_fn(char) -> bool) -> Seq<char>
    decreases s.len(),
{
    if s.len() > 0 && p(s.last()) {
        drop_while_end(s.drop_last(), p)
    } else {
        s
    }
}

/// `s` without the characters satisfying `p` at either end.
pub open spec fn trim_by(s: Seq<char>, p: spec_fn(char) -> bool) -> Seq<char> {
    drop_while_end(drop_while(s, p), p)
}

/// `s` with its leading white space removed.
pub open spec fn trim_start(s: Seq<char>) -> Seq<char> {
    drop_while(s, |c: char| is_white_space(c))
}

/// `s` with its trailing white space removed.
pub open spec fn trim_end(s: Seq<char>) -> Seq<char> {
    drop_while_end(s, |c: char| is_white_space(c))
}

proof fn lemma_drop_while(s: Seq<char>, p: spec_fn(char) -> bool)
    ensures
        exists|k: int|
            0 <= k <= s.len() && drop_while(s, p) == s.skip(k) && (forall|i: int|
                0 <= i < k ==> p(#[trigger] s[i])),
        drop_while(s, p).len() > 0 ==> !p(drop_while(s, p)[0]),
    decreases s.len(),
{
    if s.len() > 0 && p(s[0]) {
        lemma_drop_while(s.drop_first(), p);
        let k = choose|k: int|
            0 <= k <= s.drop_first().len() && drop_while(s.drop_first(), p) == s.drop_first().skip(k)
                && (forall|i: int| 0 <= i < k ==> p(#[trigger] s.drop_first()[i]));
        assert(s.drop_first().skip(k) =~= s.skip(k + 1));
        assert forall|i: int| 0 <= i < k + 1 implies p(#[trigger] s[i]) by {
            if i > 0 {
                assert(s[i] == s.drop_first()[i - 1]);
            }
        }
    } else {
        assert(s.skip(0) =~= s);
    }
}

proof fn lemma_drop_while_end(s: Seq<char>, p: spec_fn(char) -> bool)
    ensures
        exists|k: int|
            0 <= k <= s.len() && drop_while_end(s, p) == s.take(k) && (forall|i: int|
                k <= i < s.len() ==> p(#[trigger] s[i])),
        drop_while_end(s, p).len() > 0 ==> !p(drop_while_end(s, p).last()),
    decreases s.len(),
{
    if s.len() > 0 && p(s.last()) {
        lemma_drop_while_end(s.drop_last(), p);
        let k = choose|k: int|
            0 <= k <= s.drop_last().len() && drop_while_end(s.drop_last(), p) == s.drop_last().take(
                k,
            ) && (forall|i: int| k <= i < s.drop_last().len() ==> p(#[trigger] s.drop_last()[i]));
        assert(s.drop_last().take(k) =~= s.take(k));
        assert forall|i: int| k <= i < s.len() implies p(#[trigger] s[i]) by {
            if i < s.len() - 1 {
                assert(s[i] == s.drop_last()[i]);
            }
        }
    } else {
        assert(s.take(s.len() as int) =~= s);
    }
}

/// Trimming by `p` leaves a run of `s` whose ends do not satisfy `p`; what
/// it drops all satisfies `p`.
pub proof fn lemma_trim_by(s: Seq<char>, p: spec_fn(char) -> bool)
    ensures
        ({
            let r = trim_by(s, p);
            &&& r.len() > 0 ==> !p(r[0]) && !p(r.last())
            &&& exists|a: int, b: int|
                0 <= a <= b <= s.len() && r == s.subrange(a, b) && (forall|i: int|
                    0 <= i < a ==> p(#[trigger] s[i])) && (forall|i: int|
                    b <= i < s.len() ==> p(#[trigger] s[i]))
        }),
{
    let t = drop_while(s, p);
    lemma_drop_while(s, p);
    lemma_drop_while_end(t, p);
    let a = choose|k: int|
        0 <= k <= s.len() && drop_while(s, p) == s.skip(k) && (forall|i: int|
            0 <= i < k ==> p(#[trigger] s[i]));
    let k = choose|k: int|
        0 <= k <= t.len() && drop_while_end(t, p) == t.take(k) && (forall|i: int|
            k <= i < t.len() ==> p(#[trigger] t[i]));
    let r = trim_by(s, p);
    assert(r =~= s.subrange(a, a + k));
    if k > 0 {
        assert(r[0] == t[0]);
    }
    assert forall|i: int| a + k <= i < s.len() implies p(#[trigger] s[i]) by {
        assert(s[i] == t[i - a]);
    }
}

/// Trimming by `p` leaves `s` as it is where neither end satisfies `p`.
pub proof fn lemma_trim_by_fixed(s: Seq<char>, p: spec_fn(char) -> bool)
    requires
        s.len() > 0 ==> !p(s[0]) && !p(s.last()),
    ensures
        trim_by(s, p) == s,
{
    assert(drop_while(s, p) == s);
    assert(drop_while_end(s, p) == s);
}

/// `s` with white space removed at both ends (what `str::trim` gives).
pub open spec fn trim(s: Seq<char>) -> Seq<char> {
    trim_by(s, |c: char| is_white_space(c))
}

pub fn char_is_white_space(c: char) -> (b: bool)
    ensures
        b == is_white_space(c),
{
    let n = c as u32;
    (0x09 <= n && n <= 0x0D) || n == 0x20 || n == 0x85 || n == 0xA0 || n == 0x1680 || (0x2000
        <= n && n <= 0x200A) || n == 0x2028 || n == 0x2029 || n == 0x202F || n == 0x205F || n
        == 0x3000
}

/// The characters of `s`, in order.
pub fn chars_of(s: &str) -> (v: Vec<char>)
    ensures
        v@ == s@,
{
    let mut v: Vec<char> = Vec::new();
    for c in it: s.chars()
        invariant
            v@ == it.seq().take(it.index() as int),
    {
        v.push(c);
    }
    v
}

/// A `String` holding the characters of `v`.
#[verifier::external_body]
pub(crate) fn string_of(v: &Vec<char>) -> (s: String)
    ensures
        s@ == v@,
{
    v.iter().collect()
}

/// The characters of `v` from index `start` up to, not including, `end`.
pub fn slice_chars(v: &Vec<char>, start: usize, end: usize) -> (r: Vec<char>)
    requires
        start <= end <= v.len(),
    ensures
        r@ == v@.subrange(start as int, end as int),
{
    let mut r: Vec<char> = Vec::new();
    let mut i = start;
    while i < end
        invariant
            start <= i <= end <= v.len(),
            r@ == v@.subrange(start as int, i as int),
        decreases end - i,
    {
        r.push(v[i]);
        i += 1;
    }
    r
}

/// Appends all of `b` to `a`.
pub fn append_chars(a: &mut Vec<char>, b: &Vec<char>)
    ensures
        final(a)@ == old(a)@ + b@,
{
    let mut i: usize = 0;
    while i < b.len()
        invariant
            i <= b.len(),
            a@ == old(a)@ + b@.take(i as int),
        decreases b.len() - i,
    {
        a.push(b[i]);
        i += 1;
        assert(b@.take(i as int) == b@.take(i - 1) + seq![b@[i - 1]]);
    }
    assert(b@.take(b.len() as int) == b@);
}

/// `v` with white space removed at both ends.
pub fn trim_chars(v: &Vec<char>) -> (r: Vec<char>)
    ensures
        r@ == trim(v@),
{
    let n = v.len();
    let mut i: usize = 0;
    assert(v@.subrange(0, n as int) == v@);
    while i < n && char_is_white_space(v[i])
        invariant
            i <= n == v.len(),
            trim_start(v@) == trim_start(v@.subrange(i as int, n as int)),
        decreases n - i,
    {
        assert(v@.subrange(i as int, n as int).drop_first() == v@.subrange(i + 1, n as int));
        i += 1;
    }
    let ghost t = v@.subrange(i as int, n as int);
    assert(trim_start(v@) == t);
    let mut j: usize = n;
    while j > i && char_is_white_space(v[j - 1])
        invariant
            i <= j <= n == v.len(),
            trim_end(t) == trim_end(v@.subrange(i as int, j as int)),
        decreases j,
    {
        assert(v@.subrange(i as int, j as int).drop_last() == v@.subrange(i as int, j - 1));
        j -= 1;
    }
    slice_chars(v, i, j)
}

/// Whether `a` and `b` hold the same characters.
pub fn same_text(a: &str, b: &str) -> (r: bool)
    ensures
        r == (a@ == b@),
{
    let x = chars_of(a);
    let y = chars_of(b);
    if x.len() != y.len() {
        return false;
    }
    let mut i: usize = 0;
    while i < x.len()
        invariant
            i <= x.len() == y.len(),
            x@ == a@,
            y@ == b@,
            forall|j: int| 0 <= j < i ==> x@[j] == y@[j],
        decreases x.len() - i,
    {
        if x[i] != y[i] {
            assert(x@[i as int] != y@[i as int]);
            return false;
        }
        i += 1;
    }
    assert(x@ =~= y@);
    true
}

/// The texts of `texts` one after another, with `sep` between neighbours.
pub open spec fn joined(texts: Seq<Seq<char>>, sep: Seq<char>) -> Seq<char>
    decreases texts.len(),
{
    if texts.len() == 0 {
        seq![]
    } else if texts.len() == 1 {
        texts[0]
    } else {
        joined(texts.drop_last(), sep) + sep + texts.last()
    }
}

/// The views of a sequence of strings.
pub open spec fn strings_view(s: Seq<String>) -> Seq<Seq<char>> {
    s.map_values(|t: String| t@)
}

/// Joins `texts` with `sep` between neighbours (`[String]::join`).
pub fn join_texts(texts: &Vec<String>, sep: &str) -> (r: String)
    ensures
        r@ == joined(strings_view(texts@), sep@),
{
    let sep_chars = chars_of(sep);
    let mut out: Vec<char> = Vec::new();
    let mut i: usize = 0;
    while i < texts.len()
        invariant
            i <= texts.len(),
            sep_chars@ == sep@,
            out@ == joined(strings_view(texts@).take(i as int), sep@),
        decreases texts.len() - i,
    {
        let ghost prev = strings_view(texts@).take(i as int);
        if i > 0 {
            append_chars(&mut out, &sep_chars);
        }
        append_chars(&mut out, &chars_of(texts[i].as_str()));
        i += 1;
        assert(strings_view(texts@).take(i as int).drop_last() =~= prev);
        assert(strings_view(texts@).take(i as int).last() == texts@[i - 1]@);
        if i == 1 {
            assert(out@ =~= joined(strings_view(texts@).take(i as int), sep@));
        }
    }
    assert(strings_view(texts@).take(texts.len() as int) =~= strings_view(texts@));
    string_of(&out)
}

/// `s` begins with `p`.
pub open spec fn has_prefix(s: Seq<char>, p: Seq<char>) -> bool {
    p.len() <= s.len() && s.take(p.len() as int) == p
}

/// `s` ends with `p`.
pub open spec fn has_suffix(s: Seq<char>, p: Seq<char>) -> bool {
    p.len() <= s.len() && s.skip(s.len() - p.len()) == p
}

/// Whether the characters of `a` from `start` on begin with those of `b`.
fn chars_match_at(a: &Vec<char>, start: usize, b: &Vec<char>) -> (r: bool)
    requires
        start + b.len() <= a.len(),
    ensures
        r == (a@.subrange(start as int, start + b.len()) == b@),
{
    let mut i: usize = 0;
    while i < b.len()
        invariant
            i <= b.len(),
            start + b.len() <= a.len(),
            forall|j: int| 0 <= j < i ==> a@[start + j] == b@[j],
        decreases b.len() - i,
    {
        if a[start + i] != b[i] {
            assert(a@.subrange(start as int, start + b.len())[i as int] != b@[i as int]);
            return false;
        }
        i += 1;
    }
    assert(a@.subrange(start as int, start + b.len()) =~= b@);
    true
}

/// `str::starts_with` for a string pattern.
pub fn starts_with(s: &str, p: &str) -> (r: bool)
    ensures
        r == has_prefix(s@, p@),
{
    let a = chars_of(s);
    let b = chars_of(p);
    if b.len() > a.len() {
        return false;
    }
    chars_match_at(&a, 0, &b)
}

/// `str::ends_with` for a string pattern.
pub fn ends_with(s: &str, p: &str) -> (r: bool)
    ensures
        r == has_suffix(s@, p@),
{
    let a = chars_of(s);
    let b = chars_of(p);
    if b.len() > a.len() {
        return false;
    }
    let r = chars_match_at(&a, a.len() - b.len(), &b);
    assert(a@.subrange(a.len() - b.len(), a.len() as int) =~= a@.skip(a.len() - b.len()));
    r
}

} // verus!
