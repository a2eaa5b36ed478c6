//! Character-sequence utilities with the semantics of the `str` methods the
//! deck parser relies on (`trim`, `split`, `lines`, `split_whitespace`, ...),
//! stated over `Seq<char>` and implemented over `Vec<char>`.
use vstd::prelude::*;

verus! {

/// `char::is_whitespace`: the Unicode `White_Space` property.
pub open spec fn is_ws(c: char) -> bool {
    let u = c as u32;
    (0x09 <= u && u <= 0x0d) || u == 0x20 || u == 0x85 || u == 0xa0 || u == 0x1680 || (0x2000
        <= u && u <= 0x200a) || u == 0x2028 || u == 0x2029 || u == 0x202f || u == 0x205f || u
        == 0x3000
}

pub fn char_is_ws(c: char) -> (r: bool)
    ensures
        r == is_ws(c),
{
    let u = c as u32;
    (0x09 <= u && u <= 0x0d) || u == 0x20 || u == 0x85 || u == 0xa0 || u == 0x1680 || (0x2000
        <= u && u <= 0x200a) || u == 0x2028 || u == 0x2029 || u == 0x202f || u == 0x205f || u
        == 0x3000
}

/// A set of characters to trim.
#[derive(Clone, Copy)]
pub enum CharSet {
    Whitespace,
    One(char),
    /// A single or a double quote.
    Quotes,
}

impl CharSet {
    pub open spec fn has(self, c: char) -> bool {
        match self {
            CharSet::Whitespace => is_ws(c),
            CharSet::One(d) => c == d,
            CharSet::Quotes => c == '\'' || c == '"',
        }
    }

    pub fn contains(&self, c: char) -> (r: bool)
        ensures
            r == self.has(c),
    {
        match self {
            CharSet::Whitespace => char_is_ws(c),
            CharSet::One(d) => c == *d,
            CharSet::Quotes => c == '\'' || c == '"',
        }
    }
}

/// Number of leading characters of `s` in `cs`.
pub open spec fn lead(s: Seq<char>, cs: CharSet) -> nat
    decreases s.len(),
{
    if s.len() > 0 && cs.has(s[0]) {
        1 + lead(s.drop_first(), cs)
    } else {
        0
    }
}

/// Number of trailing characters of `s` in `cs`.
pub open spec fn trail(s: Seq<char>, cs: CharSet) -> nat
    decreases s.len(),
{
    if s.len() > 0 && cs.has(s.last()) {
        1 + trail(s.drop_last(), cs)
    } else {
        0
    }
}

pub open spec fn trim_start_set(s: Seq<char>, cs: CharSet) -> Seq<char> {
    s.skip(lead(s, cs) as int)
}

pub open spec fn trim_end_set(s: Seq<char>, cs: CharSet) -> Seq<char> {
    s.take(s.len() - trail(s, cs))
}

/// `str::trim_matches`: every leading and trailing character in `cs` removed.
pub open spec fn trim_set(s: Seq<char>, cs: CharSet) -> Seq<char> {
    trim_end_set(trim_start_set(s, cs), cs)
}

/// `str::trim`.
pub open spec fn trim(s: Seq<char>) -> Seq<char> {
    trim_set(s, CharSet::Whitespace)
}

/// `str::trim_start`.
pub open spec fn trim_start(s: Seq<char>) -> Seq<char> {
    trim_start_set(s, CharSet::Whitespace)
}

pub proof fn lemma_lead(s: Seq<char>, cs: CharSet, k: int)
    requires
        0 <= k <= s.len(),
        forall|j: int| 0 <= j < k ==> cs.has(#[trigger] s[j]),
        k == s.len() || !cs.has(s[k]),
    ensures
        lead(s, cs) == k,
    decreases s.len(),
{
    if k > 0 {
        lemma_lead(s.drop_first(), cs, k - 1);
    }
}

pub proof fn lemma_trail(s: Seq<char>, cs: CharSet, k: int)
    requires
        0 <= k <= s.len(),
        forall|j: int| s.len() - k <= j < s.len() ==> cs.has(#[trigger] s[j]),
        k == s.len() || !cs.has(s[s.len() - k - 1]),
    ensures
        trail(s, cs) == k,
    decreases s.len(),
{
    if k > 0 {
        let t = s.drop_last();
        assert forall|j: int| t.len() - (k - 1) <= j < t.len() implies cs.has(#[trigger] t[j]) by {
            assert(t[j] == s[j]);
        }
        lemma_trail(t, cs, k - 1);
    }
}

pub proof fn lemma_lead_bound(s: Seq<char>, cs: CharSet)
    ensures
        lead(s, cs) <= s.len(),
        forall|j: int| 0 <= j < lead(s, cs) ==> cs.has(#[trigger] s[j]),
        lead(s, cs) < s.len() ==> !cs.has(s[lead(s, cs) as int]),
    decreases s.len(),
{
    if s.len() > 0 && cs.has(s[0]) {
        lemma_lead_bound(s.drop_first(), cs);
        assert forall|j: int| 0 <= j < lead(s, cs) implies cs.has(#[trigger] s[j]) by {
            if j > 0 {
                assert(s[j] == s.drop_first()[j - 1]);
            }
        }
    }
}

pub proof fn lemma_trail_bound(s: Seq<char>, cs: CharSet)
    ensures
        trail(s, cs) <= s.len(),
    decreases s.len(),
{
    if s.len() > 0 && cs.has(s.last()) {
        lemma_trail_bound(s.drop_last(), cs);
    }
}

/// Copy of `s[i..j]`.
pub fn slice(s: &Vec<char>, i: usize, j: usize) -> (r: Vec<char>)
    requires
        i <= j <= s.len(),
    ensures
        r@ == s@.subrange(i as int, j as int),
{
    let mut r: Vec<char> = Vec::new();
    let mut k = i;
    while k < j
        invariant
            i <= k <= j <= s.len(),
            r@ == s@.subrange(i as int, k as int),
        decreases j - k,
    {
        r.push(s[k]);
        k += 1;
        assert(r@ =~= s@.subrange(i as int, k as int));
    }
    r
}

/// Index of the first character of `s` not in `cs`, or `s.len()`.
pub fn lead_count(s: &Vec<char>, cs: CharSet) -> (k: usize)
    ensures
        k == lead(s@, cs),
{
    let mut k: usize = 0;
    while k < s.len() && cs.contains(s[k])
        invariant
            k <= s.len(),
            forall|j: int| 0 <= j < k ==> cs.has(#[trigger] s@[j]),
        decreases s.len() - k,
    {
        k += 1;
    }
    proof {
        lemma_lead(s@, cs, k as int);
    }
    k
}

/// Number of trailing characters of `s` in `cs`.
pub fn trail_count(s: &Vec<char>, cs: CharSet) -> (k: usize)
    ensures
        k == trail(s@, cs),
{
    let mut k: usize = 0;
    while k < s.len() && cs.contains(s[s.len() - k - 1])
        invariant
            k <= s.len(),
            forall|j: int| s@.len() - k <= j < s@.len() ==> cs.has(#[trigger] s@[j]),
        decreases s.len() - k,
    {
        k += 1;
    }
    proof {
        lemma_trail(s@, cs, k as int);
    }
    k
}

pub fn trim_set_vec(s: &Vec<char>, cs: CharSet) -> (r: Vec<char>)
    ensures
        r@ == trim_set(s@, cs),
{
    let a = lead_count(s, cs);
    proof {
        lemma_lead_bound(s@, cs);
    }
    let t = slice(s, a, s.len());
    let b = trail_count(&t, cs);
    proof {
        lemma_trail_bound(t@, cs);
    }
    slice(&t, 0, t.len() - b)
}

pub fn trim_vec(s: &Vec<char>) -> (r: Vec<char>)
    ensures
        r@ == trim(s@),
{
    trim_set_vec(s, CharSet::Whitespace)
}

pub fn trim_start_set_vec(s: &Vec<char>, cs: CharSet) -> (r: Vec<char>)
    ensures
        r@ == trim_start_set(s@, cs),
{
    let a = lead_count(s, cs);
    proof {
        lemma_lead_bound(s@, cs);
    }
    slice(s, a, s.len())
}

pub fn trim_end_set_vec(s: &Vec<char>, cs: CharSet) -> (r: Vec<char>)
    ensures
        r@ == trim_end_set(s@, cs),
{
    let b = trail_count(s, cs);
    proof {
        lemma_trail_bound(s@, cs);
    }
    slice(s, 0, s.len() - b)
}

/// Character sequence of a string slice.
pub fn chars_of(s: &str) -> (v: Vec<char>)
    ensures
        v@ == s@,
{
    let mut v: Vec<char> = Vec::new();
    for c in it: s.chars()
        invariant
            v@ == it.seq().take(it.index() as int),
            it.seq() == s@,
    {
        v.push(c);
        assert(v@ =~= it.seq().take(it.index() + 1));
    }
    assert(v@ =~= s@);
    v
}

/// Collects characters into a `String` (std's `FromIterator<char> for String`).
#[verifier::external_body]
pub(crate) fn string_of(v: &Vec<char>) -> (s: String)
    ensures
        s@ == v@,
{
    v.iter().collect()
}

/// Equality of two character sequences.
pub fn chars_eq(a: &Vec<char>, b: &Vec<char>) -> (r: bool)
    ensures
        r == (a@ == b@),
{
    if a.len() != b.len() {
        return false;
    }
    let mut i: usize = 0;
    while i < a.len()
        invariant
            a.len() == b.len(),
            i <= a.len(),
            forall|j: int| 0 <= j < i ==> a@[j] == b@[j],
        decreases a.len() - i,
    {
        if a[i] != b[i] {
            return false;
        }
        i += 1;
    }
    assert(a@ =~= b@);
    true
}

/// Equality with a string literal.
pub fn eq_str(a: &Vec<char>, lit: &str) -> (r: bool)
    ensures
        r == (a@ == lit@),
{
    let b = chars_of(lit);
    chars_eq(a, &b)
}

pub open spec fn starts_with(s: Seq<char>, p: Seq<char>) -> bool {
    p.len() <= s.len() && s.take(p.len() as int) == p
}

pub open spec fn ends_with(s: Seq<char>, p: Seq<char>) -> bool {
    p.len() <= s.len() && s.skip(s.len() - p.len()) == p
}

pub fn starts_with_vec(s: &Vec<char>, p: &Vec<char>) -> (r: bool)
    ensures
        r == starts_with(s@, p@),
{
    if p.len() > s.len() {
        return false;
    }
    let mut i: usize = 0;
    while i < p.len()
        invariant
            p.len() <= s.len(),
            i <= p.len(),
            forall|j: int| 0 <= j < i ==> s@[j] == p@[j],
        decreases p.len() - i,
    {
        if s[i] != p[i] {
            assert(s@.take(p.len() as int)[i as int] != p@[i as int]);
            return false;
        }
        i += 1;
    }
    assert(s@.take(p.len() as int) =~= p@);
    true
}

pub fn starts_with_str(s: &Vec<char>, lit: &str) -> (r: bool)
    ensures
        r == starts_with(s@, lit@),
{
    let p = chars_of(lit);
    starts_with_vec(s, &p)
}

pub fn ends_with_str(s: &Vec<char>, lit: &str) -> (r: bool)
    ensures
        r == ends_with(s@, lit@),
{
    let p = chars_of(lit);
    if p.len() > s.len() {
        return false;
    }
    let t = slice(s, s.len() - p.len(), s.len());
    assert(t@ =~= s@.skip(s@.len() - p@.len()));
    chars_eq(&t, &p)
}

/// `str::strip_prefix`.
pub open spec fn strip_prefix(s: Seq<char>, p: Seq<char>) -> Option<Seq<char>> {
    if starts_with(s, p) {
        Some(s.skip(p.len() as int))
    } else {
        None
    }
}

pub fn strip_prefix_str(s: &Vec<char>, lit: &str) -> (r: Option<Vec<char>>)
    ensures
        r matches Some(v) ==> strip_prefix(s@, lit@) == Some(v@),
        r is None ==> strip_prefix(s@, lit@) is None,
{
    let p = chars_of(lit);
    if starts_with_vec(s, &p) {
        Some(slice(s, p.len(), s.len()))
    } else {
        None
    }
}

/// Whether `p` occurs in `s` at position `i`.
pub open spec fn matches_at(s: Seq<char>, i: int, p: Seq<char>) -> bool {
    0 <= i && i + p.len() <= s.len() && s.subrange(i, i + p.len()) == p
}

/// Position of the first occurrence of `p` in `s` at or after `i` (`str::find`).
pub open spec fn find_from(s: Seq<char>, p: Seq<char>, i: int) -> Option<int>
    decreases s.len() + 1 - i,
{
    if i < 0 || i + p.len() > s.len() {
        None
    } else if matches_at(s, i, p) {
        Some(i)
    } else {
        find_from(s, p, i + 1)
    }
}

pub open spec fn find(s: Seq<char>, p: Seq<char>) -> Option<int> {
    find_from(s, p, 0)
}

proof fn lemma_find_from_bound(s: Seq<char>, p: Seq<char>, i: int)
    ensures
        find_from(s, p, i) matches Some(k) ==> i <= k && k + p.len() <= s.len() && matches_at(
            s,
            k,
            p,
        ),
    decreases s.len() + 1 - i,
{
    if !(i < 0 || i + p.len() > s.len()) && !matches_at(s, i, p) {
        lemma_find_from_bound(s, p, i + 1);
    }
}

pub proof fn lemma_find_bound(s: Seq<char>, p: Seq<char>)
    ensures
        find(s, p) matches Some(k) ==> 0 <= k && k + p.len() <= s.len() && matches_at(s, k, p),
{
    lemma_find_from_bound(s, p, 0);
}

fn matches_at_vec(s: &Vec<char>, i: usize, p: &Vec<char>) -> (r: bool)
    requires
        i + p.len() <= s.len(),
    ensures
        r == matches_at(s@, i as int, p@),
{
    let mut j: usize = 0;
    while j < p.len()
        invariant
            i + p.len() <= s.len(),
            j <= p.len(),
            forall|k: int| 0 <= k < j ==> s@[i + k] == p@[k],
        decreases p.len() - j,
    {
        if s[i + j] != p[j] {
            assert(s@.subrange(i as int, i + p.len())[j as int] != p@[j as int]);
            return false;
        }
        j += 1;
    }
    assert(s@.subrange(i as int, i + p.len()) =~= p@);
    true
}

/// `str::find` with a string pattern.
pub fn find_vec(s: &Vec<char>, p: &Vec<char>) -> (r: Option<usize>)
    ensures
        r matches Some(k) ==> find(s@, p@) == Some(k as int),
        r is None ==> find(s@, p@) is None,
{
    if p.len() > s.len() {
        return None;
    }
    if p.len() == 0 {
        assert(matches_at(s@, 0, p@)) by {
            assert(s@.subrange(0, 0) =~= p@);
        }
        return Some(0);
    }
    let mut i: usize = 0;
    while i <= s.len() - p.len()
        invariant
            0 < p.len() <= s.len(),
            i <= s.len() - p.len() + 1,
            find(s@, p@) == find_from(s@, p@, i as int),
        decreases s.len() - i,
    {
        if matches_at_vec(s, i, p) {
            return Some(i);
        }
        i += 1;
    }
    None
}

/// Fold behind `str::split` on a single character: the finished pieces and
/// the piece in progress.
pub open spec fn split_acc(s: Seq<char>, c: char) -> (Seq<Seq<char>>, Seq<char>)
    decreases s.len(),
{
    if s.len() == 0 {
        (seq![], seq![])
    } else {
        let (d, cur) = split_acc(s.drop_last(), c);
        if s.last() == c {
            (d.push(cur), seq![])
        } else {
            (d, cur.push(s.last()))
        }
    }
}

/// `str::split` on a single character.
pub open spec fn split(s: Seq<char>, c: char) -> Seq<Seq<char>> {
    split_acc(s, c).0.push(split_acc(s, c).1)
}

/// Views of a vector of character vectors.
pub open spec fn vv(v: Seq<Vec<char>>) -> Seq<Seq<char>> {
    v.map_values(|x: Vec<char>| x@)
}

pub fn split_vec(s: &Vec<char>, c: char) -> (r: Vec<Vec<char>>)
    ensures
        vv(r@) == split(s@, c),
{
    let mut done: Vec<Vec<char>> = Vec::new();
    let mut cur: Vec<char> = Vec::new();
    let mut i: usize = 0;
    while i < s.len()
        invariant
            i <= s.len(),
            (vv(done@), cur@) == split_acc(s@.take(i as int), c),
        decreases s.len() - i,
    {
        assert(s@.take(i + 1).drop_last() =~= s@.take(i as int));
        if s[i] == c {
            let ghost old_done = done@;
            done.push(cur);
            cur = Vec::new();
            assert(vv(done@) =~= vv(old_done).push(vv(done@).last()));
        } else {
            cur.push(s[i]);
        }
        i += 1;
    }
    assert(s@.take(i as int) =~= s@);
    let ghost old_done = done@;
    done.push(cur);
    assert(vv(done@) =~= vv(old_done).push(vv(done@).last()));
    done
}

/// `str::split` on a single character, each piece trimmed.
pub open spec fn split_trim(s: Seq<char>, c: char) -> Seq<Seq<char>> {
    split(s, c).map_values(|x: Seq<char>| trim(x))
}

pub fn split_trim_vec(s: &Vec<char>, c: char) -> (r: Vec<Vec<char>>)
    ensures
        vv(r@) == split_trim(s@, c),
{
    let parts = split_vec(s, c);
    let mut r: Vec<Vec<char>> = Vec::new();
    let mut i: usize = 0;
    while i < parts.len()
        invariant
            i <= parts.len(),
            vv(parts@) == split(s@, c),
            vv(r@) == split_trim(s@, c).take(i as int),
        decreases parts.len() - i,
    {
        let t = trim_vec(&parts[i]);
        let ghost old_r = r@;
        r.push(t);
        assert(vv(r@) =~= split_trim(s@, c).take(i + 1)) by {
            assert(vv(old_r) =~= split_trim(s@, c).take(i as int));
            assert(vv(parts@)[i as int] == parts@[i as int]@);
            assert(split_trim(s@, c)[i as int] == trim(split(s@, c)[i as int]));
            assert(vv(r@) =~= vv(old_r).push(t@));
            assert(split_trim(s@, c).take(i + 1) =~= split_trim(s@, c).take(i as int).push(
                split_trim(s@, c)[i as int],
            ));
        }
        i += 1;
    }
    assert(split_trim(s@, c).take(i as int) =~= split_trim(s@, c));
    r
}

/// Removes one trailing `'\r'`.
pub open spec fn strip_cr(s: Seq<char>) -> Seq<char> {
    if s.len() > 0 && s.last() == '\r' {
        s.drop_last()
    } else {
        s
    }
}

/// `str::lines`: pieces ended by `'\n'` (with a `'\r'` before it dropped),
/// then the unterminated rest if it is not empty.
pub open spec fn lines(s: Seq<char>) -> Seq<Seq<char>> {
    let (d, cur) = split_acc(s, '\n');
    let ended = d.map_values(|x: Seq<char>| strip_cr(x));
    if cur.len() == 0 {
        ended
    } else {
        ended.push(cur)
    }
}

pub fn lines_vec(s: &Vec<char>) -> (r: Vec<Vec<char>>)
    ensures
        vv(r@) == lines(s@),
{
    let mut done: Vec<Vec<char>> = Vec::new();
    let mut cur: Vec<char> = Vec::new();
    let mut i: usize = 0;
    while i < s.len()
        invariant
            i <= s.len(),
            vv(done@) == split_acc(s@.take(i as int), '\n').0.map_values(
                |x: Seq<char>| strip_cr(x),
            ),
            cur@ == split_acc(s@.take(i as int), '\n').1,
        decreases s.len() - i,
    {
        assert(s@.take(i + 1).drop_last() =~= s@.take(i as int));
        if s[i] == '\n' {
            let ghost old_done = done@;
            let ghost old_cur = cur@;
            if cur.len() > 0 && cur[cur.len() - 1] == '\r' {
                cur.pop();
            }
            assert(cur@ == strip_cr(old_cur));
            done.push(cur);
            cur = Vec::new();
            assert(vv(done@) =~= vv(old_done).push(strip_cr(old_cur)));
            assert(split_acc(s@.take(i + 1), '\n').0 =~= split_acc(s@.take(i as int), '\n').0.push(
                old_cur,
            ));
            assert(vv(done@) =~= split_acc(s@.take(i + 1), '\n').0.map_values(
                |x: Seq<char>| strip_cr(x),
            ));
        } else {
            cur.push(s[i]);
        }
        i += 1;
    }
    assert(s@.take(i as int) =~= s@);
    if cur.len() > 0 {
        let ghost old_done = done@;
        done.push(cur);
        assert(vv(done@) =~= vv(old_done).push(vv(done@).last()));
    }
    done
}

/// Fold behind `str::split_whitespace`.
pub open spec fn words_acc(s: Seq<char>) -> (Seq<Seq<char>>, Seq<char>)
    decreases s.len(),
{
    if s.len() == 0 {
        (seq![], seq![])
    } else {
        let (d, cur) = words_acc(s.drop_last());
        if is_ws(s.last()) {
            if cur.len() > 0 {
                (d.push(cur), seq![])
            } else {
                (d, seq![])
            }
        } else {
            (d, cur.push(s.last()))
        }
    }
}

/// `str::split_whitespace`: the maximal runs of non-whitespace characters.
pub open spec fn words(s: Seq<char>) -> Seq<Seq<char>> {
    let (d, cur) = words_acc(s);
    if cur.len() > 0 {
        d.push(cur)
    } else {
        d
    }
}

pub fn words_vec(s: &Vec<char>) -> (r: Vec<Vec<char>>)
    ensures
        vv(r@) == words(s@),
{
    let mut done: Vec<Vec<char>> = Vec::new();
    let mut cur: Vec<char> = Vec::new();
    let mut i: usize = 0;
    while i < s.len()
        invariant
            i <= s.len(),
            (vv(done@), cur@) == words_acc(s@.take(i as int)),
        decreases s.len() - i,
    {
        assert(s@.take(i + 1).drop_last() =~= s@.take(i as int));
        if char_is_ws(s[i]) {
            if cur.len() > 0 {
                let ghost old_done = done@;
                done.push(cur);
                cur = Vec::new();
                assert(vv(done@) =~= vv(old_done).push(vv(done@).last()));
            }
        } else {
            cur.push(s[i]);
        }
        i += 1;
    }
    assert(s@.take(i as int) =~= s@);
    if cur.len() > 0 {
        let ghost old_done = done@;
        done.push(cur);
        assert(vv(done@) =~= vv(old_done).push(vv(done@).last()));
    }
    done
}

/// `str::split` with a string pattern: pieces between leftmost
/// non-overlapping occurrences of `p` (which is not empty).
pub open spec fn split_on(s: Seq<char>, p: Seq<char>) -> Seq<Seq<char>>
    decreases s.len(),
{
    if p.len() == 0 {
        seq![s]
    } else {
        match find(s, p) {
            Some(k) => if 0 <= k && k + p.len() <= s.len() {
                seq![s.take(k)] + split_on(s.skip(k + p.len()), p)
            } else {
                seq![s]
            },
            None => seq![s],
        }
    }
}

pub fn split_on_vec(s: &Vec<char>, p: &Vec<char>) -> (r: Vec<Vec<char>>)
    requires
        p.len() > 0,
    ensures
        vv(r@) == split_on(s@, p@),
{
    let mut done: Vec<Vec<char>> = Vec::new();
    let mut rest = slice(s, 0, s.len());
    assert(rest@ =~= s@);
    loop
        invariant
            p.len() > 0,
            split_on(s@, p@) == vv(done@) + split_on(rest@, p@),
        decreases rest.len(),
    {
        proof {
            lemma_find_bound(rest@, p@);
        }
        match find_vec(&rest, p) {
            Some(k) => {
                let piece = slice(&rest, 0, k);
                let next = slice(&rest, k + p.len(), rest.len());
                let ghost old_done = done@;
                done.push(piece);
                assert(vv(done@) =~= vv(old_done) + seq![piece@]);
                assert(vv(done@) + split_on(next@, p@) =~= vv(old_done) + split_on(rest@, p@));
                rest = next;
            },
            None => {
                let ghost old_done = done@;
                done.push(rest);
                assert(vv(done@) =~= vv(old_done) + split_on(vv(done@).last(), p@));
                return done;
            },
        }
    }
}

/// Concatenation of a sequence of character sequences.
pub open spec fn concat(s: Seq<Seq<char>>) -> Seq<char>
    decreases s.len(),
{
    if s.len() == 0 {
        seq![]
    } else {
        concat(s.drop_last()) + s.last()
    }
}

/// `n` copies of `c`.
pub open spec fn repeat(c: char, n: nat) -> Seq<char> {
    Seq::new(n, |i: int| c)
}

pub fn repeat_vec(c: char, n: usize) -> (r: Vec<char>)
    ensures
        r@ == repeat(c, n as nat),
{
    let mut r: Vec<char> = Vec::new();
    let mut i: usize = 0;
    while i < n
        invariant
            i <= n,
            r@ == repeat(c, i as nat),
        decreases n - i,
    {
        r.push(c);
        i += 1;
        assert(r@ =~= repeat(c, i as nat));
    }
    r
}

/// Appends `b` to `a`.
pub fn append_vec(a: &mut Vec<char>, b: &Vec<char>)
    ensures
        final(a)@ == old(a)@ + b@,
{
    let mut i: usize = 0;
    let ghost a0 = a@;
    while i < b.len()
        invariant
            i <= b.len(),
            a@ == a0 + b@.take(i as int),
        decreases b.len() - i,
    {
        a.push(b[i]);
        i += 1;
        assert(a@ =~= a0 + b@.take(i as int));
    }
    assert(b@.take(i as int) =~= b@);
}

pub fn append_str(a: &mut Vec<char>, lit: &str)
    ensures
        final(a)@ == old(a)@ + lit@,
{
    let b = chars_of(lit);
    append_vec(a, &b);
}

/// `str::to_lowercase` (full Unicode case mapping).
pub uninterp spec fn lowercase(s: Seq<char>) -> Seq<char>;

/// The ASCII lowercase of a character: `A`..`Z` become `a`..`z`.
pub open spec fn ascii_lower(c: char) -> char {
    if 'A' <= c && c <= 'Z' {
        ((c as u32) + 32) as char
    } else {
        c
    }
}

/// Calls std's `str::to_lowercase`. The result is a function of the
/// characters alone and is named `lowercase`; the Unicode case tables are not
/// restated here. On ASCII text, lowercasing maps `A`..`Z` to `a`..`z` and
/// keeps every other character, one for one.
#[verifier::external_body]
pub(crate) fn to_lowercase(s: &Vec<char>) -> (r: Vec<char>)
    ensures
        r@ == lowercase(s@),
        (forall|i: int| 0 <= i < s@.len() ==> (#[trigger] s@[i] as u32) < 128) ==> r@
            == s@.map_values(|c: char| ascii_lower(c)),
{
    let st: String = s.iter().collect();
    st.to_lowercase().chars().collect()
}

/// The decimal digit for `d < 10`.
pub open spec fn digit_char(d: nat) -> char {
    if d == 0 {
        '0'
    } else if d == 1 {
        '1'
    } else if d == 2 {
        '2'
    } else if d == 3 {
        '3'
    } else if d == 4 {
        '4'
    } else if d == 5 {
        '5'
    } else if d == 6 {
        '6'
    } else if d == 7 {
        '7'
    } else if d == 8 {
        '8'
    } else {
        '9'
    }
}

/// Decimal notation of a natural number, as `format!("{}", n)` writes it.
pub open spec fn dec(n: nat) -> Seq<char>
    decreases n,
{
    if n < 10 {
        seq![digit_char(n)]
    } else {
        dec(n / 10).push(digit_char(n % 10))
    }
}

fn digit_exec(d: u128) -> (c: char)
    requires
        d < 10,
    ensures
        c == digit_char(d as nat),
{
    if d == 0 {
        '0'
    } else if d == 1 {
        '1'
    } else if d == 2 {
        '2'
    } else if d == 3 {
        '3'
    } else if d == 4 {
        '4'
    } else if d == 5 {
        '5'
    } else if d == 6 {
        '6'
    } else if d == 7 {
        '7'
    } else if d == 8 {
        '8'
    } else {
        '9'
    }
}

/// Decimal notation of a number.
pub fn dec_vec(n: u128) -> (r: Vec<char>)
    ensures
        r@ == dec(n as nat),
    decreases n,
{
    if n < 10 {
        let mut r: Vec<char> = Vec::new();
        r.push(digit_exec(n));
        assert(r@ =~= seq![digit_char(n as nat)]);
        r
    } else {
        let mut r = dec_vec(n / 10);
        r.push(digit_exec(n % 10));
        r
    }
}

} // verus!
