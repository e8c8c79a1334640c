//! Character-level string operations over the `Seq<char>` view of `str`.
//!
//! Each executable function here is proved against a spec function on
//! character sequences; the rest of the crate states its contracts with
//! those spec functions.
use vstd::prelude::*;

verus! {

// ---------------------------------------------------------------------
// Specifications
// ---------------------------------------------------------------------

/// `p` occurs in `s` starting at position `i`.
pub open spec fn occurs_at(s: Seq<char>, p: Seq<char>, i: int) -> bool {
    0 <= i && i + p.len() <= s.len() && s.subrange(i, i + p.len()) == p
}

/// `s` begins with `p`.
pub open spec fn has_prefix(s: Seq<char>, p: Seq<char>) -> bool {
    occurs_at(s, p, 0)
}

/// `s` ends with `p`.
pub open spec fn has_suffix(s: Seq<char>, p: Seq<char>) -> bool {
    occurs_at(s, p, s.len() - p.len())
}

/// `p` occurs somewhere in `s` (the empty sequence occurs in every `s`).
pub open spec fn has_infix(s: Seq<char>, p: Seq<char>) -> bool {
    exists|i: int| occurs_at(s, p, i)
}

/// The position of the first `c` in `s`, if `c` occurs in `s`.
pub open spec fn first_index(s: Seq<char>, c: char) -> Option<int> {
    if exists|i: int| 0 <= i < s.len() && s[i] == c && (forall|j: int| 0 <= j < i ==> s[j] != c) {
        Some(choose|i: int| 0 <= i < s.len() && s[i] == c && (forall|j: int| 0 <= j < i ==> s[j] != c))
    } else {
        None
    }
}

/// Splits `s` at the first `c`: the part before it and the part after it.
pub open spec fn split_once(s: Seq<char>, c: char) -> Option<(Seq<char>, Seq<char>)> {
    match first_index(s, c) {
        Some(i) => Some((s.take(i), s.skip(i + 1))),
        None => None,
    }
}

/// The part of `s` before its first `c`, or all of `s` when `c` does not occur.
pub open spec fn before_first(s: Seq<char>, c: char) -> Seq<char> {
    match first_index(s, c) {
        Some(i) => s.take(i),
        None => s,
    }
}

/// The characters that carry the Unicode `White_Space` property.
pub open spec fn is_white_space(c: char) -> bool {
    ||| '\u{9}' <= c <= '\u{d}'
    ||| c == ' '
    ||| c == '\u{85}'
    ||| c == '\u{a0}'
    ||| c == '\u{1680}'
    ||| '\u{2000}' <= c <= '\u{200a}'
    ||| c == '\u{2028}'
    ||| c == '\u{2029}'
    ||| c == '\u{202f}'
    ||| c == '\u{205f}'
    ||| c == '\u{3000}'
}

/// Single and double quotation marks.
pub open spec fn is_quote(c: char) -> bool {
    c == '"' || c == '\''
}

/// The characters that a trim removes: white space, or quotation marks.
pub open spec fn strippable(c: char, quotes: bool) -> bool {
    if quotes {
        is_quote(c)
    } else {
        is_white_space(c)
    }
}

/// `s` without its leading strippable characters.
pub open spec fn strip_start(s: Seq<char>, quotes: bool) -> Seq<char>
    decreases s.len(),
{
    if s.len() > 0 && strippable(s[0], quotes) {
        strip_start(s.drop_first(), quotes)
    } else {
        s
    }
}

/// `s` without its trailing strippable characters.
pub open spec fn strip_end(s: Seq<char>, quotes: bool) -> Seq<char>
    decreases s.len(),
{
    if s.len() > 0 && strippable(s.last(), quotes) {
        strip_end(s.drop_last(), quotes)
    } else {
        s
    }
}

/// `s` without leading and trailing white space.
pub open spec fn trimmed(s: Seq<char>) -> Seq<char> {
    strip_end(strip_start(s, false), false)
}

/// `s` without leading and trailing quotation marks.
pub open spec fn unquoted(s: Seq<char>) -> Seq<char> {
    strip_end(strip_start(s, true), true)
}

/// The parts joined with `sep` between each two neighbours.
pub open spec fn join(parts: Seq<Seq<char>>, sep: Seq<char>) -> Seq<char>
    decreases parts.len(),
{
    if parts.len() == 0 {
        Seq::empty()
    } else if parts.len() == 1 {
        parts[0]
    } else {
        join(parts.drop_last(), sep) + sep + parts.last()
    }
}

/// Every part with `prefix` put in front of it.
pub open spec fn prefix_each(parts: Seq<Seq<char>>, prefix: Seq<char>) -> Seq<Seq<char>> {
    Seq::new(parts.len(), |i: int| prefix + parts[i])
}

/// The character sequences of a sequence of strings.
pub open spec fn views(v: Seq<String>) -> Seq<Seq<char>> {
    Seq::new(v.len(), |i: int| v[i]@)
}

/// `s` with every occurrence of the non-empty `p` removed, scanning from the
/// left and never letting two removed occurrences overlap.
pub open spec fn remove_all(s: Seq<char>, p: Seq<char>) -> Seq<char>
    decreases s.len(),
{
    if p.len() == 0 || s.len() < p.len() {
        s
    } else if has_prefix(s, p) {
        remove_all(s.skip(p.len() as int), p)
    } else {
        seq![s[0]] + remove_all(s.drop_first(), p)
    }
}

/// `s` lowercased: the result of std's `str::to_lowercase` on `s`, which
/// follows the Unicode `Lowercase` mappings.
pub uninterp spec fn lowercase(s: Seq<char>) -> Seq<char>;

/// All characters are ASCII.
pub open spec fn all_ascii(s: Seq<char>) -> bool {
    forall|i: int| 0 <= i < s.len() ==> (s[i] as u32) < 128
}

/// The ASCII lowercase of one character: `A`..=`Z` become `a`..=`z`.
pub open spec fn ascii_lower_char(c: char) -> char {
    if 'A' <= c <= 'Z' {
        ((c as u32) + 32) as char
    } else {
        c
    }
}

/// The ASCII lowercase of a sequence of characters.
pub open spec fn ascii_lower(s: Seq<char>) -> Seq<char> {
    Seq::new(s.len(), |i: int| ascii_lower_char(s[i]))
}

// ---------------------------------------------------------------------
// Lemmas
// ---------------------------------------------------------------------

/// A witness of a first occurrence is the first occurrence.
pub proof fn lemma_first_index_at(s: Seq<char>, c: char, i: int)
    requires
        0 <= i < s.len(),
        s[i] == c,
        forall|j: int| 0 <= j < i ==> s[j] != c,
    ensures
        first_index(s, c) == Some(i),
{
    let k = choose|k: int| 0 <= k < s.len() && s[k] == c && (forall|j: int| 0 <= j < k ==> s[j] != c);
    assert(0 <= k < s.len() && s[k] == c && (forall|j: int| 0 <= j < k ==> s[j] != c));
    if k < i {
        assert(s[k] != c);
    } else if k > i {
        assert(s[i] != c);
    }
}

/// Without any `c`, there is no first occurrence.
pub proof fn lemma_first_index_none(s: Seq<char>, c: char)
    requires
        forall|j: int| 0 <= j < s.len() ==> s[j] != c,
    ensures
        first_index(s, c) is None,
{
}

proof fn lemma_strip_start_skip(s: Seq<char>, quotes: bool, a: int)
    requires
        0 <= a <= s.len(),
        forall|j: int| 0 <= j < a ==> strippable(s[j], quotes),
    ensures
        strip_start(s, quotes) == strip_start(s.skip(a), quotes),
    decreases a,
{
    if a > 0 {
        assert(s.skip(1) =~= s.drop_first());
        lemma_strip_start_skip(s.drop_first(), quotes, a - 1);
        assert(s.drop_first().skip(a - 1) =~= s.skip(a));
    } else {
        assert(s.skip(0) =~= s);
    }
}

proof fn lemma_strip_end_take(s: Seq<char>, quotes: bool, b: int)
    requires
        0 <= b <= s.len(),
        forall|j: int| b <= j < s.len() ==> strippable(s[j], quotes),
    ensures
        strip_end(s, quotes) == strip_end(s.take(b), quotes),
    decreases s.len() - b,
{
    if b < s.len() {
        lemma_strip_end_take(s.drop_last(), quotes, b);
        assert(s.drop_last().take(b) =~= s.take(b));
    } else {
        assert(s.take(b) =~= s);
    }
}

/// Joining one more part adds the separator and that part.
pub proof fn lemma_join_push(parts: Seq<Seq<char>>, sep: Seq<char>, x: Seq<char>)
    ensures
        join(parts.push(x), sep) == if parts.len() == 0 { x } else { join(parts, sep) + sep + x },
{
    assert(parts.push(x).drop_last() =~= parts);
}

/// What occurs in `s` occurs in `a + s` too.
pub proof fn lemma_infix_after(a: Seq<char>, s: Seq<char>, p: Seq<char>)
    requires
        has_infix(s, p),
    ensures
        has_infix(a + s, p),
{
    let i = choose|i: int| occurs_at(s, p, i);
    assert((a + s).subrange(a.len() + i, a.len() + i + p.len()) =~= s.subrange(i, i + p.len()));
    assert(occurs_at(a + s, p, a.len() + i));
}

/// What occurs in `s` occurs in `s + b` too.
pub proof fn lemma_infix_before(s: Seq<char>, b: Seq<char>, p: Seq<char>)
    requires
        has_infix(s, p),
    ensures
        has_infix(s + b, p),
{
    let i = choose|i: int| occurs_at(s, p, i);
    assert((s + b).subrange(i, i + p.len()) =~= s.subrange(i, i + p.len()));
    assert(occurs_at(s + b, p, i));
}

/// Every sequence occurs in itself.
pub proof fn lemma_infix_self(s: Seq<char>)
    ensures
        has_infix(s, s),
{
    assert(s.subrange(0, s.len() as int) =~= s);
    assert(occurs_at(s, s, 0));
}

/// What occurs in a piece of `s` occurs in `s`.
pub proof fn lemma_infix_trans(s: Seq<char>, x: Seq<char>, y: Seq<char>)
    requires
        has_infix(s, x),
        has_infix(x, y),
    ensures
        has_infix(s, y),
{
    let i = choose|i: int| occurs_at(s, x, i);
    let j = choose|j: int| occurs_at(x, y, j);
    assert(s.subrange(i + j, i + j + y.len()) =~= x.subrange(j, j + y.len()));
    assert(occurs_at(s, y, i + j));
}

/// Each part occurs in the parts joined.
pub proof fn lemma_join_has_part(parts: Seq<Seq<char>>, sep: Seq<char>, k: int)
    requires
        0 <= k < parts.len(),
    ensures
        has_infix(join(parts, sep), parts[k]),
    decreases parts.len(),
{
    if parts.len() == 1 {
        lemma_infix_self(parts[0]);
    } else if k == parts.len() - 1 {
        lemma_infix_self(parts.last());
        lemma_infix_after(join(parts.drop_last(), sep) + sep, parts.last(), parts.last());
    } else {
        lemma_join_has_part(parts.drop_last(), sep, k);
        lemma_infix_before(join(parts.drop_last(), sep), sep, parts[k]);
        lemma_infix_before(join(parts.drop_last(), sep) + sep, parts.last(), parts[k]);
    }
}

/// Each part, with the prefix, occurs in the prefixed parts joined; so does
/// the part itself.
pub proof fn lemma_join_prefixed_has_part(parts: Seq<Seq<char>>, prefix: Seq<char>, sep: Seq<char>, k: int)
    requires
        0 <= k < parts.len(),
    ensures
        has_infix(join(prefix_each(parts, prefix), sep), parts[k]),
{
    let all = prefix_each(parts, prefix);
    lemma_join_has_part(all, sep, k);
    lemma_infix_self(parts[k]);
    lemma_infix_after(prefix, parts[k], parts[k]);
    lemma_infix_trans(join(all, sep), all[k], parts[k]);
}

/// Every part of `prefix_each` with the empty prefix is the part itself.
pub proof fn lemma_prefix_each_empty(parts: Seq<Seq<char>>)
    ensures
        prefix_each(parts, Seq::empty()) == parts,
{
    assert forall|i: int| 0 <= i < parts.len() implies #[trigger] prefix_each(parts, Seq::empty())[i] == parts[i] by {
        assert(Seq::<char>::empty() + parts[i] =~= parts[i]);
    }
    assert(prefix_each(parts, Seq::empty()) =~= parts);
}

proof fn lemma_remove_all_step(s: Seq<char>, p: Seq<char>, i: int)
    requires
        p.len() > 0,
        0 <= i < s.len(),
        !occurs_at(s, p, i),
    ensures
        remove_all(s.skip(i), p) == seq![s[i]] + remove_all(s.skip(i + 1), p),
{
    let t = s.skip(i);
    assert(t.drop_first() =~= s.skip(i + 1));
    if t.len() >= p.len() {
        assert(t.subrange(0, p.len() as int) =~= s.subrange(i, i + p.len()));
    } else {
        // Fewer characters are left than `p` has: nothing is removed.
        lemma_remove_all_short(t.drop_first(), p);
        lemma_remove_all_short(t, p);
        assert(seq![s[i]] + t.drop_first() =~= t);
    }
}

proof fn lemma_remove_all_short(s: Seq<char>, p: Seq<char>)
    requires
        s.len() < p.len(),
    ensures
        remove_all(s, p) == s,
{
}

proof fn lemma_remove_all_match(s: Seq<char>, p: Seq<char>, i: int)
    requires
        p.len() > 0,
        occurs_at(s, p, i),
    ensures
        remove_all(s.skip(i), p) == remove_all(s.skip(i + p.len()), p),
{
    let t = s.skip(i);
    assert(t.subrange(0, p.len() as int) =~= s.subrange(i, i + p.len()));
    assert(t.skip(p.len() as int) =~= s.skip(i + p.len()));
}

// ---------------------------------------------------------------------
// Executable operations
// ---------------------------------------------------------------------

/// Exact equality of two string slices, compared character by character.
pub fn str_eq(a: &str, b: &str) -> (res: bool)
    ensures
        res == (a@ == b@),
{
    let n = a.unicode_len();
    let m = b.unicode_len();
    if n != m {
        return false;
    }
    let mut i: usize = 0;
    while i < n
        invariant
            n == a@.len(),
            m == b@.len(),
            n == m,
            i <= n,
            forall|j: int| 0 <= j < i ==> a@[j] == b@[j],
        decreases n - i,
    {
        if a.get_char(i) != b.get_char(i) {
            return false;
        }
        i = i + 1;
    }
    assert(a@ =~= b@);
    true
}

/// Whether `p` occurs in `s` at position `i`.
pub fn occurs_at_exec(s: &str, p: &str, i: usize) -> (res: bool)
    ensures
        res == occurs_at(s@, p@, i as int),
{
    let n = s.unicode_len();
    let m = p.unicode_len();
    if i > n || m > n - i {
        return false;
    }
    let mut j: usize = 0;
    while j < m
        invariant
            n == s@.len(),
            m == p@.len(),
            i + m <= n,
            j <= m,
            forall|k: int| 0 <= k < j ==> s@[i + k] == p@[k],
        decreases m - j,
    {
        if s.get_char(i + j) != p.get_char(j) {
            assert(s@.subrange(i as int, i + m)[j as int] != p@[j as int]);
            return false;
        }
        j = j + 1;
    }
    assert(s@.subrange(i as int, i + m) =~= p@);
    true
}

/// Whether `s` begins with `p`.
pub fn starts_with(s: &str, p: &str) -> (res: bool)
    ensures
        res == has_prefix(s@, p@),
{
    occurs_at_exec(s, p, 0)
}

/// Whether `s` ends with `p`.
pub fn ends_with(s: &str, p: &str) -> (res: bool)
    ensures
        res == has_suffix(s@, p@),
{
    let n = s.unicode_len();
    let m = p.unicode_len();
    if m > n {
        return false;
    }
    occurs_at_exec(s, p, n - m)
}

/// Whether `p` occurs somewhere in `s`.
pub fn contains(s: &str, p: &str) -> (res: bool)
    ensures
        res == has_infix(s@, p@),
{
    let n = s.unicode_len();
    let m = p.unicode_len();
    if m > n {
        assert forall|i: int| !occurs_at(s@, p@, i) by {}
        return false;
    }
    if m == 0 {
        assert(s@.subrange(0, 0) =~= p@);
        assert(occurs_at(s@, p@, 0));
        return true;
    }
    let mut i: usize = 0;
    while i <= n - m
        invariant
            n == s@.len(),
            m == p@.len(),
            0 < m <= n,
            i <= n - m + 1,
            forall|k: int| 0 <= k < i ==> !occurs_at(s@, p@, k),
        decreases n - m + 1 - i,
    {
        if occurs_at_exec(s, p, i) {
            return true;
        }
        i = i + 1;
    }
    assert forall|k: int| !occurs_at(s@, p@, k) by {
        if 0 <= k < i {
        }
    }
    false
}

/// The position of the first `c` in `s`, if any.
pub fn find_char(s: &str, c: char) -> (res: Option<usize>)
    ensures
        res is None <==> first_index(s@, c) is None,
        res matches Some(i) ==> first_index(s@, c) == Some(i as int) && i < s@.len(),
{
    let n = s.unicode_len();
    let mut i: usize = 0;
    while i < n
        invariant
            n == s@.len(),
            i <= n,
            forall|j: int| 0 <= j < i ==> s@[j] != c,
        decreases n - i,
    {
        if s.get_char(i) == c {
            proof {
                lemma_first_index_at(s@, c, i as int);
            }
            return Some(i);
        }
        i = i + 1;
    }
    proof {
        lemma_first_index_none(s@, c);
    }
    None
}

/// Splits `s` at its first `c` into the part before and the part after.
pub fn split_once_exec<'a>(s: &'a str, c: char) -> (res: Option<(&'a str, &'a str)>)
    ensures
        match split_once(s@, c) {
            Some((l, r)) => res matches Some((a, b)) && a@ == l && b@ == r,
            None => res is None,
        },
{
    match find_char(s, c) {
        Some(i) => {
            let n = s.unicode_len();
            let before = s.substring_char(0, i);
            let after = s.substring_char(i + 1, n);
            assert(before@ =~= s@.take(i as int));
            assert(after@ =~= s@.skip(i + 1));
            Some((before, after))
        },
        None => None,
    }
}

/// Whether `c` carries the Unicode `White_Space` property.
pub fn is_white_space_exec(c: char) -> (res: bool)
    ensures
        res == is_white_space(c),
{
    ('\u{9}' <= c && c <= '\u{d}') || c == ' ' || c == '\u{85}' || c == '\u{a0}' || c == '\u{1680}'
        || ('\u{2000}' <= c && c <= '\u{200a}') || c == '\u{2028}' || c == '\u{2029}' || c
        == '\u{202f}' || c == '\u{205f}' || c == '\u{3000}'
}

fn strippable_exec(c: char, quotes: bool) -> (res: bool)
    ensures
        res == strippable(c, quotes),
{
    if quotes {
        c == '"' || c == '\''
    } else {
        is_white_space_exec(c)
    }
}

fn strip<'a>(s: &'a str, quotes: bool) -> (res: &'a str)
    ensures
        res@ == strip_end(strip_start(s@, quotes), quotes),
{
    let n = s.unicode_len();
    let mut a: usize = 0;
    while a < n && strippable_exec(s.get_char(a), quotes)
        invariant
            n == s@.len(),
            a <= n,
            forall|j: int| 0 <= j < a ==> strippable(s@[j], quotes),
        decreases n - a,
    {
        a = a + 1;
    }
    proof {
        lemma_strip_start_skip(s@, quotes, a as int);
    }
    let ghost t = s@.skip(a as int);
    assert(strip_start(t, quotes) == t) by {
        if t.len() > 0 {
            assert(t[0] == s@[a as int]);
        }
    }
    let mut b: usize = n;
    while b > a && strippable_exec(s.get_char(b - 1), quotes)
        invariant
            n == s@.len(),
            a <= b <= n,
            t == s@.skip(a as int),
            forall|j: int| b - a <= j < t.len() ==> strippable(t[j], quotes),
        decreases b,
    {
        b = b - 1;
    }
    proof {
        lemma_strip_end_take(t, quotes, b - a);
        let u = t.take(b - a);
        if u.len() > 0 {
            assert(u.last() == s@[b - 1]);
        }
        assert(strip_end(u, quotes) == u);
    }
    let res = s.substring_char(a, b);
    assert(res@ =~= t.take(b - a));
    res
}

/// `s` without leading and trailing white space.
pub fn trim<'a>(s: &'a str) -> (res: &'a str)
    ensures
        res@ == trimmed(s@),
{
    strip(s, false)
}

/// `s` without leading and trailing quotation marks.
pub fn trim_quotes<'a>(s: &'a str) -> (res: &'a str)
    ensures
        res@ == unquoted(s@),
{
    strip(s, true)
}

/// The lowercase of `s`, by std's `str::to_lowercase`.
///
/// Trusted: the result is claimed to be `lowercase(s@)`, a name for what
/// `str::to_lowercase` gives (it depends on `s` alone), and, for ASCII text,
/// to be the text with `A`..=`Z` turned into `a`..=`z` and every other
/// character kept. Nothing more is claimed of non-ASCII text.
#[verifier::external_body]
pub fn to_lowercase(s: &str) -> (res: String)
    ensures
        res@ == lowercase(s@),
        all_ascii(s@) ==> res@ == ascii_lower(s@),
{
    s.to_lowercase()
}

/// Whether some string of `v` equals `s`.
pub fn vec_contains(v: &Vec<String>, s: &str) -> (res: bool)
    ensures
        res == views(v@).contains(s@),
{
    let mut i: usize = 0;
    while i < v.len()
        invariant
            i <= v.len(),
            forall|j: int| 0 <= j < i ==> v@[j]@ != s@,
        decreases v.len() - i,
    {
        if str_eq(v[i].as_str(), s) {
            assert(views(v@)[i as int] == s@);
            return true;
        }
        i = i + 1;
    }
    assert forall|j: int| 0 <= j < views(v@).len() implies views(v@)[j] != s@ by {
        assert(views(v@)[j] == v@[j]@);
    }
    false
}

/// The strings of `parts`, each with `prefix` in front, joined with `sep`.
pub fn join_prefixed(parts: &Vec<String>, prefix: &str, sep: &str) -> (res: String)
    ensures
        res@ == join(prefix_each(views(parts@), prefix@), sep@),
{
    let ghost all = prefix_each(views(parts@), prefix@);
    let mut res = String::new();
    let mut i: usize = 0;
    while i < parts.len()
        invariant
            i <= parts.len(),
            all == prefix_each(views(parts@), prefix@),
            res@ == join(all.take(i as int), sep@),
        decreases parts.len() - i,
    {
        proof {
            lemma_join_push(all.take(i as int), sep@, all[i as int]);
            assert(all.take(i as int).push(all[i as int]) =~= all.take(i + 1));
        }
        if i > 0 {
            res.append(sep);
        }
        res.append(prefix);
        res.append(parts[i].as_str());
        assert(all[i as int] == prefix@ + parts@[i as int]@);
        assert(res@ =~= join(all.take(i + 1), sep@));
        i = i + 1;
    }
    assert(all.take(parts.len() as int) =~= all);
    res
}

/// The strings of `parts` joined with `sep`.
pub fn join_exec(parts: &Vec<String>, sep: &str) -> (res: String)
    ensures
        res@ == join(views(parts@), sep@),
{
    let res = join_prefixed(parts, "", sep);
    proof {
        reveal_strlit("");
        assert(""@ =~= Seq::<char>::empty());
        lemma_prefix_each_empty(views(parts@));
    }
    res
}

/// `s` with every occurrence of the non-empty `p` removed, left to right.
pub fn remove_all_exec(s: &str, p: &str) -> (res: String)
    requires
        p@.len() > 0,
    ensures
        res@ == remove_all(s@, p@),
{
    let n = s.unicode_len();
    let m = p.unicode_len();
    let mut res = String::new();
    let mut start: usize = 0;
    let mut i: usize = 0;
    assert(s@.skip(0) =~= s@);
    while i < n
        invariant
            n == s@.len(),
            m == p@.len(),
            m > 0,
            start <= i <= n,
            res@ + s@.subrange(start as int, i as int) + remove_all(s@.skip(i as int), p@)
                == remove_all(s@, p@),
        decreases n - i,
    {
        if occurs_at_exec(s, p, i) {
            proof {
                lemma_remove_all_match(s@, p@, i as int);
            }
            let piece = s.substring_char(start, i);
            res.append(piece);
            i = i + m;
            start = i;
            assert(s@.subrange(start as int, i as int) =~= Seq::<char>::empty());
        } else {
            proof {
                lemma_remove_all_step(s@, p@, i as int);
                assert(s@.subrange(start as int, i as int) + seq![s@[i as int]] =~= s@.subrange(
                    start as int,
                    i + 1,
                ));
            }
            i = i + 1;
        }
    }
    let piece = s.substring_char(start, n);
    res.append(piece);
    assert(s@.skip(n as int) =~= Seq::<char>::empty());
    res
}

} // verus!
