//! Character-level text utilities: whitespace trimming, searching, case-blind
//! comparison and building strings, each proved against a spec function over
//! `Seq<char>`.

use vstd::prelude::*;
use vstd::utf8::char_u32_cast;

verus! {

/// Appends one character to a string.
///
/// Wraps `String::push`, which std documents as appending the given `char`
/// to the end of the string; the contract claims exactly that.
#[verifier::external_body]
pub fn push_char(s: &mut String, c: char)
    ensures
        final(s)@ == old(s)@.push(c),
{
    s.push(c);
}

/// The characters of a string slice, in order.
pub fn chars_of(s: &str) -> (r: Vec<char>)
    ensures
        r@ == s@,
{
    let mut r: Vec<char> = Vec::new();
    for c in it: s.chars()
        invariant
            it.seq() == s@,
            r@ == it.seq().take(it.index() as int),
    {
        r.push(c);
    }
    r
}

/// Appends the characters `s[lo..hi]` to `out`.
pub fn push_range(out: &mut String, s: &Vec<char>, lo: usize, hi: usize)
    requires
        lo <= hi <= s@.len(),
    ensures
        final(out)@ == old(out)@ + s@.subrange(lo as int, hi as int),
{
    let mut i = lo;
    while i < hi
        invariant
            lo <= i <= hi <= s@.len(),
            out@ == old(out)@ + s@.subrange(lo as int, i as int),
        decreases hi - i,
    {
        push_char(out, s[i]);
        assert(s@.subrange(lo as int, i + 1) =~= s@.subrange(lo as int, i as int).push(s@[i as int]));
        i += 1;
    }
}

/// Appends all characters of `t` to `out`.
pub fn push_str(out: &mut String, t: &str)
    ensures
        final(out)@ == old(out)@ + t@,
{
    let cs = chars_of(t);
    push_range(out, &cs, 0, cs.len());
    assert(cs@.subrange(0, cs@.len() as int) =~= t@);
}

/// A new string holding `s[lo..hi]`.
pub fn string_of_range(s: &Vec<char>, lo: usize, hi: usize) -> (r: String)
    requires
        lo <= hi <= s@.len(),
    ensures
        r@ == s@.subrange(lo as int, hi as int),
{
    let mut r = String::new();
    push_range(&mut r, s, lo, hi);
    r
}

/// The Unicode `White_Space` property, as `char::is_whitespace` decides it.
pub open spec fn is_white_space(c: char) -> bool {
    let u = c as u32;
    ||| 9 <= u <= 13
    ||| u == 32
    ||| u == 0x85
    ||| u == 0xA0
    ||| u == 0x1680
    ||| 0x2000 <= u <= 0x200A
    ||| u == 0x2028
    ||| u == 0x2029
    ||| u == 0x202F
    ||| u == 0x205F
    ||| u == 0x3000
}

/// Whether `c` is white space in the sense of [`is_white_space`].
pub fn white_space(c: char) -> (r: bool)
    ensures
        r == is_white_space(c),
{
    let u = c as u32;
    (9 <= u && u <= 13) || u == 32 || u == 0x85 || u == 0xA0 || u == 0x1680 || (0x2000 <= u && u
        <= 0x200A) || u == 0x2028 || u == 0x2029 || u == 0x202F || u == 0x205F || u == 0x3000
}

/// `s` without its leading white space.
pub open spec fn trim_start(s: Seq<char>) -> Seq<char>
    decreases s.len(),
{
    if s.len() > 0 && is_white_space(s[0]) {
        trim_start(s.drop_first())
    } else {
        s
    }
}

/// `s` without its trailing white space.
pub open spec fn trim_end(s: Seq<char>) -> Seq<char>
    decreases s.len(),
{
    if s.len() > 0 && is_white_space(s.last()) {
        trim_end(s.drop_last())
    } else {
        s
    }
}

/// `s` without leading and trailing white space, as `str::trim` gives it.
pub open spec fn trim(s: Seq<char>) -> Seq<char> {
    trim_end(trim_start(s))
}

/// The bounds of the trimmed part of `s[lo..hi]`.
pub fn trim_bounds(s: &Vec<char>, lo: usize, hi: usize) -> (r: (usize, usize))
    requires
        lo <= hi <= s@.len(),
    ensures
        lo <= r.0 <= r.1 <= hi,
        s@.subrange(r.0 as int, r.1 as int) == trim(s@.subrange(lo as int, hi as int)),
{
    let mut i = lo;
    while i < hi && white_space(s[i])
        invariant
            lo <= i <= hi <= s@.len(),
            trim_start(s@.subrange(lo as int, hi as int)) == trim_start(
                s@.subrange(i as int, hi as int),
            ),
        decreases hi - i,
    {
        assert(s@.subrange(i as int, hi as int).drop_first() =~= s@.subrange(i + 1, hi as int));
        i += 1;
    }
    let mut j = hi;
    while j > i && white_space(s[j - 1])
        invariant
            lo <= i <= j <= hi <= s@.len(),
            trim_start(s@.subrange(lo as int, hi as int)) == s@.subrange(i as int, hi as int),
            trim(s@.subrange(lo as int, hi as int)) == trim_end(s@.subrange(i as int, j as int)),
        decreases j - i,
    {
        assert(s@.subrange(i as int, j as int).drop_last() =~= s@.subrange(i as int, j - 1));
        j -= 1;
    }
    (i, j)
}

/// The position of the first `c` in `s`, if any.
pub open spec fn find_first(s: Seq<char>, c: char) -> Option<nat>
    decreases s.len(),
{
    if s.len() == 0 {
        None
    } else if s[0] == c {
        Some(0)
    } else {
        match find_first(s.drop_first(), c) {
            Some(k) => Some(k + 1),
            None => None,
        }
    }
}

/// `find_first` is the least position holding `c`.
pub proof fn lemma_find_first(s: Seq<char>, c: char, k: int)
    requires
        0 <= k <= s.len(),
        forall|m: int| 0 <= m < k ==> s[m] != c,
        k < s.len() ==> s[k] == c,
    ensures
        find_first(s, c) == (if k < s.len() { Some(k as nat) } else { None::<nat> }),
    decreases k,
{
    if k > 0 {
        assert forall|m: int| 0 <= m < k - 1 implies s.drop_first()[m] != c by {
            assert(s.drop_first()[m] == s[m + 1]);
        }
        lemma_find_first(s.drop_first(), c, k - 1);
    }
}

/// The position of the first `c` in `s[lo..hi]`, counted from `lo`.
pub fn find_char(s: &Vec<char>, lo: usize, hi: usize, c: char) -> (r: Option<usize>)
    requires
        lo <= hi <= s@.len(),
    ensures
        r matches Some(k) ==> lo <= k < hi && find_first(s@.subrange(lo as int, hi as int), c)
            == Some((k - lo) as nat),
        r is None ==> find_first(s@.subrange(lo as int, hi as int), c) is None,
{
    let mut i = lo;
    while i < hi
        invariant
            lo <= i <= hi <= s@.len(),
            forall|m: int| lo <= m < i ==> s@[m] != c,
        decreases hi - i,
    {
        if s[i] == c {
            proof {
                lemma_find_first(s@.subrange(lo as int, hi as int), c, i - lo);
            }
            return Some(i);
        }
        i += 1;
    }
    proof {
        lemma_find_first(s@.subrange(lo as int, hi as int), c, hi - lo);
    }
    None
}

/// The character code with ASCII upper-case letters mapped to lower case.
pub open spec fn ascii_lower_code(c: char) -> u32 {
    let u = c as u32;
    if 65 <= u <= 90 {
        (u + 32) as u32
    } else {
        u
    }
}

/// Whether two texts are equal up to ASCII case, as `str::eq_ignore_ascii_case` decides.
pub open spec fn eq_ignore_ascii_case(a: Seq<char>, b: Seq<char>) -> bool {
    &&& a.len() == b.len()
    &&& forall|i: int| 0 <= i < a.len() ==> ascii_lower_code(a[i]) == ascii_lower_code(b[i])
}

/// Whether `s` begins with `prefix`, up to ASCII case.
pub open spec fn starts_with_ignore_ascii_case(s: Seq<char>, prefix: Seq<char>) -> bool {
    prefix.len() <= s.len() && eq_ignore_ascii_case(s.take(prefix.len() as int), prefix)
}

/// Whether `s[lo..hi]` equals `t` up to ASCII case.
pub fn range_eq_ignore_ascii_case(s: &Vec<char>, lo: usize, hi: usize, t: &str) -> (r: bool)
    requires
        lo <= hi <= s@.len(),
    ensures
        r == eq_ignore_ascii_case(s@.subrange(lo as int, hi as int), t@),
{
    let tc = chars_of(t);
    if hi - lo != tc.len() {
        return false;
    }
    let mut i: usize = 0;
    while i < tc.len()
        invariant
            lo <= hi <= s@.len(),
            hi - lo == tc@.len(),
            tc@ == t@,
            0 <= i <= tc@.len(),
            forall|m: int|
                0 <= m < i ==> ascii_lower_code(s@[lo + m]) == ascii_lower_code(#[trigger] tc@[m]),
        decreases tc@.len() - i,
    {
        let a = s[lo + i] as u32;
        let b = tc[i] as u32;
        let la = if 65 <= a && a <= 90 { a + 32 } else { a };
        let lb = if 65 <= b && b <= 90 { b + 32 } else { b };
        if la != lb {
            assert(ascii_lower_code(s@.subrange(lo as int, hi as int)[i as int])
                != ascii_lower_code(t@[i as int]));
            return false;
        }
        i += 1;
    }
    assert forall|m: int| 0 <= m < t@.len() implies ascii_lower_code(
        s@.subrange(lo as int, hi as int)[m],
    ) == ascii_lower_code(t@[m]) by {
        assert(tc@[m] == t@[m]);
    }
    true
}

/// Whether `s[lo..hi]` begins with `prefix`, up to ASCII case.
pub fn range_starts_with_ignore_ascii_case(s: &Vec<char>, lo: usize, hi: usize, prefix: &str) -> (r:
    bool)
    requires
        lo <= hi <= s@.len(),
    ensures
        r == starts_with_ignore_ascii_case(s@.subrange(lo as int, hi as int), prefix@),
{
    let n = prefix.unicode_len();
    if n > hi - lo {
        return false;
    }
    let r = range_eq_ignore_ascii_case(s, lo, lo + n, prefix);
    assert(s@.subrange(lo as int, hi as int).take(n as int) =~= s@.subrange(
        lo as int,
        lo + n,
    ));
    r
}

/// Whether `s[lo..hi]` equals `t`.
pub fn range_eq(s: &Vec<char>, lo: usize, hi: usize, t: &str) -> (r: bool)
    requires
        lo <= hi <= s@.len(),
    ensures
        r == (s@.subrange(lo as int, hi as int) == t@),
{
    let tc = chars_of(t);
    if hi - lo != tc.len() {
        return false;
    }
    let mut i: usize = 0;
    while i < tc.len()
        invariant
            lo <= hi <= s@.len(),
            hi - lo == tc@.len(),
            tc@ == t@,
            0 <= i <= tc@.len(),
            forall|m: int| 0 <= m < i ==> s@[lo + m] == #[trigger] tc@[m],
        decreases tc@.len() - i,
    {
        if s[lo + i] != tc[i] {
            assert(s@.subrange(lo as int, hi as int)[i as int] != t@[i as int]);
            return false;
        }
        i += 1;
    }
    assert(s@.subrange(lo as int, hi as int) =~= t@);
    true
}

/// Whether two texts are equal.
pub fn str_eq(a: &str, b: &str) -> (r: bool)
    ensures
        r == (a@ == b@),
{
    let cs = chars_of(a);
    assert(cs@.subrange(0, cs@.len() as int) =~= a@);
    range_eq(&cs, 0, cs.len(), b)
}

/// Whether `t` occurs in `s` as a contiguous piece.
pub open spec fn contains_text(s: Seq<char>, t: Seq<char>) -> bool {
    exists|i: int| 0 <= i && i + t.len() <= s.len() && #[trigger] s.subrange(i, i + t.len()) == t
}

/// Whether `t` occurs in `s`, as `str::contains` decides for a `&str` pattern.
pub fn contains(s: &str, t: &str) -> (r: bool)
    ensures
        r == contains_text(s@, t@),
{
    let sc = chars_of(s);
    let tc = chars_of(t);
    if tc.len() > sc.len() {
        return false;
    }
    let m = tc.len();
    let n = sc.len();
    let last = n - m;
    let mut i: usize = 0;
    loop
        invariant
            m == tc@.len(),
            n == sc@.len(),
            last + m == n,
            sc@ == s@,
            tc@ == t@,
            tc@.len() <= sc@.len(),
            last == sc@.len() - tc@.len(),
            i <= last,
            forall|k: int| 0 <= k < i ==> #[trigger] sc@.subrange(k, k + tc@.len()) != tc@,
        decreases last - i,
    {
        if range_eq(&sc, i, i + m, t) {
            return true;
        }
        if i == last {
            return false;
        }
        i += 1;
    }
}

/// A text that neither begins nor ends with white space is its own trim.
pub proof fn lemma_trim_unchanged(s: Seq<char>)
    requires
        s.len() > 0,
        !is_white_space(s[0]),
        !is_white_space(s.last()),
    ensures
        trim(s) == s,
{
}

/// White space after a text that ends in something else is trimmed away.
pub proof fn lemma_trim_end_white_tail(s: Seq<char>, w: Seq<char>)
    requires
        s.len() > 0,
        !is_white_space(s.last()),
        forall|i: int| 0 <= i < w.len() ==> is_white_space(#[trigger] w[i]),
    ensures
        trim_end(s + w) == s,
    decreases w.len(),
{
    if w.len() == 0 {
        assert(s + w =~= s);
    } else {
        assert((s + w).drop_last() =~= s + w.drop_last());
        lemma_trim_end_white_tail(s, w.drop_last());
    }
}

/// A text that begins with something other than white space keeps its start.
pub proof fn lemma_trim_start_unchanged(s: Seq<char>)
    requires
        s.len() > 0,
        !is_white_space(s[0]),
    ensures
        trim_start(s) == s,
{
}

/// What `find_first` tells of the text.
pub proof fn lemma_find_first_facts(s: Seq<char>, c: char)
    ensures
        find_first(s, c) matches Some(k) ==> k < s.len() && s[k as int] == c && forall|m: int|
            0 <= m < k ==> s[m] != c,
        find_first(s, c) is None ==> forall|m: int| 0 <= m < s.len() ==> s[m] != c,
    decreases s.len(),
{
    if s.len() > 0 && s[0] != c {
        lemma_find_first_facts(s.drop_first(), c);
        assert forall|m: int| 1 <= m < s.len() implies s[m] == s.drop_first()[m - 1] by {}
    }
}

/// Texts equal up to ASCII case begin with the same prefixes up to ASCII case.
pub proof fn lemma_prefix_ignore_case(t1: Seq<char>, t2: Seq<char>, p: Seq<char>)
    requires
        eq_ignore_ascii_case(t1, t2),
    ensures
        starts_with_ignore_ascii_case(t1, p) == starts_with_ignore_ascii_case(t2, p),
{
    if p.len() <= t1.len() {
        assert forall|i: int| 0 <= i < p.len() implies ascii_lower_code(#[trigger] t1.take(
            p.len() as int,
        )[i]) == ascii_lower_code(t2.take(p.len() as int)[i]) by {
            assert(t1.take(p.len() as int)[i] == t1[i]);
            assert(t2.take(p.len() as int)[i] == t2[i]);
        }
    }
}

/// Texts equal up to ASCII case hold white space at the same places, and
/// the same white space there.
pub proof fn lemma_white_space_aligned(s1: Seq<char>, s2: Seq<char>)
    requires
        eq_ignore_ascii_case(s1, s2),
    ensures
        forall|i: int|
            0 <= i < s1.len() ==> (is_white_space(#[trigger] s1[i]) == is_white_space(s2[i]) && (
            is_white_space(s1[i]) ==> s1[i] == s2[i])),
{
    assert forall|i: int| 0 <= i < s1.len() implies (is_white_space(#[trigger] s1[i])
        == is_white_space(s2[i]) && (is_white_space(s1[i]) ==> s1[i] == s2[i])) by {
        assert(ascii_lower_code(s1[i]) == ascii_lower_code(s2[i]));
        if is_white_space(s1[i]) || is_white_space(s2[i]) {
            let u = s1[i] as u32;
            assert(u == s2[i] as u32);
            char_u32_cast(s1[i], u);
            char_u32_cast(s2[i], u);
        }
    }
}

/// Texts with white space at the same places lose the same tail to trimming.
pub proof fn lemma_trim_end_aligned(s1: Seq<char>, s2: Seq<char>)
    requires
        s1.len() == s2.len(),
        forall|i: int| 0 <= i < s1.len() ==> is_white_space(#[trigger] s1[i]) == is_white_space(s2[i]),
    ensures
        trim_end(s1).len() == trim_end(s2).len(),
        trim_end(s1).len() <= s1.len(),
        trim_end(s1) == s1.take(trim_end(s1).len() as int),
        trim_end(s2) == s2.take(trim_end(s2).len() as int),
    decreases s1.len(),
{
    if s1.len() > 0 && is_white_space(s1.last()) {
        assert(is_white_space(s2[s2.len() - 1]));
        assert forall|i: int| 0 <= i < s1.drop_last().len() implies is_white_space(
            #[trigger] s1.drop_last()[i],
        ) == is_white_space(s2.drop_last()[i]) by {
            assert(s1.drop_last()[i] == s1[i]);
            assert(s2.drop_last()[i] == s2[i]);
        }
        lemma_trim_end_aligned(s1.drop_last(), s2.drop_last());
        let k = trim_end(s1).len() as int;
        assert(s1.drop_last().take(k) =~= s1.take(k));
        assert(s2.drop_last().take(k) =~= s2.take(k));
    } else {
        assert(s1.take(s1.len() as int) =~= s1);
        assert(s2.take(s2.len() as int) =~= s2);
    }
}

/// White space before a text that begins with something else is trimmed away.
pub proof fn lemma_trim_start_white_head(w: Seq<char>, s: Seq<char>)
    requires
        s.len() > 0,
        !is_white_space(s[0]),
        forall|i: int| 0 <= i < w.len() ==> is_white_space(#[trigger] w[i]),
    ensures
        trim_start(w + s) == s,
    decreases w.len(),
{
    if w.len() == 0 {
        assert(w + s =~= s);
    } else {
        assert((w + s).drop_first() =~= w.drop_first() + s);
        lemma_trim_start_white_head(w.drop_first(), s);
    }
}

/// Trimming a text that ends in something other than white space, followed
/// by more text, trims only the tail of the latter.
pub proof fn lemma_trim_end_concat(p: Seq<char>, v: Seq<char>)
    requires
        p.len() > 0,
        !is_white_space(p.last()),
    ensures
        trim_end(p + v) == p + trim_end(v),
    decreases v.len(),
{
    if v.len() == 0 {
        assert(p + v =~= p);
        assert(p + trim_end(v) =~= p);
    } else if is_white_space(v.last()) {
        assert((p + v).drop_last() =~= p + v.drop_last());
        lemma_trim_end_concat(p, v.drop_last());
    }
}

/// Trailing white space does not change how a text trims.
proof fn lemma_trim_drop_white_last(s: Seq<char>)
    requires
        s.len() > 0,
        is_white_space(s.last()),
    ensures
        trim_end(trim_start(s)) == trim_end(trim_start(s.drop_last())),
    decreases s.len(),
{
    if is_white_space(s[0]) {
        if s.len() >= 2 {
            assert(s.drop_first().last() == s.last());
            lemma_trim_drop_white_last(s.drop_first());
            assert(s.drop_first().drop_last() =~= s.drop_last().drop_first());
            assert(s.drop_last()[0] == s[0]);
            assert(trim_start(s) == trim_start(s.drop_first()));
            assert(trim_start(s.drop_last()) == trim_start(s.drop_last().drop_first()));
        } else {
            assert(s.drop_first() =~= Seq::<char>::empty());
            assert(s.drop_last() =~= Seq::<char>::empty());
            assert(trim_start(s) == trim_start(s.drop_first()));
        }
    } else {
        assert(s.len() >= 2);
        assert(s.drop_last()[0] == s[0]);
        assert(trim_start(s) == s);
        assert(trim_start(s.drop_last()) == s.drop_last());
        assert(trim_end(s) == trim_end(s.drop_last()));
    }
}

/// Trimming the tail first and then the whole gives the whole trimmed.
pub proof fn lemma_trim_after_trim_end(v: Seq<char>)
    ensures
        trim(trim_end(v)) == trim(v),
    decreases v.len(),
{
    if v.len() > 0 && is_white_space(v.last()) {
        lemma_trim_after_trim_end(v.drop_last());
        lemma_trim_drop_white_last(v);
    }
}

} // verus!
