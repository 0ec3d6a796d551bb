//! Character-level helpers on strings, stated over `Seq<char>`.
//!
//! Every function here scans the characters of its argument once and cuts
//! the result out by character index, so the contracts can speak of plain
//! sequences and subranges.

use vstd::prelude::*;

verus! {

/// Whether `c` carries the Unicode `White_Space` property.
pub open spec fn is_white_space(c: char) -> bool {
    let u = c as u32;
    ||| 0x09 <= u <= 0x0D
    ||| u == 0x20
    ||| u == 0x85
    ||| u == 0xA0
    ||| u == 0x1680
    ||| 0x2000 <= u <= 0x200A
    ||| u == 0x2028
    ||| u == 0x2029
    ||| u == 0x202F
    ||| u == 0x205F
    ||| u == 0x3000
}

/// `s` without its leading white space.
pub open spec fn trim_start(s: Seq<char>) -> Seq<char>
    decreases s.len(),
{
    if s.len() > 0 && is_white_space(s[0]) {
        trim_start(s.drop_first())
    } else {
        s
    }
}

/// `s` without its trailing white space.
pub open spec fn trim_end(s: Seq<char>) -> Seq<char>
    decreases s.len(),
{
    if s.len() > 0 && is_white_space(s.last()) {
        trim_end(s.drop_last())
    } else {
        s
    }
}

/// `s` without leading and trailing white space.
pub open spec fn trimmed(s: Seq<char>) -> Seq<char> {
    trim_end(trim_start(s))
}

/// `s` without any trailing run of `c`.
pub open spec fn strip_trailing(s: Seq<char>, c: char) -> Seq<char>
    decreases s.len(),
{
    if s.len() > 0 && s.last() == c {
        strip_trailing(s.drop_last(), c)
    } else {
        s
    }
}

/// Index of the first `c` in `s` at or after `from`, or `s.len()` when
/// there is none.
pub open spec fn index_from(s: Seq<char>, c: char, from: int) -> int
    decreases s.len() - from,
{
    if from < 0 || from >= s.len() {
        s.len() as int
    } else if s[from] == c {
        from
    } else {
        index_from(s, c, from + 1)
    }
}

/// Index of the last `c` in `s` before `end`, or `-1` when there is none.
pub open spec fn last_index_before(s: Seq<char>, c: char, end: int) -> int
    decreases end,
{
    if end <= 0 || end > s.len() {
        -1
    } else if s[end - 1] == c {
        end - 1
    } else {
        last_index_before(s, c, end - 1)
    }
}

/// The parts of `s` before and after its first `c`.
pub open spec fn split_once(s: Seq<char>, c: char) -> Option<(Seq<char>, Seq<char>)> {
    let k = index_from(s, c, 0);
    if 0 <= k < s.len() {
        Some((s.subrange(0, k), s.subrange(k + 1, s.len() as int)))
    } else {
        None
    }
}

/// The part of `s` after its last `c`.
pub open spec fn after_last(s: Seq<char>, c: char) -> Option<Seq<char>> {
    let k = last_index_before(s, c, s.len() as int);
    if 0 <= k < s.len() {
        Some(s.subrange(k + 1, s.len() as int))
    } else {
        None
    }
}

/// The segments of `s` between occurrences of `c`, in order. A string
/// without `c` is its own single segment.
pub open spec fn split_on(s: Seq<char>, c: char) -> Seq<Seq<char>>
    decreases s.len(),
{
    let k = last_index_before(s, c, s.len() as int);
    if 0 <= k < s.len() {
        split_on(s.subrange(0, k), c).push(s.subrange(k + 1, s.len() as int))
    } else {
        seq![s]
    }
}

/// The code of `c` with the ASCII capitals mapped to their small letters.
pub open spec fn ascii_fold(c: char) -> u32 {
    let u = c as u32;
    if 0x41 <= u <= 0x5A {
        (u + 0x20) as u32
    } else {
        u
    }
}

/// Equality of `a` and `b` up to the case of ASCII letters.
pub open spec fn eq_ignore_ascii_case(a: Seq<char>, b: Seq<char>) -> bool {
    &&& a.len() == b.len()
    &&& forall|i: int| 0 <= i < a.len() ==> ascii_fold(#[trigger] a[i]) == ascii_fold(b[i])
}

/// White space in front of index `a` and none at `a` fixes `trim_start`.
pub proof fn lemma_trim_start_at(s: Seq<char>, a: int)
    requires
        0 <= a <= s.len(),
        forall|j: int| 0 <= j < a ==> is_white_space(#[trigger] s[j]),
        a < s.len() ==> !is_white_space(s[a]),
    ensures
        trim_start(s) == s.subrange(a, s.len() as int),
    decreases a,
{
    if a == 0 {
        assert(s.subrange(0, s.len() as int) =~= s);
    } else {
        let t = s.drop_first();
        assert forall|j: int| 0 <= j < a - 1 implies is_white_space(#[trigger] t[j]) by {
            assert(t[j] == s[j + 1]);
        }
        lemma_trim_start_at(t, a - 1);
        assert(t.subrange(a - 1, t.len() as int) =~= s.subrange(a, s.len() as int));
    }
}

/// White space from index `b` on and none just before `b` fixes `trim_end`.
pub proof fn lemma_trim_end_at(s: Seq<char>, b: int)
    requires
        0 <= b <= s.len(),
        forall|j: int| b <= j < s.len() ==> is_white_space(#[trigger] s[j]),
        b > 0 ==> !is_white_space(s[b - 1]),
    ensures
        trim_end(s) == s.subrange(0, b),
    decreases s.len() - b,
{
    if b == s.len() {
        assert(s.subrange(0, b) =~= s);
    } else {
        let t = s.drop_last();
        assert forall|j: int| b <= j < t.len() implies is_white_space(#[trigger] t[j]) by {
            assert(t[j] == s[j]);
        }
        lemma_trim_end_at(t, b);
        assert(t.subrange(0, b) =~= s.subrange(0, b));
    }
}

/// A run of `c` from index `b` on and none just before `b` fixes
/// `strip_trailing`.
pub proof fn lemma_strip_trailing_at(s: Seq<char>, c: char, b: int)
    requires
        0 <= b <= s.len(),
        forall|j: int| b <= j < s.len() ==> #[trigger] s[j] == c,
        b > 0 ==> s[b - 1] != c,
    ensures
        strip_trailing(s, c) == s.subrange(0, b),
    decreases s.len() - b,
{
    if b == s.len() {
        assert(s.subrange(0, b) =~= s);
    } else {
        let t = s.drop_last();
        assert forall|j: int| b <= j < t.len() implies #[trigger] t[j] == c by {
            assert(t[j] == s[j]);
        }
        lemma_strip_trailing_at(t, c, b);
        assert(t.subrange(0, b) =~= s.subrange(0, b));
    }
}

/// No `c` in `s[from..k]` and a `c` at `k`, or the end there, fixes
/// `index_from`.
pub proof fn lemma_index_from_at(s: Seq<char>, c: char, from: int, k: int)
    requires
        0 <= from <= k <= s.len(),
        forall|j: int| from <= j < k ==> #[trigger] s[j] != c,
        k < s.len() ==> s[k] == c,
    ensures
        index_from(s, c, from) == k,
    decreases k - from,
{
    if from < k {
        lemma_index_from_at(s, c, from + 1, k);
    }
}

/// No `c` in `s[k + 1..end]` and a `c` at `k`, or `k == -1`, fixes
/// `last_index_before`.
pub proof fn lemma_last_index_before_at(s: Seq<char>, c: char, end: int, k: int)
    requires
        -1 <= k < end <= s.len(),
        forall|j: int| k < j < end ==> #[trigger] s[j] != c,
        k >= 0 ==> s[k] == c,
    ensures
        last_index_before(s, c, end) == k,
    decreases end - k,
{
    if k + 1 < end {
        lemma_last_index_before_at(s, c, end - 1, k);
    }
}

/// `last_index_before` stays within `-1..end` and points at the last
/// `c` there.
pub proof fn lemma_last_index_before_is_last(s: Seq<char>, c: char, end: int)
    requires
        0 <= end <= s.len(),
    ensures
        -1 <= last_index_before(s, c, end) < end,
        last_index_before(s, c, end) >= 0 ==> s[last_index_before(s, c, end)] == c,
        forall|j: int| last_index_before(s, c, end) < j < end ==> #[trigger] s[j] != c,
    decreases end,
{
    if end > 0 && s[end - 1] != c {
        lemma_last_index_before_is_last(s, c, end - 1);
    }
}

/// Whether `c` is white space.
pub fn is_white_space_char(c: char) -> (b: bool)
    ensures
        b == is_white_space(c),
{
    let u: u32 = c as u32;
    (0x09 <= u && u <= 0x0D) || u == 0x20 || u == 0x85 || u == 0xA0 || u == 0x1680 || (0x2000
        <= u && u <= 0x200A) || u == 0x2028 || u == 0x2029 || u == 0x202F || u == 0x205F || u
        == 0x3000
}

/// The characters of `s`, in order.
pub fn chars_of(s: &str) -> (v: Vec<char>)
    ensures
        v@ == s@,
{
    let mut v: Vec<char> = Vec::new();
    let it = s.chars();
    for c in iter: it
        invariant
            v@ == iter.seq().take(iter.index()),
            iter.seq() == s@,
    {
        v.push(c);
    }
    v
}

/// `s` without leading and trailing white space.
pub fn trim<'a>(s: &'a str) -> (r: &'a str)
    ensures
        r@ == trimmed(s@),
{
    let chars = chars_of(s);
    let n = chars.len();
    let mut a: usize = 0;
    while a < n && is_white_space_char(chars[a])
        invariant
            n == chars.len(),
            a <= n,
            forall|j: int| 0 <= j < a ==> is_white_space(#[trigger] chars@[j]),
        decreases n - a,
    {
        a = a + 1;
    }
    let mut b: usize = n;
    while b > a && is_white_space_char(chars[b - 1])
        invariant
            n == chars.len(),
            a <= b <= n,
            forall|j: int| b <= j < n ==> is_white_space(#[trigger] chars@[j]),
        decreases b,
    {
        b = b - 1;
    }
    proof {
        let t = s@.subrange(a as int, n as int);
        lemma_trim_start_at(s@, a as int);
        assert(trim_start(s@) == t);
        assert forall|j: int| b - a <= j < t.len() implies is_white_space(#[trigger] t[j]) by {
            assert(t[j] == s@[j + a]);
        }
        lemma_trim_end_at(t, b - a);
        assert(t.subrange(0, b - a) =~= s@.subrange(a as int, b as int));
    }
    s.substring_char(a, b)
}

/// `s` without any trailing run of `c`.
pub fn strip_trailing_char<'a>(s: &'a str, c: char) -> (r: &'a str)
    ensures
        r@ == strip_trailing(s@, c),
{
    let chars = chars_of(s);
    let mut b: usize = chars.len();
    while b > 0 && chars[b - 1] == c
        invariant
            b <= chars.len(),
            forall|j: int| b <= j < chars.len() ==> #[trigger] chars@[j] == c,
        decreases b,
    {
        b = b - 1;
    }
    proof {
        lemma_strip_trailing_at(s@, c, b as int);
    }
    s.substring_char(0, b)
}

/// Whether `c` occurs in `s`.
pub fn contains_char(s: &str, c: char) -> (b: bool)
    ensures
        b == s@.contains(c),
{
    let chars = chars_of(s);
    let mut i: usize = 0;
    while i < chars.len()
        invariant
            i <= chars.len(),
            chars@ == s@,
            forall|j: int| 0 <= j < i ==> #[trigger] chars@[j] != c,
        decreases chars.len() - i,
    {
        if chars[i] == c {
            assert(s@[i as int] == c);
            return true;
        }
        i = i + 1;
    }
    false
}

/// The parts of `s` before and after its first `c`, if it has one.
pub fn split_once_char<'a>(s: &'a str, c: char) -> (r: Option<(&'a str, &'a str)>)
    ensures
        match r {
            Some((head, tail)) => split_once(s@, c) == Some((head@, tail@)),
            None => split_once(s@, c) is None,
        },
{
    let chars = chars_of(s);
    let n = chars.len();
    let mut i: usize = 0;
    while i < n && chars[i] != c
        invariant
            n == chars.len(),
            i <= n,
            forall|j: int| 0 <= j < i ==> #[trigger] chars@[j] != c,
        decreases n - i,
    {
        i = i + 1;
    }
    proof {
        lemma_index_from_at(s@, c, 0, i as int);
    }
    if i < n {
        Some((s.substring_char(0, i), s.substring_char(i + 1, n)))
    } else {
        None
    }
}

/// The part of `s` after its last `c`, if it has one.
pub fn after_last_char<'a>(s: &'a str, c: char) -> (r: Option<&'a str>)
    ensures
        match r {
            Some(tail) => after_last(s@, c) == Some(tail@),
            None => after_last(s@, c) is None,
        },
{
    let chars = chars_of(s);
    let n = chars.len();
    let mut e: usize = n;
    while e > 0 && chars[e - 1] != c
        invariant
            n == chars.len(),
            e <= n,
            forall|j: int| e <= j < n ==> #[trigger] chars@[j] != c,
        decreases e,
    {
        e = e - 1;
    }
    proof {
        lemma_last_index_before_at(s@, c, n as int, e - 1);
    }
    if e > 0 {
        Some(s.substring_char(e, n))
    } else {
        None
    }
}

/// The views of the strings in `v`, in order.
pub open spec fn views_of(v: Seq<&str>) -> Seq<Seq<char>> {
    Seq::new(v.len(), |i: int| v[i]@)
}

/// The segments of `s` between occurrences of `c`, in order.
pub fn split_on_char<'a>(s: &'a str, c: char) -> (v: Vec<&'a str>)
    ensures
        views_of(v@) == split_on(s@, c),
{
    let chars = chars_of(s);
    let n = chars.len();
    let mut out: Vec<&'a str> = Vec::new();
    let mut start: usize = 0;
    let mut i: usize = 0;
    while i < n
        invariant
            n == chars.len(),
            chars@ == s@,
            start <= i <= n,
            forall|j: int| start <= j < i ==> #[trigger] s@[j] != c,
            start == 0 ==> out@.len() == 0,
            start > 0 ==> s@[start - 1] == c && views_of(out@) == split_on(
                s@.subrange(0, start - 1),
                c,
            ),
        decreases n - i,
    {
        if chars[i] == c {
            let ghost before = out@;
            let piece = s.substring_char(start, i);
            out.push(piece);
            proof {
                lemma_split_on_extend(s@, c, start as int, i as int);
                let p = s@.subrange(0, i as int);
                if start > 0 {
                    assert(views_of(out@) =~= views_of(before).push(piece@));
                } else {
                    assert(views_of(out@) =~= seq![piece@]);
                }
            }
            start = i + 1;
        }
        i = i + 1;
    }
    let ghost before = out@;
    let piece = s.substring_char(start, n);
    out.push(piece);
    proof {
        lemma_split_on_extend(s@, c, start as int, n as int);
        assert(s@.subrange(0, n as int) =~= s@);
        if start > 0 {
            assert(views_of(out@) =~= views_of(before).push(piece@));
        } else {
            assert(views_of(out@) =~= seq![piece@]);
        }
    }
    out
}

/// With a `c` just before `start` (or `start == 0`) and none in
/// `s[start..end]`, the segments of `s[..end]` are those of
/// `s[..start - 1]` followed by `s[start..end]`.
pub proof fn lemma_split_on_extend(s: Seq<char>, c: char, start: int, end: int)
    requires
        0 <= start <= end <= s.len(),
        forall|j: int| start <= j < end ==> #[trigger] s[j] != c,
        start > 0 ==> s[start - 1] == c,
    ensures
        start > 0 ==> split_on(s.subrange(0, end), c) == split_on(s.subrange(0, start - 1), c).push(
            s.subrange(start, end),
        ),
        start == 0 ==> split_on(s.subrange(0, end), c) == seq![s.subrange(0, end)],
{
    let p = s.subrange(0, end);
    assert forall|j: int| start - 1 < j < end implies #[trigger] p[j] != c by {
        assert(p[j] == s[j]);
    }
    lemma_last_index_before_at(p, c, end, start - 1);
    if start > 0 {
        assert(p.subrange(0, start - 1) =~= s.subrange(0, start - 1));
        assert(p.subrange(start, p.len() as int) =~= s.subrange(start, end));
    }
}

/// Whether `a` and `b` hold the same characters.
pub fn same_text(a: &str, b: &str) -> (r: bool)
    ensures
        r == (a@ == b@),
{
    let x = chars_of(a);
    let y = chars_of(b);
    if x.len() != y.len() {
        return false;
    }
    let mut i: usize = 0;
    while i < x.len()
        invariant
            i <= x.len(),
            x.len() == y.len(),
            x@ == a@,
            y@ == b@,
            forall|j: int| 0 <= j < i ==> #[trigger] x@[j] == y@[j],
        decreases x.len() - i,
    {
        if x[i] != y[i] {
            assert(a@[i as int] != b@[i as int]);
            return false;
        }
        i = i + 1;
    }
    assert(a@ =~= b@);
    true
}

/// The code of `c` with the ASCII capitals mapped to their small letters.
pub fn ascii_fold_char(c: char) -> (u: u32)
    ensures
        u == ascii_fold(c),
{
    let u: u32 = c as u32;
    if 0x41 <= u && u <= 0x5A {
        u + 0x20
    } else {
        u
    }
}

/// Whether `a` and `b` are equal up to the case of ASCII letters.
pub fn same_text_ignore_ascii_case(a: &str, b: &str) -> (r: bool)
    ensures
        r == eq_ignore_ascii_case(a@, b@),
{
    let x = chars_of(a);
    let y = chars_of(b);
    if x.len() != y.len() {
        return false;
    }
    let mut i: usize = 0;
    while i < x.len()
        invariant
            i <= x.len(),
            x.len() == y.len(),
            x@ == a@,
            y@ == b@,
            forall|j: int| 0 <= j < i ==> ascii_fold(#[trigger] x@[j]) == ascii_fold(y@[j]),
        decreases x.len() - i,
    {
        if ascii_fold_char(x[i]) != ascii_fold_char(y[i]) {
            assert(ascii_fold(a@[i as int]) != ascii_fold(b@[i as int]));
            return false;
        }
        i = i + 1;
    }
    true
}

/// `a` followed by `b`.
pub fn concat2(a: &str, b: &str) -> (r: String)
    ensures
        r@ == a@ + b@,
{
    let mut r = String::from_str(a);
    r.append(b);
    r
}

/// `a`, `b` and `c` in a row.
pub fn concat3(a: &str, b: &str, c: &str) -> (r: String)
    ensures
        r@ == a@ + b@ + c@,
{
    let mut r = String::from_str(a);
    r.append(b);
    r.append(c);
    r
}

/// How often `c` occurs in `s`.
pub open spec fn occurrences(s: Seq<char>, c: char) -> nat
    decreases s.len(),
{
    if s.len() == 0 {
        0
    } else if s.last() == c {
        occurrences(s.drop_last(), c) + 1
    } else {
        occurrences(s.drop_last(), c)
    }
}

/// A text without `c` has no occurrence of it.
pub proof fn lemma_occurrences_none(s: Seq<char>, c: char)
    requires
        forall|j: int| 0 <= j < s.len() ==> #[trigger] s[j] != c,
    ensures
        occurrences(s, c) == 0,
    decreases s.len(),
{
    if s.len() > 0 {
        let t = s.drop_last();
        assert forall|j: int| 0 <= j < t.len() implies #[trigger] t[j] != c by {
            assert(t[j] == s[j]);
        }
        lemma_occurrences_none(t, c);
    }
}

/// The last `c` of a text is one occurrence more than the text in front of
/// it holds.
pub proof fn lemma_occurrences_at_last(s: Seq<char>, c: char, k: int)
    requires
        0 <= k < s.len(),
        s[k] == c,
        forall|j: int| k < j < s.len() ==> #[trigger] s[j] != c,
    ensures
        occurrences(s, c) == occurrences(s.subrange(0, k), c) + 1,
    decreases s.len() - k,
{
    let t = s.drop_last();
    if k == s.len() - 1 {
        assert(t =~= s.subrange(0, k));
    } else {
        assert(s.last() == s[s.len() - 1]);
        assert forall|j: int| k < j < t.len() implies #[trigger] t[j] != c by {
            assert(t[j] == s[j]);
        }
        lemma_occurrences_at_last(t, c, k);
        assert(t.subrange(0, k) =~= s.subrange(0, k));
    }
}

/// A text splits into one segment more than it holds separators.
pub proof fn lemma_split_on_len(s: Seq<char>, c: char)
    ensures
        split_on(s, c).len() == occurrences(s, c) + 1,
    decreases s.len(),
{
    let k = last_index_before(s, c, s.len() as int);
    lemma_last_index_before_is_last(s, c, s.len() as int);
    if 0 <= k < s.len() {
        lemma_split_on_len(s.subrange(0, k), c);
        lemma_occurrences_at_last(s, c, k);
    } else {
        lemma_occurrences_none(s, c);
    }
}

/// The segments of a text, joined by the separator, are the text.
pub open spec fn joined(parts: Seq<Seq<char>>, c: char) -> Seq<char>
    decreases parts.len(),
{
    if parts.len() == 0 {
        Seq::empty()
    } else if parts.len() == 1 {
        parts[0]
    } else {
        joined(parts.drop_last(), c).push(c) + parts.last()
    }
}

/// Splitting loses nothing and keeps the order: the segments, joined by the
/// separator, give the text back.
pub proof fn lemma_split_on_joined(s: Seq<char>, c: char)
    ensures
        joined(split_on(s, c), c) == s,
    decreases s.len(),
{
    let k = last_index_before(s, c, s.len() as int);
    lemma_last_index_before_is_last(s, c, s.len() as int);
    if 0 <= k < s.len() {
        let front = s.subrange(0, k);
        let back = s.subrange(k + 1, s.len() as int);
        lemma_split_on_joined(front, c);
        lemma_split_on_len(front, c);
        let parts = split_on(s, c);
        assert(parts.drop_last() =~= split_on(front, c));
        assert(parts.last() == back);
        assert(front.push(c) + back =~= s);
    } else {
        assert(split_on(s, c)[0] == s);
    }
}

/// `strip_trailing` keeps a front part of the text.
pub proof fn lemma_strip_trailing_is_front(s: Seq<char>, c: char)
    ensures
        strip_trailing(s, c).len() <= s.len(),
        strip_trailing(s, c) == s.subrange(0, strip_trailing(s, c).len() as int),
    decreases s.len(),
{
    if s.len() > 0 && s.last() == c {
        let t = s.drop_last();
        lemma_strip_trailing_is_front(t, c);
        assert(t.subrange(0, strip_trailing(t, c).len() as int) =~= s.subrange(
            0,
            strip_trailing(t, c).len() as int,
        ));
    } else {
        assert(s.subrange(0, s.len() as int) =~= s);
    }
}

/// What `trim_start` leaves is empty or begins with a character that is no
/// white space.
pub proof fn lemma_trim_start_begins_dark(s: Seq<char>)
    ensures
        trim_start(s).len() > 0 ==> !is_white_space(trim_start(s)[0]),
    decreases s.len(),
{
    if s.len() > 0 && is_white_space(s[0]) {
        lemma_trim_start_begins_dark(s.drop_first());
    }
}

/// What `trim_end` leaves is a front part of the text, and is empty or ends
/// with a character that is no white space.
pub proof fn lemma_trim_end_is_dark_front(s: Seq<char>)
    ensures
        trim_end(s).len() <= s.len(),
        trim_end(s) == s.subrange(0, trim_end(s).len() as int),
        trim_end(s).len() > 0 ==> !is_white_space(trim_end(s).last()),
    decreases s.len(),
{
    if s.len() > 0 && is_white_space(s.last()) {
        let t = s.drop_last();
        lemma_trim_end_is_dark_front(t);
        assert(t.subrange(0, trim_end(t).len() as int) =~= s.subrange(
            0,
            trim_end(t).len() as int,
        ));
    } else {
        assert(s.subrange(0, s.len() as int) =~= s);
    }
}

/// Trimming a trimmed text changes nothing.
pub proof fn lemma_trimmed_twice(s: Seq<char>)
    ensures
        trimmed(trimmed(s)) == trimmed(s),
{
    let t = trim_start(s);
    let r = trim_end(t);
    lemma_trim_start_begins_dark(s);
    lemma_trim_end_is_dark_front(t);
    if r.len() > 0 {
        assert(r[0] == t[0]);
    }
    assert(trim_start(r) == r);
    assert(trim_end(r) == r);
}

} // verus!
