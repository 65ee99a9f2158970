//! Character-level text utilities shared by the rest of the library.
//!
//! Text is handled as sequences of `char`s: a `&str` is turned into a
//! `Vec<char>` with [`chars_of`], worked on by index, and turned back into a
//! `String` with [`string_of_range`].  Byte offsets, where the protocol needs
//! them, are computed from the UTF-8 width of each character.
use vstd::prelude::*;

verus! {

// ---------------------------------------------------------------------------
// Conversions between `&str`, `Vec<char>` and `String`
// ---------------------------------------------------------------------------

/// The characters of `s`, in order.
pub fn chars_of(s: &str) -> (v: Vec<char>)
    ensures
        v@ == s@,
{
    let mut v: Vec<char> = Vec::new();
    for c in it: s.chars()
        invariant
            v@ == it.seq().take(it.index() as int),
    {
        v.push(c);
    }
    v
}

/// Appends one character to a string (`String::push`).
#[verifier::external_body]
pub(crate) fn push_char(s: &mut String, c: char)
    ensures
        final(s)@ == old(s)@.push(c),
{
    s.push(c);
}

/// Appends the characters `v[lo..hi]` to `s`.
pub fn push_range(s: &mut String, v: &Vec<char>, lo: usize, hi: usize)
    requires
        lo <= hi <= v.len(),
    ensures
        final(s)@ == old(s)@ + v@.subrange(lo as int, hi as int),
{
    let mut i = lo;
    while i < hi
        invariant
            lo <= i <= hi <= v.len(),
            s@ == old(s)@ + v@.subrange(lo as int, i as int),
        decreases hi - i,
    {
        push_char(s, v[i]);
        assert(v@.subrange(lo as int, i + 1) =~= v@.subrange(lo as int, i as int).push(v@[i as int]));
        i = i + 1;
    }
}

/// Appends the characters `v[lo..hi]` to the vector `out`.
pub fn extend_range(out: &mut Vec<char>, v: &Vec<char>, lo: usize, hi: usize)
    requires
        lo <= hi <= v.len(),
    ensures
        final(out)@ == old(out)@ + v@.subrange(lo as int, hi as int),
{
    let mut i = lo;
    while i < hi
        invariant
            lo <= i <= hi <= v.len(),
            out@ == old(out)@ + v@.subrange(lo as int, i as int),
        decreases hi - i,
    {
        out.push(v[i]);
        assert(v@.subrange(lo as int, i + 1) =~= v@.subrange(lo as int, i as int).push(v@[i as int]));
        i = i + 1;
    }
}

/// The characters `v[lo..hi]` as a vector of their own.
pub fn chars_range(v: &Vec<char>, lo: usize, hi: usize) -> (r: Vec<char>)
    requires
        lo <= hi <= v.len(),
    ensures
        r@ == v@.subrange(lo as int, hi as int),
{
    let mut r: Vec<char> = Vec::new();
    extend_range(&mut r, v, lo, hi);
    assert(Seq::<char>::empty() + v@.subrange(lo as int, hi as int) =~= v@.subrange(
        lo as int,
        hi as int,
    ));
    r
}

/// Whether the strings `r` hold exactly the texts `m`, in order.
pub open spec fn strings_are(r: Seq<String>, m: Seq<Seq<char>>) -> bool {
    &&& r.len() == m.len()
    &&& forall|i: int| 0 <= i < r.len() ==> (#[trigger] r[i])@ == m[i]
}

/// Appends all characters of `v` to `s`.
pub fn push_all(s: &mut String, v: &Vec<char>)
    ensures
        final(s)@ == old(s)@ + v@,
{
    push_range(s, v, 0, v.len());
    assert(v@.subrange(0, v@.len() as int) =~= v@);
}

/// Appends the characters of `t` to `s`.
pub fn push_str(s: &mut String, t: &str)
    ensures
        final(s)@ == old(s)@ + t@,
{
    let v = chars_of(t);
    push_all(s, &v);
}

/// The string made of the characters `v[lo..hi]`.
pub fn string_of_range(v: &Vec<char>, lo: usize, hi: usize) -> (r: String)
    requires
        lo <= hi <= v.len(),
    ensures
        r@ == v@.subrange(lo as int, hi as int),
{
    let mut r = String::new();
    push_range(&mut r, v, lo, hi);
    assert(Seq::<char>::empty() + v@.subrange(lo as int, hi as int) =~= v@.subrange(
        lo as int,
        hi as int,
    ));
    r
}

/// The string made of all characters of `v`.
pub fn string_of(v: &Vec<char>) -> (r: String)
    ensures
        r@ == v@,
{
    let r = string_of_range(v, 0, v.len());
    assert(v@.subrange(0, v@.len() as int) =~= v@);
    r
}

/// A copy of `s`.
pub fn copy_str(s: &str) -> (r: String)
    ensures
        r@ == s@,
{
    s.to_owned()
}

/// Whether two strings hold the same characters.
pub fn str_eq(a: &str, b: &str) -> (r: bool)
    ensures
        r == (a@ == b@),
{
    let x = a.to_owned();
    let y = b.to_owned();
    x == y
}

// ---------------------------------------------------------------------------
// UTF-8 widths and byte offsets
// ---------------------------------------------------------------------------

/// Number of bytes of the UTF-8 encoding of `c`.
pub open spec fn utf8_width(c: char) -> nat {
    if (c as u32) < 0x80 {
        1
    } else if (c as u32) < 0x800 {
        2
    } else if (c as u32) < 0x10000 {
        3
    } else {
        4
    }
}

/// Number of bytes of the UTF-8 encoding of `s`.
pub open spec fn byte_len(s: Seq<char>) -> nat
    decreases s.len(),
{
    if s.len() == 0 {
        0
    } else {
        byte_len(s.drop_last()) + utf8_width(s.last())
    }
}

/// Number of bytes of the UTF-8 encoding of `c`.
pub fn char_width(c: char) -> (w: usize)
    ensures
        w == utf8_width(c),
{
    let u = c as u32;
    if u < 0x80 {
        1
    } else if u < 0x800 {
        2
    } else if u < 0x10000 {
        3
    } else {
        4
    }
}

/// Extending a prefix by one character adds that character's width.
pub proof fn lemma_byte_len_take(s: Seq<char>, k: int)
    requires
        0 <= k < s.len(),
    ensures
        byte_len(s.take(k + 1)) == byte_len(s.take(k)) + utf8_width(s[k]),
{
    assert(s.take(k + 1).drop_last() =~= s.take(k));
}

/// Byte lengths of prefixes grow with the prefix.
pub proof fn lemma_byte_len_take_mono(s: Seq<char>, j: int, k: int)
    requires
        0 <= j <= k <= s.len(),
    ensures
        byte_len(s.take(j)) + (k - j) <= byte_len(s.take(k)),
    decreases k - j,
{
    if j < k {
        lemma_byte_len_take_mono(s, j, k - 1);
        lemma_byte_len_take(s, k - 1);
    }
}

/// The number of characters in the longest prefix of `s` whose encoding is
/// at most `n` bytes long.
pub open spec fn cut_chars(s: Seq<char>, n: int) -> int
    decreases s.len(),
{
    if s.len() == 0 || byte_len(s) <= n {
        s.len() as int
    } else {
        cut_chars(s.drop_last(), n)
    }
}

/// `s` cut to at most its first `n` bytes, at the last character boundary
/// that fits: `s` itself when it is no longer, else `&s[..n]` when byte `n`
/// is a character boundary, else the longest shorter prefix.
pub open spec fn cut_bytes(s: Seq<char>, n: int) -> Seq<char> {
    s.take(cut_chars(s, n))
}

/// The longest prefix of at most `n` bytes has `k` characters when the
/// first `k` fit and `k + 1` do not (or there are no more).
pub proof fn lemma_cut_chars(s: Seq<char>, n: int, k: int)
    requires
        0 <= k <= s.len(),
        byte_len(s.take(k)) <= n,
        k == s.len() || byte_len(s.take(k + 1)) > n,
    ensures
        cut_chars(s, n) == k,
    decreases s.len(),
{
    if k == s.len() {
        assert(s.take(k) =~= s);
    } else {
        assert(s.take(s.len() as int) =~= s);
        lemma_byte_len_take_mono(s, k + 1, s.len() as int);
        let t = s.drop_last();
        assert(t.take(k) =~= s.take(k));
        if k < t.len() {
            assert(t.take(k + 1) =~= s.take(k + 1));
        }
        lemma_cut_chars(t, n, k);
    }
}

/// Number of characters of `v` kept by [`cut_bytes`].
pub fn cut_point(v: &Vec<char>, n: usize) -> (k: usize)
    ensures
        k <= v.len(),
        k == cut_chars(v@, n as int),
        v@.take(k as int) == cut_bytes(v@, n as int),
{
    let mut k: usize = 0;
    let mut acc: usize = 0;
    proof {
        assert(v@.take(0) =~= Seq::<char>::empty());
    }
    while k < v.len() && char_width(v[k]) <= n - acc
        invariant
            k <= v.len(),
            acc == byte_len(v@.take(k as int)),
            acc <= n,
        decreases v.len() - k,
    {
        proof {
            lemma_byte_len_take(v@, k as int);
        }
        acc = acc + char_width(v[k]);
        k = k + 1;
    }
    proof {
        if k < v.len() {
            lemma_byte_len_take(v@, k as int);
        }
        lemma_cut_chars(v@, n as int, k as int);
    }
    k
}

// ---------------------------------------------------------------------------
// Character classes
// ---------------------------------------------------------------------------

/// Unicode `White_Space`, the class that `char::is_whitespace` tests.
pub open spec fn white_space(c: char) -> bool {
    let u = c as u32;
    ||| u == 0x20
    ||| 0x09 <= u <= 0x0D
    ||| u == 0x85
    ||| u == 0xA0
    ||| u == 0x1680
    ||| 0x2000 <= u <= 0x200A
    ||| u == 0x2028
    ||| u == 0x2029
    ||| u == 0x202F
    ||| u == 0x205F
    ||| u == 0x3000
}

/// Whether `c` is white space (as `char::is_whitespace`).
pub fn is_white_space(c: char) -> (r: bool)
    ensures
        r == white_space(c),
{
    let u = c as u32;
    u == 0x20 || (0x09 <= u && u <= 0x0D) || u == 0x85 || u == 0xA0 || u == 0x1680 || (0x2000
        <= u && u <= 0x200A) || u == 0x2028 || u == 0x2029 || u == 0x202F || u == 0x205F || u
        == 0x3000
}

/// Unicode general category `Cc`, the class that `char::is_control` tests.
pub open spec fn control_char(c: char) -> bool {
    let u = c as u32;
    u <= 0x1F || (0x7F <= u && u <= 0x9F)
}

/// Whether `c` is a control character (as `char::is_control`).
pub fn is_control(c: char) -> (r: bool)
    ensures
        r == control_char(c),
{
    let u = c as u32;
    u <= 0x1F || (0x7F <= u && u <= 0x9F)
}

// ---------------------------------------------------------------------------
// Trimming
// ---------------------------------------------------------------------------

/// `s` without its leading white space.
pub open spec fn trim_start(s: Seq<char>) -> Seq<char>
    decreases s.len(),
{
    if s.len() > 0 && white_space(s[0]) {
        trim_start(s.drop_first())
    } else {
        s
    }
}

/// `s` without its trailing white space.
pub open spec fn trim_end(s: Seq<char>) -> Seq<char>
    decreases s.len(),
{
    if s.len() > 0 && white_space(s.last()) {
        trim_end(s.drop_last())
    } else {
        s
    }
}

/// `s` without leading and trailing white space (as `str::trim`).
pub open spec fn trim(s: Seq<char>) -> Seq<char> {
    trim_end(trim_start(s))
}

/// Bounds `lo..hi` such that `v[lo..hi]` is the trimmed form of `v[from..to]`.
pub fn trim_bounds(v: &Vec<char>, from: usize, to: usize) -> (r: (usize, usize))
    requires
        from <= to <= v.len(),
    ensures
        from <= r.0 <= r.1 <= to,
        v@.subrange(r.0 as int, r.1 as int) == trim(v@.subrange(from as int, to as int)),
{
    let ghost s = v@.subrange(from as int, to as int);
    let mut lo = from;
    while lo < to && is_white_space(v[lo])
        invariant
            from <= lo <= to <= v.len(),
            trim_start(s) == trim_start(v@.subrange(lo as int, to as int)),
        decreases to - lo,
    {
        assert(v@.subrange(lo as int, to as int).drop_first() =~= v@.subrange(
            lo + 1,
            to as int,
        ));
        lo = lo + 1;
    }
    let mut hi = to;
    while hi > lo && is_white_space(v[hi - 1])
        invariant
            from <= lo <= hi <= to <= v.len(),
            trim(s) == trim_end(v@.subrange(lo as int, hi as int)),
        decreases hi - lo,
    {
        assert(v@.subrange(lo as int, hi as int).drop_last() =~= v@.subrange(
            lo as int,
            hi - 1,
        ));
        hi = hi - 1;
    }
    (lo, hi)
}

/// `s` without leading and trailing white space (as `str::trim`).
pub fn trim_str(s: &str) -> (r: String)
    ensures
        r@ == trim(s@),
{
    let v = chars_of(s);
    let (lo, hi) = trim_bounds(&v, 0, v.len());
    assert(v@.subrange(0, v@.len() as int) =~= v@);
    string_of_range(&v, lo, hi)
}

/// `s` without any trailing `c` (as `str::trim_end_matches` with a `char`).
pub open spec fn trim_end_char(s: Seq<char>, c: char) -> Seq<char>
    decreases s.len(),
{
    if s.len() > 0 && s.last() == c {
        trim_end_char(s.drop_last(), c)
    } else {
        s
    }
}

/// End bound `hi` such that `v[..hi]` is `v` without trailing `c`.
pub fn trim_end_char_bound(v: &Vec<char>, c: char) -> (hi: usize)
    ensures
        hi <= v.len(),
        v@.take(hi as int) == trim_end_char(v@, c),
{
    let mut hi = v.len();
    assert(v@.take(hi as int) =~= v@);
    while hi > 0 && v[hi - 1] == c
        invariant
            hi <= v.len(),
            trim_end_char(v@, c) == trim_end_char(v@.take(hi as int), c),
        decreases hi,
    {
        assert(v@.take(hi as int).drop_last() =~= v@.take(hi - 1));
        hi = hi - 1;
    }
    hi
}

// ---------------------------------------------------------------------------
// Searching
// ---------------------------------------------------------------------------

/// Whether `s` holds the two characters `a, b` at index `i`.
pub open spec fn pair_at(s: Seq<char>, i: int, a: char, b: char) -> bool {
    0 <= i && i + 1 < s.len() && s[i] == a && s[i + 1] == b
}

/// The first index `i >= from` at which `s` holds the two characters `a, b`.
pub open spec fn find_pair(s: Seq<char>, from: int, a: char, b: char) -> Option<int>
    decreases s.len() - from,
{
    if from < 0 || from + 1 >= s.len() {
        None
    } else if s[from] == a && s[from + 1] == b {
        Some(from)
    } else {
        find_pair(s, from + 1, a, b)
    }
}

/// What `find_pair` returns is a match, and no earlier match exists.
pub proof fn lemma_find_pair(s: Seq<char>, from: int, a: char, b: char)
    requires
        0 <= from,
    ensures
        find_pair(s, from, a, b) matches Some(i) ==> from <= i && pair_at(s, i, a, b) && forall|
            j: int,
        | from <= j < i ==> !#[trigger] pair_at(s, j, a, b),
        find_pair(s, from, a, b) is None ==> forall|j: int|
            from <= j ==> !#[trigger] pair_at(s, j, a, b),
    decreases s.len() - from,
{
    if from + 1 < s.len() && !(s[from] == a && s[from + 1] == b) {
        lemma_find_pair(s, from + 1, a, b);
    }
}

/// A match at `i` with none between `from` and `i` is what `find_pair`
/// finds.
pub proof fn lemma_find_pair_at(s: Seq<char>, from: int, i: int, a: char, b: char)
    requires
        0 <= from <= i,
        pair_at(s, i, a, b),
        forall|j: int| from <= j < i ==> !#[trigger] pair_at(s, j, a, b),
    ensures
        find_pair(s, from, a, b) == Some(i),
    decreases i - from,
{
    if from < i {
        assert(!pair_at(s, from, a, b));
        lemma_find_pair_at(s, from + 1, i, a, b);
    }
}

/// Finds the first index `i >= from` with `v[i] == a` and `v[i + 1] == b`.
pub fn find_pair_from(v: &Vec<char>, from: usize, a: char, b: char) -> (r: Option<usize>)
    requires
        from <= v.len(),
    ensures
        r is Some <==> find_pair(v@, from as int, a, b) is Some,
        r matches Some(i) ==> find_pair(v@, from as int, a, b) == Some(i as int) && from <= i
            && i + 1 < v.len(),
{
    let mut i = from;
    while i < v.len() && i + 1 < v.len()
        invariant
            from <= i <= v.len(),
            find_pair(v@, from as int, a, b) == find_pair(v@, i as int, a, b),
        decreases v.len() - i,
    {
        if v[i] == a && v[i + 1] == b {
            return Some(i);
        }
        i = i + 1;
    }
    None
}

// ---------------------------------------------------------------------------
// Lines
// ---------------------------------------------------------------------------

/// The first index `i >= from` with `s[i] == c`.
pub open spec fn find_char(s: Seq<char>, from: int, c: char) -> Option<int>
    decreases s.len() - from,
{
    if from < 0 || from >= s.len() {
        None
    } else if s[from] == c {
        Some(from)
    } else {
        find_char(s, from + 1, c)
    }
}

/// A line without the `'\r'` of a `"\r\n"` line ending.
pub open spec fn strip_cr(l: Seq<char>) -> Seq<char> {
    if l.len() > 0 && l.last() == '\r' {
        l.drop_last()
    } else {
        l
    }
}

/// The lines of `s[from..]`, as `str::lines` yields them: split at `'\n'`,
/// each without its `"\n"` or `"\r\n"` ending, with no empty line after a
/// final line ending.
pub open spec fn lines_from(s: Seq<char>, from: int) -> Seq<Seq<char>>
    decreases s.len() - from,
{
    if from < 0 || from >= s.len() {
        Seq::empty()
    } else {
        match find_char(s, from, '\n') {
            Some(i) => if from <= i < s.len() {
                seq![strip_cr(s.subrange(from, i))] + lines_from(s, i + 1)
            } else {
                Seq::empty()
            },
            None => seq![s.subrange(from, s.len() as int)],
        }
    }
}

/// The lines of `s`, as `str::lines` yields them.
pub open spec fn lines(s: Seq<char>) -> Seq<Seq<char>> {
    lines_from(s, 0)
}

/// What `find_char` returns lies in range and holds `c`.
pub proof fn lemma_find_char(s: Seq<char>, from: int, c: char)
    requires
        0 <= from,
    ensures
        find_char(s, from, c) matches Some(i) ==> from <= i < s.len() && s[i] == c,
    decreases s.len() - from,
{
    if from < s.len() && s[from] != c {
        lemma_find_char(s, from + 1, c);
    }
}

/// Finds the first index `i >= from` with `v[i] == c`.
pub fn find_char_from(v: &Vec<char>, from: usize, c: char) -> (r: Option<usize>)
    requires
        from <= v.len(),
    ensures
        r is Some <==> find_char(v@, from as int, c) is Some,
        r matches Some(i) ==> find_char(v@, from as int, c) == Some(i as int) && from <= i
            < v.len() && v@[i as int] == c,
{
    let mut i = from;
    while i < v.len()
        invariant
            from <= i <= v.len(),
            find_char(v@, from as int, c) == find_char(v@, i as int, c),
        decreases v.len() - i,
    {
        if v[i] == c {
            return Some(i);
        }
        i = i + 1;
    }
    None
}

/// Bounds of the lines of `v`: `v[r[i].0..r[i].1]` is line `i` of `v`.
pub fn line_bounds(v: &Vec<char>) -> (r: Vec<(usize, usize)>)
    ensures
        r.len() == lines(v@).len(),
        forall|i: int| #![trigger r@[i]] 0 <= i < r.len() ==> r@[i].0 <= r@[i].1 <= v.len(),
        forall|i: int|
            #![trigger r@[i]]
            0 <= i < r.len() ==> v@.subrange(r@[i].0 as int, r@[i].1 as int) == lines(v@)[i],
{
    let mut r: Vec<(usize, usize)> = Vec::new();
    let ghost mut acc: Seq<Seq<char>> = Seq::empty();
    let mut from: usize = 0;
    while from < v.len()
        invariant
            from <= v.len(),
            r.len() == acc.len(),
            forall|i: int| #![trigger r@[i]] 0 <= i < r.len() ==> r@[i].0 <= r@[i].1 <= v.len(),
            forall|i: int|
                #![trigger r@[i]]
                0 <= i < r.len() ==> v@.subrange(r@[i].0 as int, r@[i].1 as int) == acc[i],
            lines(v@) == acc + lines_from(v@, from as int),
        decreases v.len() - from,
    {
        match find_char_from(v, from, '\n') {
            Some(i) => {
                let mut end = i;
                if end > from && v[end - 1] == '\r' {
                    end = end - 1;
                    assert(v@.subrange(from as int, i as int).drop_last() =~= v@.subrange(
                        from as int,
                        end as int,
                    ));
                }
                let ghost line = strip_cr(v@.subrange(from as int, i as int));
                assert(v@.subrange(from as int, end as int) == line);
                let ghost old_r = r@;
                r.push((from, end));
                proof {
                    lemma_find_char(v@, from as int, '\n');
                    assert forall|j: int| 0 <= j < r.len() implies r@[j].0 <= r@[j].1 <= v.len()
                        && v@.subrange(r@[j].0 as int, r@[j].1 as int) == acc.push(line)[j] by {
                        if j < old_r.len() {
                            assert(r@[j] == old_r[j]);
                            assert(acc.push(line)[j] == acc[j]);
                        } else {
                            assert(r@[j] == r@[old_r.len() as int]);
                        }
                    }
                    assert(lines_from(v@, from as int) == seq![line] + lines_from(
                        v@,
                        i + 1,
                    ));
                    assert(acc + (seq![line] + lines_from(v@, i + 1)) =~= acc.push(line)
                        + lines_from(v@, i + 1));
                    acc = acc.push(line);
                }
                from = i + 1;
            },
            None => {
                let ghost line = v@.subrange(from as int, v@.len() as int);
                let ghost old_r = r@;
                r.push((from, v.len()));
                proof {
                    assert forall|j: int| 0 <= j < r.len() implies r@[j].0 <= r@[j].1 <= v.len()
                        && v@.subrange(r@[j].0 as int, r@[j].1 as int) == acc.push(line)[j] by {
                        if j < old_r.len() {
                            assert(r@[j] == old_r[j]);
                            assert(acc.push(line)[j] == acc[j]);
                        } else {
                            assert(r@[j] == r@[old_r.len() as int]);
                        }
                    }
                    assert(lines_from(v@, v@.len() as int) =~= Seq::<Seq<char>>::empty());
                    assert(acc + seq![line] =~= acc.push(line) + lines_from(
                        v@,
                        v@.len() as int,
                    ));
                    acc = acc.push(line);
                }
                from = v.len();
            },
        }
    }
    assert(acc + lines_from(v@, from as int) =~= acc);
    assert(lines(v@) == acc);
    r
}

// ---------------------------------------------------------------------------
// Decimal numbers
// ---------------------------------------------------------------------------

/// The character of decimal digit `d`.
pub open spec fn digit_char(d: nat) -> char {
    ((d + 48) as u8) as char
}

/// The decimal representation of `n`, without leading zeros.
pub open spec fn decimal(n: nat) -> Seq<char>
    decreases n,
{
    if n < 10 {
        seq![digit_char(n)]
    } else {
        decimal(n / 10).push(digit_char(n % 10))
    }
}

/// The decimal representation of `n`, with a `'-'` before a negative number.
pub open spec fn decimal_int(n: int) -> Seq<char> {
    if n < 0 {
        seq!['-'] + decimal((-n) as nat)
    } else {
        decimal(n as nat)
    }
}

fn digit(d: u64) -> (c: char)
    requires
        d < 10,
    ensures
        c == digit_char(d as nat),
{
    ((d as u8) + 48u8) as char
}

/// Appends the decimal representation of `n` to `s` (as `format!("{}", n)`).
pub fn push_decimal(s: &mut String, n: u64)
    ensures
        final(s)@ == old(s)@ + decimal(n as nat),
{
    let mut acc: Vec<char> = Vec::new();
    let mut m = n;
    while m >= 10
        invariant
            decimal(n as nat) == decimal(m as nat) + acc@,
        decreases m,
    {
        let c = digit(m % 10);
        let ghost old_acc = acc@;
        acc.insert(0, c);
        assert(decimal(m as nat) == decimal((m / 10) as nat).push(c));
        assert(decimal((m / 10) as nat).push(c) + old_acc =~= decimal((m / 10) as nat) + acc@);
        m = m / 10;
    }
    let c = digit(m);
    let ghost old_acc = acc@;
    acc.insert(0, c);
    assert(decimal(m as nat) == seq![c]);
    assert(seq![c] + old_acc =~= acc@);
    push_all(s, &acc);
}

/// Appends the decimal representation of `n` to `s` (as `format!("{}", n)`).
pub fn push_decimal_i64(s: &mut String, n: i64)
    ensures
        final(s)@ == old(s)@ + decimal_int(n as int),
{
    if n < 0 {
        push_char(s, '-');
        let m: u64 = ((-(n + 1)) as u64) + 1;
        push_decimal(s, m);
        assert(old(s)@.push('-') + decimal(m as nat) =~= old(s)@ + (seq!['-'] + decimal(
            m as nat,
        )));
    } else {
        push_decimal(s, n as u64);
    }
}

/// The decimal representation of `n`.
pub fn decimal_string(n: u64) -> (r: String)
    ensures
        r@ == decimal(n as nat),
{
    let mut r = String::new();
    push_decimal(&mut r, n);
    assert(Seq::<char>::empty() + decimal(n as nat) =~= decimal(n as nat));
    r
}

// ---------------------------------------------------------------------------
// Integer parsing
// ---------------------------------------------------------------------------

/// Whether `c` is one of `'0'..='9'`.
pub open spec fn is_digit(c: char) -> bool {
    48 <= (c as u32) <= 57
}

/// The value of the decimal digits `s` (all assumed to be digits).
pub open spec fn digits_value(s: Seq<char>) -> int
    decreases s.len(),
{
    if s.len() == 0 {
        0
    } else {
        digits_value(s.drop_last()) * 10 + ((s.last() as u32) - 48)
    }
}

/// Number of sign characters (`'+'` or `'-'`) at the start of `s`.
pub open spec fn sign_len(s: Seq<char>) -> int {
    if s.len() > 0 && (s[0] == '-' || s[0] == '+') {
        1
    } else {
        0
    }
}

/// Whether every character of `s` is a decimal digit.
pub open spec fn all_digits(s: Seq<char>) -> bool {
    forall|i: int| 0 <= i < s.len() ==> #[trigger] is_digit(s[i])
}

/// The value `str::parse::<i64>` gives for `s`: an optional `'+'` or `'-'`,
/// then one or more decimal digits, the value fitting in an `i64`.
pub open spec fn parse_i64(s: Seq<char>) -> Option<i64> {
    let digits = s.skip(sign_len(s));
    if digits.len() == 0 || !all_digits(digits) {
        None
    } else {
        let v = if s[0] == '-' {
            -digits_value(digits)
        } else {
            digits_value(digits)
        };
        if i64::MIN <= v <= i64::MAX {
            Some(v as i64)
        } else {
            None
        }
    }
}

/// Values of digit prefixes are non-negative and grow with the prefix.
pub proof fn lemma_digits_value_mono(s: Seq<char>, k: int)
    requires
        0 <= k <= s.len(),
        forall|i: int| 0 <= i < s.len() ==> is_digit(s[i]),
    ensures
        0 <= digits_value(s.take(k)) <= digits_value(s),
    decreases s.len() - k,
{
    if k < s.len() {
        lemma_digits_value_mono(s, k + 1);
        assert(s.take(k + 1).drop_last() =~= s.take(k));
        assert forall|i: int| 0 <= i < s.take(k + 1).len() implies is_digit(#[trigger] s.take(k + 1)[i]) by {
            assert(s.take(k + 1)[i] == s[i]);
        }
        assert(s.take(k + 1).last() == s[k]);
        assert(is_digit(s[k]));
        lemma_digits_value_nonneg(s.take(k + 1));
    } else {
        assert(s.take(k) =~= s);
        lemma_digits_value_nonneg(s);
    }
}

/// The value of decimal digits is non-negative.
pub proof fn lemma_digits_value_nonneg(s: Seq<char>)
    requires
        forall|i: int| 0 <= i < s.len() ==> is_digit(s[i]),
    ensures
        0 <= digits_value(s),
    decreases s.len(),
{
    if s.len() > 0 {
        assert(is_digit(s[s.len() - 1]));
        assert forall|i: int| 0 <= i < s.drop_last().len() implies is_digit(#[trigger] s.drop_last()[i]) by {
            assert(s.drop_last()[i] == s[i]);
        }
        lemma_digits_value_nonneg(s.drop_last());
    }
}

/// Parses `v[lo..hi]` as `str::parse::<i64>` does.
pub fn parse_i64_range(v: &Vec<char>, lo: usize, hi: usize) -> (r: Option<i64>)
    requires
        lo <= hi <= v.len(),
    ensures
        r == parse_i64(v@.subrange(lo as int, hi as int)),
{
    let ghost s = v@.subrange(lo as int, hi as int);
    let neg = lo < hi && v[lo] == '-';
    let start = if lo < hi && (v[lo] == '-' || v[lo] == '+') {
        lo + 1
    } else {
        lo
    };
    let ghost d = v@.subrange(start as int, hi as int);
    assert(d =~= s.skip(sign_len(s)));
    if start == hi {
        assert(d.len() == 0);
        return None;
    }
    assert(neg == (s[0] == '-'));
    let mut i = start;
    while i < hi
        invariant
            start <= i <= hi <= v.len(),
            d == v@.subrange(start as int, hi as int),
            s == v@.subrange(lo as int, hi as int),
            d == s.skip(sign_len(s)),
            forall|j: int| 0 <= j < i - start ==> is_digit(#[trigger] d[j]),
        decreases hi - i,
    {
        let u = v[i] as u32;
        if !(48 <= u && u <= 57) {
            assert(d[i - start] == v@[i as int]);
            assert(!is_digit(d[i - start]));
            assert(!all_digits(s.skip(sign_len(s))));
            return None;
        }
        i = i + 1;
    }
    assert(all_digits(d));
    let limit: u64 = 0x8000_0000_0000_0000;
    let mut acc: u64 = 0;
    let mut k = start;
    assert(d.take(0) =~= Seq::<char>::empty());
    while k < hi
        invariant
            start <= k <= hi <= v.len(),
            d == v@.subrange(start as int, hi as int),
            s == v@.subrange(lo as int, hi as int),
            d == s.skip(sign_len(s)),
            d.len() > 0,
            neg == (s[0] == '-'),
            all_digits(d),
            limit == 0x8000_0000_0000_0000u64,
            acc == digits_value(d.take(k - start)),
            acc <= limit,
        decreases hi - k,
    {
        assert(d.take(k - start + 1).drop_last() =~= d.take(k - start));
        assert(d[k - start] == v@[k as int]);
        assert(is_digit(d[k - start]));
        let u = v[k] as u32;
        assert(48 <= u <= 57);
        let dv: u64 = (u - 48) as u64;
        if acc > (limit - dv) / 10 {
            proof {
                assert(acc * 10 + dv > 0x8000_0000_0000_0000u64) by (nonlinear_arith)
                    requires
                        acc > (0x8000_0000_0000_0000u64 - dv) / 10,
                        dv < 10,
                ;
                lemma_digits_value_mono(d, k - start + 1);
            }
            return None;
        }
        assert(acc * 10 + dv <= 0x8000_0000_0000_0000u64) by (nonlinear_arith)
            requires
                acc <= (0x8000_0000_0000_0000u64 - dv) / 10,
                dv < 10,
        ;
        acc = acc * 10 + dv;
        k = k + 1;
    }
    assert(d.take(d.len() as int) =~= d);
    if neg {
        if acc == 0 {
            Some(0)
        } else {
            Some(0i64 - ((acc - 1) as i64) - 1)
        }
    } else if acc > 0x7FFF_FFFF_FFFF_FFFFu64 {
        None
    } else {
        Some(acc as i64)
    }
}

} // verus!
