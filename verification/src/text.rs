//! Character sequences: the string operations the parsers are built from,
//! each with a mathematical definition over `Seq<char>`.

use vstd::prelude::*;

verus! {

/// `String::push` appends the character `c` to the end of the string.
pub assume_specification[ String::push ](s: &mut String, c: char)
    ensures
        final(s)@ == old(s)@.push(c),
;

/// The characters of `s`, one by one.
pub fn to_chars(s: &str) -> (v: Vec<char>)
    ensures
        v@ == s@,
{
    let mut v: Vec<char> = Vec::new();
    for c in it: s.chars()
        invariant
            v@ == it.seq().take(it.index() as int),
            it.seq() == s@,
    {
        v.push(c);
    }
    v
}

/// The string made of the characters of `v`.
pub fn from_chars(v: &Vec<char>) -> (s: String)
    ensures
        s@ == v@,
{
    let mut s = String::new();
    let mut i: usize = 0;
    while i < v.len()
        invariant
            i <= v.len(),
            s@ == v@.take(i as int),
        decreases v.len() - i,
    {
        s.push(v[i]);
        i += 1;
    }
    assert(v@.take(v.len() as int) == v@);
    s
}

/// The character sequences that the vectors of `v` hold.
pub open spec fn seqs(v: Seq<Vec<char>>) -> Seq<Seq<char>> {
    Seq::new(v.len(), |i: int| v[i]@)
}

/// The character sequences that the strings of `v` hold.
pub open spec fn strings(v: Seq<String>) -> Seq<Seq<char>> {
    Seq::new(v.len(), |i: int| v[i]@)
}

/// Whether two strings hold the same characters.
pub fn str_eq(a: &str, b: &str) -> (r: bool)
    ensures
        r == (a@ == b@),
{
    let x = to_chars(a);
    let y = to_chars(b);
    chars_eq(&x, &y)
}

/// Whether two character vectors hold the same characters.
pub fn chars_eq(a: &Vec<char>, b: &Vec<char>) -> (r: bool)
    ensures
        r == (a@ == b@),
{
    if a.len() != b.len() {
        return false;
    }
    let mut i: usize = 0;
    while i < a.len()
        invariant
            i <= a.len(),
            a.len() == b.len(),
            forall|j: int| 0 <= j < i ==> a@[j] == b@[j],
        decreases a.len() - i,
    {
        if a[i] != b[i] {
            return false;
        }
        i += 1;
    }
    assert(a@ =~= b@);
    true
}

/// `a` followed by `b`.
pub fn append_chars(a: &Vec<char>, b: &Vec<char>) -> (r: Vec<char>)
    ensures
        r@ == a@ + b@,
{
    let mut r: Vec<char> = Vec::new();
    let mut i: usize = 0;
    while i < a.len()
        invariant
            i <= a.len(),
            r@ == a@.take(i as int),
        decreases a.len() - i,
    {
        r.push(a[i]);
        i += 1;
    }
    assert(a@.take(a.len() as int) == a@);
    let mut j: usize = 0;
    while j < b.len()
        invariant
            j <= b.len(),
            r@ == a@ + b@.take(j as int),
        decreases b.len() - j,
    {
        r.push(b[j]);
        j += 1;
    }
    assert(b@.take(b.len() as int) == b@);
    r
}

/// The characters of `s` from index `from` up to, not including, index `to`.
pub fn slice(s: &Vec<char>, from: usize, to: usize) -> (r: Vec<char>)
    requires
        from <= to <= s.len(),
    ensures
        r@ == s@.subrange(from as int, to as int),
{
    let mut r: Vec<char> = Vec::new();
    let mut i: usize = from;
    while i < to
        invariant
            from <= i <= to <= s.len(),
            r@ == s@.subrange(from as int, i as int),
        decreases to - i,
    {
        r.push(s[i]);
        i += 1;
    }
    r
}

/// Whether `s` begins with `prefix`.
pub fn starts_with(s: &Vec<char>, prefix: &Vec<char>) -> (r: bool)
    ensures
        r == prefix@.is_prefix_of(s@),
{
    if prefix.len() > s.len() {
        return false;
    }
    let mut i: usize = 0;
    while i < prefix.len()
        invariant
            i <= prefix.len() <= s.len(),
            forall|j: int| 0 <= j < i ==> s@[j] == prefix@[j],
        decreases prefix.len() - i,
    {
        if s[i] != prefix[i] {
            return false;
        }
        i += 1;
    }
    assert(prefix@ =~= s@.subrange(0, prefix@.len() as int));
    true
}

/// Whether `s` ends with `suffix`.
pub fn ends_with(s: &Vec<char>, suffix: &Vec<char>) -> (r: bool)
    ensures
        r == suffix@.is_suffix_of(s@),
{
    if suffix.len() > s.len() {
        return false;
    }
    let off: usize = s.len() - suffix.len();
    let mut i: usize = 0;
    while i < suffix.len()
        invariant
            i <= suffix.len() <= s.len(),
            off == s.len() - suffix.len(),
            forall|j: int| 0 <= j < i ==> s@[off + j] == suffix@[j],
        decreases suffix.len() - i,
    {
        if s[off + i] != suffix[i] {
            assert(s@.subrange(off as int, s@.len() as int)[i as int] == s@[off + i]);
            return false;
        }
        i += 1;
    }
    assert(suffix@ =~= s@.subrange(s@.len() - suffix@.len(), s@.len() as int));
    true
}

/// Whether `s` begins with the characters of `prefix`.
pub fn starts_with_str(s: &Vec<char>, prefix: &str) -> (r: bool)
    ensures
        r == prefix@.is_prefix_of(s@),
{
    let p = to_chars(prefix);
    starts_with(s, &p)
}

/// Whether `s` ends with the characters of `suffix`.
pub fn ends_with_str(s: &Vec<char>, suffix: &str) -> (r: bool)
    ensures
        r == suffix@.is_suffix_of(s@),
{
    let p = to_chars(suffix);
    ends_with(s, &p)
}

/// The index of the first occurrence of `c` in `s` at or after `from`, or
/// the length of `s` where there is none.
pub open spec fn index_of_from(s: Seq<char>, c: char, from: int) -> int
    decreases s.len() - from,
{
    if from >= s.len() {
        s.len() as int
    } else if s[from] == c {
        from
    } else {
        index_of_from(s, c, from + 1)
    }
}

/// The index of the first occurrence of `c` in `s`, or the length of `s`.
pub open spec fn index_of(s: Seq<char>, c: char) -> int {
    index_of_from(s, c, 0)
}

/// `index_of_from` is the least index at or after `from` that holds `c`.
pub proof fn lemma_index_of_from(s: Seq<char>, c: char, from: int)
    requires
        0 <= from <= s.len(),
    ensures
        from <= index_of_from(s, c, from) <= s.len(),
        index_of_from(s, c, from) < s.len() ==> s[index_of_from(s, c, from)] == c,
        forall|j: int| from <= j < index_of_from(s, c, from) ==> s[j] != c,
    decreases s.len() - from,
{
    if from < s.len() && s[from] != c {
        lemma_index_of_from(s, c, from + 1);
    }
}

/// The index of the first `c` in `s` at or after `from`, or `s.len()`.
pub fn find_char_from(s: &Vec<char>, c: char, from: usize) -> (r: usize)
    requires
        from <= s.len(),
    ensures
        r == index_of_from(s@, c, from as int),
        from <= r <= s.len(),
{
    let mut i: usize = from;
    while i < s.len() && s[i] != c
        invariant
            from <= i <= s.len(),
            index_of_from(s@, c, from as int) == index_of_from(s@, c, i as int),
        decreases s.len() - i,
    {
        i += 1;
    }
    i
}

/// The index of the first `c` in `s`, if `s` holds one.
pub fn find_char(s: &Vec<char>, c: char) -> (r: Option<usize>)
    ensures
        match r {
            Some(i) => i == index_of(s@, c) && i < s.len(),
            None => index_of(s@, c) == s.len(),
        },
{
    let i = find_char_from(s, c, 0);
    if i < s.len() {
        Some(i)
    } else {
        None
    }
}

/// Whether `c` occurs in `s`.
pub fn contains_char(s: &Vec<char>, c: char) -> (r: bool)
    ensures
        r == s@.contains(c),
{
    let i = find_char_from(s, c, 0);
    proof {
        lemma_index_of_from(s@, c, 0);
    }
    i < s.len()
}

/// Whether `sub` occurs in `s` at index `at`.
pub open spec fn occurs_at(s: Seq<char>, sub: Seq<char>, at: int) -> bool {
    0 <= at && at + sub.len() <= s.len() && s.subrange(at, at + sub.len()) == sub
}

/// Whether `sub` occurs somewhere in `s`.
pub open spec fn contains_seq(s: Seq<char>, sub: Seq<char>) -> bool {
    exists|at: int| occurs_at(s, sub, at)
}

fn occurs_at_exec(s: &Vec<char>, sub: &Vec<char>, at: usize) -> (r: bool)
    requires
        at + sub.len() <= s.len(),
    ensures
        r == occurs_at(s@, sub@, at as int),
{
    let mut i: usize = 0;
    while i < sub.len()
        invariant
            i <= sub.len(),
            at + sub.len() <= s.len(),
            forall|j: int| 0 <= j < i ==> s@[at + j] == sub@[j],
        decreases sub.len() - i,
    {
        if s[at + i] != sub[i] {
            assert(s@.subrange(at as int, at + sub@.len())[i as int] == s@[at + i]);
            return false;
        }
        i += 1;
    }
    assert(s@.subrange(at as int, at + sub@.len()) =~= sub@);
    true
}

/// Whether the characters of `sub` occur somewhere in `s`.
pub fn contains_str(s: &Vec<char>, sub: &str) -> (r: bool)
    ensures
        r == contains_seq(s@, sub@),
{
    let p = to_chars(sub);
    if p.len() > s.len() {
        return false;
    }
    let last: usize = s.len() - p.len();
    let mut at: usize = 0;
    while at < last
        invariant
            at <= last,
            last == s.len() - p.len(),
            p@ == sub@,
            forall|k: int| 0 <= k < at ==> !occurs_at(s@, sub@, k),
        decreases last - at,
    {
        if occurs_at_exec(s, &p, at) {
            return true;
        }
        at += 1;
    }
    occurs_at_exec(s, &p, last)
}

/// Whether `c` is white space, as Unicode defines it.
pub open spec fn is_whitespace(c: char) -> bool {
    let n = c as u32;
    (0x09 <= n <= 0x0D) || n == 0x20 || n == 0x85 || n == 0xA0 || n == 0x1680 || (0x2000 <= n
        <= 0x200A) || n == 0x2028 || n == 0x2029 || n == 0x202F || n == 0x205F || n == 0x3000
}

/// Whether `c` is white space.
pub fn char_is_whitespace(c: char) -> (r: bool)
    ensures
        r == is_whitespace(c),
{
    let n: u32 = c as u32;
    (0x09 <= n && n <= 0x0D) || n == 0x20 || n == 0x85 || n == 0xA0 || n == 0x1680 || (0x2000 <= n
        && n <= 0x200A) || n == 0x2028 || n == 0x2029 || n == 0x202F || n == 0x205F || n == 0x3000
}

/// The first index at or after `from` that holds no white space, or `s.len()`.
pub open spec fn skip_whitespace(s: Seq<char>, from: int) -> int
    decreases s.len() - from,
{
    if from >= s.len() {
        s.len() as int
    } else if is_whitespace(s[from]) {
        skip_whitespace(s, from + 1)
    } else {
        from
    }
}

/// The first index at or after `from` that holds white space, or `s.len()`.
pub open spec fn skip_non_whitespace(s: Seq<char>, from: int) -> int
    decreases s.len() - from,
{
    if from >= s.len() {
        s.len() as int
    } else if !is_whitespace(s[from]) {
        skip_non_whitespace(s, from + 1)
    } else {
        from
    }
}

/// The least index `k` such that `s` holds only white space from `k` up to `to`.
pub open spec fn skip_whitespace_back(s: Seq<char>, to: int) -> int
    decreases to,
{
    if to <= 0 {
        0
    } else if is_whitespace(s[to - 1]) {
        skip_whitespace_back(s, to - 1)
    } else {
        to
    }
}

/// `s` without the white space at its two ends.
pub open spec fn trim(s: Seq<char>) -> Seq<char> {
    let a = skip_whitespace(s, 0);
    let b = skip_whitespace_back(s, s.len() as int);
    if a >= b {
        Seq::empty()
    } else {
        s.subrange(a, b)
    }
}

/// `skip_whitespace` passes over white space only, and stops at the first
/// character that is none.
pub proof fn lemma_skip_whitespace(s: Seq<char>, from: int)
    requires
        0 <= from <= s.len(),
    ensures
        from <= skip_whitespace(s, from) <= s.len(),
        forall|j: int| from <= j < skip_whitespace(s, from) ==> is_whitespace(s[j]),
        skip_whitespace(s, from) < s.len() ==> !is_whitespace(s[skip_whitespace(s, from)]),
    decreases s.len() - from,
{
    if from < s.len() && is_whitespace(s[from]) {
        lemma_skip_whitespace(s, from + 1);
    }
}

/// `skip_non_whitespace` passes over no white space, and stops at the
/// first.
pub proof fn lemma_skip_non_whitespace(s: Seq<char>, from: int)
    requires
        0 <= from <= s.len(),
    ensures
        from <= skip_non_whitespace(s, from) <= s.len(),
        forall|j: int| from <= j < skip_non_whitespace(s, from) ==> !is_whitespace(s[j]),
        skip_non_whitespace(s, from) < s.len() ==> is_whitespace(
            s[skip_non_whitespace(s, from)],
        ),
    decreases s.len() - from,
{
    if from < s.len() && !is_whitespace(s[from]) {
        lemma_skip_non_whitespace(s, from + 1);
    }
}

/// The first index at or after `from` that holds no white space.
pub fn skip_whitespace_exec(s: &Vec<char>, from: usize) -> (r: usize)
    requires
        from <= s.len(),
    ensures
        r == skip_whitespace(s@, from as int),
        from <= r <= s.len(),
{
    let mut i: usize = from;
    while i < s.len() && char_is_whitespace(s[i])
        invariant
            from <= i <= s.len(),
            skip_whitespace(s@, from as int) == skip_whitespace(s@, i as int),
        decreases s.len() - i,
    {
        i += 1;
    }
    i
}

/// The first index at or after `from` that holds white space.
pub fn skip_non_whitespace_exec(s: &Vec<char>, from: usize) -> (r: usize)
    requires
        from <= s.len(),
    ensures
        r == skip_non_whitespace(s@, from as int),
        from <= r <= s.len(),
{
    let mut i: usize = from;
    while i < s.len() && !char_is_whitespace(s[i])
        invariant
            from <= i <= s.len(),
            skip_non_whitespace(s@, from as int) == skip_non_whitespace(s@, i as int),
        decreases s.len() - i,
    {
        i += 1;
    }
    i
}

/// `s` without the white space at its two ends.
pub fn trim_chars(s: &Vec<char>) -> (r: Vec<char>)
    ensures
        r@ == trim(s@),
{
    let a = skip_whitespace_exec(s, 0);
    let mut b: usize = s.len();
    while b > 0 && char_is_whitespace(s[b - 1])
        invariant
            b <= s.len(),
            skip_whitespace_back(s@, s@.len() as int) == skip_whitespace_back(s@, b as int),
        decreases b,
    {
        b -= 1;
    }
    if a >= b {
        Vec::new()
    } else {
        slice(s, a, b)
    }
}

/// The first index at or after `from` that does not hold `c`, or `s.len()`.
pub open spec fn skip_char(s: Seq<char>, c: char, from: int) -> int
    decreases s.len() - from,
{
    if from >= s.len() {
        s.len() as int
    } else if s[from] == c {
        skip_char(s, c, from + 1)
    } else {
        from
    }
}

/// The least index `k` such that `s` holds only `c` from `k` up to `to`.
pub open spec fn skip_char_back(s: Seq<char>, c: char, to: int) -> int
    decreases to,
{
    if to <= 0 {
        0
    } else if s[to - 1] == c {
        skip_char_back(s, c, to - 1)
    } else {
        to
    }
}

/// `s` without the run of `c` at its start.
pub open spec fn trim_start_char(s: Seq<char>, c: char) -> Seq<char> {
    s.subrange(skip_char(s, c, 0), s.len() as int)
}

/// `s` without the run of `c` at its end.
pub open spec fn trim_end_char(s: Seq<char>, c: char) -> Seq<char> {
    s.subrange(0, skip_char_back(s, c, s.len() as int))
}

/// `s` without the runs of `c` at its two ends.
pub open spec fn trim_char(s: Seq<char>, c: char) -> Seq<char> {
    let a = skip_char(s, c, 0);
    let b = skip_char_back(s, c, s.len() as int);
    if a >= b {
        Seq::empty()
    } else {
        s.subrange(a, b)
    }
}

fn skip_char_exec(s: &Vec<char>, c: char, from: usize) -> (r: usize)
    requires
        from <= s.len(),
    ensures
        r == skip_char(s@, c, from as int),
        from <= r <= s.len(),
{
    let mut i: usize = from;
    while i < s.len() && s[i] == c
        invariant
            from <= i <= s.len(),
            skip_char(s@, c, from as int) == skip_char(s@, c, i as int),
        decreases s.len() - i,
    {
        i += 1;
    }
    i
}

fn skip_char_back_exec(s: &Vec<char>, c: char) -> (r: usize)
    ensures
        r == skip_char_back(s@, c, s@.len() as int),
        r <= s.len(),
{
    let mut b: usize = s.len();
    while b > 0 && s[b - 1] == c
        invariant
            b <= s.len(),
            skip_char_back(s@, c, s@.len() as int) == skip_char_back(s@, c, b as int),
        decreases b,
    {
        b -= 1;
    }
    b
}

/// `s` without the run of `c` at its start.
pub fn trim_start_char_exec(s: &Vec<char>, c: char) -> (r: Vec<char>)
    ensures
        r@ == trim_start_char(s@, c),
{
    let a = skip_char_exec(s, c, 0);
    slice(s, a, s.len())
}

/// `s` without the run of `c` at its end.
pub fn trim_end_char_exec(s: &Vec<char>, c: char) -> (r: Vec<char>)
    ensures
        r@ == trim_end_char(s@, c),
{
    let b = skip_char_back_exec(s, c);
    slice(s, 0, b)
}

/// `s` without the runs of `c` at its two ends.
pub fn trim_char_exec(s: &Vec<char>, c: char) -> (r: Vec<char>)
    ensures
        r@ == trim_char(s@, c),
{
    let a = skip_char_exec(s, c, 0);
    let b = skip_char_back_exec(s, c);
    if a >= b {
        Vec::new()
    } else {
        slice(s, a, b)
    }
}

/// The pieces of `s` from index `from` on, cut at each occurrence of `c`.
pub open spec fn split_char_from(s: Seq<char>, c: char, from: int) -> Seq<Seq<char>>
    decreases s.len() - from,
{
    let i = index_of_from(s, c, from);
    if from > s.len() || i >= s.len() || i < from {
        seq![s.subrange(from, s.len() as int)]
    } else {
        seq![s.subrange(from, i)] + split_char_from(s, c, i + 1)
    }
}

/// The pieces of `s`, cut at each occurrence of `c`: one more piece than
/// there are occurrences.
pub open spec fn split_char(s: Seq<char>, c: char) -> Seq<Seq<char>> {
    split_char_from(s, c, 0)
}

/// The pieces of `s`, cut at each occurrence of `c`.
pub fn split_char_exec(s: &Vec<char>, c: char) -> (r: Vec<Vec<char>>)
    ensures
        seqs(r@) == split_char(s@, c),
{
    let mut out: Vec<Vec<char>> = Vec::new();
    let mut start: usize = 0;
    loop
        invariant_except_break
            start <= s.len(),
            split_char(s@, c) == seqs(out@) + split_char_from(s@, c, start as int),
        ensures
            seqs(out@) == split_char(s@, c),
        decreases s.len() - start,
    {
        let i = find_char_from(s, c, start);
        let ghost before = seqs(out@);
        if i >= s.len() {
            let piece = slice(s, start, s.len());
            out.push(piece);
            assert(seqs(out@) =~= before + seq![s@.subrange(start as int, s@.len() as int)]);
            break ;
        }
        let piece = slice(s, start, i);
        out.push(piece);
        assert(seqs(out@) =~= before + seq![s@.subrange(start as int, i as int)]);
        start = i + 1;
    }
    out
}

/// `line` without a carriage return at its end.
pub open spec fn strip_cr(line: Seq<char>) -> Seq<char> {
    if line.len() > 0 && line.last() == '\r' {
        line.drop_last()
    } else {
        line
    }
}

/// The lines of `s` from index `from` on.
pub open spec fn lines_from(s: Seq<char>, from: int) -> Seq<Seq<char>>
    decreases s.len() - from,
{
    if from >= s.len() {
        Seq::empty()
    } else {
        let i = index_of_from(s, '\n', from);
        if i >= s.len() || i < from {
            seq![s.subrange(from, s.len() as int)]
        } else {
            seq![strip_cr(s.subrange(from, i))] + lines_from(s, i + 1)
        }
    }
}

/// The lines of `s`: a line ends with a line feed, which is left out together
/// with a carriage return before it; what follows the last line feed is a
/// line if it is not empty.
pub open spec fn lines(s: Seq<char>) -> Seq<Seq<char>> {
    lines_from(s, 0)
}

/// The lines of `s`.
pub fn lines_exec(s: &Vec<char>) -> (r: Vec<Vec<char>>)
    ensures
        seqs(r@) == lines(s@),
{
    let mut out: Vec<Vec<char>> = Vec::new();
    let mut start: usize = 0;
    while start < s.len()
        invariant
            start <= s.len(),
            lines(s@) == seqs(out@) + lines_from(s@, start as int),
        decreases s.len() - start,
    {
        let i = find_char_from(s, '\n', start);
        let ghost before = seqs(out@);
        if i >= s.len() {
            let piece = slice(s, start, s.len());
            out.push(piece);
            assert(seqs(out@) =~= before + seq![s@.subrange(start as int, s@.len() as int)]);
            start = s.len();
        } else {
            let end: usize = if i > start && s[i - 1] == '\r' {
                i - 1
            } else {
                i
            };
            let piece = slice(s, start, end);
            assert(piece@ =~= strip_cr(s@.subrange(start as int, i as int)));
            out.push(piece);
            assert(seqs(out@) =~= before + seq![strip_cr(s@.subrange(start as int, i as int))]);
            start = i + 1;
        }
    }
    assert(seqs(out@) + Seq::<Seq<char>>::empty() =~= seqs(out@));
    out
}

/// The words of `s` from index `from` on.
pub open spec fn words_from(s: Seq<char>, from: int) -> Seq<Seq<char>>
    decreases s.len() - from,
{
    let a = skip_whitespace(s, from);
    if a >= s.len() || a < from {
        Seq::empty()
    } else {
        let b = skip_non_whitespace(s, a);
        if b <= a || b > s.len() {
            Seq::empty()
        } else {
            seq![s.subrange(a, b)] + words_from(s, b)
        }
    }
}

/// The words of `s`: its longest runs of characters that are not white space.
pub open spec fn words(s: Seq<char>) -> Seq<Seq<char>> {
    words_from(s, 0)
}

/// The words of `s`.
pub fn words_exec(s: &Vec<char>) -> (r: Vec<Vec<char>>)
    ensures
        seqs(r@) == words(s@),
{
    let mut out: Vec<Vec<char>> = Vec::new();
    let mut start: usize = 0;
    loop
        invariant_except_break
            start <= s.len(),
            words(s@) == seqs(out@) + words_from(s@, start as int),
        ensures
            seqs(out@) == words(s@),
        decreases s.len() - start,
    {
        let a = skip_whitespace_exec(s, start);
        if a >= s.len() {
            assert(seqs(out@) + Seq::<Seq<char>>::empty() =~= seqs(out@));
            break ;
        }
        let b = skip_non_whitespace_exec(s, a);
        proof {
            lemma_skip_whitespace(s@, start as int);
            assert(skip_non_whitespace(s@, a as int) == skip_non_whitespace(s@, a + 1));
            lemma_skip_non_whitespace(s@, a + 1);
        }
        let ghost before = seqs(out@);
        let piece = slice(s, a, b);
        out.push(piece);
        assert(seqs(out@) =~= before + seq![s@.subrange(a as int, b as int)]);
        start = b;
    }
    out
}

/// `s` with each occurrence of `c` replaced by `with`.
pub open spec fn replace_char(s: Seq<char>, c: char, with: Seq<char>) -> Seq<char>
    decreases s.len(),
{
    if s.len() == 0 {
        s
    } else {
        replace_char(s.drop_last(), c, with) + (if s.last() == c {
            with
        } else {
            seq![s.last()]
        })
    }
}

/// `s` with each occurrence of `c` replaced by `with`.
pub fn replace_char_exec(s: &Vec<char>, c: char, with: &Vec<char>) -> (r: Vec<char>)
    ensures
        r@ == replace_char(s@, c, with@),
{
    let mut out: Vec<char> = Vec::new();
    let mut i: usize = 0;
    while i < s.len()
        invariant
            i <= s.len(),
            out@ == replace_char(s@.take(i as int), c, with@),
        decreases s.len() - i,
    {
        assert(s@.take(i + 1).drop_last() =~= s@.take(i as int));
        if s[i] == c {
            out = append_chars(&out, with);
        } else {
            out.push(s[i]);
        }
        i += 1;
    }
    assert(s@.take(s.len() as int) == s@);
    out
}

} // verus!
