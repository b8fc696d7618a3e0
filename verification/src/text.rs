//! Character-sequence helpers shared by the scanner and the converter.
//!
//! Text is handled as `Vec<char>` whose view is the `Seq<char>` of a `&str`,
//! so every contract speaks of characters, not of UTF-8 bytes.
use vstd::prelude::*;

verus! {

/// `String::push` appends one character to the end of the string.
pub assume_specification[ String::push ](string: &mut String, ch: char)
    ensures
        final(string)@ == old(string)@.push(ch),
;

/// `char::is_whitespace` is true exactly for the characters with the Unicode
/// `White_Space` property.
pub assume_specification[ char::is_whitespace ](ch: char) -> (b: bool)
    ensures
        b == is_white_space(ch),
;

/// The Unicode `White_Space` property (PropList.txt).
pub open spec fn is_white_space(c: char) -> bool {
    ||| ('\u{9}' <= c && c <= '\u{d}')
    ||| c == ' '
    ||| c == '\u{85}'
    ||| c == '\u{a0}'
    ||| c == '\u{1680}'
    ||| ('\u{2000}' <= c && c <= '\u{200a}')
    ||| c == '\u{2028}'
    ||| c == '\u{2029}'
    ||| c == '\u{202f}'
    ||| c == '\u{205f}'
    ||| c == '\u{3000}'
}

/// `s` with its leading white space removed.
pub open spec fn trim_start(s: Seq<char>) -> Seq<char>
    decreases s.len(),
{
    if s.len() > 0 && is_white_space(s[0]) {
        trim_start(s.skip(1))
    } else {
        s
    }
}

/// `s` with its trailing white space removed.
pub open spec fn trim_end(s: Seq<char>) -> Seq<char>
    decreases s.len(),
{
    if s.len() > 0 && is_white_space(s.last()) {
        trim_end(s.drop_last())
    } else {
        s
    }
}

/// `s` with white space removed at both ends, as `str::trim` does.
pub open spec fn trim(s: Seq<char>) -> Seq<char> {
    trim_end(trim_start(s))
}

/// `n` backticks.
pub open spec fn backticks(n: nat) -> Seq<char> {
    Seq::new(n, |i: int| '`')
}

/// No character of `s` is `c`.
pub open spec fn lacks(s: Seq<char>, c: char) -> bool {
    forall|i: int| 0 <= i < s.len() ==> s[i] != c
}

/// `s` neither starts nor ends with white space.
pub open spec fn is_trimmed(s: Seq<char>) -> bool {
    s.len() > 0 ==> !is_white_space(s[0]) && !is_white_space(s.last())
}

/// The characters of an optional text.
pub open spec fn opt_chars(o: Option<&str>) -> Option<Seq<char>> {
    match o {
        Some(s) => Some(s@),
        None => None,
    }
}

/// `p` occurs in `s` starting at index `i`.
pub open spec fn occurs_at(s: Seq<char>, p: Seq<char>, i: int) -> bool {
    0 <= i && i + p.len() <= s.len() && s.subrange(i, i + p.len()) == p
}

/// `p` occurs somewhere in `s`.
pub open spec fn contains_seq(s: Seq<char>, p: Seq<char>) -> bool {
    exists|i: int| occurs_at(s, p, i)
}

/// `s` begins with `p`.
pub open spec fn starts_with(s: Seq<char>, p: Seq<char>) -> bool {
    occurs_at(s, p, 0)
}

/// What `starts_with` tells of the first characters of the text.
pub proof fn lemma_starts_with_chars(s: Seq<char>)
    ensures
        forall|p: Seq<char>| #[trigger] starts_with(s, p) ==> {
            &&& p.len() <= s.len()
        &&& (p.len() > 0 ==> p[0] == s[0])
        &&& (p.len() > 1 ==> p[1] == s[1])
        &&& (p.len() > 2 ==> p[2] == s[2])
        &&& (p.len() > 3 ==> p[3] == s[3])
        &&& (p.len() > 4 ==> p[4] == s[4])
        &&& (p.len() > 5 ==> p[5] == s[5])
        &&& (p.len() > 6 ==> p[6] == s[6])
        &&& (p.len() > 7 ==> p[7] == s[7])
        &&& (p.len() > 8 ==> p[8] == s[8])
        &&& (p.len() > 9 ==> p[9] == s[9])
        &&& (p.len() > 10 ==> p[10] == s[10])
        &&& (p.len() > 11 ==> p[11] == s[11])
        &&& (p.len() > 12 ==> p[12] == s[12])
        &&& (p.len() > 13 ==> p[13] == s[13])
        },
{
    assert forall|p: Seq<char>| #[trigger] starts_with(s, p) implies {
        &&& p.len() <= s.len()
        &&& (p.len() > 0 ==> p[0] == s[0])
        &&& (p.len() > 1 ==> p[1] == s[1])
        &&& (p.len() > 2 ==> p[2] == s[2])
        &&& (p.len() > 3 ==> p[3] == s[3])
        &&& (p.len() > 4 ==> p[4] == s[4])
        &&& (p.len() > 5 ==> p[5] == s[5])
        &&& (p.len() > 6 ==> p[6] == s[6])
        &&& (p.len() > 7 ==> p[7] == s[7])
        &&& (p.len() > 8 ==> p[8] == s[8])
        &&& (p.len() > 9 ==> p[9] == s[9])
        &&& (p.len() > 10 ==> p[10] == s[10])
        &&& (p.len() > 11 ==> p[11] == s[11])
        &&& (p.len() > 12 ==> p[12] == s[12])
        &&& (p.len() > 13 ==> p[13] == s[13])
    } by {
        assert forall|k: int| 0 <= k < p.len() implies p[k] == s[k] by {
            assert(s.subrange(0, p.len() as int)[k] == s[k]);
        }
    }
}

/// The first index at or after `i` where `p` occurs in `s`.
pub open spec fn find_from(s: Seq<char>, p: Seq<char>, i: int) -> Option<int>
    decreases s.len() + 1 - i,
{
    if i < 0 || i + p.len() > s.len() {
        None
    } else if occurs_at(s, p, i) {
        Some(i)
    } else {
        find_from(s, p, i + 1)
    }
}

/// The first index where `p` occurs in `s`, as `str::find` gives it.
pub open spec fn find_first(s: Seq<char>, p: Seq<char>) -> Option<int> {
    find_from(s, p, 0)
}

/// The decimal digit character for `d < 10`.
pub open spec fn decimal_digit(d: nat) -> char {
    (48 + d) as char
}

/// The lower-case hexadecimal digit character for `d < 16`.
pub open spec fn hex_digit(d: nat) -> char {
    if d < 10 {
        (48 + d) as char
    } else {
        (87 + d) as char
    }
}

/// The decimal representation of `n`, without leading zeros.
pub open spec fn decimal(n: nat) -> Seq<char>
    decreases n,
{
    if n < 10 {
        seq![decimal_digit(n)]
    } else {
        decimal(n / 10).push(decimal_digit(n % 10))
    }
}

/// The last `width` lower-case hexadecimal digits of `n`, zero padded.
pub open spec fn hex_fixed(n: nat, width: nat) -> Seq<char>
    decreases width,
{
    if width == 0 {
        seq![]
    } else {
        hex_fixed(n / 16, (width - 1) as nat).push(hex_digit(n % 16))
    }
}

/// The characters of `s`.
pub fn chars_of(s: &str) -> (v: Vec<char>)
    ensures
        v@ == s@,
{
    let mut v: Vec<char> = Vec::new();
    for ch in it: s.chars()
        invariant
            it.seq() == s@,
            v@ == it.seq().take(it.index() as int),
    {
        v.push(ch);
    }
    v
}

/// A `String` holding the characters of `v`.
pub fn string_of(v: &Vec<char>) -> (s: String)
    ensures
        s@ == v@,
{
    let mut s = String::new();
    let mut i: usize = 0;
    while i < v.len()
        invariant
            i <= v.len(),
            s@ == v@.take(i as int),
        decreases v.len() - i,
    {
        s.push(v[i]);
        i = i + 1;
        assert(s@ =~= v@.take(i as int));
    }
    assert(v@.take(i as int) =~= v@);
    s
}

/// Appends the characters of `src` to `dst`.
pub fn push_all(dst: &mut Vec<char>, src: &[char])
    ensures
        final(dst)@ == old(dst)@ + src@,
{
    let mut i: usize = 0;
    while i < src.len()
        invariant
            i <= src.len(),
            dst@ == old(dst)@ + src@.take(i as int),
        decreases src.len() - i,
    {
        dst.push(src[i]);
        i = i + 1;
        assert(dst@ =~= old(dst)@ + src@.take(i as int));
    }
    assert(src@.take(i as int) =~= src@);
}

/// The characters `v[from..to]`.
pub fn slice_chars(v: &Vec<char>, from: usize, to: usize) -> (r: Vec<char>)
    requires
        from <= to <= v.len(),
    ensures
        r@ == v@.subrange(from as int, to as int),
{
    let mut r: Vec<char> = Vec::new();
    let mut i: usize = from;
    while i < to
        invariant
            from <= i <= to <= v.len(),
            r@ == v@.subrange(from as int, i as int),
        decreases to - i,
    {
        r.push(v[i]);
        i = i + 1;
        assert(r@ =~= v@.subrange(from as int, i as int));
    }
    r
}

/// Whether `p` occurs in `s` at index `i`.
pub fn occurs_at_exec(s: &Vec<char>, p: &[char], i: usize) -> (b: bool)
    ensures
        b == occurs_at(s@, p@, i as int),
{
    if i > s.len() || p.len() > s.len() - i {
        return false;
    }
    let mut k: usize = 0;
    while k < p.len()
        invariant
            k <= p.len(),
            i + p.len() <= s.len(),
            forall|j: int| 0 <= j < k ==> s@[i + j] == p@[j],
        decreases p.len() - k,
    {
        if s[i + k] != p[k] {
            assert(s@.subrange(i as int, i + p.len())[k as int] != p@[k as int]);
            return false;
        }
        k = k + 1;
    }
    assert(s@.subrange(i as int, i + p.len()) =~= p@);
    true
}

/// The first index at or after `from` where `p` occurs in `s`.
pub fn find_from_exec(s: &Vec<char>, p: &[char], from: usize) -> (r: Option<usize>)
    ensures
        r matches Some(i) ==> find_from(s@, p@, from as int) == Some(i as int),
        r is None ==> find_from(s@, p@, from as int) is None,
{
    let mut i: usize = from;
    loop
        invariant
            from <= i,
            find_from(s@, p@, from as int) == find_from(s@, p@, i as int),
        decreases s.len() + 1 - i,
    {
        if i > s.len() || p.len() > s.len() - i {
            return None;
        }
        if occurs_at_exec(s, p, i) {
            return Some(i);
        }
        assert(p.len() > 0) by {
            if p.len() == 0 {
                assert(s@.subrange(i as int, i as int) =~= p@);
            }
        }
        i = i + 1;
    }
}

/// Whether `p` occurs anywhere in `s`.
pub fn contains_exec(s: &Vec<char>, p: &[char]) -> (b: bool)
    ensures
        b == contains_seq(s@, p@),
{
    let r = find_from_exec(s, p, 0);
    proof {
        lemma_find_from_contains(s@, p@, 0);
    }
    r.is_some()
}

/// `find_from(s, p, i)` finds an occurrence exactly when one exists at or after `i`.
pub proof fn lemma_find_from_contains(s: Seq<char>, p: Seq<char>, i: int)
    requires
        0 <= i,
    ensures
        find_from(s, p, i) matches Some(k) ==> i <= k && occurs_at(s, p, k)
            && forall|j: int| i <= j < k ==> !occurs_at(s, p, j),
        find_from(s, p, i) is None ==> forall|j: int| i <= j ==> !occurs_at(s, p, j),
        i == 0 ==> (find_from(s, p, i) is Some <==> contains_seq(s, p)),
    decreases s.len() + 1 - i,
{
    if i + p.len() > s.len() {
    } else if occurs_at(s, p, i) {
    } else {
        lemma_find_from_contains(s, p, i + 1);
    }
    if i == 0 {
        if contains_seq(s, p) {
            let k = choose|k: int| occurs_at(s, p, k);
            assert(0 <= k);
        }
    }
}

/// Whether `v` holds exactly the characters `w`.
pub fn equals_chars(v: &Vec<char>, w: &[char]) -> (b: bool)
    ensures
        b == (v@ == w@),
{
    if v.len() != w.len() {
        return false;
    }
    let b = occurs_at_exec(v, w, 0);
    if b {
        assert(v@ =~= v@.subrange(0, w@.len() as int));
    } else {
        assert(v@ != w@) by {
            if v@ == w@ {
                assert(v@.subrange(0, w@.len() as int) =~= w@);
            }
        }
    }
    b
}

/// The white-space trimmed copy of `v`.
pub fn trim_chars(v: &Vec<char>) -> (r: Vec<char>)
    ensures
        r@ == trim(v@),
{
    let mut start: usize = 0;
    assert(v@.skip(0) =~= v@);
    while start < v.len() && v[start].is_whitespace()
        invariant
            start <= v.len(),
            trim_start(v@) == trim_start(v@.skip(start as int)),
        decreases v.len() - start,
    {
        assert(v@.skip(start as int).skip(1) =~= v@.skip(start + 1));
        start = start + 1;
    }
    assert(trim_start(v@) == v@.subrange(start as int, v.len() as int)) by {
        assert(v@.skip(start as int) =~= v@.subrange(start as int, v.len() as int));
    }
    let mut end: usize = v.len();
    while end > start && v[end - 1].is_whitespace()
        invariant
            start <= end <= v.len(),
            trim(v@) == trim_end(v@.subrange(start as int, end as int)),
        decreases end,
    {
        assert(v@.subrange(start as int, end as int).drop_last() =~= v@.subrange(
            start as int,
            end - 1,
        ));
        end = end - 1;
    }
    slice_chars(v, start, end)
}

/// Removing characters at the ends keeps a character out.
pub proof fn lemma_trim_lacks(s: Seq<char>, c: char)
    requires
        lacks(s, c),
    ensures
        lacks(trim(s), c),
{
    lemma_trim_start_lacks(s, c);
    lemma_trim_end_lacks(trim_start(s), c);
}

proof fn lemma_trim_start_lacks(s: Seq<char>, c: char)
    requires
        lacks(s, c),
    ensures
        lacks(trim_start(s), c),
    decreases s.len(),
{
    if s.len() > 0 && is_white_space(s[0]) {
        assert(lacks(s.skip(1), c));
        lemma_trim_start_lacks(s.skip(1), c);
    }
}

proof fn lemma_trim_end_lacks(s: Seq<char>, c: char)
    requires
        lacks(s, c),
    ensures
        lacks(trim_end(s), c),
    decreases s.len(),
{
    if s.len() > 0 && is_white_space(s.last()) {
        assert(lacks(s.drop_last(), c));
        lemma_trim_end_lacks(s.drop_last(), c);
    }
}

/// The result of `trim` neither starts nor ends with white space.
pub proof fn lemma_trim_is_trimmed(s: Seq<char>)
    ensures
        is_trimmed(trim(s)),
{
    lemma_trim_start_first(s);
    lemma_trim_end_keeps_first(trim_start(s));
}

proof fn lemma_trim_start_first(s: Seq<char>)
    ensures
        trim_start(s).len() > 0 ==> !is_white_space(trim_start(s)[0]),
    decreases s.len(),
{
    if s.len() > 0 && is_white_space(s[0]) {
        lemma_trim_start_first(s.skip(1));
    }
}

proof fn lemma_trim_end_keeps_first(s: Seq<char>)
    requires
        s.len() > 0 ==> !is_white_space(s[0]),
    ensures
        is_trimmed(trim_end(s)),
        trim_end(s).len() <= s.len(),
        trim_end(s).len() > 0 ==> trim_end(s)[0] == s[0],
    decreases s.len(),
{
    if s.len() > 0 && is_white_space(s.last()) {
        lemma_trim_end_keeps_first(s.drop_last());
    }
}

/// The decimal digits of `n`.
pub fn decimal_chars(n: u64) -> (r: Vec<char>)
    ensures
        r@ == decimal(n as nat),
    decreases n,
{
    if n < 10 {
        let d = digit_char(n);
        let mut r: Vec<char> = Vec::new();
        r.push(d);
        assert(r@ =~= seq![decimal_digit(n as nat)]);
        r
    } else {
        let mut r = decimal_chars(n / 10);
        r.push(digit_char(n % 10));
        r
    }
}

fn digit_char(d: u64) -> (c: char)
    requires
        d < 10,
    ensures
        c == decimal_digit(d as nat),
{
    let table: [char; 10] = ['0', '1', '2', '3', '4', '5', '6', '7', '8', '9'];
    let c = table[d as usize];
    assert(table@ == seq!['0', '1', '2', '3', '4', '5', '6', '7', '8', '9']);
    c
}

fn hex_char(d: u64) -> (c: char)
    requires
        d < 16,
    ensures
        c == hex_digit(d as nat),
{
    let table: [char; 16] = [
        '0',
        '1',
        '2',
        '3',
        '4',
        '5',
        '6',
        '7',
        '8',
        '9',
        'a',
        'b',
        'c',
        'd',
        'e',
        'f',
    ];
    assert(table@ == seq![
        '0',
        '1',
        '2',
        '3',
        '4',
        '5',
        '6',
        '7',
        '8',
        '9',
        'a',
        'b',
        'c',
        'd',
        'e',
        'f',
    ]);
    table[d as usize]
}

/// The last `width` hexadecimal digits of `n`, zero padded.
pub fn hex_fixed_chars(n: u64, width: u64) -> (r: Vec<char>)
    ensures
        r@ == hex_fixed(n as nat, width as nat),
    decreases width,
{
    if width == 0 {
        let r: Vec<char> = Vec::new();
        assert(r@ =~= seq![]);
        r
    } else {
        let mut r = hex_fixed_chars(n / 16, width - 1);
        r.push(hex_char(n % 16));
        r
    }
}

} // verus!
