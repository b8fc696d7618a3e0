//! Conversion of LaTeX: inline Unicode by substitution, the typst document
//! for image rendering and its cache key, and the shaping of Unicode art.
use vstd::prelude::*;
use crate::scanner::{lemma_split_nonempty, split_on};
use crate::symbols;
use crate::symbols::{lemma_symbol_len, symbol_at, symbol_for_name};
use crate::text::{
    backticks,
    chars_of,
    hex_fixed,
    hex_fixed_chars,
    lacks,
    is_white_space,
    trim_end,
    contains_exec,
    contains_seq,
    find_first,
    find_from_exec,
    lemma_find_from_contains,
    occurs_at,
    push_all,
    slice_chars,
    string_of,
    trim,
    trim_chars,
};
use std::collections::hash_map::DefaultHasher;
use std::hash::Hasher;
use vstd::std_specs::hash::DefaultHasherAdditionalSpecFns;

verus! {

// ---------------------------------------------------------------------------
// Brace groups and fractions
// ---------------------------------------------------------------------------
/// The index of the `}` that closes the group(s) open at index `i`, where
/// `depth` groups are open; `None` if they never close.
pub open spec fn close_from(s: Seq<char>, i: int, depth: int) -> Option<int>
    decreases s.len() - i,
{
    if i < 0 || i >= s.len() {
        None
    } else if s[i] == '{' {
        close_from(s, i + 1, depth + 1)
    } else if s[i] == '}' {
        if depth - 1 == 0 {
            Some(i)
        } else {
            close_from(s, i + 1, depth - 1)
        }
    } else {
        close_from(s, i + 1, depth)
    }
}

pub proof fn lemma_close_from_range(s: Seq<char>, i: int, depth: int)
    ensures
        close_from(s, i, depth) matches Some(j) ==> 0 <= i <= j < s.len() && s[j] == '}',
    decreases s.len() - i,
{
    if i < 0 || i >= s.len() {
    } else if s[i] == '{' {
        lemma_close_from_range(s, i + 1, depth + 1);
    } else if s[i] == '}' {
        if depth - 1 != 0 {
            lemma_close_from_range(s, i + 1, depth - 1);
        }
    } else {
        lemma_close_from_range(s, i + 1, depth);
    }
}

/// The index of the `}` that closes a group whose body starts at `v[from]`.
fn close_from_exec(v: &Vec<char>, from: usize) -> (r: Option<usize>)
    requires
        from <= v.len(),
    ensures
        r matches Some(j) ==> close_from(v@, from as int, 1) == Some(j as int),
        r is None ==> close_from(v@, from as int, 1) is None,
{
    let mut depth: u128 = 1;
    let mut k: usize = from;
    while k < v.len()
        invariant
            from <= k <= v.len(),
            1 <= depth <= k - from + 1,
            close_from(v@, from as int, 1) == close_from(v@, k as int, depth as int),
        decreases v.len() - k,
    {
        if v[k] == '{' {
            depth = depth + 1;
        } else if v[k] == '}' {
            if depth == 1 {
                return Some(k);
            }
            depth = depth - 1;
        }
        k = k + 1;
    }
    None
}

/// `\frac{`
pub open spec fn frac_opener() -> Seq<char> {
    seq!['\\', 'f', 'r', 'a', 'c', '{']
}

/// For a `\frac{num}{den}` at index `p`: the indices of the `}` that close
/// `num` and `den`.
pub open spec fn frac_at(s: Seq<char>, p: int) -> Option<(int, int)> {
    if !occurs_at(s, frac_opener(), p) {
        None
    } else {
        match close_from(s, p + 6, 1) {
            None => None,
            Some(ne) => if ne + 1 < s.len() && s[ne + 1] == '{' {
                match close_from(s, ne + 2, 1) {
                    Some(de) => Some((ne, de)),
                    None => None,
                }
            } else {
                None
            },
        }
    }
}

pub proof fn lemma_frac_at_range(s: Seq<char>, p: int)
    ensures
        frac_at(s, p) matches Some((ne, de)) ==> 0 <= p && p + 6 <= ne && ne + 2 <= de < s.len(),
{
    if occurs_at(s, frac_opener(), p) {
        lemma_close_from_range(s, p + 6, 1);
        if let Some(ne) = close_from(s, p + 6, 1) {
            lemma_close_from_range(s, ne + 2, 1);
        }
    }
}

/// `s` with the `\frac{num}{den}` at `p` written `num/den`.
pub open spec fn frac_rendered(s: Seq<char>, p: int, ne: int, de: int) -> Seq<char> {
    s.take(p) + s.subrange(p + 6, ne) + seq!['/'] + s.subrange(ne + 2, de) + s.skip(de + 1)
}

/// Repeatedly rewrites the first `\frac{a}{b}` as `a/b`, until there is none
/// or the first one is not well formed.
pub open spec fn expand_fracs(s: Seq<char>) -> Seq<char>
    decreases s.len(),
{
    match find_first(s, frac_opener()) {
        None => s,
        Some(p) => match frac_at(s, p) {
            None => s,
            Some((ne, de)) => {
                proof {
                    lemma_find_from_contains(s, frac_opener(), 0);
                    lemma_frac_at_range(s, p);
                }
                expand_fracs(frac_rendered(s, p, ne, de))
            },
        },
    }
}

fn expand_fracs_exec(v: Vec<char>) -> (r: Vec<char>)
    ensures
        r@ == expand_fracs(v@),
{
    let opener: [char; 6] = ['\\', 'f', 'r', 'a', 'c', '{'];
    assert(opener@ == frac_opener());
    let mut s = v;
    loop
        invariant
            opener@ == frac_opener(),
            expand_fracs(s@) == expand_fracs(v@),
        decreases s.len(),
    {
        let found = find_from_exec(&s, &opener, 0);
        let p = match found {
            None => {
                return s;
            },
            Some(p) => p,
        };
        proof {
            lemma_find_from_contains(s@, frac_opener(), 0);
        }
        assert(occurs_at(s@, frac_opener(), p as int));
        let ne = match close_from_exec(&s, p + 6) {
            None => {
                return s;
            },
            Some(ne) => ne,
        };
        proof {
            lemma_close_from_range(s@, p + 6, 1);
        }
        if !(ne + 1 < s.len() && s[ne + 1] == '{') {
            return s;
        }
        let de = match close_from_exec(&s, ne + 2) {
            None => {
                return s;
            },
            Some(de) => de,
        };
        proof {
            lemma_close_from_range(s@, ne + 2, 1);
        }
        let mut next = slice_chars(&s, 0, p);
        let num = slice_chars(&s, p + 6, ne);
        push_all(&mut next, num.as_slice());
        next.push('/');
        let den = slice_chars(&s, ne + 2, de);
        push_all(&mut next, den.as_slice());
        let rest = slice_chars(&s, de + 1, s.len());
        push_all(&mut next, rest.as_slice());
        assert(next@ =~= frac_rendered(s@, p as int, ne as int, de as int));
        assert(s@.skip(de + 1) =~= s@.subrange(de + 1, s@.len() as int));
        s = next;
    }
}

// ---------------------------------------------------------------------------
// Symbols
// ---------------------------------------------------------------------------
/// Every `\name` of the symbol table replaced by its symbol, the longest name
/// that matches taking precedence.
pub open spec fn replace_symbols(s: Seq<char>) -> Seq<char>
    decreases s.len(),
{
    if s.len() == 0 {
        seq![]
    } else if s[0] == '\\' {
        match symbol_for_name(s.skip(1)) {
            Some((n, c)) => {
                proof {
                    lemma_symbol_len(s.skip(1));
                }
                seq![c] + replace_symbols(s.skip(1 + n as int))
            },
            None => seq![s[0]] + replace_symbols(s.skip(1)),
        }
    } else {
        seq![s[0]] + replace_symbols(s.skip(1))
    }
}

fn replace_symbols_exec(v: &Vec<char>) -> (r: Vec<char>)
    ensures
        r@ == replace_symbols(v@),
{
    let mut out: Vec<char> = Vec::new();
    let mut i: usize = 0;
    assert(v@.skip(0) =~= v@);
    while i < v.len()
        invariant
            i <= v.len(),
            out@ + replace_symbols(v@.skip(i as int)) == replace_symbols(v@),
        decreases v.len() - i,
    {
        let ghost rest = v@.skip(i as int);
        assert(rest[0] == v@[i as int]);
        assert(rest.skip(1) =~= v@.skip(i + 1));
        if v[i] == '\\' {
            match symbol_at(v, i + 1) {
                Some((n, c)) => {
                    proof {
                        lemma_symbol_len(rest.skip(1));
                    }
                    assert(rest.skip(1 + n as int) =~= v@.skip(i + 1 + n));
                    let ghost before = out@;
                    out.push(c);
                    assert(out@ =~= before + seq![c]);
                    i = i + 1 + n;
                },
                None => {
                    let ghost before = out@;
                    out.push(v[i]);
                    assert(out@ =~= before + seq![v@[i as int]]);
                    i = i + 1;
                },
            }
        } else {
            let ghost before = out@;
            out.push(v[i]);
            assert(out@ =~= before + seq![v@[i as int]]);
            i = i + 1;
        }
    }
    assert(v@.skip(i as int) =~= Seq::<char>::empty());
    assert(out@ + Seq::<char>::empty() =~= out@);
    out
}

// ---------------------------------------------------------------------------
// Superscripts and subscripts
// ---------------------------------------------------------------------------
/// The superscript form of `c`, where Unicode has one.
pub open spec fn superscript(c: char) -> Option<char> {
    match c {
        '0' => Some('⁰'),
        '1' => Some('¹'),
        '2' => Some('²'),
        '3' => Some('³'),
        '4' => Some('⁴'),
        '5' => Some('⁵'),
        '6' => Some('⁶'),
        '7' => Some('⁷'),
        '8' => Some('⁸'),
        '9' => Some('⁹'),
        '+' => Some('⁺'),
        '-' => Some('⁻'),
        '=' => Some('⁼'),
        '(' => Some('⁽'),
        ')' => Some('⁾'),
        'n' => Some('ⁿ'),
        'i' => Some('ⁱ'),
        'x' => Some('ˣ'),
        'y' => Some('ʸ'),
        _ => None,
    }
}

/// The subscript form of `c`, where Unicode has one.
pub open spec fn subscript(c: char) -> Option<char> {
    match c {
        '0' => Some('₀'),
        '1' => Some('₁'),
        '2' => Some('₂'),
        '3' => Some('₃'),
        '4' => Some('₄'),
        '5' => Some('₅'),
        '6' => Some('₆'),
        '7' => Some('₇'),
        '8' => Some('₈'),
        '9' => Some('₉'),
        '+' => Some('₊'),
        '-' => Some('₋'),
        '=' => Some('₌'),
        '(' => Some('₍'),
        ')' => Some('₎'),
        'a' => Some('ₐ'),
        'e' => Some('ₑ'),
        'i' => Some('ᵢ'),
        'j' => Some('ⱼ'),
        'k' => Some('ₖ'),
        'n' => Some('ₙ'),
        'o' => Some('ₒ'),
        'r' => Some('ᵣ'),
        'x' => Some('ₓ'),
        _ => None,
    }
}

/// The table for `marker`: superscripts for `^`, subscripts for `_`.
pub open spec fn script_char(marker: char, c: char) -> Option<char> {
    if marker == '^' {
        superscript(c)
    } else {
        subscript(c)
    }
}

fn superscript_exec(c: char) -> (r: Option<char>)
    ensures
        r == superscript(c),
{
    match c {
        '0' => Some('⁰'),
        '1' => Some('¹'),
        '2' => Some('²'),
        '3' => Some('³'),
        '4' => Some('⁴'),
        '5' => Some('⁵'),
        '6' => Some('⁶'),
        '7' => Some('⁷'),
        '8' => Some('⁸'),
        '9' => Some('⁹'),
        '+' => Some('⁺'),
        '-' => Some('⁻'),
        '=' => Some('⁼'),
        '(' => Some('⁽'),
        ')' => Some('⁾'),
        'n' => Some('ⁿ'),
        'i' => Some('ⁱ'),
        'x' => Some('ˣ'),
        'y' => Some('ʸ'),
        _ => None,
    }
}

fn subscript_exec(c: char) -> (r: Option<char>)
    ensures
        r == subscript(c),
{
    match c {
        '0' => Some('₀'),
        '1' => Some('₁'),
        '2' => Some('₂'),
        '3' => Some('₃'),
        '4' => Some('₄'),
        '5' => Some('₅'),
        '6' => Some('₆'),
        '7' => Some('₇'),
        '8' => Some('₈'),
        '9' => Some('₉'),
        '+' => Some('₊'),
        '-' => Some('₋'),
        '=' => Some('₌'),
        '(' => Some('₍'),
        ')' => Some('₎'),
        'a' => Some('ₐ'),
        'e' => Some('ₑ'),
        'i' => Some('ᵢ'),
        'j' => Some('ⱼ'),
        'k' => Some('ₖ'),
        'n' => Some('ₙ'),
        'o' => Some('ₒ'),
        'r' => Some('ᵣ'),
        'x' => Some('ₓ'),
        _ => None,
    }
}

fn script_char_exec(marker: char, c: char) -> (r: Option<char>)
    ensures
        r == script_char(marker, c),
{
    if marker == '^' {
        superscript_exec(c)
    } else {
        subscript_exec(c)
    }
}

/// Each character of `t` in its script form where there is one.
pub open spec fn map_script(marker: char, t: Seq<char>) -> Seq<char> {
    t.map_values(
        |c: char|
            match script_char(marker, c) {
                Some(x) => x,
                None => c,
            },
    )
}

/// Every `marker{...}` group rewritten in script form (the braces and the
/// marker dropped); a `marker{` that is never closed is kept as it is.
pub open spec fn apply_scripts(s: Seq<char>, marker: char) -> Seq<char>
    decreases s.len(),
{
    match find_first(s, seq![marker, '{']) {
        None => s,
        Some(p) => {
            proof {
                lemma_find_from_contains(s, seq![marker, '{'], 0);
            }
            let after = s.skip(p + 2);
            match find_first(after, seq!['}']) {
                Some(c) => {
                    proof {
                        lemma_find_from_contains(after, seq!['}'], 0);
                    }
                    s.take(p) + map_script(marker, after.take(c)) + apply_scripts(
                        after.skip(c + 1),
                        marker,
                    )
                },
                None => s.take(p + 2) + apply_scripts(after, marker),
            }
        },
    }
}

fn map_script_exec(marker: char, t: &Vec<char>) -> (r: Vec<char>)
    ensures
        r@ == map_script(marker, t@),
{
    let mut out: Vec<char> = Vec::new();
    let mut i: usize = 0;
    while i < t.len()
        invariant
            i <= t.len(),
            out@ == map_script(marker, t@.take(i as int)),
        decreases t.len() - i,
    {
        let c = t[i];
        match script_char_exec(marker, c) {
            Some(x) => out.push(x),
            None => out.push(c),
        }
        i = i + 1;
        assert(out@ =~= map_script(marker, t@.take(i as int)));
    }
    assert(t@.take(i as int) =~= t@);
    out
}

fn apply_scripts_exec(v: &Vec<char>, marker: char) -> (r: Vec<char>)
    ensures
        r@ == apply_scripts(v@, marker),
{
    let pattern: [char; 2] = [marker, '{'];
    let close: [char; 1] = ['}'];
    assert(pattern@ == seq![marker, '{']);
    assert(close@ == seq!['}']);
    let mut out: Vec<char> = Vec::new();
    let mut rest = slice_chars(v, 0, v.len());
    assert(rest@ =~= v@);
    loop
        invariant
            pattern@ == seq![marker, '{'],
            close@ == seq!['}'],
            out@ + apply_scripts(rest@, marker) == apply_scripts(v@, marker),
        decreases rest.len(),
    {
        let ghost s = rest@;
        match find_from_exec(&rest, &pattern, 0) {
            None => {
                push_all(&mut out, rest.as_slice());
                return out;
            },
            Some(p) => {
                proof {
                    lemma_find_from_contains(s, seq![marker, '{'], 0);
                }
                let before = slice_chars(&rest, 0, p);
                let after = slice_chars(&rest, p + 2, rest.len());
                assert(after@ =~= s.skip(p + 2));
                match find_from_exec(&after, &close, 0) {
                    Some(c) => {
                        proof {
                            lemma_find_from_contains(after@, seq!['}'], 0);
                        }
                        let content = slice_chars(&after, 0, c);
                        let mapped = map_script_exec(marker, &content);
                        let ghost o = out@;
                        push_all(&mut out, before.as_slice());
                        push_all(&mut out, mapped.as_slice());
                        let next = slice_chars(&after, c + 1, after.len());
                        assert(next@ =~= after@.skip(c + 1));
                        assert(content@ =~= after@.take(c as int));
                        assert(before@ =~= s.take(p as int));
                        assert(out@ + apply_scripts(next@, marker) =~= o + (s.take(p as int)
                            + map_script(marker, after@.take(c as int)) + apply_scripts(
                            after@.skip(c + 1),
                            marker,
                        )));
                        rest = next;
                    },
                    None => {
                        let head = slice_chars(&rest, 0, p + 2);
                        assert(head@ =~= s.take(p + 2));
                        let ghost o = out@;
                        push_all(&mut out, head.as_slice());
                        assert(out@ + apply_scripts(after@, marker) =~= o + (s.take(p + 2)
                            + apply_scripts(after@, marker)));
                        rest = after;
                    },
                }
            },
        }
    }
}

/// Every `marker` directly followed by a character that has a script form
/// (other than `{`) rewritten as that form.
pub open spec fn apply_single_scripts(s: Seq<char>, marker: char) -> Seq<char>
    decreases s.len(),
{
    if s.len() == 0 {
        seq![]
    } else if s[0] == marker && s.len() > 1 && s[1] != '{' && script_char(marker, s[1]) is Some {
        seq![script_char(marker, s[1])->0] + apply_single_scripts(s.skip(2), marker)
    } else {
        seq![s[0]] + apply_single_scripts(s.skip(1), marker)
    }
}

fn apply_single_scripts_exec(v: &Vec<char>, marker: char) -> (r: Vec<char>)
    ensures
        r@ == apply_single_scripts(v@, marker),
{
    let mut out: Vec<char> = Vec::new();
    let mut i: usize = 0;
    assert(v@.skip(0) =~= v@);
    while i < v.len()
        invariant
            i <= v.len(),
            out@ + apply_single_scripts(v@.skip(i as int), marker) == apply_single_scripts(
                v@,
                marker,
            ),
        decreases v.len() - i,
    {
        let ghost rest = v@.skip(i as int);
        let ghost before = out@;
        assert(rest[0] == v@[i as int]);
        let ch = v[i];
        let mut done = false;
        if ch == marker && i + 1 < v.len() && v[i + 1] != '{' {
            assert(rest[1] == v@[i + 1]);
            match script_char_exec(marker, v[i + 1]) {
                Some(x) => {
                    out.push(x);
                    assert(rest.skip(2) =~= v@.skip(i + 2));
                    assert(out@ =~= before + seq![x]);
                    i = i + 2;
                    done = true;
                },
                None => {},
            }
        }
        if !done {
            out.push(ch);
            assert(rest.skip(1) =~= v@.skip(i + 1));
            assert(out@ =~= before + seq![ch]);
            i = i + 1;
        }
    }
    assert(v@.skip(i as int) =~= Seq::<char>::empty());
    assert(out@ + Seq::<char>::empty() =~= out@);
    out
}

// ---------------------------------------------------------------------------
// Braces
// ---------------------------------------------------------------------------
/// Every closed `{...}` group replaced by its content (inner braces kept);
/// from an unclosed `{` on, the text is kept as it is.
pub open spec fn clean_braces(s: Seq<char>) -> Seq<char>
    decreases s.len(),
{
    if s.len() == 0 {
        seq![]
    } else if s[0] == '{' {
        match close_from(s, 1, 1) {
            Some(j) => {
                proof {
                    lemma_close_from_range(s, 1, 1);
                }
                s.subrange(1, j) + clean_braces(s.skip(j + 1))
            },
            None => s,
        }
    } else {
        seq![s[0]] + clean_braces(s.skip(1))
    }
}

fn clean_braces_exec(v: &Vec<char>) -> (r: Vec<char>)
    ensures
        r@ == clean_braces(v@),
{
    let mut out: Vec<char> = Vec::new();
    let mut rest = slice_chars(v, 0, v.len());
    assert(rest@ =~= v@);
    while rest.len() > 0
        invariant
            out@ + clean_braces(rest@) == clean_braces(v@),
        decreases rest.len(),
    {
        let ghost s = rest@;
        let ghost o = out@;
        if rest[0] == '{' {
            match close_from_exec(&rest, 1) {
                Some(j) => {
                    proof {
                        lemma_close_from_range(s, 1, 1);
                    }
                    let content = slice_chars(&rest, 1, j);
                    push_all(&mut out, content.as_slice());
                    let next = slice_chars(&rest, j + 1, rest.len());
                    assert(next@ =~= s.skip(j + 1));
                    assert(out@ + clean_braces(next@) =~= o + (s.subrange(1, j as int)
                        + clean_braces(s.skip(j + 1))));
                    rest = next;
                },
                None => {
                    push_all(&mut out, rest.as_slice());
                    return out;
                },
            }
        } else {
            out.push(rest[0]);
            let next = slice_chars(&rest, 1, rest.len());
            assert(next@ =~= s.skip(1));
            assert(out@ + clean_braces(next@) =~= o + (seq![s[0]] + clean_braces(s.skip(1))));
            rest = next;
        }
    }
    assert(out@ + Seq::<char>::empty() =~= out@);
    out
}

// ---------------------------------------------------------------------------
// Inline conversion
// ---------------------------------------------------------------------------
/// The inline Unicode form of `latex`: fractions first, then symbols, braced
/// and single scripts, leftover braces, and finally the surrounding white
/// space.
pub open spec fn inline_form(latex: Seq<char>) -> Seq<char> {
    let fracs = expand_fracs(latex);
    let symbols = replace_symbols(fracs);
    let sup = apply_scripts(symbols, '^');
    let sub = apply_scripts(sup, '_');
    let sup1 = apply_single_scripts(sub, '^');
    let sub1 = apply_single_scripts(sup1, '_');
    trim(clean_braces(sub1))
}

/// Converts LaTeX to inline Unicode by substituting common symbols.
/// No external tools needed. Handles Greek letters, operators,
/// sub/superscripts, and simple fractions.
pub fn convert_inline(latex: &str) -> (r: String)
    ensures
        r@ == inline_form(latex@),
{
    let chars = chars_of(latex);
    let fracs = expand_fracs_exec(chars);
    let symbols = replace_symbols_exec(&fracs);
    let sup = apply_scripts_exec(&symbols, '^');
    let sub = apply_scripts_exec(&sup, '_');
    let sup1 = apply_single_scripts_exec(&sub, '^');
    let sub1 = apply_single_scripts_exec(&sup1, '_');
    let cleaned = clean_braces_exec(&sub1);
    let trimmed = trim_chars(&cleaned);
    string_of(&trimmed)
}

// ---------------------------------------------------------------------------
// Raw delimiter for embedding LaTeX in typst
// ---------------------------------------------------------------------------
/// The least run length, from `n` on, of backticks that `content` does not
/// contain.
pub open spec fn least_absent_run(content: Seq<char>, n: nat) -> nat
    decreases content.len() + 1 - n,
{
    if n > content.len() || !contains_seq(content, backticks(n)) {
        n
    } else {
        least_absent_run(content, n + 1)
    }
}

/// The shortest run of backticks (at least one) that does not occur in
/// `content`, so that it can delimit `content` as raw text.
pub open spec fn raw_delimiter_for(content: Seq<char>) -> Seq<char> {
    backticks(least_absent_run(content, 1))
}

proof fn lemma_contains_fits(s: Seq<char>, p: Seq<char>)
    requires
        contains_seq(s, p),
    ensures
        p.len() <= s.len(),
{
    let i = choose|i: int| occurs_at(s, p, i);
}

/// The raw delimiter does not occur in the content, and every shorter run of
/// backticks does.
pub proof fn lemma_raw_delimiter(content: Seq<char>)
    ensures
        least_absent_run(content, 1) >= 1,
        !contains_seq(content, raw_delimiter_for(content)),
        forall|k: nat|
            1 <= k < least_absent_run(content, 1) ==> contains_seq(content, backticks(k)),
{
    lemma_least_absent_run(content, 1);
}

proof fn lemma_least_absent_run(content: Seq<char>, n: nat)
    requires
        n >= 1,
    ensures
        least_absent_run(content, n) >= n,
        !contains_seq(content, backticks(least_absent_run(content, n))),
        forall|k: nat|
            n <= k < least_absent_run(content, n) ==> contains_seq(content, backticks(k)),
    decreases content.len() + 1 - n,
{
    if n > content.len() {
        if contains_seq(content, backticks(n)) {
            lemma_contains_fits(content, backticks(n));
        }
    } else if contains_seq(content, backticks(n)) {
        lemma_least_absent_run(content, n + 1);
    }
}

/// The shortest run of backticks that does not occur in `content`.
pub fn raw_delimiter(content: &str) -> (r: String)
    ensures
        r@ == raw_delimiter_for(content@),
{
    let chars = chars_of(content);
    let mut delim: Vec<char> = Vec::new();
    delim.push('`');
    let mut n: u128 = 1;
    assert(delim@ =~= backticks(1));
    loop
        invariant
            chars@ == content@,
            1 <= n <= chars.len() + 1,
            delim@ == backticks(n as nat),
            least_absent_run(content@, 1) == least_absent_run(content@, n as nat),
        decreases chars.len() + 1 - n,
    {
        if !contains_exec(&chars, delim.as_slice()) {
            return string_of(&delim);
        }
        proof {
            lemma_contains_fits(chars@, delim@);
        }
        delim.push('`');
        n = n + 1;
        assert(delim@ =~= backticks(n as nat));
    }
}

// ---------------------------------------------------------------------------
// Image rendering: the typst document and the cache key
// ---------------------------------------------------------------------------
/// The typst document that renders `latex` with the mitex package, white on
/// a dark page or black on a white one.
pub open spec fn typst_document_text(latex: Seq<char>, dark_mode: bool) -> Seq<char> {
    let fg = if dark_mode {
        "white"@
    } else {
        "black"@
    };
    let bg = if dark_mode {
        "rgb(\"1e1e1e\")"@
    } else {
        "rgb(\"ffffff\")"@
    };
    let delim = raw_delimiter_for(latex);
    "#import \"@preview/mitex:0.2.5\": *\n\n#set page(width: auto, height: auto, margin: (x: 4pt, y: 4pt), fill: "@
        + bg + ")\n#set text(fill: "@ + fg + ", size: 14pt)\n\n#mitex("@ + delim + latex + delim
        + ")\n"@
}

/// The typst source for rendering `latex` as an image.
pub fn typst_document(latex: &str, dark_mode: bool) -> (doc: String)
    ensures
        doc@ == typst_document_text(latex@, dark_mode),
{
    let delim = raw_delimiter(latex);
    let mut doc = String::new();
    doc.append(
        "#import \"@preview/mitex:0.2.5\": *\n\n#set page(width: auto, height: auto, margin: (x: 4pt, y: 4pt), fill: ",
    );
    if dark_mode {
        doc.append("rgb(\"1e1e1e\")");
    } else {
        doc.append("rgb(\"ffffff\")");
    }
    doc.append(")\n#set text(fill: ");
    if dark_mode {
        doc.append("white");
    } else {
        doc.append("black");
    }
    doc.append(", size: 14pt)\n\n#mitex(");
    doc.append(delim.as_str());
    doc.append(latex);
    doc.append(delim.as_str());
    doc.append(")\n");
    assert(doc@ =~= typst_document_text(latex@, dark_mode));
    doc
}

/// The bytes that `latex.hash(h)` and `dark_mode.hash(h)` write into a
/// hasher: the UTF-8 of `latex` and a 0xFF terminator, then one byte for the
/// boolean.
pub open spec fn cache_key_writes(latex: Seq<char>, dark_mode: bool) -> Seq<Seq<u8>> {
    seq![
        vstd::utf8::encode_utf8(latex),
        seq![0xffu8],
        seq![
            if dark_mode {
                1u8
            } else {
                0u8
            },
        ],
    ]
}

/// The cache key: the `DefaultHasher` hash of `latex` and `dark_mode`, as
/// sixteen lower-case hexadecimal digits.
pub open spec fn cache_key_text(latex: Seq<char>, dark_mode: bool) -> Seq<char> {
    hex_fixed(DefaultHasher::spec_finish(cache_key_writes(latex, dark_mode)) as nat, 16)
}

/// The disk cache key for an image of `latex` on a dark or light page.
pub fn cache_key(latex: &str, dark_mode: bool) -> (key: String)
    ensures
        key@ == cache_key_text(latex@, dark_mode),
{
    let mut hasher = DefaultHasher::new();
    let bytes = latex.as_bytes();
    assert(bytes@ == vstd::utf8::encode_utf8(latex@));
    hasher.write(bytes);
    let terminator: [u8; 1] = [0xff];
    assert(terminator@ == seq![0xffu8]);
    hasher.write(terminator.as_slice());
    let flag: [u8; 1] = if dark_mode {
        [1]
    } else {
        [0]
    };
    assert(flag@ == seq![
        if dark_mode {
            1u8
        } else {
            0u8
        },
    ]);
    hasher.write(flag.as_slice());
    assert(hasher@ =~= cache_key_writes(latex@, dark_mode));
    let digest = hasher.finish();
    string_of(&hex_fixed_chars(digest, 16))
}

/// What image rendering needs done: read and write the disk cache under
/// `cache_key` (unless caching is off), and compile `document` with typst.
pub struct ImagePlan {
    pub cache_key: Option<String>,
    pub document: String,
}

/// Plans the conversion of `latex` to a PNG image: the typst document to
/// compile, and the cache key to look up first and store under afterwards,
/// or none when the cache is disabled.
pub fn convert_to_image(latex: &str, dark_mode: bool, no_cache: bool) -> (plan: ImagePlan)
    ensures
        plan.document@ == typst_document_text(latex@, dark_mode),
        no_cache ==> plan.cache_key is None,
        !no_cache ==> (plan.cache_key matches Some(k) && k@ == cache_key_text(latex@, dark_mode)),
{
    let key = cache_key(latex, dark_mode);
    let document = typst_document(latex, dark_mode);
    ImagePlan {
        cache_key: if no_cache {
            None
        } else {
            Some(key)
        },
        document,
    }
}

// ---------------------------------------------------------------------------
// Unicode art from utftex
// ---------------------------------------------------------------------------
/// `l` without a carriage return at its end.
pub open spec fn strip_cr(l: Seq<char>) -> Seq<char> {
    if l.len() > 0 && l.last() == '\r' {
        l.drop_last()
    } else {
        l
    }
}

/// The first `w` characters of `l`.
pub open spec fn truncate_chars(l: Seq<char>, w: nat) -> Seq<char> {
    if l.len() > w {
        l.take(w as int)
    } else {
        l
    }
}

/// `lines` joined with newlines.
pub open spec fn join_lines(lines: Seq<Seq<char>>) -> Seq<char>
    decreases lines.len(),
{
    if lines.len() == 0 {
        seq![]
    } else if lines.len() == 1 {
        lines[0]
    } else {
        join_lines(lines.drop_last()) + seq!['\n'] + lines.last()
    }
}

/// A line of the art as it is shown at most `w` columns wide.
pub open spec fn fit_line(l: Seq<char>, w: nat) -> Seq<char> {
    truncate_chars(strip_cr(l), w)
}

/// utftex's output with trailing white space removed and, given a width,
/// every line cut to that many characters.
pub open spec fn fitted_art(output: Seq<char>, max_width: Option<usize>) -> Seq<char> {
    let t = trim_end(output);
    match max_width {
        None => t,
        Some(w) => join_lines(split_on(t, '\n').map_values(|l: Seq<char>| fit_line(l, w as nat))),
    }
}

fn trim_end_chars(v: &Vec<char>) -> (r: Vec<char>)
    ensures
        r@ == trim_end(v@),
{
    let mut end: usize = v.len();
    assert(v@.subrange(0, end as int) =~= v@);
    while end > 0 && v[end - 1].is_whitespace()
        invariant
            end <= v.len(),
            trim_end(v@) == trim_end(v@.subrange(0, end as int)),
        decreases end,
    {
        assert(v@.subrange(0, end as int).drop_last() =~= v@.subrange(0, end - 1));
        end = end - 1;
    }
    slice_chars(v, 0, end)
}

fn fit_line_exec(l: &Vec<char>, w: usize) -> (r: Vec<char>)
    ensures
        r@ == fit_line(l@, w as nat),
{
    let mut n = l.len();
    if n > 0 && l[n - 1] == '\r' {
        n = n - 1;
    }
    let stripped = slice_chars(l, 0, n);
    assert(stripped@ =~= strip_cr(l@));
    if stripped.len() > w {
        slice_chars(&stripped, 0, w)
    } else {
        stripped
    }
}

/// Shapes utftex's output: trailing white space removed and, if `max_width`
/// is given, every line cut to at most that many characters.
pub fn fit_unicode_art(output: &str, max_width: Option<usize>) -> (r: String)
    ensures
        r@ == fitted_art(output@, max_width),
{
    let chars = chars_of(output);
    let t = trim_end_chars(&chars);
    let w = match max_width {
        None => {
            return string_of(&t);
        },
        Some(w) => w,
    };
    let ghost fit = |l: Seq<char>| fit_line(l, w as nat);
    let mut out: Vec<char> = Vec::new();
    let mut line: Vec<char> = Vec::new();
    let mut first = true;
    let mut i: usize = 0;
    assert(t@.take(0) =~= Seq::<char>::empty());
    assert(out@ =~= join_lines(Seq::<Seq<char>>::empty()));
    while i < t.len()
        invariant
            i <= t.len(),
            fit == (|l: Seq<char>| fit_line(l, w as nat)),
            split_on(t@.take(i as int), '\n').len() >= 1,
            line@ == split_on(t@.take(i as int), '\n').last(),
            first == (split_on(t@.take(i as int), '\n').len() == 1),
            out@ == join_lines(split_on(t@.take(i as int), '\n').drop_last().map_values(fit)),
        decreases t.len() - i,
    {
        let ghost before = t@.take(i as int);
        let ghost after = t@.take(i + 1);
        assert(after.drop_last() =~= before);
        assert(after.last() == t@[i as int]);
        proof {
            lemma_split_nonempty(before, '\n');
        }
        let ch = t[i];
        if ch == '\n' {
            let ghost pieces = split_on(before, '\n');
            let ghost done = pieces.drop_last().map_values(fit);
            let fitted = fit_line_exec(&line, w);
            if !first {
                out.push('\n');
            }
            push_all(&mut out, fitted.as_slice());
            let ghost new_done = split_on(after, '\n').drop_last().map_values(fit);
            assert(split_on(after, '\n').drop_last() =~= pieces);
            assert(pieces =~= pieces.drop_last().push(pieces.last()));
            assert(new_done =~= done.push(fitted@));
            assert(new_done.drop_last() =~= done);
            if first {
                assert(done =~= Seq::<Seq<char>>::empty());
                assert(out@ =~= join_lines(new_done));
            } else {
                assert(out@ =~= join_lines(new_done));
            }
            line = Vec::new();
            first = false;
            assert(line@ =~= split_on(after, '\n').last());
        } else {
            assert(split_on(after, '\n').drop_last() =~= split_on(before, '\n').drop_last());
            line.push(ch);
        }
        i = i + 1;
    }
    assert(t@.take(i as int) =~= t@);
    let ghost pieces = split_on(t@, '\n');
    proof {
        lemma_split_nonempty(t@, '\n');
    }
    let ghost done = pieces.drop_last().map_values(fit);
    let fitted = fit_line_exec(&line, w);
    if !first {
        out.push('\n');
    }
    push_all(&mut out, fitted.as_slice());
    assert(pieces =~= pieces.drop_last().push(pieces.last()));
    assert(pieces.map_values(fit) =~= done.push(fitted@));
    assert(pieces.map_values(fit).drop_last() =~= done);
    if first {
        assert(done =~= Seq::<Seq<char>>::empty());
    }
    assert(out@ =~= join_lines(pieces.map_values(fit)));
    string_of(&out)
}

// ---------------------------------------------------------------------------
// Plain text
// ---------------------------------------------------------------------------
proof fn lemma_find_absent(s: Seq<char>, p: Seq<char>)
    requires
        p.len() > 0,
        lacks(s, p[0]),
    ensures
        find_first(s, p) is None,
{
    lemma_find_from_contains(s, p, 0);
    if let Some(k) = find_first(s, p) {
        assert(s.subrange(k, k + p.len())[0] == p[0]);
    }
}

proof fn lemma_replace_symbols_plain(s: Seq<char>)
    requires
        lacks(s, '\\'),
    ensures
        replace_symbols(s) == s,
    decreases s.len(),
{
    if s.len() > 0 {
        assert(lacks(s.skip(1), '\\'));
        lemma_replace_symbols_plain(s.skip(1));
        assert(seq![s[0]] + s.skip(1) =~= s);
    }
}

proof fn lemma_single_scripts_plain(s: Seq<char>, marker: char)
    requires
        lacks(s, marker),
    ensures
        apply_single_scripts(s, marker) == s,
    decreases s.len(),
{
    if s.len() > 0 {
        assert(lacks(s.skip(1), marker));
        lemma_single_scripts_plain(s.skip(1), marker);
        assert(seq![s[0]] + s.skip(1) =~= s);
    }
}

proof fn lemma_clean_braces_plain(s: Seq<char>)
    requires
        lacks(s, '{'),
    ensures
        clean_braces(s) == s,
    decreases s.len(),
{
    if s.len() > 0 {
        assert(lacks(s.skip(1), '{'));
        lemma_clean_braces_plain(s.skip(1));
        assert(seq![s[0]] + s.skip(1) =~= s);
    }
}

/// Text without commands, scripts or braces (no `\`, `^`, `_`, `{`) comes out
/// of inline conversion as it went in, only trimmed.
pub proof fn lemma_inline_plain_text(s: Seq<char>)
    requires
        lacks(s, '\\'),
        lacks(s, '^'),
        lacks(s, '_'),
        lacks(s, '{'),
    ensures
        inline_form(s) == trim(s),
{
    lemma_find_absent(s, frac_opener());
    lemma_replace_symbols_plain(s);
    lemma_find_absent(s, seq!['^', '{']);
    lemma_find_absent(s, seq!['_', '{']);
    lemma_single_scripts_plain(s, '^');
    lemma_single_scripts_plain(s, '_');
    lemma_clean_braces_plain(s);
}

// ---------------------------------------------------------------------------
// Width of the fitted art
// ---------------------------------------------------------------------------
proof fn lemma_split_pieces_lack_sep(s: Seq<char>, sep: char)
    ensures
        forall|k: int| 0 <= k < split_on(s, sep).len() ==> lacks(#[trigger] split_on(s, sep)[k], sep),
    decreases s.len(),
{
    if s.len() > 0 {
        lemma_split_pieces_lack_sep(s.drop_last(), sep);
        lemma_split_nonempty(s.drop_last(), sep);
        let r = split_on(s.drop_last(), sep);
        if s.last() != sep {
            let last = r.last().push(s.last());
            assert(lacks(r[r.len() - 1], sep));
            assert(lacks(last, sep));
            assert forall|k: int| 0 <= k < split_on(s, sep).len() implies lacks(
                #[trigger] split_on(s, sep)[k],
                sep,
            ) by {
                if k < r.len() - 1 {
                    assert(split_on(s, sep)[k] == r[k]);
                }
            }
        } else {
            assert forall|k: int| 0 <= k < split_on(s, sep).len() implies lacks(
                #[trigger] split_on(s, sep)[k],
                sep,
            ) by {
                if k < r.len() {
                    assert(split_on(s, sep)[k] == r[k]);
                } else {
                    assert(split_on(s, sep)[k] =~= Seq::<char>::empty());
                }
            }
        }
    }
}

proof fn lemma_split_after_sep(x: Seq<char>, y: Seq<char>, sep: char)
    requires
        lacks(y, sep),
    ensures
        split_on(x + seq![sep] + y, sep) == split_on(x, sep).push(y),
    decreases y.len(),
{
    let s = x + seq![sep] + y;
    if y.len() == 0 {
        assert(s.drop_last() =~= x);
        assert(y =~= Seq::<char>::empty());
    } else {
        assert(lacks(y.drop_last(), sep));
        lemma_split_after_sep(x, y.drop_last(), sep);
        assert(s.drop_last() =~= x + seq![sep] + y.drop_last());
        assert(s.last() == y.last());
        let r = split_on(x, sep).push(y.drop_last());
        assert(r.update(r.len() - 1, r.last().push(y.last())) =~= split_on(x, sep).push(y)) by {
            assert(y.drop_last().push(y.last()) =~= y);
        }
    }
}

proof fn lemma_split_single(y: Seq<char>, sep: char)
    requires
        lacks(y, sep),
    ensures
        split_on(y, sep) == seq![y],
    decreases y.len(),
{
    if y.len() == 0 {
        assert(y =~= Seq::<char>::empty());
    } else {
        assert(lacks(y.drop_last(), sep));
        lemma_split_single(y.drop_last(), sep);
        assert(y.drop_last().push(y.last()) =~= y);
        assert(seq![y.drop_last()].update(0, y.drop_last().push(y.last())) =~= seq![y]);
    }
}

proof fn lemma_split_join(lines: Seq<Seq<char>>)
    requires
        lines.len() >= 1,
        forall|k: int| 0 <= k < lines.len() ==> lacks(#[trigger] lines[k], '\n'),
    ensures
        split_on(join_lines(lines), '\n') == lines,
    decreases lines.len(),
{
    if lines.len() == 1 {
        lemma_split_single(lines[0], '\n');
        assert(seq![lines[0]] =~= lines);
    } else {
        let front = lines.drop_last();
        assert forall|k: int| 0 <= k < front.len() implies lacks(#[trigger] front[k], '\n') by {
            assert(front[k] == lines[k]);
        }
        lemma_split_join(front);
        assert(lacks(lines[lines.len() - 1], '\n'));
        lemma_split_after_sep(join_lines(front), lines.last(), '\n');
        assert(front.push(lines.last()) =~= lines);
    }
}

/// Given a width, every line of the fitted art is at most that wide: the
/// lines of the result are the fitted lines of utftex's output, none longer
/// than `w` characters.
pub proof fn lemma_fitted_art_width(output: Seq<char>, w: usize)
    ensures
        forall|k: int|
            0 <= k < split_on(fitted_art(output, Some(w)), '\n').len() ==> (#[trigger] split_on(
                fitted_art(output, Some(w)),
                '\n',
            )[k]).len() <= w,
{
    let t = trim_end(output);
    let pieces = split_on(t, '\n');
    let lines = pieces.map_values(|l: Seq<char>| fit_line(l, w as nat));
    lemma_split_nonempty(t, '\n');
    lemma_split_pieces_lack_sep(t, '\n');
    assert forall|k: int| 0 <= k < lines.len() implies lacks(#[trigger] lines[k], '\n') && lines[k].len()
        <= w by {
        let p = pieces[k];
        assert(lacks(p, '\n'));
        let c = strip_cr(p);
        assert(lacks(c, '\n'));
        assert(lines[k] == truncate_chars(c, w as nat));
    }
    lemma_split_join(lines);
}

/// Removing trailing white space keeps a prefix, drops only white space, and
/// leaves no white space at the end.
proof fn lemma_trim_end_prefix(s: Seq<char>)
    ensures
        trim_end(s).is_prefix_of(s),
        forall|i: int| trim_end(s).len() <= i < s.len() ==> is_white_space(#[trigger] s[i]),
        trim_end(s).len() == 0 || !is_white_space(trim_end(s).last()),
    decreases s.len(),
{
    if s.len() > 0 && is_white_space(s.last()) {
        lemma_trim_end_prefix(s.drop_last());
        let t = trim_end(s.drop_last());
        assert(s.drop_last().subrange(0, t.len() as int) =~= s.subrange(0, t.len() as int));
        assert forall|i: int| t.len() <= i < s.len() implies is_white_space(#[trigger] s[i]) by {
            if i < s.len() - 1 {
                assert(s.drop_last()[i] == s[i]);
            }
        }
    } else {
        assert(s.subrange(0, s.len() as int) =~= s);
    }
}

/// The lines of a prefix of `s` are prefixes of the lines of `s`, and no more
/// of them.
proof fn lemma_split_of_prefix(s: Seq<char>, m: int)
    requires
        0 <= m <= s.len(),
    ensures
        split_on(s.take(m), '\n').len() <= split_on(s, '\n').len(),
        forall|k: int|
            0 <= k < split_on(s.take(m), '\n').len() ==> (#[trigger] split_on(s.take(m), '\n')[k]).is_prefix_of(
                split_on(s, '\n')[k],
            ),
    decreases s.len(),
{
    if m == s.len() {
        assert(s.take(m) =~= s);
        assert forall|k: int| 0 <= k < split_on(s, '\n').len() implies (#[trigger] split_on(s, '\n')[k]).is_prefix_of(
            split_on(s, '\n')[k],
        ) by {
            let l = split_on(s, '\n')[k];
            assert(l.subrange(0, l.len() as int) =~= l);
        }
    } else {
        let front = s.drop_last();
        assert(s.take(m) =~= front.take(m));
        lemma_split_of_prefix(front, m);
        lemma_split_nonempty(front, '\n');
        let a = split_on(s.take(m), '\n');
        let b = split_on(front, '\n');
        let c = split_on(s, '\n');
        assert forall|k: int| 0 <= k < a.len() implies (#[trigger] a[k]).is_prefix_of(c[k]) by {
            assert(a[k].is_prefix_of(b[k]));
            if s.last() == '\n' {
                assert(c[k] == b[k]);
            } else if k == b.len() - 1 {
                assert(c[k] == b[k].push(s.last()));
                assert(b[k].push(s.last()).subrange(0, a[k].len() as int) =~= b[k].subrange(
                    0,
                    a[k].len() as int,
                ));
            } else {
                assert(c[k] == b[k]);
            }
        }
    }
}

/// Without a width, the art is utftex's output with its trailing white space
/// removed and nothing else changed: a prefix of the output, followed in the
/// output only by white space, and not itself ending in white space.
pub proof fn lemma_fitted_art_unlimited(output: Seq<char>)
    ensures
        fitted_art(output, None).is_prefix_of(output),
        forall|i: int|
            fitted_art(output, None).len() <= i < output.len() ==> is_white_space(
                #[trigger] output[i],
            ),
        fitted_art(output, None).len() == 0 || !is_white_space(fitted_art(output, None).last()),
{
    lemma_trim_end_prefix(output);
}

/// Shaping the art never moves a character sideways: with or without a width,
/// each line of the result is the start of the same line of utftex's output,
/// and there are no more lines than in the output.
pub proof fn lemma_fitted_art_lines(output: Seq<char>, max_width: Option<usize>)
    ensures
        split_on(fitted_art(output, max_width), '\n').len() <= split_on(output, '\n').len(),
        forall|k: int|
            0 <= k < split_on(fitted_art(output, max_width), '\n').len() ==> (#[trigger] split_on(
                fitted_art(output, max_width),
                '\n',
            )[k]).is_prefix_of(split_on(output, '\n')[k]),
{
    let t = trim_end(output);
    lemma_trim_end_prefix(output);
    assert(t =~= output.take(t.len() as int));
    lemma_split_of_prefix(output, t.len() as int);
    if let Some(w) = max_width {
        let pieces = split_on(t, '\n');
        let lines = pieces.map_values(|l: Seq<char>| fit_line(l, w as nat));
        lemma_split_nonempty(t, '\n');
        lemma_split_pieces_lack_sep(t, '\n');
        assert forall|k: int| 0 <= k < lines.len() implies lacks(#[trigger] lines[k], '\n')
            && lines[k].is_prefix_of(pieces[k]) by {
            let p = pieces[k];
            assert(lacks(p, '\n'));
            let c = strip_cr(p);
            assert(lacks(c, '\n'));
            assert(c.is_prefix_of(p)) by {
                assert(p.drop_last() =~= p.subrange(0, p.len() - 1));
                assert(p.subrange(0, p.len() as int) =~= p);
            }
            assert(lines[k] == truncate_chars(c, w as nat));
            assert(lines[k].is_prefix_of(c)) by {
                assert(c.subrange(0, c.len() as int) =~= c);
            }
            assert(lines[k].is_prefix_of(p)) by {
                assert(p.subrange(0, lines[k].len() as int) =~= c.subrange(0, lines[k].len() as int));
            }
        }
        lemma_split_join(lines);
        let o = split_on(output, '\n');
        assert forall|k: int| 0 <= k < lines.len() implies (#[trigger] lines[k]).is_prefix_of(o[k]) by {
            assert(lines[k].is_prefix_of(pieces[k]));
            assert(pieces[k].is_prefix_of(o[k]));
            assert(o[k].subrange(0, lines[k].len() as int) =~= pieces[k].subrange(
                0,
                lines[k].len() as int,
            ));
        }
    }
}

// ---------------------------------------------------------------------------
// The symbol table, entry by entry
// ---------------------------------------------------------------------------
/// A command that the table maps to `c` is replaced by `c`, alone and before
/// a space.
proof fn lemma_command_replaced(name: Seq<char>, c: char)
    requires
        symbol_for_name(name) == Some((name.len(), c)),
        symbol_for_name(name + seq![' ']) == Some((name.len(), c)),
    ensures
        replace_symbols(seq!['\\'] + name) == seq![c],
        replace_symbols(seq!['\\'] + name + seq![' ']) == seq![c, ' '],
{
    let s = seq!['\\'] + name;
    let s2 = seq!['\\'] + name + seq![' '];
    assert(s.skip(1) =~= name);
    assert(s.skip(1 + name.len() as int) =~= Seq::<char>::empty());
    assert(s2.skip(1) =~= name + seq![' ']);
    assert(s2.skip(1 + name.len() as int) =~= seq![' ']);
    assert(seq![' '].skip(1) =~= Seq::<char>::empty());
    assert(replace_symbols(seq![' ']) == seq![' '] + replace_symbols(Seq::<char>::empty()));
    assert(seq![c] + seq![' '] =~= seq![c, ' ']);
    assert(seq![c] + Seq::<char>::empty() =~= seq![c]);
}

/// Each of the commands `\alpha` to `\vartheta` of the table becomes its symbol,
/// alone and before a space.
pub proof fn lemma_symbols_1()
    ensures
        replace_symbols(seq!['\\', 'a', 'l', 'p', 'h', 'a']) == seq!['α'],
        replace_symbols(seq!['\\', 'a', 'l', 'p', 'h', 'a', ' ']) == seq!['α', ' '],
        replace_symbols(seq!['\\', 'b', 'e', 't', 'a']) == seq!['β'],
        replace_symbols(seq!['\\', 'b', 'e', 't', 'a', ' ']) == seq!['β', ' '],
        replace_symbols(seq!['\\', 'g', 'a', 'm', 'm', 'a']) == seq!['γ'],
        replace_symbols(seq!['\\', 'g', 'a', 'm', 'm', 'a', ' ']) == seq!['γ', ' '],
        replace_symbols(seq!['\\', 'd', 'e', 'l', 't', 'a']) == seq!['δ'],
        replace_symbols(seq!['\\', 'd', 'e', 'l', 't', 'a', ' ']) == seq!['δ', ' '],
        replace_symbols(seq!['\\', 'e', 'p', 's', 'i', 'l', 'o', 'n']) == seq!['ε'],
        replace_symbols(seq!['\\', 'e', 'p', 's', 'i', 'l', 'o', 'n', ' ']) == seq!['ε', ' '],
        replace_symbols(seq!['\\', 'v', 'a', 'r', 'e', 'p', 's', 'i', 'l', 'o', 'n']) == seq!['ε'],
        replace_symbols(seq!['\\', 'v', 'a', 'r', 'e', 'p', 's', 'i', 'l', 'o', 'n', ' ']) == seq!['ε', ' '],
        replace_symbols(seq!['\\', 'z', 'e', 't', 'a']) == seq!['ζ'],
        replace_symbols(seq!['\\', 'z', 'e', 't', 'a', ' ']) == seq!['ζ', ' '],
        replace_symbols(seq!['\\', 'e', 't', 'a']) == seq!['η'],
        replace_symbols(seq!['\\', 'e', 't', 'a', ' ']) == seq!['η', ' '],
        replace_symbols(seq!['\\', 't', 'h', 'e', 't', 'a']) == seq!['θ'],
        replace_symbols(seq!['\\', 't', 'h', 'e', 't', 'a', ' ']) == seq!['θ', ' '],
        replace_symbols(seq!['\\', 'v', 'a', 'r', 't', 'h', 'e', 't', 'a']) == seq!['ϑ'],
        replace_symbols(seq!['\\', 'v', 'a', 'r', 't', 'h', 'e', 't', 'a', ' ']) == seq!['ϑ', ' '],
{
    symbols::lemma_name_alpha();
    lemma_command_replaced(seq!['a', 'l', 'p', 'h', 'a'], 'α');
    assert(seq!['\\', 'a', 'l', 'p', 'h', 'a'] =~= seq!['\\'] + seq!['a', 'l', 'p', 'h', 'a']);
    assert(seq!['\\', 'a', 'l', 'p', 'h', 'a', ' '] =~= seq!['\\'] + seq!['a', 'l', 'p', 'h', 'a'] + seq![' ']);
    symbols::lemma_name_beta();
    lemma_command_replaced(seq!['b', 'e', 't', 'a'], 'β');
    assert(seq!['\\', 'b', 'e', 't', 'a'] =~= seq!['\\'] + seq!['b', 'e', 't', 'a']);
    assert(seq!['\\', 'b', 'e', 't', 'a', ' '] =~= seq!['\\'] + seq!['b', 'e', 't', 'a'] + seq![' ']);
    symbols::lemma_name_gamma();
    lemma_command_replaced(seq!['g', 'a', 'm', 'm', 'a'], 'γ');
    assert(seq!['\\', 'g', 'a', 'm', 'm', 'a'] =~= seq!['\\'] + seq!['g', 'a', 'm', 'm', 'a']);
    assert(seq!['\\', 'g', 'a', 'm', 'm', 'a', ' '] =~= seq!['\\'] + seq!['g', 'a', 'm', 'm', 'a'] + seq![' ']);
    symbols::lemma_name_delta();
    lemma_command_replaced(seq!['d', 'e', 'l', 't', 'a'], 'δ');
    assert(seq!['\\', 'd', 'e', 'l', 't', 'a'] =~= seq!['\\'] + seq!['d', 'e', 'l', 't', 'a']);
    assert(seq!['\\', 'd', 'e', 'l', 't', 'a', ' '] =~= seq!['\\'] + seq!['d', 'e', 'l', 't', 'a'] + seq![' ']);
    symbols::lemma_name_epsilon();
    lemma_command_replaced(seq!['e', 'p', 's', 'i', 'l', 'o', 'n'], 'ε');
    assert(seq!['\\', 'e', 'p', 's', 'i', 'l', 'o', 'n'] =~= seq!['\\'] + seq!['e', 'p', 's', 'i', 'l', 'o', 'n']);
    assert(seq!['\\', 'e', 'p', 's', 'i', 'l', 'o', 'n', ' '] =~= seq!['\\'] + seq!['e', 'p', 's', 'i', 'l', 'o', 'n'] + seq![' ']);
    symbols::lemma_name_varepsilon();
    lemma_command_replaced(seq!['v', 'a', 'r', 'e', 'p', 's', 'i', 'l', 'o', 'n'], 'ε');
    assert(seq!['\\', 'v', 'a', 'r', 'e', 'p', 's', 'i', 'l', 'o', 'n'] =~= seq!['\\'] + seq!['v', 'a', 'r', 'e', 'p', 's', 'i', 'l', 'o', 'n']);
    assert(seq!['\\', 'v', 'a', 'r', 'e', 'p', 's', 'i', 'l', 'o', 'n', ' '] =~= seq!['\\'] + seq!['v', 'a', 'r', 'e', 'p', 's', 'i', 'l', 'o', 'n'] + seq![' ']);
    symbols::lemma_name_zeta();
    lemma_command_replaced(seq!['z', 'e', 't', 'a'], 'ζ');
    assert(seq!['\\', 'z', 'e', 't', 'a'] =~= seq!['\\'] + seq!['z', 'e', 't', 'a']);
    assert(seq!['\\', 'z', 'e', 't', 'a', ' '] =~= seq!['\\'] + seq!['z', 'e', 't', 'a'] + seq![' ']);
    symbols::lemma_name_eta();
    lemma_command_replaced(seq!['e', 't', 'a'], 'η');
    assert(seq!['\\', 'e', 't', 'a'] =~= seq!['\\'] + seq!['e', 't', 'a']);
    assert(seq!['\\', 'e', 't', 'a', ' '] =~= seq!['\\'] + seq!['e', 't', 'a'] + seq![' ']);
    symbols::lemma_name_theta();
    lemma_command_replaced(seq!['t', 'h', 'e', 't', 'a'], 'θ');
    assert(seq!['\\', 't', 'h', 'e', 't', 'a'] =~= seq!['\\'] + seq!['t', 'h', 'e', 't', 'a']);
    assert(seq!['\\', 't', 'h', 'e', 't', 'a', ' '] =~= seq!['\\'] + seq!['t', 'h', 'e', 't', 'a'] + seq![' ']);
    symbols::lemma_name_vartheta();
    lemma_command_replaced(seq!['v', 'a', 'r', 't', 'h', 'e', 't', 'a'], 'ϑ');
    assert(seq!['\\', 'v', 'a', 'r', 't', 'h', 'e', 't', 'a'] =~= seq!['\\'] + seq!['v', 'a', 'r', 't', 'h', 'e', 't', 'a']);
    assert(seq!['\\', 'v', 'a', 'r', 't', 'h', 'e', 't', 'a', ' '] =~= seq!['\\'] + seq!['v', 'a', 'r', 't', 'h', 'e', 't', 'a'] + seq![' ']);
}

/// Each of the commands `\iota` to `\tau` of the table becomes its symbol,
/// alone and before a space.
pub proof fn lemma_symbols_2()
    ensures
        replace_symbols(seq!['\\', 'i', 'o', 't', 'a']) == seq!['ι'],
        replace_symbols(seq!['\\', 'i', 'o', 't', 'a', ' ']) == seq!['ι', ' '],
        replace_symbols(seq!['\\', 'k', 'a', 'p', 'p', 'a']) == seq!['κ'],
        replace_symbols(seq!['\\', 'k', 'a', 'p', 'p', 'a', ' ']) == seq!['κ', ' '],
        replace_symbols(seq!['\\', 'l', 'a', 'm', 'b', 'd', 'a']) == seq!['λ'],
        replace_symbols(seq!['\\', 'l', 'a', 'm', 'b', 'd', 'a', ' ']) == seq!['λ', ' '],
        replace_symbols(seq!['\\', 'm', 'u']) == seq!['μ'],
        replace_symbols(seq!['\\', 'm', 'u', ' ']) == seq!['μ', ' '],
        replace_symbols(seq!['\\', 'n', 'u']) == seq!['ν'],
        replace_symbols(seq!['\\', 'n', 'u', ' ']) == seq!['ν', ' '],
        replace_symbols(seq!['\\', 'x', 'i']) == seq!['ξ'],
        replace_symbols(seq!['\\', 'x', 'i', ' ']) == seq!['ξ', ' '],
        replace_symbols(seq!['\\', 'p', 'i']) == seq!['π'],
        replace_symbols(seq!['\\', 'p', 'i', ' ']) == seq!['π', ' '],
        replace_symbols(seq!['\\', 'r', 'h', 'o']) == seq!['ρ'],
        replace_symbols(seq!['\\', 'r', 'h', 'o', ' ']) == seq!['ρ', ' '],
        replace_symbols(seq!['\\', 's', 'i', 'g', 'm', 'a']) == seq!['σ'],
        replace_symbols(seq!['\\', 's', 'i', 'g', 'm', 'a', ' ']) == seq!['σ', ' '],
        replace_symbols(seq!['\\', 't', 'a', 'u']) == seq!['τ'],
        replace_symbols(seq!['\\', 't', 'a', 'u', ' ']) == seq!['τ', ' '],
{
    symbols::lemma_name_iota();
    lemma_command_replaced(seq!['i', 'o', 't', 'a'], 'ι');
    assert(seq!['\\', 'i', 'o', 't', 'a'] =~= seq!['\\'] + seq!['i', 'o', 't', 'a']);
    assert(seq!['\\', 'i', 'o', 't', 'a', ' '] =~= seq!['\\'] + seq!['i', 'o', 't', 'a'] + seq![' ']);
    symbols::lemma_name_kappa();
    lemma_command_replaced(seq!['k', 'a', 'p', 'p', 'a'], 'κ');
    assert(seq!['\\', 'k', 'a', 'p', 'p', 'a'] =~= seq!['\\'] + seq!['k', 'a', 'p', 'p', 'a']);
    assert(seq!['\\', 'k', 'a', 'p', 'p', 'a', ' '] =~= seq!['\\'] + seq!['k', 'a', 'p', 'p', 'a'] + seq![' ']);
    symbols::lemma_name_lambda();
    lemma_command_replaced(seq!['l', 'a', 'm', 'b', 'd', 'a'], 'λ');
    assert(seq!['\\', 'l', 'a', 'm', 'b', 'd', 'a'] =~= seq!['\\'] + seq!['l', 'a', 'm', 'b', 'd', 'a']);
    assert(seq!['\\', 'l', 'a', 'm', 'b', 'd', 'a', ' '] =~= seq!['\\'] + seq!['l', 'a', 'm', 'b', 'd', 'a'] + seq![' ']);
    symbols::lemma_name_mu();
    lemma_command_replaced(seq!['m', 'u'], 'μ');
    assert(seq!['\\', 'm', 'u'] =~= seq!['\\'] + seq!['m', 'u']);
    assert(seq!['\\', 'm', 'u', ' '] =~= seq!['\\'] + seq!['m', 'u'] + seq![' ']);
    symbols::lemma_name_nu();
    lemma_command_replaced(seq!['n', 'u'], 'ν');
    assert(seq!['\\', 'n', 'u'] =~= seq!['\\'] + seq!['n', 'u']);
    assert(seq!['\\', 'n', 'u', ' '] =~= seq!['\\'] + seq!['n', 'u'] + seq![' ']);
    symbols::lemma_name_xi();
    lemma_command_replaced(seq!['x', 'i'], 'ξ');
    assert(seq!['\\', 'x', 'i'] =~= seq!['\\'] + seq!['x', 'i']);
    assert(seq!['\\', 'x', 'i', ' '] =~= seq!['\\'] + seq!['x', 'i'] + seq![' ']);
    symbols::lemma_name_pi();
    lemma_command_replaced(seq!['p', 'i'], 'π');
    assert(seq!['\\', 'p', 'i'] =~= seq!['\\'] + seq!['p', 'i']);
    assert(seq!['\\', 'p', 'i', ' '] =~= seq!['\\'] + seq!['p', 'i'] + seq![' ']);
    symbols::lemma_name_rho();
    lemma_command_replaced(seq!['r', 'h', 'o'], 'ρ');
    assert(seq!['\\', 'r', 'h', 'o'] =~= seq!['\\'] + seq!['r', 'h', 'o']);
    assert(seq!['\\', 'r', 'h', 'o', ' '] =~= seq!['\\'] + seq!['r', 'h', 'o'] + seq![' ']);
    symbols::lemma_name_sigma();
    lemma_command_replaced(seq!['s', 'i', 'g', 'm', 'a'], 'σ');
    assert(seq!['\\', 's', 'i', 'g', 'm', 'a'] =~= seq!['\\'] + seq!['s', 'i', 'g', 'm', 'a']);
    assert(seq!['\\', 's', 'i', 'g', 'm', 'a', ' '] =~= seq!['\\'] + seq!['s', 'i', 'g', 'm', 'a'] + seq![' ']);
    symbols::lemma_name_tau();
    lemma_command_replaced(seq!['t', 'a', 'u'], 'τ');
    assert(seq!['\\', 't', 'a', 'u'] =~= seq!['\\'] + seq!['t', 'a', 'u']);
    assert(seq!['\\', 't', 'a', 'u', ' '] =~= seq!['\\'] + seq!['t', 'a', 'u'] + seq![' ']);
}

/// Each of the commands `\upsilon` to `\Lambda` of the table becomes its symbol,
/// alone and before a space.
pub proof fn lemma_symbols_3()
    ensures
        replace_symbols(seq!['\\', 'u', 'p', 's', 'i', 'l', 'o', 'n']) == seq!['υ'],
        replace_symbols(seq!['\\', 'u', 'p', 's', 'i', 'l', 'o', 'n', ' ']) == seq!['υ', ' '],
        replace_symbols(seq!['\\', 'p', 'h', 'i']) == seq!['φ'],
        replace_symbols(seq!['\\', 'p', 'h', 'i', ' ']) == seq!['φ', ' '],
        replace_symbols(seq!['\\', 'v', 'a', 'r', 'p', 'h', 'i']) == seq!['φ'],
        replace_symbols(seq!['\\', 'v', 'a', 'r', 'p', 'h', 'i', ' ']) == seq!['φ', ' '],
        replace_symbols(seq!['\\', 'c', 'h', 'i']) == seq!['χ'],
        replace_symbols(seq!['\\', 'c', 'h', 'i', ' ']) == seq!['χ', ' '],
        replace_symbols(seq!['\\', 'p', 's', 'i']) == seq!['ψ'],
        replace_symbols(seq!['\\', 'p', 's', 'i', ' ']) == seq!['ψ', ' '],
        replace_symbols(seq!['\\', 'o', 'm', 'e', 'g', 'a']) == seq!['ω'],
        replace_symbols(seq!['\\', 'o', 'm', 'e', 'g', 'a', ' ']) == seq!['ω', ' '],
        replace_symbols(seq!['\\', 'G', 'a', 'm', 'm', 'a']) == seq!['Γ'],
        replace_symbols(seq!['\\', 'G', 'a', 'm', 'm', 'a', ' ']) == seq!['Γ', ' '],
        replace_symbols(seq!['\\', 'D', 'e', 'l', 't', 'a']) == seq!['Δ'],
        replace_symbols(seq!['\\', 'D', 'e', 'l', 't', 'a', ' ']) == seq!['Δ', ' '],
        replace_symbols(seq!['\\', 'T', 'h', 'e', 't', 'a']) == seq!['Θ'],
        replace_symbols(seq!['\\', 'T', 'h', 'e', 't', 'a', ' ']) == seq!['Θ', ' '],
        replace_symbols(seq!['\\', 'L', 'a', 'm', 'b', 'd', 'a']) == seq!['Λ'],
        replace_symbols(seq!['\\', 'L', 'a', 'm', 'b', 'd', 'a', ' ']) == seq!['Λ', ' '],
{
    symbols::lemma_name_upsilon();
    lemma_command_replaced(seq!['u', 'p', 's', 'i', 'l', 'o', 'n'], 'υ');
    assert(seq!['\\', 'u', 'p', 's', 'i', 'l', 'o', 'n'] =~= seq!['\\'] + seq!['u', 'p', 's', 'i', 'l', 'o', 'n']);
    assert(seq!['\\', 'u', 'p', 's', 'i', 'l', 'o', 'n', ' '] =~= seq!['\\'] + seq!['u', 'p', 's', 'i', 'l', 'o', 'n'] + seq![' ']);
    symbols::lemma_name_phi();
    lemma_command_replaced(seq!['p', 'h', 'i'], 'φ');
    assert(seq!['\\', 'p', 'h', 'i'] =~= seq!['\\'] + seq!['p', 'h', 'i']);
    assert(seq!['\\', 'p', 'h', 'i', ' '] =~= seq!['\\'] + seq!['p', 'h', 'i'] + seq![' ']);
    symbols::lemma_name_varphi();
    lemma_command_replaced(seq!['v', 'a', 'r', 'p', 'h', 'i'], 'φ');
    assert(seq!['\\', 'v', 'a', 'r', 'p', 'h', 'i'] =~= seq!['\\'] + seq!['v', 'a', 'r', 'p', 'h', 'i']);
    assert(seq!['\\', 'v', 'a', 'r', 'p', 'h', 'i', ' '] =~= seq!['\\'] + seq!['v', 'a', 'r', 'p', 'h', 'i'] + seq![' ']);
    symbols::lemma_name_chi();
    lemma_command_replaced(seq!['c', 'h', 'i'], 'χ');
    assert(seq!['\\', 'c', 'h', 'i'] =~= seq!['\\'] + seq!['c', 'h', 'i']);
    assert(seq!['\\', 'c', 'h', 'i', ' '] =~= seq!['\\'] + seq!['c', 'h', 'i'] + seq![' ']);
    symbols::lemma_name_psi();
    lemma_command_replaced(seq!['p', 's', 'i'], 'ψ');
    assert(seq!['\\', 'p', 's', 'i'] =~= seq!['\\'] + seq!['p', 's', 'i']);
    assert(seq!['\\', 'p', 's', 'i', ' '] =~= seq!['\\'] + seq!['p', 's', 'i'] + seq![' ']);
    symbols::lemma_name_omega();
    lemma_command_replaced(seq!['o', 'm', 'e', 'g', 'a'], 'ω');
    assert(seq!['\\', 'o', 'm', 'e', 'g', 'a'] =~= seq!['\\'] + seq!['o', 'm', 'e', 'g', 'a']);
    assert(seq!['\\', 'o', 'm', 'e', 'g', 'a', ' '] =~= seq!['\\'] + seq!['o', 'm', 'e', 'g', 'a'] + seq![' ']);
    symbols::lemma_name_upper_gamma();
    lemma_command_replaced(seq!['G', 'a', 'm', 'm', 'a'], 'Γ');
    assert(seq!['\\', 'G', 'a', 'm', 'm', 'a'] =~= seq!['\\'] + seq!['G', 'a', 'm', 'm', 'a']);
    assert(seq!['\\', 'G', 'a', 'm', 'm', 'a', ' '] =~= seq!['\\'] + seq!['G', 'a', 'm', 'm', 'a'] + seq![' ']);
    symbols::lemma_name_upper_delta();
    lemma_command_replaced(seq!['D', 'e', 'l', 't', 'a'], 'Δ');
    assert(seq!['\\', 'D', 'e', 'l', 't', 'a'] =~= seq!['\\'] + seq!['D', 'e', 'l', 't', 'a']);
    assert(seq!['\\', 'D', 'e', 'l', 't', 'a', ' '] =~= seq!['\\'] + seq!['D', 'e', 'l', 't', 'a'] + seq![' ']);
    symbols::lemma_name_upper_theta();
    lemma_command_replaced(seq!['T', 'h', 'e', 't', 'a'], 'Θ');
    assert(seq!['\\', 'T', 'h', 'e', 't', 'a'] =~= seq!['\\'] + seq!['T', 'h', 'e', 't', 'a']);
    assert(seq!['\\', 'T', 'h', 'e', 't', 'a', ' '] =~= seq!['\\'] + seq!['T', 'h', 'e', 't', 'a'] + seq![' ']);
    symbols::lemma_name_upper_lambda();
    lemma_command_replaced(seq!['L', 'a', 'm', 'b', 'd', 'a'], 'Λ');
    assert(seq!['\\', 'L', 'a', 'm', 'b', 'd', 'a'] =~= seq!['\\'] + seq!['L', 'a', 'm', 'b', 'd', 'a']);
    assert(seq!['\\', 'L', 'a', 'm', 'b', 'd', 'a', ' '] =~= seq!['\\'] + seq!['L', 'a', 'm', 'b', 'd', 'a'] + seq![' ']);
}

/// Each of the commands `\Xi` to `\times` of the table becomes its symbol,
/// alone and before a space.
pub proof fn lemma_symbols_4()
    ensures
        replace_symbols(seq!['\\', 'X', 'i']) == seq!['Ξ'],
        replace_symbols(seq!['\\', 'X', 'i', ' ']) == seq!['Ξ', ' '],
        replace_symbols(seq!['\\', 'P', 'i']) == seq!['Π'],
        replace_symbols(seq!['\\', 'P', 'i', ' ']) == seq!['Π', ' '],
        replace_symbols(seq!['\\', 'S', 'i', 'g', 'm', 'a']) == seq!['Σ'],
        replace_symbols(seq!['\\', 'S', 'i', 'g', 'm', 'a', ' ']) == seq!['Σ', ' '],
        replace_symbols(seq!['\\', 'U', 'p', 's', 'i', 'l', 'o', 'n']) == seq!['Υ'],
        replace_symbols(seq!['\\', 'U', 'p', 's', 'i', 'l', 'o', 'n', ' ']) == seq!['Υ', ' '],
        replace_symbols(seq!['\\', 'P', 'h', 'i']) == seq!['Φ'],
        replace_symbols(seq!['\\', 'P', 'h', 'i', ' ']) == seq!['Φ', ' '],
        replace_symbols(seq!['\\', 'P', 's', 'i']) == seq!['Ψ'],
        replace_symbols(seq!['\\', 'P', 's', 'i', ' ']) == seq!['Ψ', ' '],
        replace_symbols(seq!['\\', 'O', 'm', 'e', 'g', 'a']) == seq!['Ω'],
        replace_symbols(seq!['\\', 'O', 'm', 'e', 'g', 'a', ' ']) == seq!['Ω', ' '],
        replace_symbols(seq!['\\', 'p', 'm']) == seq!['±'],
        replace_symbols(seq!['\\', 'p', 'm', ' ']) == seq!['±', ' '],
        replace_symbols(seq!['\\', 'm', 'p']) == seq!['∓'],
        replace_symbols(seq!['\\', 'm', 'p', ' ']) == seq!['∓', ' '],
        replace_symbols(seq!['\\', 't', 'i', 'm', 'e', 's']) == seq!['×'],
        replace_symbols(seq!['\\', 't', 'i', 'm', 'e', 's', ' ']) == seq!['×', ' '],
{
    symbols::lemma_name_upper_xi();
    lemma_command_replaced(seq!['X', 'i'], 'Ξ');
    assert(seq!['\\', 'X', 'i'] =~= seq!['\\'] + seq!['X', 'i']);
    assert(seq!['\\', 'X', 'i', ' '] =~= seq!['\\'] + seq!['X', 'i'] + seq![' ']);
    symbols::lemma_name_upper_pi();
    lemma_command_replaced(seq!['P', 'i'], 'Π');
    assert(seq!['\\', 'P', 'i'] =~= seq!['\\'] + seq!['P', 'i']);
    assert(seq!['\\', 'P', 'i', ' '] =~= seq!['\\'] + seq!['P', 'i'] + seq![' ']);
    symbols::lemma_name_upper_sigma();
    lemma_command_replaced(seq!['S', 'i', 'g', 'm', 'a'], 'Σ');
    assert(seq!['\\', 'S', 'i', 'g', 'm', 'a'] =~= seq!['\\'] + seq!['S', 'i', 'g', 'm', 'a']);
    assert(seq!['\\', 'S', 'i', 'g', 'm', 'a', ' '] =~= seq!['\\'] + seq!['S', 'i', 'g', 'm', 'a'] + seq![' ']);
    symbols::lemma_name_upper_upsilon();
    lemma_command_replaced(seq!['U', 'p', 's', 'i', 'l', 'o', 'n'], 'Υ');
    assert(seq!['\\', 'U', 'p', 's', 'i', 'l', 'o', 'n'] =~= seq!['\\'] + seq!['U', 'p', 's', 'i', 'l', 'o', 'n']);
    assert(seq!['\\', 'U', 'p', 's', 'i', 'l', 'o', 'n', ' '] =~= seq!['\\'] + seq!['U', 'p', 's', 'i', 'l', 'o', 'n'] + seq![' ']);
    symbols::lemma_name_upper_phi();
    lemma_command_replaced(seq!['P', 'h', 'i'], 'Φ');
    assert(seq!['\\', 'P', 'h', 'i'] =~= seq!['\\'] + seq!['P', 'h', 'i']);
    assert(seq!['\\', 'P', 'h', 'i', ' '] =~= seq!['\\'] + seq!['P', 'h', 'i'] + seq![' ']);
    symbols::lemma_name_upper_psi();
    lemma_command_replaced(seq!['P', 's', 'i'], 'Ψ');
    assert(seq!['\\', 'P', 's', 'i'] =~= seq!['\\'] + seq!['P', 's', 'i']);
    assert(seq!['\\', 'P', 's', 'i', ' '] =~= seq!['\\'] + seq!['P', 's', 'i'] + seq![' ']);
    symbols::lemma_name_upper_omega();
    lemma_command_replaced(seq!['O', 'm', 'e', 'g', 'a'], 'Ω');
    assert(seq!['\\', 'O', 'm', 'e', 'g', 'a'] =~= seq!['\\'] + seq!['O', 'm', 'e', 'g', 'a']);
    assert(seq!['\\', 'O', 'm', 'e', 'g', 'a', ' '] =~= seq!['\\'] + seq!['O', 'm', 'e', 'g', 'a'] + seq![' ']);
    symbols::lemma_name_pm();
    lemma_command_replaced(seq!['p', 'm'], '±');
    assert(seq!['\\', 'p', 'm'] =~= seq!['\\'] + seq!['p', 'm']);
    assert(seq!['\\', 'p', 'm', ' '] =~= seq!['\\'] + seq!['p', 'm'] + seq![' ']);
    symbols::lemma_name_mp();
    lemma_command_replaced(seq!['m', 'p'], '∓');
    assert(seq!['\\', 'm', 'p'] =~= seq!['\\'] + seq!['m', 'p']);
    assert(seq!['\\', 'm', 'p', ' '] =~= seq!['\\'] + seq!['m', 'p'] + seq![' ']);
    symbols::lemma_name_times();
    lemma_command_replaced(seq!['t', 'i', 'm', 'e', 's'], '×');
    assert(seq!['\\', 't', 'i', 'm', 'e', 's'] =~= seq!['\\'] + seq!['t', 'i', 'm', 'e', 's']);
    assert(seq!['\\', 't', 'i', 'm', 'e', 's', ' '] =~= seq!['\\'] + seq!['t', 'i', 'm', 'e', 's'] + seq![' ']);
}

/// Each of the commands `\div` to `\approx` of the table becomes its symbol,
/// alone and before a space.
pub proof fn lemma_symbols_5()
    ensures
        replace_symbols(seq!['\\', 'd', 'i', 'v']) == seq!['÷'],
        replace_symbols(seq!['\\', 'd', 'i', 'v', ' ']) == seq!['÷', ' '],
        replace_symbols(seq!['\\', 'c', 'd', 'o', 't']) == seq!['·'],
        replace_symbols(seq!['\\', 'c', 'd', 'o', 't', ' ']) == seq!['·', ' '],
        replace_symbols(seq!['\\', 'c', 'i', 'r', 'c']) == seq!['∘'],
        replace_symbols(seq!['\\', 'c', 'i', 'r', 'c', ' ']) == seq!['∘', ' '],
        replace_symbols(seq!['\\', 'l', 'e', 'q']) == seq!['≤'],
        replace_symbols(seq!['\\', 'l', 'e', 'q', ' ']) == seq!['≤', ' '],
        replace_symbols(seq!['\\', 'l', 'e']) == seq!['≤'],
        replace_symbols(seq!['\\', 'l', 'e', ' ']) == seq!['≤', ' '],
        replace_symbols(seq!['\\', 'g', 'e', 'q']) == seq!['≥'],
        replace_symbols(seq!['\\', 'g', 'e', 'q', ' ']) == seq!['≥', ' '],
        replace_symbols(seq!['\\', 'g', 'e']) == seq!['≥'],
        replace_symbols(seq!['\\', 'g', 'e', ' ']) == seq!['≥', ' '],
        replace_symbols(seq!['\\', 'n', 'e', 'q']) == seq!['≠'],
        replace_symbols(seq!['\\', 'n', 'e', 'q', ' ']) == seq!['≠', ' '],
        replace_symbols(seq!['\\', 'n', 'e']) == seq!['≠'],
        replace_symbols(seq!['\\', 'n', 'e', ' ']) == seq!['≠', ' '],
        replace_symbols(seq!['\\', 'a', 'p', 'p', 'r', 'o', 'x']) == seq!['≈'],
        replace_symbols(seq!['\\', 'a', 'p', 'p', 'r', 'o', 'x', ' ']) == seq!['≈', ' '],
{
    symbols::lemma_name_div();
    lemma_command_replaced(seq!['d', 'i', 'v'], '÷');
    assert(seq!['\\', 'd', 'i', 'v'] =~= seq!['\\'] + seq!['d', 'i', 'v']);
    assert(seq!['\\', 'd', 'i', 'v', ' '] =~= seq!['\\'] + seq!['d', 'i', 'v'] + seq![' ']);
    symbols::lemma_name_cdot();
    lemma_command_replaced(seq!['c', 'd', 'o', 't'], '·');
    assert(seq!['\\', 'c', 'd', 'o', 't'] =~= seq!['\\'] + seq!['c', 'd', 'o', 't']);
    assert(seq!['\\', 'c', 'd', 'o', 't', ' '] =~= seq!['\\'] + seq!['c', 'd', 'o', 't'] + seq![' ']);
    symbols::lemma_name_circ();
    lemma_command_replaced(seq!['c', 'i', 'r', 'c'], '∘');
    assert(seq!['\\', 'c', 'i', 'r', 'c'] =~= seq!['\\'] + seq!['c', 'i', 'r', 'c']);
    assert(seq!['\\', 'c', 'i', 'r', 'c', ' '] =~= seq!['\\'] + seq!['c', 'i', 'r', 'c'] + seq![' ']);
    symbols::lemma_name_leq();
    lemma_command_replaced(seq!['l', 'e', 'q'], '≤');
    assert(seq!['\\', 'l', 'e', 'q'] =~= seq!['\\'] + seq!['l', 'e', 'q']);
    assert(seq!['\\', 'l', 'e', 'q', ' '] =~= seq!['\\'] + seq!['l', 'e', 'q'] + seq![' ']);
    symbols::lemma_name_le();
    lemma_command_replaced(seq!['l', 'e'], '≤');
    assert(seq!['\\', 'l', 'e'] =~= seq!['\\'] + seq!['l', 'e']);
    assert(seq!['\\', 'l', 'e', ' '] =~= seq!['\\'] + seq!['l', 'e'] + seq![' ']);
    symbols::lemma_name_geq();
    lemma_command_replaced(seq!['g', 'e', 'q'], '≥');
    assert(seq!['\\', 'g', 'e', 'q'] =~= seq!['\\'] + seq!['g', 'e', 'q']);
    assert(seq!['\\', 'g', 'e', 'q', ' '] =~= seq!['\\'] + seq!['g', 'e', 'q'] + seq![' ']);
    symbols::lemma_name_ge();
    lemma_command_replaced(seq!['g', 'e'], '≥');
    assert(seq!['\\', 'g', 'e'] =~= seq!['\\'] + seq!['g', 'e']);
    assert(seq!['\\', 'g', 'e', ' '] =~= seq!['\\'] + seq!['g', 'e'] + seq![' ']);
    symbols::lemma_name_neq();
    lemma_command_replaced(seq!['n', 'e', 'q'], '≠');
    assert(seq!['\\', 'n', 'e', 'q'] =~= seq!['\\'] + seq!['n', 'e', 'q']);
    assert(seq!['\\', 'n', 'e', 'q', ' '] =~= seq!['\\'] + seq!['n', 'e', 'q'] + seq![' ']);
    symbols::lemma_name_ne();
    lemma_command_replaced(seq!['n', 'e'], '≠');
    assert(seq!['\\', 'n', 'e'] =~= seq!['\\'] + seq!['n', 'e']);
    assert(seq!['\\', 'n', 'e', ' '] =~= seq!['\\'] + seq!['n', 'e'] + seq![' ']);
    symbols::lemma_name_approx();
    lemma_command_replaced(seq!['a', 'p', 'p', 'r', 'o', 'x'], '≈');
    assert(seq!['\\', 'a', 'p', 'p', 'r', 'o', 'x'] =~= seq!['\\'] + seq!['a', 'p', 'p', 'r', 'o', 'x']);
    assert(seq!['\\', 'a', 'p', 'p', 'r', 'o', 'x', ' '] =~= seq!['\\'] + seq!['a', 'p', 'p', 'r', 'o', 'x'] + seq![' ']);
}

/// Each of the commands `\equiv` to `\Leftarrow` of the table becomes its symbol,
/// alone and before a space.
pub proof fn lemma_symbols_6()
    ensures
        replace_symbols(seq!['\\', 'e', 'q', 'u', 'i', 'v']) == seq!['≡'],
        replace_symbols(seq!['\\', 'e', 'q', 'u', 'i', 'v', ' ']) == seq!['≡', ' '],
        replace_symbols(seq!['\\', 's', 'i', 'm']) == seq!['∼'],
        replace_symbols(seq!['\\', 's', 'i', 'm', ' ']) == seq!['∼', ' '],
        replace_symbols(seq!['\\', 'p', 'r', 'o', 'p', 't', 'o']) == seq!['∝'],
        replace_symbols(seq!['\\', 'p', 'r', 'o', 'p', 't', 'o', ' ']) == seq!['∝', ' '],
        replace_symbols(seq!['\\', 'l', 'l']) == seq!['≪'],
        replace_symbols(seq!['\\', 'l', 'l', ' ']) == seq!['≪', ' '],
        replace_symbols(seq!['\\', 'g', 'g']) == seq!['≫'],
        replace_symbols(seq!['\\', 'g', 'g', ' ']) == seq!['≫', ' '],
        replace_symbols(seq!['\\', 't', 'o']) == seq!['→'],
        replace_symbols(seq!['\\', 't', 'o', ' ']) == seq!['→', ' '],
        replace_symbols(seq!['\\', 'r', 'i', 'g', 'h', 't', 'a', 'r', 'r', 'o', 'w']) == seq!['→'],
        replace_symbols(seq!['\\', 'r', 'i', 'g', 'h', 't', 'a', 'r', 'r', 'o', 'w', ' ']) == seq!['→', ' '],
        replace_symbols(seq!['\\', 'l', 'e', 'f', 't', 'a', 'r', 'r', 'o', 'w']) == seq!['←'],
        replace_symbols(seq!['\\', 'l', 'e', 'f', 't', 'a', 'r', 'r', 'o', 'w', ' ']) == seq!['←', ' '],
        replace_symbols(seq!['\\', 'R', 'i', 'g', 'h', 't', 'a', 'r', 'r', 'o', 'w']) == seq!['⇒'],
        replace_symbols(seq!['\\', 'R', 'i', 'g', 'h', 't', 'a', 'r', 'r', 'o', 'w', ' ']) == seq!['⇒', ' '],
        replace_symbols(seq!['\\', 'L', 'e', 'f', 't', 'a', 'r', 'r', 'o', 'w']) == seq!['⇐'],
        replace_symbols(seq!['\\', 'L', 'e', 'f', 't', 'a', 'r', 'r', 'o', 'w', ' ']) == seq!['⇐', ' '],
{
    symbols::lemma_name_equiv();
    lemma_command_replaced(seq!['e', 'q', 'u', 'i', 'v'], '≡');
    assert(seq!['\\', 'e', 'q', 'u', 'i', 'v'] =~= seq!['\\'] + seq!['e', 'q', 'u', 'i', 'v']);
    assert(seq!['\\', 'e', 'q', 'u', 'i', 'v', ' '] =~= seq!['\\'] + seq!['e', 'q', 'u', 'i', 'v'] + seq![' ']);
    symbols::lemma_name_sim();
    lemma_command_replaced(seq!['s', 'i', 'm'], '∼');
    assert(seq!['\\', 's', 'i', 'm'] =~= seq!['\\'] + seq!['s', 'i', 'm']);
    assert(seq!['\\', 's', 'i', 'm', ' '] =~= seq!['\\'] + seq!['s', 'i', 'm'] + seq![' ']);
    symbols::lemma_name_propto();
    lemma_command_replaced(seq!['p', 'r', 'o', 'p', 't', 'o'], '∝');
    assert(seq!['\\', 'p', 'r', 'o', 'p', 't', 'o'] =~= seq!['\\'] + seq!['p', 'r', 'o', 'p', 't', 'o']);
    assert(seq!['\\', 'p', 'r', 'o', 'p', 't', 'o', ' '] =~= seq!['\\'] + seq!['p', 'r', 'o', 'p', 't', 'o'] + seq![' ']);
    symbols::lemma_name_ll();
    lemma_command_replaced(seq!['l', 'l'], '≪');
    assert(seq!['\\', 'l', 'l'] =~= seq!['\\'] + seq!['l', 'l']);
    assert(seq!['\\', 'l', 'l', ' '] =~= seq!['\\'] + seq!['l', 'l'] + seq![' ']);
    symbols::lemma_name_gg();
    lemma_command_replaced(seq!['g', 'g'], '≫');
    assert(seq!['\\', 'g', 'g'] =~= seq!['\\'] + seq!['g', 'g']);
    assert(seq!['\\', 'g', 'g', ' '] =~= seq!['\\'] + seq!['g', 'g'] + seq![' ']);
    symbols::lemma_name_to();
    lemma_command_replaced(seq!['t', 'o'], '→');
    assert(seq!['\\', 't', 'o'] =~= seq!['\\'] + seq!['t', 'o']);
    assert(seq!['\\', 't', 'o', ' '] =~= seq!['\\'] + seq!['t', 'o'] + seq![' ']);
    symbols::lemma_name_rightarrow();
    lemma_command_replaced(seq!['r', 'i', 'g', 'h', 't', 'a', 'r', 'r', 'o', 'w'], '→');
    assert(seq!['\\', 'r', 'i', 'g', 'h', 't', 'a', 'r', 'r', 'o', 'w'] =~= seq!['\\'] + seq!['r', 'i', 'g', 'h', 't', 'a', 'r', 'r', 'o', 'w']);
    assert(seq!['\\', 'r', 'i', 'g', 'h', 't', 'a', 'r', 'r', 'o', 'w', ' '] =~= seq!['\\'] + seq!['r', 'i', 'g', 'h', 't', 'a', 'r', 'r', 'o', 'w'] + seq![' ']);
    symbols::lemma_name_leftarrow();
    lemma_command_replaced(seq!['l', 'e', 'f', 't', 'a', 'r', 'r', 'o', 'w'], '←');
    assert(seq!['\\', 'l', 'e', 'f', 't', 'a', 'r', 'r', 'o', 'w'] =~= seq!['\\'] + seq!['l', 'e', 'f', 't', 'a', 'r', 'r', 'o', 'w']);
    assert(seq!['\\', 'l', 'e', 'f', 't', 'a', 'r', 'r', 'o', 'w', ' '] =~= seq!['\\'] + seq!['l', 'e', 'f', 't', 'a', 'r', 'r', 'o', 'w'] + seq![' ']);
    symbols::lemma_name_upper_rightarrow();
    lemma_command_replaced(seq!['R', 'i', 'g', 'h', 't', 'a', 'r', 'r', 'o', 'w'], '⇒');
    assert(seq!['\\', 'R', 'i', 'g', 'h', 't', 'a', 'r', 'r', 'o', 'w'] =~= seq!['\\'] + seq!['R', 'i', 'g', 'h', 't', 'a', 'r', 'r', 'o', 'w']);
    assert(seq!['\\', 'R', 'i', 'g', 'h', 't', 'a', 'r', 'r', 'o', 'w', ' '] =~= seq!['\\'] + seq!['R', 'i', 'g', 'h', 't', 'a', 'r', 'r', 'o', 'w'] + seq![' ']);
    symbols::lemma_name_upper_leftarrow();
    lemma_command_replaced(seq!['L', 'e', 'f', 't', 'a', 'r', 'r', 'o', 'w'], '⇐');
    assert(seq!['\\', 'L', 'e', 'f', 't', 'a', 'r', 'r', 'o', 'w'] =~= seq!['\\'] + seq!['L', 'e', 'f', 't', 'a', 'r', 'r', 'o', 'w']);
    assert(seq!['\\', 'L', 'e', 'f', 't', 'a', 'r', 'r', 'o', 'w', ' '] =~= seq!['\\'] + seq!['L', 'e', 'f', 't', 'a', 'r', 'r', 'o', 'w'] + seq![' ']);
}

/// Each of the commands `\leftrightarrow` to `\bigcup` of the table becomes its symbol,
/// alone and before a space.
pub proof fn lemma_symbols_7()
    ensures
        replace_symbols(seq!['\\', 'l', 'e', 'f', 't', 'r', 'i', 'g', 'h', 't', 'a', 'r', 'r', 'o', 'w']) == seq!['↔'],
        replace_symbols(seq!['\\', 'l', 'e', 'f', 't', 'r', 'i', 'g', 'h', 't', 'a', 'r', 'r', 'o', 'w', ' ']) == seq!['↔', ' '],
        replace_symbols(seq!['\\', 'L', 'e', 'f', 't', 'r', 'i', 'g', 'h', 't', 'a', 'r', 'r', 'o', 'w']) == seq!['⇔'],
        replace_symbols(seq!['\\', 'L', 'e', 'f', 't', 'r', 'i', 'g', 'h', 't', 'a', 'r', 'r', 'o', 'w', ' ']) == seq!['⇔', ' '],
        replace_symbols(seq!['\\', 'm', 'a', 'p', 's', 't', 'o']) == seq!['↦'],
        replace_symbols(seq!['\\', 'm', 'a', 'p', 's', 't', 'o', ' ']) == seq!['↦', ' '],
        replace_symbols(seq!['\\', 'u', 'p', 'a', 'r', 'r', 'o', 'w']) == seq!['↑'],
        replace_symbols(seq!['\\', 'u', 'p', 'a', 'r', 'r', 'o', 'w', ' ']) == seq!['↑', ' '],
        replace_symbols(seq!['\\', 'd', 'o', 'w', 'n', 'a', 'r', 'r', 'o', 'w']) == seq!['↓'],
        replace_symbols(seq!['\\', 'd', 'o', 'w', 'n', 'a', 'r', 'r', 'o', 'w', ' ']) == seq!['↓', ' '],
        replace_symbols(seq!['\\', 's', 'u', 'm']) == seq!['∑'],
        replace_symbols(seq!['\\', 's', 'u', 'm', ' ']) == seq!['∑', ' '],
        replace_symbols(seq!['\\', 'p', 'r', 'o', 'd']) == seq!['∏'],
        replace_symbols(seq!['\\', 'p', 'r', 'o', 'd', ' ']) == seq!['∏', ' '],
        replace_symbols(seq!['\\', 'i', 'n', 't']) == seq!['∫'],
        replace_symbols(seq!['\\', 'i', 'n', 't', ' ']) == seq!['∫', ' '],
        replace_symbols(seq!['\\', 'o', 'i', 'n', 't']) == seq!['∮'],
        replace_symbols(seq!['\\', 'o', 'i', 'n', 't', ' ']) == seq!['∮', ' '],
        replace_symbols(seq!['\\', 'b', 'i', 'g', 'c', 'u', 'p']) == seq!['⋃'],
        replace_symbols(seq!['\\', 'b', 'i', 'g', 'c', 'u', 'p', ' ']) == seq!['⋃', ' '],
{
    symbols::lemma_name_leftrightarrow();
    lemma_command_replaced(seq!['l', 'e', 'f', 't', 'r', 'i', 'g', 'h', 't', 'a', 'r', 'r', 'o', 'w'], '↔');
    assert(seq!['\\', 'l', 'e', 'f', 't', 'r', 'i', 'g', 'h', 't', 'a', 'r', 'r', 'o', 'w'] =~= seq!['\\'] + seq!['l', 'e', 'f', 't', 'r', 'i', 'g', 'h', 't', 'a', 'r', 'r', 'o', 'w']);
    assert(seq!['\\', 'l', 'e', 'f', 't', 'r', 'i', 'g', 'h', 't', 'a', 'r', 'r', 'o', 'w', ' '] =~= seq!['\\'] + seq!['l', 'e', 'f', 't', 'r', 'i', 'g', 'h', 't', 'a', 'r', 'r', 'o', 'w'] + seq![' ']);
    symbols::lemma_name_upper_leftrightarrow();
    lemma_command_replaced(seq!['L', 'e', 'f', 't', 'r', 'i', 'g', 'h', 't', 'a', 'r', 'r', 'o', 'w'], '⇔');
    assert(seq!['\\', 'L', 'e', 'f', 't', 'r', 'i', 'g', 'h', 't', 'a', 'r', 'r', 'o', 'w'] =~= seq!['\\'] + seq!['L', 'e', 'f', 't', 'r', 'i', 'g', 'h', 't', 'a', 'r', 'r', 'o', 'w']);
    assert(seq!['\\', 'L', 'e', 'f', 't', 'r', 'i', 'g', 'h', 't', 'a', 'r', 'r', 'o', 'w', ' '] =~= seq!['\\'] + seq!['L', 'e', 'f', 't', 'r', 'i', 'g', 'h', 't', 'a', 'r', 'r', 'o', 'w'] + seq![' ']);
    symbols::lemma_name_mapsto();
    lemma_command_replaced(seq!['m', 'a', 'p', 's', 't', 'o'], '↦');
    assert(seq!['\\', 'm', 'a', 'p', 's', 't', 'o'] =~= seq!['\\'] + seq!['m', 'a', 'p', 's', 't', 'o']);
    assert(seq!['\\', 'm', 'a', 'p', 's', 't', 'o', ' '] =~= seq!['\\'] + seq!['m', 'a', 'p', 's', 't', 'o'] + seq![' ']);
    symbols::lemma_name_uparrow();
    lemma_command_replaced(seq!['u', 'p', 'a', 'r', 'r', 'o', 'w'], '↑');
    assert(seq!['\\', 'u', 'p', 'a', 'r', 'r', 'o', 'w'] =~= seq!['\\'] + seq!['u', 'p', 'a', 'r', 'r', 'o', 'w']);
    assert(seq!['\\', 'u', 'p', 'a', 'r', 'r', 'o', 'w', ' '] =~= seq!['\\'] + seq!['u', 'p', 'a', 'r', 'r', 'o', 'w'] + seq![' ']);
    symbols::lemma_name_downarrow();
    lemma_command_replaced(seq!['d', 'o', 'w', 'n', 'a', 'r', 'r', 'o', 'w'], '↓');
    assert(seq!['\\', 'd', 'o', 'w', 'n', 'a', 'r', 'r', 'o', 'w'] =~= seq!['\\'] + seq!['d', 'o', 'w', 'n', 'a', 'r', 'r', 'o', 'w']);
    assert(seq!['\\', 'd', 'o', 'w', 'n', 'a', 'r', 'r', 'o', 'w', ' '] =~= seq!['\\'] + seq!['d', 'o', 'w', 'n', 'a', 'r', 'r', 'o', 'w'] + seq![' ']);
    symbols::lemma_name_sum();
    lemma_command_replaced(seq!['s', 'u', 'm'], '∑');
    assert(seq!['\\', 's', 'u', 'm'] =~= seq!['\\'] + seq!['s', 'u', 'm']);
    assert(seq!['\\', 's', 'u', 'm', ' '] =~= seq!['\\'] + seq!['s', 'u', 'm'] + seq![' ']);
    symbols::lemma_name_prod();
    lemma_command_replaced(seq!['p', 'r', 'o', 'd'], '∏');
    assert(seq!['\\', 'p', 'r', 'o', 'd'] =~= seq!['\\'] + seq!['p', 'r', 'o', 'd']);
    assert(seq!['\\', 'p', 'r', 'o', 'd', ' '] =~= seq!['\\'] + seq!['p', 'r', 'o', 'd'] + seq![' ']);
    symbols::lemma_name_int();
    lemma_command_replaced(seq!['i', 'n', 't'], '∫');
    assert(seq!['\\', 'i', 'n', 't'] =~= seq!['\\'] + seq!['i', 'n', 't']);
    assert(seq!['\\', 'i', 'n', 't', ' '] =~= seq!['\\'] + seq!['i', 'n', 't'] + seq![' ']);
    symbols::lemma_name_oint();
    lemma_command_replaced(seq!['o', 'i', 'n', 't'], '∮');
    assert(seq!['\\', 'o', 'i', 'n', 't'] =~= seq!['\\'] + seq!['o', 'i', 'n', 't']);
    assert(seq!['\\', 'o', 'i', 'n', 't', ' '] =~= seq!['\\'] + seq!['o', 'i', 'n', 't'] + seq![' ']);
    symbols::lemma_name_bigcup();
    lemma_command_replaced(seq!['b', 'i', 'g', 'c', 'u', 'p'], '⋃');
    assert(seq!['\\', 'b', 'i', 'g', 'c', 'u', 'p'] =~= seq!['\\'] + seq!['b', 'i', 'g', 'c', 'u', 'p']);
    assert(seq!['\\', 'b', 'i', 'g', 'c', 'u', 'p', ' '] =~= seq!['\\'] + seq!['b', 'i', 'g', 'c', 'u', 'p'] + seq![' ']);
}

/// Each of the commands `\bigcap` to `\emptyset` of the table becomes its symbol,
/// alone and before a space.
pub proof fn lemma_symbols_8()
    ensures
        replace_symbols(seq!['\\', 'b', 'i', 'g', 'c', 'a', 'p']) == seq!['⋂'],
        replace_symbols(seq!['\\', 'b', 'i', 'g', 'c', 'a', 'p', ' ']) == seq!['⋂', ' '],
        replace_symbols(seq!['\\', 'i', 'n']) == seq!['∈'],
        replace_symbols(seq!['\\', 'i', 'n', ' ']) == seq!['∈', ' '],
        replace_symbols(seq!['\\', 'n', 'o', 't', 'i', 'n']) == seq!['∉'],
        replace_symbols(seq!['\\', 'n', 'o', 't', 'i', 'n', ' ']) == seq!['∉', ' '],
        replace_symbols(seq!['\\', 's', 'u', 'b', 's', 'e', 't']) == seq!['⊂'],
        replace_symbols(seq!['\\', 's', 'u', 'b', 's', 'e', 't', ' ']) == seq!['⊂', ' '],
        replace_symbols(seq!['\\', 's', 'u', 'p', 's', 'e', 't']) == seq!['⊃'],
        replace_symbols(seq!['\\', 's', 'u', 'p', 's', 'e', 't', ' ']) == seq!['⊃', ' '],
        replace_symbols(seq!['\\', 's', 'u', 'b', 's', 'e', 't', 'e', 'q']) == seq!['⊆'],
        replace_symbols(seq!['\\', 's', 'u', 'b', 's', 'e', 't', 'e', 'q', ' ']) == seq!['⊆', ' '],
        replace_symbols(seq!['\\', 's', 'u', 'p', 's', 'e', 't', 'e', 'q']) == seq!['⊇'],
        replace_symbols(seq!['\\', 's', 'u', 'p', 's', 'e', 't', 'e', 'q', ' ']) == seq!['⊇', ' '],
        replace_symbols(seq!['\\', 'c', 'u', 'p']) == seq!['∪'],
        replace_symbols(seq!['\\', 'c', 'u', 'p', ' ']) == seq!['∪', ' '],
        replace_symbols(seq!['\\', 'c', 'a', 'p']) == seq!['∩'],
        replace_symbols(seq!['\\', 'c', 'a', 'p', ' ']) == seq!['∩', ' '],
        replace_symbols(seq!['\\', 'e', 'm', 'p', 't', 'y', 's', 'e', 't']) == seq!['∅'],
        replace_symbols(seq!['\\', 'e', 'm', 'p', 't', 'y', 's', 'e', 't', ' ']) == seq!['∅', ' '],
{
    symbols::lemma_name_bigcap();
    lemma_command_replaced(seq!['b', 'i', 'g', 'c', 'a', 'p'], '⋂');
    assert(seq!['\\', 'b', 'i', 'g', 'c', 'a', 'p'] =~= seq!['\\'] + seq!['b', 'i', 'g', 'c', 'a', 'p']);
    assert(seq!['\\', 'b', 'i', 'g', 'c', 'a', 'p', ' '] =~= seq!['\\'] + seq!['b', 'i', 'g', 'c', 'a', 'p'] + seq![' ']);
    symbols::lemma_name_in();
    lemma_command_replaced(seq!['i', 'n'], '∈');
    assert(seq!['\\', 'i', 'n'] =~= seq!['\\'] + seq!['i', 'n']);
    assert(seq!['\\', 'i', 'n', ' '] =~= seq!['\\'] + seq!['i', 'n'] + seq![' ']);
    symbols::lemma_name_notin();
    lemma_command_replaced(seq!['n', 'o', 't', 'i', 'n'], '∉');
    assert(seq!['\\', 'n', 'o', 't', 'i', 'n'] =~= seq!['\\'] + seq!['n', 'o', 't', 'i', 'n']);
    assert(seq!['\\', 'n', 'o', 't', 'i', 'n', ' '] =~= seq!['\\'] + seq!['n', 'o', 't', 'i', 'n'] + seq![' ']);
    symbols::lemma_name_subset();
    lemma_command_replaced(seq!['s', 'u', 'b', 's', 'e', 't'], '⊂');
    assert(seq!['\\', 's', 'u', 'b', 's', 'e', 't'] =~= seq!['\\'] + seq!['s', 'u', 'b', 's', 'e', 't']);
    assert(seq!['\\', 's', 'u', 'b', 's', 'e', 't', ' '] =~= seq!['\\'] + seq!['s', 'u', 'b', 's', 'e', 't'] + seq![' ']);
    symbols::lemma_name_supset();
    lemma_command_replaced(seq!['s', 'u', 'p', 's', 'e', 't'], '⊃');
    assert(seq!['\\', 's', 'u', 'p', 's', 'e', 't'] =~= seq!['\\'] + seq!['s', 'u', 'p', 's', 'e', 't']);
    assert(seq!['\\', 's', 'u', 'p', 's', 'e', 't', ' '] =~= seq!['\\'] + seq!['s', 'u', 'p', 's', 'e', 't'] + seq![' ']);
    symbols::lemma_name_subseteq();
    lemma_command_replaced(seq!['s', 'u', 'b', 's', 'e', 't', 'e', 'q'], '⊆');
    assert(seq!['\\', 's', 'u', 'b', 's', 'e', 't', 'e', 'q'] =~= seq!['\\'] + seq!['s', 'u', 'b', 's', 'e', 't', 'e', 'q']);
    assert(seq!['\\', 's', 'u', 'b', 's', 'e', 't', 'e', 'q', ' '] =~= seq!['\\'] + seq!['s', 'u', 'b', 's', 'e', 't', 'e', 'q'] + seq![' ']);
    symbols::lemma_name_supseteq();
    lemma_command_replaced(seq!['s', 'u', 'p', 's', 'e', 't', 'e', 'q'], '⊇');
    assert(seq!['\\', 's', 'u', 'p', 's', 'e', 't', 'e', 'q'] =~= seq!['\\'] + seq!['s', 'u', 'p', 's', 'e', 't', 'e', 'q']);
    assert(seq!['\\', 's', 'u', 'p', 's', 'e', 't', 'e', 'q', ' '] =~= seq!['\\'] + seq!['s', 'u', 'p', 's', 'e', 't', 'e', 'q'] + seq![' ']);
    symbols::lemma_name_cup();
    lemma_command_replaced(seq!['c', 'u', 'p'], '∪');
    assert(seq!['\\', 'c', 'u', 'p'] =~= seq!['\\'] + seq!['c', 'u', 'p']);
    assert(seq!['\\', 'c', 'u', 'p', ' '] =~= seq!['\\'] + seq!['c', 'u', 'p'] + seq![' ']);
    symbols::lemma_name_cap();
    lemma_command_replaced(seq!['c', 'a', 'p'], '∩');
    assert(seq!['\\', 'c', 'a', 'p'] =~= seq!['\\'] + seq!['c', 'a', 'p']);
    assert(seq!['\\', 'c', 'a', 'p', ' '] =~= seq!['\\'] + seq!['c', 'a', 'p'] + seq![' ']);
    symbols::lemma_name_emptyset();
    lemma_command_replaced(seq!['e', 'm', 'p', 't', 'y', 's', 'e', 't'], '∅');
    assert(seq!['\\', 'e', 'm', 'p', 't', 'y', 's', 'e', 't'] =~= seq!['\\'] + seq!['e', 'm', 'p', 't', 'y', 's', 'e', 't']);
    assert(seq!['\\', 'e', 'm', 'p', 't', 'y', 's', 'e', 't', ' '] =~= seq!['\\'] + seq!['e', 'm', 'p', 't', 'y', 's', 'e', 't'] + seq![' ']);
}

/// Each of the commands `\varnothing` to `\partial` of the table becomes its symbol,
/// alone and before a space.
pub proof fn lemma_symbols_9()
    ensures
        replace_symbols(seq!['\\', 'v', 'a', 'r', 'n', 'o', 't', 'h', 'i', 'n', 'g']) == seq!['∅'],
        replace_symbols(seq!['\\', 'v', 'a', 'r', 'n', 'o', 't', 'h', 'i', 'n', 'g', ' ']) == seq!['∅', ' '],
        replace_symbols(seq!['\\', 'f', 'o', 'r', 'a', 'l', 'l']) == seq!['∀'],
        replace_symbols(seq!['\\', 'f', 'o', 'r', 'a', 'l', 'l', ' ']) == seq!['∀', ' '],
        replace_symbols(seq!['\\', 'e', 'x', 'i', 's', 't', 's']) == seq!['∃'],
        replace_symbols(seq!['\\', 'e', 'x', 'i', 's', 't', 's', ' ']) == seq!['∃', ' '],
        replace_symbols(seq!['\\', 'n', 'e', 'g']) == seq!['¬'],
        replace_symbols(seq!['\\', 'n', 'e', 'g', ' ']) == seq!['¬', ' '],
        replace_symbols(seq!['\\', 'l', 'a', 'n', 'd']) == seq!['∧'],
        replace_symbols(seq!['\\', 'l', 'a', 'n', 'd', ' ']) == seq!['∧', ' '],
        replace_symbols(seq!['\\', 'l', 'o', 'r']) == seq!['∨'],
        replace_symbols(seq!['\\', 'l', 'o', 'r', ' ']) == seq!['∨', ' '],
        replace_symbols(seq!['\\', 'i', 'm', 'p', 'l', 'i', 'e', 's']) == seq!['⟹'],
        replace_symbols(seq!['\\', 'i', 'm', 'p', 'l', 'i', 'e', 's', ' ']) == seq!['⟹', ' '],
        replace_symbols(seq!['\\', 'i', 'f', 'f']) == seq!['⟺'],
        replace_symbols(seq!['\\', 'i', 'f', 'f', ' ']) == seq!['⟺', ' '],
        replace_symbols(seq!['\\', 'i', 'n', 'f', 't', 'y']) == seq!['∞'],
        replace_symbols(seq!['\\', 'i', 'n', 'f', 't', 'y', ' ']) == seq!['∞', ' '],
        replace_symbols(seq!['\\', 'p', 'a', 'r', 't', 'i', 'a', 'l']) == seq!['∂'],
        replace_symbols(seq!['\\', 'p', 'a', 'r', 't', 'i', 'a', 'l', ' ']) == seq!['∂', ' '],
{
    symbols::lemma_name_varnothing();
    lemma_command_replaced(seq!['v', 'a', 'r', 'n', 'o', 't', 'h', 'i', 'n', 'g'], '∅');
    assert(seq!['\\', 'v', 'a', 'r', 'n', 'o', 't', 'h', 'i', 'n', 'g'] =~= seq!['\\'] + seq!['v', 'a', 'r', 'n', 'o', 't', 'h', 'i', 'n', 'g']);
    assert(seq!['\\', 'v', 'a', 'r', 'n', 'o', 't', 'h', 'i', 'n', 'g', ' '] =~= seq!['\\'] + seq!['v', 'a', 'r', 'n', 'o', 't', 'h', 'i', 'n', 'g'] + seq![' ']);
    symbols::lemma_name_forall();
    lemma_command_replaced(seq!['f', 'o', 'r', 'a', 'l', 'l'], '∀');
    assert(seq!['\\', 'f', 'o', 'r', 'a', 'l', 'l'] =~= seq!['\\'] + seq!['f', 'o', 'r', 'a', 'l', 'l']);
    assert(seq!['\\', 'f', 'o', 'r', 'a', 'l', 'l', ' '] =~= seq!['\\'] + seq!['f', 'o', 'r', 'a', 'l', 'l'] + seq![' ']);
    symbols::lemma_name_exists();
    lemma_command_replaced(seq!['e', 'x', 'i', 's', 't', 's'], '∃');
    assert(seq!['\\', 'e', 'x', 'i', 's', 't', 's'] =~= seq!['\\'] + seq!['e', 'x', 'i', 's', 't', 's']);
    assert(seq!['\\', 'e', 'x', 'i', 's', 't', 's', ' '] =~= seq!['\\'] + seq!['e', 'x', 'i', 's', 't', 's'] + seq![' ']);
    symbols::lemma_name_neg();
    lemma_command_replaced(seq!['n', 'e', 'g'], '¬');
    assert(seq!['\\', 'n', 'e', 'g'] =~= seq!['\\'] + seq!['n', 'e', 'g']);
    assert(seq!['\\', 'n', 'e', 'g', ' '] =~= seq!['\\'] + seq!['n', 'e', 'g'] + seq![' ']);
    symbols::lemma_name_land();
    lemma_command_replaced(seq!['l', 'a', 'n', 'd'], '∧');
    assert(seq!['\\', 'l', 'a', 'n', 'd'] =~= seq!['\\'] + seq!['l', 'a', 'n', 'd']);
    assert(seq!['\\', 'l', 'a', 'n', 'd', ' '] =~= seq!['\\'] + seq!['l', 'a', 'n', 'd'] + seq![' ']);
    symbols::lemma_name_lor();
    lemma_command_replaced(seq!['l', 'o', 'r'], '∨');
    assert(seq!['\\', 'l', 'o', 'r'] =~= seq!['\\'] + seq!['l', 'o', 'r']);
    assert(seq!['\\', 'l', 'o', 'r', ' '] =~= seq!['\\'] + seq!['l', 'o', 'r'] + seq![' ']);
    symbols::lemma_name_implies();
    lemma_command_replaced(seq!['i', 'm', 'p', 'l', 'i', 'e', 's'], '⟹');
    assert(seq!['\\', 'i', 'm', 'p', 'l', 'i', 'e', 's'] =~= seq!['\\'] + seq!['i', 'm', 'p', 'l', 'i', 'e', 's']);
    assert(seq!['\\', 'i', 'm', 'p', 'l', 'i', 'e', 's', ' '] =~= seq!['\\'] + seq!['i', 'm', 'p', 'l', 'i', 'e', 's'] + seq![' ']);
    symbols::lemma_name_iff();
    lemma_command_replaced(seq!['i', 'f', 'f'], '⟺');
    assert(seq!['\\', 'i', 'f', 'f'] =~= seq!['\\'] + seq!['i', 'f', 'f']);
    assert(seq!['\\', 'i', 'f', 'f', ' '] =~= seq!['\\'] + seq!['i', 'f', 'f'] + seq![' ']);
    symbols::lemma_name_infty();
    lemma_command_replaced(seq!['i', 'n', 'f', 't', 'y'], '∞');
    assert(seq!['\\', 'i', 'n', 'f', 't', 'y'] =~= seq!['\\'] + seq!['i', 'n', 'f', 't', 'y']);
    assert(seq!['\\', 'i', 'n', 'f', 't', 'y', ' '] =~= seq!['\\'] + seq!['i', 'n', 'f', 't', 'y'] + seq![' ']);
    symbols::lemma_name_partial();
    lemma_command_replaced(seq!['p', 'a', 'r', 't', 'i', 'a', 'l'], '∂');
    assert(seq!['\\', 'p', 'a', 'r', 't', 'i', 'a', 'l'] =~= seq!['\\'] + seq!['p', 'a', 'r', 't', 'i', 'a', 'l']);
    assert(seq!['\\', 'p', 'a', 'r', 't', 'i', 'a', 'l', ' '] =~= seq!['\\'] + seq!['p', 'a', 'r', 't', 'i', 'a', 'l'] + seq![' ']);
}

/// Each of the commands `\nabla` to `\ell` of the table becomes its symbol,
/// alone and before a space.
pub proof fn lemma_symbols_10()
    ensures
        replace_symbols(seq!['\\', 'n', 'a', 'b', 'l', 'a']) == seq!['∇'],
        replace_symbols(seq!['\\', 'n', 'a', 'b', 'l', 'a', ' ']) == seq!['∇', ' '],
        replace_symbols(seq!['\\', 's', 'q', 'r', 't']) == seq!['√'],
        replace_symbols(seq!['\\', 's', 'q', 'r', 't', ' ']) == seq!['√', ' '],
        replace_symbols(seq!['\\', 'l', 'd', 'o', 't', 's']) == seq!['…'],
        replace_symbols(seq!['\\', 'l', 'd', 'o', 't', 's', ' ']) == seq!['…', ' '],
        replace_symbols(seq!['\\', 'c', 'd', 'o', 't', 's']) == seq!['⋯'],
        replace_symbols(seq!['\\', 'c', 'd', 'o', 't', 's', ' ']) == seq!['⋯', ' '],
        replace_symbols(seq!['\\', 'v', 'd', 'o', 't', 's']) == seq!['⋮'],
        replace_symbols(seq!['\\', 'v', 'd', 'o', 't', 's', ' ']) == seq!['⋮', ' '],
        replace_symbols(seq!['\\', 'd', 'd', 'o', 't', 's']) == seq!['⋱'],
        replace_symbols(seq!['\\', 'd', 'd', 'o', 't', 's', ' ']) == seq!['⋱', ' '],
        replace_symbols(seq!['\\', 'l', 'a', 'n', 'g', 'l', 'e']) == seq!['⟨'],
        replace_symbols(seq!['\\', 'l', 'a', 'n', 'g', 'l', 'e', ' ']) == seq!['⟨', ' '],
        replace_symbols(seq!['\\', 'r', 'a', 'n', 'g', 'l', 'e']) == seq!['⟩'],
        replace_symbols(seq!['\\', 'r', 'a', 'n', 'g', 'l', 'e', ' ']) == seq!['⟩', ' '],
        replace_symbols(seq!['\\', '|']) == seq!['‖'],
        replace_symbols(seq!['\\', '|', ' ']) == seq!['‖', ' '],
        replace_symbols(seq!['\\', 'e', 'l', 'l']) == seq!['ℓ'],
        replace_symbols(seq!['\\', 'e', 'l', 'l', ' ']) == seq!['ℓ', ' '],
{
    symbols::lemma_name_nabla();
    lemma_command_replaced(seq!['n', 'a', 'b', 'l', 'a'], '∇');
    assert(seq!['\\', 'n', 'a', 'b', 'l', 'a'] =~= seq!['\\'] + seq!['n', 'a', 'b', 'l', 'a']);
    assert(seq!['\\', 'n', 'a', 'b', 'l', 'a', ' '] =~= seq!['\\'] + seq!['n', 'a', 'b', 'l', 'a'] + seq![' ']);
    symbols::lemma_name_sqrt();
    lemma_command_replaced(seq!['s', 'q', 'r', 't'], '√');
    assert(seq!['\\', 's', 'q', 'r', 't'] =~= seq!['\\'] + seq!['s', 'q', 'r', 't']);
    assert(seq!['\\', 's', 'q', 'r', 't', ' '] =~= seq!['\\'] + seq!['s', 'q', 'r', 't'] + seq![' ']);
    symbols::lemma_name_ldots();
    lemma_command_replaced(seq!['l', 'd', 'o', 't', 's'], '…');
    assert(seq!['\\', 'l', 'd', 'o', 't', 's'] =~= seq!['\\'] + seq!['l', 'd', 'o', 't', 's']);
    assert(seq!['\\', 'l', 'd', 'o', 't', 's', ' '] =~= seq!['\\'] + seq!['l', 'd', 'o', 't', 's'] + seq![' ']);
    symbols::lemma_name_cdots();
    lemma_command_replaced(seq!['c', 'd', 'o', 't', 's'], '⋯');
    assert(seq!['\\', 'c', 'd', 'o', 't', 's'] =~= seq!['\\'] + seq!['c', 'd', 'o', 't', 's']);
    assert(seq!['\\', 'c', 'd', 'o', 't', 's', ' '] =~= seq!['\\'] + seq!['c', 'd', 'o', 't', 's'] + seq![' ']);
    symbols::lemma_name_vdots();
    lemma_command_replaced(seq!['v', 'd', 'o', 't', 's'], '⋮');
    assert(seq!['\\', 'v', 'd', 'o', 't', 's'] =~= seq!['\\'] + seq!['v', 'd', 'o', 't', 's']);
    assert(seq!['\\', 'v', 'd', 'o', 't', 's', ' '] =~= seq!['\\'] + seq!['v', 'd', 'o', 't', 's'] + seq![' ']);
    symbols::lemma_name_ddots();
    lemma_command_replaced(seq!['d', 'd', 'o', 't', 's'], '⋱');
    assert(seq!['\\', 'd', 'd', 'o', 't', 's'] =~= seq!['\\'] + seq!['d', 'd', 'o', 't', 's']);
    assert(seq!['\\', 'd', 'd', 'o', 't', 's', ' '] =~= seq!['\\'] + seq!['d', 'd', 'o', 't', 's'] + seq![' ']);
    symbols::lemma_name_langle();
    lemma_command_replaced(seq!['l', 'a', 'n', 'g', 'l', 'e'], '⟨');
    assert(seq!['\\', 'l', 'a', 'n', 'g', 'l', 'e'] =~= seq!['\\'] + seq!['l', 'a', 'n', 'g', 'l', 'e']);
    assert(seq!['\\', 'l', 'a', 'n', 'g', 'l', 'e', ' '] =~= seq!['\\'] + seq!['l', 'a', 'n', 'g', 'l', 'e'] + seq![' ']);
    symbols::lemma_name_rangle();
    lemma_command_replaced(seq!['r', 'a', 'n', 'g', 'l', 'e'], '⟩');
    assert(seq!['\\', 'r', 'a', 'n', 'g', 'l', 'e'] =~= seq!['\\'] + seq!['r', 'a', 'n', 'g', 'l', 'e']);
    assert(seq!['\\', 'r', 'a', 'n', 'g', 'l', 'e', ' '] =~= seq!['\\'] + seq!['r', 'a', 'n', 'g', 'l', 'e'] + seq![' ']);
    symbols::lemma_name_bar();
    lemma_command_replaced(seq!['|'], '‖');
    assert(seq!['\\', '|'] =~= seq!['\\'] + seq!['|']);
    assert(seq!['\\', '|', ' '] =~= seq!['\\'] + seq!['|'] + seq![' ']);
    symbols::lemma_name_ell();
    lemma_command_replaced(seq!['e', 'l', 'l'], 'ℓ');
    assert(seq!['\\', 'e', 'l', 'l'] =~= seq!['\\'] + seq!['e', 'l', 'l']);
    assert(seq!['\\', 'e', 'l', 'l', ' '] =~= seq!['\\'] + seq!['e', 'l', 'l'] + seq![' ']);
}

/// Each of the commands `\hbar` to `\mathbb{C}` of the table becomes its symbol,
/// alone and before a space.
pub proof fn lemma_symbols_11()
    ensures
        replace_symbols(seq!['\\', 'h', 'b', 'a', 'r']) == seq!['ℏ'],
        replace_symbols(seq!['\\', 'h', 'b', 'a', 'r', ' ']) == seq!['ℏ', ' '],
        replace_symbols(seq!['\\', 'm', 'a', 't', 'h', 'b', 'b', '{', 'R', '}']) == seq!['ℝ'],
        replace_symbols(seq!['\\', 'm', 'a', 't', 'h', 'b', 'b', '{', 'R', '}', ' ']) == seq!['ℝ', ' '],
        replace_symbols(seq!['\\', 'm', 'a', 't', 'h', 'b', 'b', '{', 'N', '}']) == seq!['ℕ'],
        replace_symbols(seq!['\\', 'm', 'a', 't', 'h', 'b', 'b', '{', 'N', '}', ' ']) == seq!['ℕ', ' '],
        replace_symbols(seq!['\\', 'm', 'a', 't', 'h', 'b', 'b', '{', 'Z', '}']) == seq!['ℤ'],
        replace_symbols(seq!['\\', 'm', 'a', 't', 'h', 'b', 'b', '{', 'Z', '}', ' ']) == seq!['ℤ', ' '],
        replace_symbols(seq!['\\', 'm', 'a', 't', 'h', 'b', 'b', '{', 'Q', '}']) == seq!['ℚ'],
        replace_symbols(seq!['\\', 'm', 'a', 't', 'h', 'b', 'b', '{', 'Q', '}', ' ']) == seq!['ℚ', ' '],
        replace_symbols(seq!['\\', 'm', 'a', 't', 'h', 'b', 'b', '{', 'C', '}']) == seq!['ℂ'],
        replace_symbols(seq!['\\', 'm', 'a', 't', 'h', 'b', 'b', '{', 'C', '}', ' ']) == seq!['ℂ', ' '],
{
    symbols::lemma_name_hbar();
    lemma_command_replaced(seq!['h', 'b', 'a', 'r'], 'ℏ');
    assert(seq!['\\', 'h', 'b', 'a', 'r'] =~= seq!['\\'] + seq!['h', 'b', 'a', 'r']);
    assert(seq!['\\', 'h', 'b', 'a', 'r', ' '] =~= seq!['\\'] + seq!['h', 'b', 'a', 'r'] + seq![' ']);
    symbols::lemma_name_mathbb_upper_r();
    lemma_command_replaced(seq!['m', 'a', 't', 'h', 'b', 'b', '{', 'R', '}'], 'ℝ');
    assert(seq!['\\', 'm', 'a', 't', 'h', 'b', 'b', '{', 'R', '}'] =~= seq!['\\'] + seq!['m', 'a', 't', 'h', 'b', 'b', '{', 'R', '}']);
    assert(seq!['\\', 'm', 'a', 't', 'h', 'b', 'b', '{', 'R', '}', ' '] =~= seq!['\\'] + seq!['m', 'a', 't', 'h', 'b', 'b', '{', 'R', '}'] + seq![' ']);
    symbols::lemma_name_mathbb_upper_n();
    lemma_command_replaced(seq!['m', 'a', 't', 'h', 'b', 'b', '{', 'N', '}'], 'ℕ');
    assert(seq!['\\', 'm', 'a', 't', 'h', 'b', 'b', '{', 'N', '}'] =~= seq!['\\'] + seq!['m', 'a', 't', 'h', 'b', 'b', '{', 'N', '}']);
    assert(seq!['\\', 'm', 'a', 't', 'h', 'b', 'b', '{', 'N', '}', ' '] =~= seq!['\\'] + seq!['m', 'a', 't', 'h', 'b', 'b', '{', 'N', '}'] + seq![' ']);
    symbols::lemma_name_mathbb_upper_z();
    lemma_command_replaced(seq!['m', 'a', 't', 'h', 'b', 'b', '{', 'Z', '}'], 'ℤ');
    assert(seq!['\\', 'm', 'a', 't', 'h', 'b', 'b', '{', 'Z', '}'] =~= seq!['\\'] + seq!['m', 'a', 't', 'h', 'b', 'b', '{', 'Z', '}']);
    assert(seq!['\\', 'm', 'a', 't', 'h', 'b', 'b', '{', 'Z', '}', ' '] =~= seq!['\\'] + seq!['m', 'a', 't', 'h', 'b', 'b', '{', 'Z', '}'] + seq![' ']);
    symbols::lemma_name_mathbb_upper_q();
    lemma_command_replaced(seq!['m', 'a', 't', 'h', 'b', 'b', '{', 'Q', '}'], 'ℚ');
    assert(seq!['\\', 'm', 'a', 't', 'h', 'b', 'b', '{', 'Q', '}'] =~= seq!['\\'] + seq!['m', 'a', 't', 'h', 'b', 'b', '{', 'Q', '}']);
    assert(seq!['\\', 'm', 'a', 't', 'h', 'b', 'b', '{', 'Q', '}', ' '] =~= seq!['\\'] + seq!['m', 'a', 't', 'h', 'b', 'b', '{', 'Q', '}'] + seq![' ']);
    symbols::lemma_name_mathbb_upper_c();
    lemma_command_replaced(seq!['m', 'a', 't', 'h', 'b', 'b', '{', 'C', '}'], 'ℂ');
    assert(seq!['\\', 'm', 'a', 't', 'h', 'b', 'b', '{', 'C', '}'] =~= seq!['\\'] + seq!['m', 'a', 't', 'h', 'b', 'b', '{', 'C', '}']);
    assert(seq!['\\', 'm', 'a', 't', 'h', 'b', 'b', '{', 'C', '}', ' '] =~= seq!['\\'] + seq!['m', 'a', 't', 'h', 'b', 'b', '{', 'C', '}'] + seq![' ']);
}

} // verus!
