//! The table of LaTeX commands that inline rendering replaces by a symbol.
use vstd::prelude::*;
use crate::text::{lemma_starts_with_chars, occurs_at, occurs_at_exec, starts_with};

verus! {

/// The symbol for the command whose name (the text after its backslash)
/// starts `s`, trying longer names first, with the length of that name.
#[verifier::opaque]
pub open spec fn symbol_for_name(s: Seq<char>) -> Option<(nat, char)> {
    if symbol_of_length_14(s) is Some {
        symbol_of_length_14(s)
    } else if symbol_of_length_10(s) is Some {
        symbol_of_length_10(s)
    } else if symbol_of_length_9(s) is Some {
        symbol_of_length_9(s)
    } else if symbol_of_length_8(s) is Some {
        symbol_of_length_8(s)
    } else if symbol_of_length_7(s) is Some {
        symbol_of_length_7(s)
    } else if symbol_of_length_6(s) is Some {
        symbol_of_length_6(s)
    } else if symbol_of_length_5(s) is Some {
        symbol_of_length_5(s)
    } else if symbol_of_length_4(s) is Some {
        symbol_of_length_4(s)
    } else if symbol_of_length_3(s) is Some {
        symbol_of_length_3(s)
    } else if symbol_of_length_2(s) is Some {
        symbol_of_length_2(s)
    } else {
        symbol_of_length_1(s)
    }
}

/// The symbol for the command of the table whose name has 14 characters
/// and starts `s`.
#[verifier::opaque]
pub open spec fn symbol_of_length_14(s: Seq<char>) -> Option<(nat, char)> {
    if starts_with(s, seq!['l', 'e', 'f', 't', 'r', 'i', 'g', 'h', 't', 'a', 'r', 'r', 'o', 'w']) {
        Some((14, '↔'))
    } else if starts_with(s, seq!['L', 'e', 'f', 't', 'r', 'i', 'g', 'h', 't', 'a', 'r', 'r', 'o', 'w']) {
        Some((14, '⇔'))
    } else {
        None
    }
}

proof fn lemma_length_14_absent(s: Seq<char>)
    requires
        s.len() < 14,
    ensures
        symbol_of_length_14(s) is None,
{
    reveal(symbol_of_length_14);
}

/// The symbol for the command of the table whose name has 10 characters
/// and starts `s`.
#[verifier::opaque]
pub open spec fn symbol_of_length_10(s: Seq<char>) -> Option<(nat, char)> {
    if starts_with(s, seq!['v', 'a', 'r', 'e', 'p', 's', 'i', 'l', 'o', 'n']) {
        Some((10, 'ε'))
    } else if starts_with(s, seq!['r', 'i', 'g', 'h', 't', 'a', 'r', 'r', 'o', 'w']) {
        Some((10, '→'))
    } else if starts_with(s, seq!['R', 'i', 'g', 'h', 't', 'a', 'r', 'r', 'o', 'w']) {
        Some((10, '⇒'))
    } else if starts_with(s, seq!['v', 'a', 'r', 'n', 'o', 't', 'h', 'i', 'n', 'g']) {
        Some((10, '∅'))
    } else {
        None
    }
}

proof fn lemma_length_10_absent(s: Seq<char>)
    requires
        s.len() < 10,
    ensures
        symbol_of_length_10(s) is None,
{
    reveal(symbol_of_length_10);
}

/// The symbol for the command of the table whose name has 9 characters
/// and starts `s`.
#[verifier::opaque]
pub open spec fn symbol_of_length_9(s: Seq<char>) -> Option<(nat, char)> {
    if starts_with(s, seq!['l', 'e', 'f', 't', 'a', 'r', 'r', 'o', 'w']) {
        Some((9, '←'))
    } else if starts_with(s, seq!['L', 'e', 'f', 't', 'a', 'r', 'r', 'o', 'w']) {
        Some((9, '⇐'))
    } else if starts_with(s, seq!['d', 'o', 'w', 'n', 'a', 'r', 'r', 'o', 'w']) {
        Some((9, '↓'))
    } else if starts_with(s, seq!['m', 'a', 't', 'h', 'b', 'b', '{', 'R', '}']) {
        Some((9, 'ℝ'))
    } else if starts_with(s, seq!['m', 'a', 't', 'h', 'b', 'b', '{', 'N', '}']) {
        Some((9, 'ℕ'))
    } else if starts_with(s, seq!['m', 'a', 't', 'h', 'b', 'b', '{', 'Z', '}']) {
        Some((9, 'ℤ'))
    } else if starts_with(s, seq!['m', 'a', 't', 'h', 'b', 'b', '{', 'Q', '}']) {
        Some((9, 'ℚ'))
    } else if starts_with(s, seq!['m', 'a', 't', 'h', 'b', 'b', '{', 'C', '}']) {
        Some((9, 'ℂ'))
    } else {
        None
    }
}

proof fn lemma_length_9_absent(s: Seq<char>)
    requires
        s.len() < 9,
    ensures
        symbol_of_length_9(s) is None,
{
    reveal(symbol_of_length_9);
}

/// The symbol for the command of the table whose name has 8 characters
/// and starts `s`.
#[verifier::opaque]
pub open spec fn symbol_of_length_8(s: Seq<char>) -> Option<(nat, char)> {
    if starts_with(s, seq!['v', 'a', 'r', 't', 'h', 'e', 't', 'a']) {
        Some((8, 'ϑ'))
    } else if starts_with(s, seq!['s', 'u', 'b', 's', 'e', 't', 'e', 'q']) {
        Some((8, '⊆'))
    } else if starts_with(s, seq!['s', 'u', 'p', 's', 'e', 't', 'e', 'q']) {
        Some((8, '⊇'))
    } else if starts_with(s, seq!['e', 'm', 'p', 't', 'y', 's', 'e', 't']) {
        Some((8, '∅'))
    } else {
        None
    }
}

proof fn lemma_length_8_absent(s: Seq<char>)
    requires
        s.len() < 8,
    ensures
        symbol_of_length_8(s) is None,
{
    reveal(symbol_of_length_8);
}

/// The symbol for the command of the table whose name has 7 characters
/// and starts `s`.
#[verifier::opaque]
pub open spec fn symbol_of_length_7(s: Seq<char>) -> Option<(nat, char)> {
    if starts_with(s, seq!['e', 'p', 's', 'i', 'l', 'o', 'n']) {
        Some((7, 'ε'))
    } else if starts_with(s, seq!['u', 'p', 's', 'i', 'l', 'o', 'n']) {
        Some((7, 'υ'))
    } else if starts_with(s, seq!['U', 'p', 's', 'i', 'l', 'o', 'n']) {
        Some((7, 'Υ'))
    } else if starts_with(s, seq!['u', 'p', 'a', 'r', 'r', 'o', 'w']) {
        Some((7, '↑'))
    } else if starts_with(s, seq!['i', 'm', 'p', 'l', 'i', 'e', 's']) {
        Some((7, '⟹'))
    } else if starts_with(s, seq!['p', 'a', 'r', 't', 'i', 'a', 'l']) {
        Some((7, '∂'))
    } else {
        None
    }
}

proof fn lemma_length_7_absent(s: Seq<char>)
    requires
        s.len() < 7,
    ensures
        symbol_of_length_7(s) is None,
{
    reveal(symbol_of_length_7);
}

/// The symbol for the command of the table whose name has 6 characters
/// and starts `s`.
#[verifier::opaque]
pub open spec fn symbol_of_length_6(s: Seq<char>) -> Option<(nat, char)> {
    if starts_with(s, seq!['l', 'a', 'm', 'b', 'd', 'a']) {
        Some((6, 'λ'))
    } else if starts_with(s, seq!['v', 'a', 'r', 'p', 'h', 'i']) {
        Some((6, 'φ'))
    } else if starts_with(s, seq!['L', 'a', 'm', 'b', 'd', 'a']) {
        Some((6, 'Λ'))
    } else if starts_with(s, seq!['a', 'p', 'p', 'r', 'o', 'x']) {
        Some((6, '≈'))
    } else if starts_with(s, seq!['p', 'r', 'o', 'p', 't', 'o']) {
        Some((6, '∝'))
    } else if starts_with(s, seq!['m', 'a', 'p', 's', 't', 'o']) {
        Some((6, '↦'))
    } else if starts_with(s, seq!['b', 'i', 'g', 'c', 'u', 'p']) {
        Some((6, '⋃'))
    } else if starts_with(s, seq!['b', 'i', 'g', 'c', 'a', 'p']) {
        Some((6, '⋂'))
    } else if starts_with(s, seq!['s', 'u', 'b', 's', 'e', 't']) {
        Some((6, '⊂'))
    } else if starts_with(s, seq!['s', 'u', 'p', 's', 'e', 't']) {
        Some((6, '⊃'))
    } else if starts_with(s, seq!['f', 'o', 'r', 'a', 'l', 'l']) {
        Some((6, '∀'))
    } else if starts_with(s, seq!['e', 'x', 'i', 's', 't', 's']) {
        Some((6, '∃'))
    } else if starts_with(s, seq!['l', 'a', 'n', 'g', 'l', 'e']) {
        Some((6, '⟨'))
    } else if starts_with(s, seq!['r', 'a', 'n', 'g', 'l', 'e']) {
        Some((6, '⟩'))
    } else {
        None
    }
}

proof fn lemma_length_6_absent(s: Seq<char>)
    requires
        s.len() < 6,
    ensures
        symbol_of_length_6(s) is None,
{
    reveal(symbol_of_length_6);
}

/// The symbol for the command of the table whose name has 5 characters
/// and starts `s`.
#[verifier::opaque]
pub open spec fn symbol_of_length_5(s: Seq<char>) -> Option<(nat, char)> {
    if starts_with(s, seq!['a', 'l', 'p', 'h', 'a']) {
        Some((5, 'α'))
    } else if starts_with(s, seq!['g', 'a', 'm', 'm', 'a']) {
        Some((5, 'γ'))
    } else if starts_with(s, seq!['d', 'e', 'l', 't', 'a']) {
        Some((5, 'δ'))
    } else if starts_with(s, seq!['t', 'h', 'e', 't', 'a']) {
        Some((5, 'θ'))
    } else if starts_with(s, seq!['k', 'a', 'p', 'p', 'a']) {
        Some((5, 'κ'))
    } else if starts_with(s, seq!['s', 'i', 'g', 'm', 'a']) {
        Some((5, 'σ'))
    } else if starts_with(s, seq!['o', 'm', 'e', 'g', 'a']) {
        Some((5, 'ω'))
    } else if starts_with(s, seq!['G', 'a', 'm', 'm', 'a']) {
        Some((5, 'Γ'))
    } else if starts_with(s, seq!['D', 'e', 'l', 't', 'a']) {
        Some((5, 'Δ'))
    } else if starts_with(s, seq!['T', 'h', 'e', 't', 'a']) {
        Some((5, 'Θ'))
    } else if starts_with(s, seq!['S', 'i', 'g', 'm', 'a']) {
        Some((5, 'Σ'))
    } else if starts_with(s, seq!['O', 'm', 'e', 'g', 'a']) {
        Some((5, 'Ω'))
    } else if starts_with(s, seq!['t', 'i', 'm', 'e', 's']) {
        Some((5, '×'))
    } else if starts_with(s, seq!['e', 'q', 'u', 'i', 'v']) {
        Some((5, '≡'))
    } else if starts_with(s, seq!['n', 'o', 't', 'i', 'n']) {
        Some((5, '∉'))
    } else if starts_with(s, seq!['i', 'n', 'f', 't', 'y']) {
        Some((5, '∞'))
    } else if starts_with(s, seq!['n', 'a', 'b', 'l', 'a']) {
        Some((5, '∇'))
    } else if starts_with(s, seq!['l', 'd', 'o', 't', 's']) {
        Some((5, '…'))
    } else if starts_with(s, seq!['c', 'd', 'o', 't', 's']) {
        Some((5, '⋯'))
    } else if starts_with(s, seq!['v', 'd', 'o', 't', 's']) {
        Some((5, '⋮'))
    } else if starts_with(s, seq!['d', 'd', 'o', 't', 's']) {
        Some((5, '⋱'))
    } else {
        None
    }
}

proof fn lemma_length_5_absent(s: Seq<char>)
    requires
        s.len() < 5,
    ensures
        symbol_of_length_5(s) is None,
{
    reveal(symbol_of_length_5);
}

/// The symbol for the command of the table whose name has 4 characters
/// and starts `s`.
#[verifier::opaque]
pub open spec fn symbol_of_length_4(s: Seq<char>) -> Option<(nat, char)> {
    if starts_with(s, seq!['b', 'e', 't', 'a']) {
        Some((4, 'β'))
    } else if starts_with(s, seq!['z', 'e', 't', 'a']) {
        Some((4, 'ζ'))
    } else if starts_with(s, seq!['i', 'o', 't', 'a']) {
        Some((4, 'ι'))
    } else if starts_with(s, seq!['c', 'd', 'o', 't']) {
        Some((4, '·'))
    } else if starts_with(s, seq!['c', 'i', 'r', 'c']) {
        Some((4, '∘'))
    } else if starts_with(s, seq!['p', 'r', 'o', 'd']) {
        Some((4, '∏'))
    } else if starts_with(s, seq!['o', 'i', 'n', 't']) {
        Some((4, '∮'))
    } else if starts_with(s, seq!['l', 'a', 'n', 'd']) {
        Some((4, '∧'))
    } else if starts_with(s, seq!['s', 'q', 'r', 't']) {
        Some((4, '√'))
    } else if starts_with(s, seq!['h', 'b', 'a', 'r']) {
        Some((4, 'ℏ'))
    } else {
        None
    }
}

proof fn lemma_length_4_absent(s: Seq<char>)
    requires
        s.len() < 4,
    ensures
        symbol_of_length_4(s) is None,
{
    reveal(symbol_of_length_4);
}

/// The symbol for the command of the table whose name has 3 characters
/// and starts `s`.
#[verifier::opaque]
pub open spec fn symbol_of_length_3(s: Seq<char>) -> Option<(nat, char)> {
    if starts_with(s, seq!['e', 't', 'a']) {
        Some((3, 'η'))
    } else if starts_with(s, seq!['r', 'h', 'o']) {
        Some((3, 'ρ'))
    } else if starts_with(s, seq!['t', 'a', 'u']) {
        Some((3, 'τ'))
    } else if starts_with(s, seq!['p', 'h', 'i']) {
        Some((3, 'φ'))
    } else if starts_with(s, seq!['c', 'h', 'i']) {
        Some((3, 'χ'))
    } else if starts_with(s, seq!['p', 's', 'i']) {
        Some((3, 'ψ'))
    } else if starts_with(s, seq!['P', 'h', 'i']) {
        Some((3, 'Φ'))
    } else if starts_with(s, seq!['P', 's', 'i']) {
        Some((3, 'Ψ'))
    } else if starts_with(s, seq!['d', 'i', 'v']) {
        Some((3, '÷'))
    } else if starts_with(s, seq!['l', 'e', 'q']) {
        Some((3, '≤'))
    } else if starts_with(s, seq!['g', 'e', 'q']) {
        Some((3, '≥'))
    } else if starts_with(s, seq!['n', 'e', 'q']) {
        Some((3, '≠'))
    } else if starts_with(s, seq!['s', 'i', 'm']) {
        Some((3, '∼'))
    } else if starts_with(s, seq!['s', 'u', 'm']) {
        Some((3, '∑'))
    } else if starts_with(s, seq!['i', 'n', 't']) {
        Some((3, '∫'))
    } else if starts_with(s, seq!['c', 'u', 'p']) {
        Some((3, '∪'))
    } else if starts_with(s, seq!['c', 'a', 'p']) {
        Some((3, '∩'))
    } else if starts_with(s, seq!['n', 'e', 'g']) {
        Some((3, '¬'))
    } else if starts_with(s, seq!['l', 'o', 'r']) {
        Some((3, '∨'))
    } else if starts_with(s, seq!['i', 'f', 'f']) {
        Some((3, '⟺'))
    } else if starts_with(s, seq!['e', 'l', 'l']) {
        Some((3, 'ℓ'))
    } else {
        None
    }
}

proof fn lemma_length_3_absent(s: Seq<char>)
    requires
        s.len() < 3,
    ensures
        symbol_of_length_3(s) is None,
{
    reveal(symbol_of_length_3);
}

/// The symbol for the command of the table whose name has 2 characters
/// and starts `s`.
#[verifier::opaque]
pub open spec fn symbol_of_length_2(s: Seq<char>) -> Option<(nat, char)> {
    if starts_with(s, seq!['m', 'u']) {
        Some((2, 'μ'))
    } else if starts_with(s, seq!['n', 'u']) {
        Some((2, 'ν'))
    } else if starts_with(s, seq!['x', 'i']) {
        Some((2, 'ξ'))
    } else if starts_with(s, seq!['p', 'i']) {
        Some((2, 'π'))
    } else if starts_with(s, seq!['X', 'i']) {
        Some((2, 'Ξ'))
    } else if starts_with(s, seq!['P', 'i']) {
        Some((2, 'Π'))
    } else if starts_with(s, seq!['p', 'm']) {
        Some((2, '±'))
    } else if starts_with(s, seq!['m', 'p']) {
        Some((2, '∓'))
    } else if starts_with(s, seq!['l', 'e']) {
        Some((2, '≤'))
    } else if starts_with(s, seq!['g', 'e']) {
        Some((2, '≥'))
    } else if starts_with(s, seq!['n', 'e']) {
        Some((2, '≠'))
    } else if starts_with(s, seq!['l', 'l']) {
        Some((2, '≪'))
    } else if starts_with(s, seq!['g', 'g']) {
        Some((2, '≫'))
    } else if starts_with(s, seq!['t', 'o']) {
        Some((2, '→'))
    } else if starts_with(s, seq!['i', 'n']) {
        Some((2, '∈'))
    } else {
        None
    }
}

proof fn lemma_length_2_absent(s: Seq<char>)
    requires
        s.len() < 2,
    ensures
        symbol_of_length_2(s) is None,
{
    reveal(symbol_of_length_2);
}

/// The symbol for the command of the table whose name has 1 character
/// and starts `s`.
#[verifier::opaque]
pub open spec fn symbol_of_length_1(s: Seq<char>) -> Option<(nat, char)> {
    if starts_with(s, seq!['|']) {
        Some((1, '‖'))
    } else {
        None
    }
}

proof fn lemma_length_1_absent(s: Seq<char>)
    requires
        s.len() < 1,
    ensures
        symbol_of_length_1(s) is None,
{
    reveal(symbol_of_length_1);
}

/// No name of the table is longer than the text it should start.
proof fn lemma_longer_absent(s: Seq<char>)
    ensures
        s.len() < 14 ==> symbol_of_length_14(s) is None,
        s.len() < 10 ==> symbol_of_length_10(s) is None,
        s.len() < 9 ==> symbol_of_length_9(s) is None,
        s.len() < 8 ==> symbol_of_length_8(s) is None,
        s.len() < 7 ==> symbol_of_length_7(s) is None,
        s.len() < 6 ==> symbol_of_length_6(s) is None,
        s.len() < 5 ==> symbol_of_length_5(s) is None,
        s.len() < 4 ==> symbol_of_length_4(s) is None,
        s.len() < 3 ==> symbol_of_length_3(s) is None,
        s.len() < 2 ==> symbol_of_length_2(s) is None,
        s.len() < 1 ==> symbol_of_length_1(s) is None,
{
    if s.len() < 14 {
        lemma_length_14_absent(s);
    }
    if s.len() < 10 {
        lemma_length_10_absent(s);
    }
    if s.len() < 9 {
        lemma_length_9_absent(s);
    }
    if s.len() < 8 {
        lemma_length_8_absent(s);
    }
    if s.len() < 7 {
        lemma_length_7_absent(s);
    }
    if s.len() < 6 {
        lemma_length_6_absent(s);
    }
    if s.len() < 5 {
        lemma_length_5_absent(s);
    }
    if s.len() < 4 {
        lemma_length_4_absent(s);
    }
    if s.len() < 3 {
        lemma_length_3_absent(s);
    }
    if s.len() < 2 {
        lemma_length_2_absent(s);
    }
    if s.len() < 1 {
        lemma_length_1_absent(s);
    }
}

/// `occurs_at` at `i` is `starts_with` on the text from `i` on.
pub proof fn lemma_occurs_at_skip(s: Seq<char>, p: Seq<char>, i: int)
    requires
        0 <= i <= s.len(),
    ensures
        occurs_at(s, p, i) == starts_with(s.skip(i), p),
{
    if occurs_at(s, p, i) {
        assert(s.skip(i).subrange(0, p.len() as int) =~= s.subrange(i, i + p.len()));
    }
    if starts_with(s.skip(i), p) {
        assert(s.skip(i).subrange(0, p.len() as int) =~= s.subrange(i, i + p.len()));
    }
}

/// A name found in the table is not empty and fits in the text.
pub proof fn lemma_symbol_len(s: Seq<char>)
    ensures
        symbol_for_name(s) matches Some((n, c)) ==> 1 <= n <= s.len(),
{
    reveal(symbol_for_name);
    reveal(symbol_of_length_14);
    reveal(symbol_of_length_10);
    reveal(symbol_of_length_9);
    reveal(symbol_of_length_8);
    reveal(symbol_of_length_7);
    reveal(symbol_of_length_6);
    reveal(symbol_of_length_5);
    reveal(symbol_of_length_4);
    reveal(symbol_of_length_3);
    reveal(symbol_of_length_2);
    reveal(symbol_of_length_1);
}

/// The command name that starts at `v[i]`, if it is one of the table's, as
/// the length of the name and its symbol.
#[verifier::rlimit(60)]
pub fn symbol_at(v: &Vec<char>, i: usize) -> (r: Option<(usize, char)>)
    requires
        i <= v.len(),
    ensures
        r matches Some((n, c)) ==> symbol_for_name(v@.skip(i as int)) == Some((n as nat, c)),
        r is None ==> symbol_for_name(v@.skip(i as int)) is None,
{
    let ghost s = v@.skip(i as int);
    reveal(symbol_for_name);
    reveal(symbol_of_length_14);
    reveal(symbol_of_length_10);
    reveal(symbol_of_length_9);
    reveal(symbol_of_length_8);
    reveal(symbol_of_length_7);
    reveal(symbol_of_length_6);
    reveal(symbol_of_length_5);
    reveal(symbol_of_length_4);
    reveal(symbol_of_length_3);
    reveal(symbol_of_length_2);
    reveal(symbol_of_length_1);
    let name: [char; 14] = ['l', 'e', 'f', 't', 'r', 'i', 'g', 'h', 't', 'a', 'r', 'r', 'o', 'w'];
    proof {
        assert(name@ == seq!['l', 'e', 'f', 't', 'r', 'i', 'g', 'h', 't', 'a', 'r', 'r', 'o', 'w']);
        lemma_occurs_at_skip(v@, name@, i as int);
    }
    if occurs_at_exec(v, &name, i) {
        return Some((14, '↔'));
    }
    let name: [char; 14] = ['L', 'e', 'f', 't', 'r', 'i', 'g', 'h', 't', 'a', 'r', 'r', 'o', 'w'];
    proof {
        assert(name@ == seq!['L', 'e', 'f', 't', 'r', 'i', 'g', 'h', 't', 'a', 'r', 'r', 'o', 'w']);
        lemma_occurs_at_skip(v@, name@, i as int);
    }
    if occurs_at_exec(v, &name, i) {
        return Some((14, '⇔'));
    }
    let name: [char; 10] = ['v', 'a', 'r', 'e', 'p', 's', 'i', 'l', 'o', 'n'];
    proof {
        assert(name@ == seq!['v', 'a', 'r', 'e', 'p', 's', 'i', 'l', 'o', 'n']);
        lemma_occurs_at_skip(v@, name@, i as int);
    }
    if occurs_at_exec(v, &name, i) {
        return Some((10, 'ε'));
    }
    let name: [char; 10] = ['r', 'i', 'g', 'h', 't', 'a', 'r', 'r', 'o', 'w'];
    proof {
        assert(name@ == seq!['r', 'i', 'g', 'h', 't', 'a', 'r', 'r', 'o', 'w']);
        lemma_occurs_at_skip(v@, name@, i as int);
    }
    if occurs_at_exec(v, &name, i) {
        return Some((10, '→'));
    }
    let name: [char; 10] = ['R', 'i', 'g', 'h', 't', 'a', 'r', 'r', 'o', 'w'];
    proof {
        assert(name@ == seq!['R', 'i', 'g', 'h', 't', 'a', 'r', 'r', 'o', 'w']);
        lemma_occurs_at_skip(v@, name@, i as int);
    }
    if occurs_at_exec(v, &name, i) {
        return Some((10, '⇒'));
    }
    let name: [char; 10] = ['v', 'a', 'r', 'n', 'o', 't', 'h', 'i', 'n', 'g'];
    proof {
        assert(name@ == seq!['v', 'a', 'r', 'n', 'o', 't', 'h', 'i', 'n', 'g']);
        lemma_occurs_at_skip(v@, name@, i as int);
    }
    if occurs_at_exec(v, &name, i) {
        return Some((10, '∅'));
    }
    let name: [char; 9] = ['l', 'e', 'f', 't', 'a', 'r', 'r', 'o', 'w'];
    proof {
        assert(name@ == seq!['l', 'e', 'f', 't', 'a', 'r', 'r', 'o', 'w']);
        lemma_occurs_at_skip(v@, name@, i as int);
    }
    if occurs_at_exec(v, &name, i) {
        return Some((9, '←'));
    }
    let name: [char; 9] = ['L', 'e', 'f', 't', 'a', 'r', 'r', 'o', 'w'];
    proof {
        assert(name@ == seq!['L', 'e', 'f', 't', 'a', 'r', 'r', 'o', 'w']);
        lemma_occurs_at_skip(v@, name@, i as int);
    }
    if occurs_at_exec(v, &name, i) {
        return Some((9, '⇐'));
    }
    let name: [char; 9] = ['d', 'o', 'w', 'n', 'a', 'r', 'r', 'o', 'w'];
    proof {
        assert(name@ == seq!['d', 'o', 'w', 'n', 'a', 'r', 'r', 'o', 'w']);
        lemma_occurs_at_skip(v@, name@, i as int);
    }
    if occurs_at_exec(v, &name, i) {
        return Some((9, '↓'));
    }
    let name: [char; 9] = ['m', 'a', 't', 'h', 'b', 'b', '{', 'R', '}'];
    proof {
        assert(name@ == seq!['m', 'a', 't', 'h', 'b', 'b', '{', 'R', '}']);
        lemma_occurs_at_skip(v@, name@, i as int);
    }
    if occurs_at_exec(v, &name, i) {
        return Some((9, 'ℝ'));
    }
    let name: [char; 9] = ['m', 'a', 't', 'h', 'b', 'b', '{', 'N', '}'];
    proof {
        assert(name@ == seq!['m', 'a', 't', 'h', 'b', 'b', '{', 'N', '}']);
        lemma_occurs_at_skip(v@, name@, i as int);
    }
    if occurs_at_exec(v, &name, i) {
        return Some((9, 'ℕ'));
    }
    let name: [char; 9] = ['m', 'a', 't', 'h', 'b', 'b', '{', 'Z', '}'];
    proof {
        assert(name@ == seq!['m', 'a', 't', 'h', 'b', 'b', '{', 'Z', '}']);
        lemma_occurs_at_skip(v@, name@, i as int);
    }
    if occurs_at_exec(v, &name, i) {
        return Some((9, 'ℤ'));
    }
    let name: [char; 9] = ['m', 'a', 't', 'h', 'b', 'b', '{', 'Q', '}'];
    proof {
        assert(name@ == seq!['m', 'a', 't', 'h', 'b', 'b', '{', 'Q', '}']);
        lemma_occurs_at_skip(v@, name@, i as int);
    }
    if occurs_at_exec(v, &name, i) {
        return Some((9, 'ℚ'));
    }
    let name: [char; 9] = ['m', 'a', 't', 'h', 'b', 'b', '{', 'C', '}'];
    proof {
        assert(name@ == seq!['m', 'a', 't', 'h', 'b', 'b', '{', 'C', '}']);
        lemma_occurs_at_skip(v@, name@, i as int);
    }
    if occurs_at_exec(v, &name, i) {
        return Some((9, 'ℂ'));
    }
    let name: [char; 8] = ['v', 'a', 'r', 't', 'h', 'e', 't', 'a'];
    proof {
        assert(name@ == seq!['v', 'a', 'r', 't', 'h', 'e', 't', 'a']);
        lemma_occurs_at_skip(v@, name@, i as int);
    }
    if occurs_at_exec(v, &name, i) {
        return Some((8, 'ϑ'));
    }
    let name: [char; 8] = ['s', 'u', 'b', 's', 'e', 't', 'e', 'q'];
    proof {
        assert(name@ == seq!['s', 'u', 'b', 's', 'e', 't', 'e', 'q']);
        lemma_occurs_at_skip(v@, name@, i as int);
    }
    if occurs_at_exec(v, &name, i) {
        return Some((8, '⊆'));
    }
    let name: [char; 8] = ['s', 'u', 'p', 's', 'e', 't', 'e', 'q'];
    proof {
        assert(name@ == seq!['s', 'u', 'p', 's', 'e', 't', 'e', 'q']);
        lemma_occurs_at_skip(v@, name@, i as int);
    }
    if occurs_at_exec(v, &name, i) {
        return Some((8, '⊇'));
    }
    let name: [char; 8] = ['e', 'm', 'p', 't', 'y', 's', 'e', 't'];
    proof {
        assert(name@ == seq!['e', 'm', 'p', 't', 'y', 's', 'e', 't']);
        lemma_occurs_at_skip(v@, name@, i as int);
    }
    if occurs_at_exec(v, &name, i) {
        return Some((8, '∅'));
    }
    let name: [char; 7] = ['e', 'p', 's', 'i', 'l', 'o', 'n'];
    proof {
        assert(name@ == seq!['e', 'p', 's', 'i', 'l', 'o', 'n']);
        lemma_occurs_at_skip(v@, name@, i as int);
    }
    if occurs_at_exec(v, &name, i) {
        return Some((7, 'ε'));
    }
    let name: [char; 7] = ['u', 'p', 's', 'i', 'l', 'o', 'n'];
    proof {
        assert(name@ == seq!['u', 'p', 's', 'i', 'l', 'o', 'n']);
        lemma_occurs_at_skip(v@, name@, i as int);
    }
    if occurs_at_exec(v, &name, i) {
        return Some((7, 'υ'));
    }
    let name: [char; 7] = ['U', 'p', 's', 'i', 'l', 'o', 'n'];
    proof {
        assert(name@ == seq!['U', 'p', 's', 'i', 'l', 'o', 'n']);
        lemma_occurs_at_skip(v@, name@, i as int);
    }
    if occurs_at_exec(v, &name, i) {
        return Some((7, 'Υ'));
    }
    let name: [char; 7] = ['u', 'p', 'a', 'r', 'r', 'o', 'w'];
    proof {
        assert(name@ == seq!['u', 'p', 'a', 'r', 'r', 'o', 'w']);
        lemma_occurs_at_skip(v@, name@, i as int);
    }
    if occurs_at_exec(v, &name, i) {
        return Some((7, '↑'));
    }
    let name: [char; 7] = ['i', 'm', 'p', 'l', 'i', 'e', 's'];
    proof {
        assert(name@ == seq!['i', 'm', 'p', 'l', 'i', 'e', 's']);
        lemma_occurs_at_skip(v@, name@, i as int);
    }
    if occurs_at_exec(v, &name, i) {
        return Some((7, '⟹'));
    }
    let name: [char; 7] = ['p', 'a', 'r', 't', 'i', 'a', 'l'];
    proof {
        assert(name@ == seq!['p', 'a', 'r', 't', 'i', 'a', 'l']);
        lemma_occurs_at_skip(v@, name@, i as int);
    }
    if occurs_at_exec(v, &name, i) {
        return Some((7, '∂'));
    }
    let name: [char; 6] = ['l', 'a', 'm', 'b', 'd', 'a'];
    proof {
        assert(name@ == seq!['l', 'a', 'm', 'b', 'd', 'a']);
        lemma_occurs_at_skip(v@, name@, i as int);
    }
    if occurs_at_exec(v, &name, i) {
        return Some((6, 'λ'));
    }
    let name: [char; 6] = ['v', 'a', 'r', 'p', 'h', 'i'];
    proof {
        assert(name@ == seq!['v', 'a', 'r', 'p', 'h', 'i']);
        lemma_occurs_at_skip(v@, name@, i as int);
    }
    if occurs_at_exec(v, &name, i) {
        return Some((6, 'φ'));
    }
    let name: [char; 6] = ['L', 'a', 'm', 'b', 'd', 'a'];
    proof {
        assert(name@ == seq!['L', 'a', 'm', 'b', 'd', 'a']);
        lemma_occurs_at_skip(v@, name@, i as int);
    }
    if occurs_at_exec(v, &name, i) {
        return Some((6, 'Λ'));
    }
    let name: [char; 6] = ['a', 'p', 'p', 'r', 'o', 'x'];
    proof {
        assert(name@ == seq!['a', 'p', 'p', 'r', 'o', 'x']);
        lemma_occurs_at_skip(v@, name@, i as int);
    }
    if occurs_at_exec(v, &name, i) {
        return Some((6, '≈'));
    }
    let name: [char; 6] = ['p', 'r', 'o', 'p', 't', 'o'];
    proof {
        assert(name@ == seq!['p', 'r', 'o', 'p', 't', 'o']);
        lemma_occurs_at_skip(v@, name@, i as int);
    }
    if occurs_at_exec(v, &name, i) {
        return Some((6, '∝'));
    }
    let name: [char; 6] = ['m', 'a', 'p', 's', 't', 'o'];
    proof {
        assert(name@ == seq!['m', 'a', 'p', 's', 't', 'o']);
        lemma_occurs_at_skip(v@, name@, i as int);
    }
    if occurs_at_exec(v, &name, i) {
        return Some((6, '↦'));
    }
    let name: [char; 6] = ['b', 'i', 'g', 'c', 'u', 'p'];
    proof {
        assert(name@ == seq!['b', 'i', 'g', 'c', 'u', 'p']);
        lemma_occurs_at_skip(v@, name@, i as int);
    }
    if occurs_at_exec(v, &name, i) {
        return Some((6, '⋃'));
    }
    let name: [char; 6] = ['b', 'i', 'g', 'c', 'a', 'p'];
    proof {
        assert(name@ == seq!['b', 'i', 'g', 'c', 'a', 'p']);
        lemma_occurs_at_skip(v@, name@, i as int);
    }
    if occurs_at_exec(v, &name, i) {
        return Some((6, '⋂'));
    }
    let name: [char; 6] = ['s', 'u', 'b', 's', 'e', 't'];
    proof {
        assert(name@ == seq!['s', 'u', 'b', 's', 'e', 't']);
        lemma_occurs_at_skip(v@, name@, i as int);
    }
    if occurs_at_exec(v, &name, i) {
        return Some((6, '⊂'));
    }
    let name: [char; 6] = ['s', 'u', 'p', 's', 'e', 't'];
    proof {
        assert(name@ == seq!['s', 'u', 'p', 's', 'e', 't']);
        lemma_occurs_at_skip(v@, name@, i as int);
    }
    if occurs_at_exec(v, &name, i) {
        return Some((6, '⊃'));
    }
    let name: [char; 6] = ['f', 'o', 'r', 'a', 'l', 'l'];
    proof {
        assert(name@ == seq!['f', 'o', 'r', 'a', 'l', 'l']);
        lemma_occurs_at_skip(v@, name@, i as int);
    }
    if occurs_at_exec(v, &name, i) {
        return Some((6, '∀'));
    }
    let name: [char; 6] = ['e', 'x', 'i', 's', 't', 's'];
    proof {
        assert(name@ == seq!['e', 'x', 'i', 's', 't', 's']);
        lemma_occurs_at_skip(v@, name@, i as int);
    }
    if occurs_at_exec(v, &name, i) {
        return Some((6, '∃'));
    }
    let name: [char; 6] = ['l', 'a', 'n', 'g', 'l', 'e'];
    proof {
        assert(name@ == seq!['l', 'a', 'n', 'g', 'l', 'e']);
        lemma_occurs_at_skip(v@, name@, i as int);
    }
    if occurs_at_exec(v, &name, i) {
        return Some((6, '⟨'));
    }
    let name: [char; 6] = ['r', 'a', 'n', 'g', 'l', 'e'];
    proof {
        assert(name@ == seq!['r', 'a', 'n', 'g', 'l', 'e']);
        lemma_occurs_at_skip(v@, name@, i as int);
    }
    if occurs_at_exec(v, &name, i) {
        return Some((6, '⟩'));
    }
    let name: [char; 5] = ['a', 'l', 'p', 'h', 'a'];
    proof {
        assert(name@ == seq!['a', 'l', 'p', 'h', 'a']);
        lemma_occurs_at_skip(v@, name@, i as int);
    }
    if occurs_at_exec(v, &name, i) {
        return Some((5, 'α'));
    }
    let name: [char; 5] = ['g', 'a', 'm', 'm', 'a'];
    proof {
        assert(name@ == seq!['g', 'a', 'm', 'm', 'a']);
        lemma_occurs_at_skip(v@, name@, i as int);
    }
    if occurs_at_exec(v, &name, i) {
        return Some((5, 'γ'));
    }
    let name: [char; 5] = ['d', 'e', 'l', 't', 'a'];
    proof {
        assert(name@ == seq!['d', 'e', 'l', 't', 'a']);
        lemma_occurs_at_skip(v@, name@, i as int);
    }
    if occurs_at_exec(v, &name, i) {
        return Some((5, 'δ'));
    }
    let name: [char; 5] = ['t', 'h', 'e', 't', 'a'];
    proof {
        assert(name@ == seq!['t', 'h', 'e', 't', 'a']);
        lemma_occurs_at_skip(v@, name@, i as int);
    }
    if occurs_at_exec(v, &name, i) {
        return Some((5, 'θ'));
    }
    let name: [char; 5] = ['k', 'a', 'p', 'p', 'a'];
    proof {
        assert(name@ == seq!['k', 'a', 'p', 'p', 'a']);
        lemma_occurs_at_skip(v@, name@, i as int);
    }
    if occurs_at_exec(v, &name, i) {
        return Some((5, 'κ'));
    }
    let name: [char; 5] = ['s', 'i', 'g', 'm', 'a'];
    proof {
        assert(name@ == seq!['s', 'i', 'g', 'm', 'a']);
        lemma_occurs_at_skip(v@, name@, i as int);
    }
    if occurs_at_exec(v, &name, i) {
        return Some((5, 'σ'));
    }
    let name: [char; 5] = ['o', 'm', 'e', 'g', 'a'];
    proof {
        assert(name@ == seq!['o', 'm', 'e', 'g', 'a']);
        lemma_occurs_at_skip(v@, name@, i as int);
    }
    if occurs_at_exec(v, &name, i) {
        return Some((5, 'ω'));
    }
    let name: [char; 5] = ['G', 'a', 'm', 'm', 'a'];
    proof {
        assert(name@ == seq!['G', 'a', 'm', 'm', 'a']);
        lemma_occurs_at_skip(v@, name@, i as int);
    }
    if occurs_at_exec(v, &name, i) {
        return Some((5, 'Γ'));
    }
    let name: [char; 5] = ['D', 'e', 'l', 't', 'a'];
    proof {
        assert(name@ == seq!['D', 'e', 'l', 't', 'a']);
        lemma_occurs_at_skip(v@, name@, i as int);
    }
    if occurs_at_exec(v, &name, i) {
        return Some((5, 'Δ'));
    }
    let name: [char; 5] = ['T', 'h', 'e', 't', 'a'];
    proof {
        assert(name@ == seq!['T', 'h', 'e', 't', 'a']);
        lemma_occurs_at_skip(v@, name@, i as int);
    }
    if occurs_at_exec(v, &name, i) {
        return Some((5, 'Θ'));
    }
    let name: [char; 5] = ['S', 'i', 'g', 'm', 'a'];
    proof {
        assert(name@ == seq!['S', 'i', 'g', 'm', 'a']);
        lemma_occurs_at_skip(v@, name@, i as int);
    }
    if occurs_at_exec(v, &name, i) {
        return Some((5, 'Σ'));
    }
    let name: [char; 5] = ['O', 'm', 'e', 'g', 'a'];
    proof {
        assert(name@ == seq!['O', 'm', 'e', 'g', 'a']);
        lemma_occurs_at_skip(v@, name@, i as int);
    }
    if occurs_at_exec(v, &name, i) {
        return Some((5, 'Ω'));
    }
    let name: [char; 5] = ['t', 'i', 'm', 'e', 's'];
    proof {
        assert(name@ == seq!['t', 'i', 'm', 'e', 's']);
        lemma_occurs_at_skip(v@, name@, i as int);
    }
    if occurs_at_exec(v, &name, i) {
        return Some((5, '×'));
    }
    let name: [char; 5] = ['e', 'q', 'u', 'i', 'v'];
    proof {
        assert(name@ == seq!['e', 'q', 'u', 'i', 'v']);
        lemma_occurs_at_skip(v@, name@, i as int);
    }
    if occurs_at_exec(v, &name, i) {
        return Some((5, '≡'));
    }
    let name: [char; 5] = ['n', 'o', 't', 'i', 'n'];
    proof {
        assert(name@ == seq!['n', 'o', 't', 'i', 'n']);
        lemma_occurs_at_skip(v@, name@, i as int);
    }
    if occurs_at_exec(v, &name, i) {
        return Some((5, '∉'));
    }
    let name: [char; 5] = ['i', 'n', 'f', 't', 'y'];
    proof {
        assert(name@ == seq!['i', 'n', 'f', 't', 'y']);
        lemma_occurs_at_skip(v@, name@, i as int);
    }
    if occurs_at_exec(v, &name, i) {
        return Some((5, '∞'));
    }
    let name: [char; 5] = ['n', 'a', 'b', 'l', 'a'];
    proof {
        assert(name@ == seq!['n', 'a', 'b', 'l', 'a']);
        lemma_occurs_at_skip(v@, name@, i as int);
    }
    if occurs_at_exec(v, &name, i) {
        return Some((5, '∇'));
    }
    let name: [char; 5] = ['l', 'd', 'o', 't', 's'];
    proof {
        assert(name@ == seq!['l', 'd', 'o', 't', 's']);
        lemma_occurs_at_skip(v@, name@, i as int);
    }
    if occurs_at_exec(v, &name, i) {
        return Some((5, '…'));
    }
    let name: [char; 5] = ['c', 'd', 'o', 't', 's'];
    proof {
        assert(name@ == seq!['c', 'd', 'o', 't', 's']);
        lemma_occurs_at_skip(v@, name@, i as int);
    }
    if occurs_at_exec(v, &name, i) {
        return Some((5, '⋯'));
    }
    let name: [char; 5] = ['v', 'd', 'o', 't', 's'];
    proof {
        assert(name@ == seq!['v', 'd', 'o', 't', 's']);
        lemma_occurs_at_skip(v@, name@, i as int);
    }
    if occurs_at_exec(v, &name, i) {
        return Some((5, '⋮'));
    }
    let name: [char; 5] = ['d', 'd', 'o', 't', 's'];
    proof {
        assert(name@ == seq!['d', 'd', 'o', 't', 's']);
        lemma_occurs_at_skip(v@, name@, i as int);
    }
    if occurs_at_exec(v, &name, i) {
        return Some((5, '⋱'));
    }
    let name: [char; 4] = ['b', 'e', 't', 'a'];
    proof {
        assert(name@ == seq!['b', 'e', 't', 'a']);
        lemma_occurs_at_skip(v@, name@, i as int);
    }
    if occurs_at_exec(v, &name, i) {
        return Some((4, 'β'));
    }
    let name: [char; 4] = ['z', 'e', 't', 'a'];
    proof {
        assert(name@ == seq!['z', 'e', 't', 'a']);
        lemma_occurs_at_skip(v@, name@, i as int);
    }
    if occurs_at_exec(v, &name, i) {
        return Some((4, 'ζ'));
    }
    let name: [char; 4] = ['i', 'o', 't', 'a'];
    proof {
        assert(name@ == seq!['i', 'o', 't', 'a']);
        lemma_occurs_at_skip(v@, name@, i as int);
    }
    if occurs_at_exec(v, &name, i) {
        return Some((4, 'ι'));
    }
    let name: [char; 4] = ['c', 'd', 'o', 't'];
    proof {
        assert(name@ == seq!['c', 'd', 'o', 't']);
        lemma_occurs_at_skip(v@, name@, i as int);
    }
    if occurs_at_exec(v, &name, i) {
        return Some((4, '·'));
    }
    let name: [char; 4] = ['c', 'i', 'r', 'c'];
    proof {
        assert(name@ == seq!['c', 'i', 'r', 'c']);
        lemma_occurs_at_skip(v@, name@, i as int);
    }
    if occurs_at_exec(v, &name, i) {
        return Some((4, '∘'));
    }
    let name: [char; 4] = ['p', 'r', 'o', 'd'];
    proof {
        assert(name@ == seq!['p', 'r', 'o', 'd']);
        lemma_occurs_at_skip(v@, name@, i as int);
    }
    if occurs_at_exec(v, &name, i) {
        return Some((4, '∏'));
    }
    let name: [char; 4] = ['o', 'i', 'n', 't'];
    proof {
        assert(name@ == seq!['o', 'i', 'n', 't']);
        lemma_occurs_at_skip(v@, name@, i as int);
    }
    if occurs_at_exec(v, &name, i) {
        return Some((4, '∮'));
    }
    let name: [char; 4] = ['l', 'a', 'n', 'd'];
    proof {
        assert(name@ == seq!['l', 'a', 'n', 'd']);
        lemma_occurs_at_skip(v@, name@, i as int);
    }
    if occurs_at_exec(v, &name, i) {
        return Some((4, '∧'));
    }
    let name: [char; 4] = ['s', 'q', 'r', 't'];
    proof {
        assert(name@ == seq!['s', 'q', 'r', 't']);
        lemma_occurs_at_skip(v@, name@, i as int);
    }
    if occurs_at_exec(v, &name, i) {
        return Some((4, '√'));
    }
    let name: [char; 4] = ['h', 'b', 'a', 'r'];
    proof {
        assert(name@ == seq!['h', 'b', 'a', 'r']);
        lemma_occurs_at_skip(v@, name@, i as int);
    }
    if occurs_at_exec(v, &name, i) {
        return Some((4, 'ℏ'));
    }
    let name: [char; 3] = ['e', 't', 'a'];
    proof {
        assert(name@ == seq!['e', 't', 'a']);
        lemma_occurs_at_skip(v@, name@, i as int);
    }
    if occurs_at_exec(v, &name, i) {
        return Some((3, 'η'));
    }
    let name: [char; 3] = ['r', 'h', 'o'];
    proof {
        assert(name@ == seq!['r', 'h', 'o']);
        lemma_occurs_at_skip(v@, name@, i as int);
    }
    if occurs_at_exec(v, &name, i) {
        return Some((3, 'ρ'));
    }
    let name: [char; 3] = ['t', 'a', 'u'];
    proof {
        assert(name@ == seq!['t', 'a', 'u']);
        lemma_occurs_at_skip(v@, name@, i as int);
    }
    if occurs_at_exec(v, &name, i) {
        return Some((3, 'τ'));
    }
    let name: [char; 3] = ['p', 'h', 'i'];
    proof {
        assert(name@ == seq!['p', 'h', 'i']);
        lemma_occurs_at_skip(v@, name@, i as int);
    }
    if occurs_at_exec(v, &name, i) {
        return Some((3, 'φ'));
    }
    let name: [char; 3] = ['c', 'h', 'i'];
    proof {
        assert(name@ == seq!['c', 'h', 'i']);
        lemma_occurs_at_skip(v@, name@, i as int);
    }
    if occurs_at_exec(v, &name, i) {
        return Some((3, 'χ'));
    }
    let name: [char; 3] = ['p', 's', 'i'];
    proof {
        assert(name@ == seq!['p', 's', 'i']);
        lemma_occurs_at_skip(v@, name@, i as int);
    }
    if occurs_at_exec(v, &name, i) {
        return Some((3, 'ψ'));
    }
    let name: [char; 3] = ['P', 'h', 'i'];
    proof {
        assert(name@ == seq!['P', 'h', 'i']);
        lemma_occurs_at_skip(v@, name@, i as int);
    }
    if occurs_at_exec(v, &name, i) {
        return Some((3, 'Φ'));
    }
    let name: [char; 3] = ['P', 's', 'i'];
    proof {
        assert(name@ == seq!['P', 's', 'i']);
        lemma_occurs_at_skip(v@, name@, i as int);
    }
    if occurs_at_exec(v, &name, i) {
        return Some((3, 'Ψ'));
    }
    let name: [char; 3] = ['d', 'i', 'v'];
    proof {
        assert(name@ == seq!['d', 'i', 'v']);
        lemma_occurs_at_skip(v@, name@, i as int);
    }
    if occurs_at_exec(v, &name, i) {
        return Some((3, '÷'));
    }
    let name: [char; 3] = ['l', 'e', 'q'];
    proof {
        assert(name@ == seq!['l', 'e', 'q']);
        lemma_occurs_at_skip(v@, name@, i as int);
    }
    if occurs_at_exec(v, &name, i) {
        return Some((3, '≤'));
    }
    let name: [char; 3] = ['g', 'e', 'q'];
    proof {
        assert(name@ == seq!['g', 'e', 'q']);
        lemma_occurs_at_skip(v@, name@, i as int);
    }
    if occurs_at_exec(v, &name, i) {
        return Some((3, '≥'));
    }
    let name: [char; 3] = ['n', 'e', 'q'];
    proof {
        assert(name@ == seq!['n', 'e', 'q']);
        lemma_occurs_at_skip(v@, name@, i as int);
    }
    if occurs_at_exec(v, &name, i) {
        return Some((3, '≠'));
    }
    let name: [char; 3] = ['s', 'i', 'm'];
    proof {
        assert(name@ == seq!['s', 'i', 'm']);
        lemma_occurs_at_skip(v@, name@, i as int);
    }
    if occurs_at_exec(v, &name, i) {
        return Some((3, '∼'));
    }
    let name: [char; 3] = ['s', 'u', 'm'];
    proof {
        assert(name@ == seq!['s', 'u', 'm']);
        lemma_occurs_at_skip(v@, name@, i as int);
    }
    if occurs_at_exec(v, &name, i) {
        return Some((3, '∑'));
    }
    let name: [char; 3] = ['i', 'n', 't'];
    proof {
        assert(name@ == seq!['i', 'n', 't']);
        lemma_occurs_at_skip(v@, name@, i as int);
    }
    if occurs_at_exec(v, &name, i) {
        return Some((3, '∫'));
    }
    let name: [char; 3] = ['c', 'u', 'p'];
    proof {
        assert(name@ == seq!['c', 'u', 'p']);
        lemma_occurs_at_skip(v@, name@, i as int);
    }
    if occurs_at_exec(v, &name, i) {
        return Some((3, '∪'));
    }
    let name: [char; 3] = ['c', 'a', 'p'];
    proof {
        assert(name@ == seq!['c', 'a', 'p']);
        lemma_occurs_at_skip(v@, name@, i as int);
    }
    if occurs_at_exec(v, &name, i) {
        return Some((3, '∩'));
    }
    let name: [char; 3] = ['n', 'e', 'g'];
    proof {
        assert(name@ == seq!['n', 'e', 'g']);
        lemma_occurs_at_skip(v@, name@, i as int);
    }
    if occurs_at_exec(v, &name, i) {
        return Some((3, '¬'));
    }
    let name: [char; 3] = ['l', 'o', 'r'];
    proof {
        assert(name@ == seq!['l', 'o', 'r']);
        lemma_occurs_at_skip(v@, name@, i as int);
    }
    if occurs_at_exec(v, &name, i) {
        return Some((3, '∨'));
    }
    let name: [char; 3] = ['i', 'f', 'f'];
    proof {
        assert(name@ == seq!['i', 'f', 'f']);
        lemma_occurs_at_skip(v@, name@, i as int);
    }
    if occurs_at_exec(v, &name, i) {
        return Some((3, '⟺'));
    }
    let name: [char; 3] = ['e', 'l', 'l'];
    proof {
        assert(name@ == seq!['e', 'l', 'l']);
        lemma_occurs_at_skip(v@, name@, i as int);
    }
    if occurs_at_exec(v, &name, i) {
        return Some((3, 'ℓ'));
    }
    let name: [char; 2] = ['m', 'u'];
    proof {
        assert(name@ == seq!['m', 'u']);
        lemma_occurs_at_skip(v@, name@, i as int);
    }
    if occurs_at_exec(v, &name, i) {
        return Some((2, 'μ'));
    }
    let name: [char; 2] = ['n', 'u'];
    proof {
        assert(name@ == seq!['n', 'u']);
        lemma_occurs_at_skip(v@, name@, i as int);
    }
    if occurs_at_exec(v, &name, i) {
        return Some((2, 'ν'));
    }
    let name: [char; 2] = ['x', 'i'];
    proof {
        assert(name@ == seq!['x', 'i']);
        lemma_occurs_at_skip(v@, name@, i as int);
    }
    if occurs_at_exec(v, &name, i) {
        return Some((2, 'ξ'));
    }
    let name: [char; 2] = ['p', 'i'];
    proof {
        assert(name@ == seq!['p', 'i']);
        lemma_occurs_at_skip(v@, name@, i as int);
    }
    if occurs_at_exec(v, &name, i) {
        return Some((2, 'π'));
    }
    let name: [char; 2] = ['X', 'i'];
    proof {
        assert(name@ == seq!['X', 'i']);
        lemma_occurs_at_skip(v@, name@, i as int);
    }
    if occurs_at_exec(v, &name, i) {
        return Some((2, 'Ξ'));
    }
    let name: [char; 2] = ['P', 'i'];
    proof {
        assert(name@ == seq!['P', 'i']);
        lemma_occurs_at_skip(v@, name@, i as int);
    }
    if occurs_at_exec(v, &name, i) {
        return Some((2, 'Π'));
    }
    let name: [char; 2] = ['p', 'm'];
    proof {
        assert(name@ == seq!['p', 'm']);
        lemma_occurs_at_skip(v@, name@, i as int);
    }
    if occurs_at_exec(v, &name, i) {
        return Some((2, '±'));
    }
    let name: [char; 2] = ['m', 'p'];
    proof {
        assert(name@ == seq!['m', 'p']);
        lemma_occurs_at_skip(v@, name@, i as int);
    }
    if occurs_at_exec(v, &name, i) {
        return Some((2, '∓'));
    }
    let name: [char; 2] = ['l', 'e'];
    proof {
        assert(name@ == seq!['l', 'e']);
        lemma_occurs_at_skip(v@, name@, i as int);
    }
    if occurs_at_exec(v, &name, i) {
        return Some((2, '≤'));
    }
    let name: [char; 2] = ['g', 'e'];
    proof {
        assert(name@ == seq!['g', 'e']);
        lemma_occurs_at_skip(v@, name@, i as int);
    }
    if occurs_at_exec(v, &name, i) {
        return Some((2, '≥'));
    }
    let name: [char; 2] = ['n', 'e'];
    proof {
        assert(name@ == seq!['n', 'e']);
        lemma_occurs_at_skip(v@, name@, i as int);
    }
    if occurs_at_exec(v, &name, i) {
        return Some((2, '≠'));
    }
    let name: [char; 2] = ['l', 'l'];
    proof {
        assert(name@ == seq!['l', 'l']);
        lemma_occurs_at_skip(v@, name@, i as int);
    }
    if occurs_at_exec(v, &name, i) {
        return Some((2, '≪'));
    }
    let name: [char; 2] = ['g', 'g'];
    proof {
        assert(name@ == seq!['g', 'g']);
        lemma_occurs_at_skip(v@, name@, i as int);
    }
    if occurs_at_exec(v, &name, i) {
        return Some((2, '≫'));
    }
    let name: [char; 2] = ['t', 'o'];
    proof {
        assert(name@ == seq!['t', 'o']);
        lemma_occurs_at_skip(v@, name@, i as int);
    }
    if occurs_at_exec(v, &name, i) {
        return Some((2, '→'));
    }
    let name: [char; 2] = ['i', 'n'];
    proof {
        assert(name@ == seq!['i', 'n']);
        lemma_occurs_at_skip(v@, name@, i as int);
    }
    if occurs_at_exec(v, &name, i) {
        return Some((2, '∈'));
    }
    let name: [char; 1] = ['|'];
    proof {
        assert(name@ == seq!['|']);
        lemma_occurs_at_skip(v@, name@, i as int);
    }
    if occurs_at_exec(v, &name, i) {
        return Some((1, '‖'));
    }
    None
}

// ---------------------------------------------------------------------------
// Each name of the table, looked up
// ---------------------------------------------------------------------------
/// `alpha` names `α`, alone and before a space.
pub proof fn lemma_name_alpha()
    ensures
        symbol_for_name(seq!['a', 'l', 'p', 'h', 'a']) == Some((5nat, 'α')),
        symbol_for_name(seq!['a', 'l', 'p', 'h', 'a'] + seq![' ']) == Some((5nat, 'α')),
{
    let s = seq!['a', 'l', 'p', 'h', 'a'];
    let t = s + seq![' '];
    reveal(symbol_for_name);
    reveal(symbol_of_length_5);
    reveal(symbol_of_length_6);
    lemma_longer_absent(s);
    lemma_longer_absent(t);
    lemma_starts_with_chars(s);
    lemma_starts_with_chars(t);
    assert(s.subrange(0, 5) =~= s);
    assert(t.subrange(0, 5) =~= s);
}

/// `beta` names `β`, alone and before a space.
pub proof fn lemma_name_beta()
    ensures
        symbol_for_name(seq!['b', 'e', 't', 'a']) == Some((4nat, 'β')),
        symbol_for_name(seq!['b', 'e', 't', 'a'] + seq![' ']) == Some((4nat, 'β')),
{
    let s = seq!['b', 'e', 't', 'a'];
    let t = s + seq![' '];
    reveal(symbol_for_name);
    reveal(symbol_of_length_4);
    reveal(symbol_of_length_5);
    lemma_longer_absent(s);
    lemma_longer_absent(t);
    lemma_starts_with_chars(s);
    lemma_starts_with_chars(t);
    assert(s.subrange(0, 4) =~= s);
    assert(t.subrange(0, 4) =~= s);
}

/// `gamma` names `γ`, alone and before a space.
pub proof fn lemma_name_gamma()
    ensures
        symbol_for_name(seq!['g', 'a', 'm', 'm', 'a']) == Some((5nat, 'γ')),
        symbol_for_name(seq!['g', 'a', 'm', 'm', 'a'] + seq![' ']) == Some((5nat, 'γ')),
{
    let s = seq!['g', 'a', 'm', 'm', 'a'];
    let t = s + seq![' '];
    reveal(symbol_for_name);
    reveal(symbol_of_length_5);
    reveal(symbol_of_length_6);
    lemma_longer_absent(s);
    lemma_longer_absent(t);
    lemma_starts_with_chars(s);
    lemma_starts_with_chars(t);
    assert(s.subrange(0, 5) =~= s);
    assert(t.subrange(0, 5) =~= s);
}

/// `delta` names `δ`, alone and before a space.
pub proof fn lemma_name_delta()
    ensures
        symbol_for_name(seq!['d', 'e', 'l', 't', 'a']) == Some((5nat, 'δ')),
        symbol_for_name(seq!['d', 'e', 'l', 't', 'a'] + seq![' ']) == Some((5nat, 'δ')),
{
    let s = seq!['d', 'e', 'l', 't', 'a'];
    let t = s + seq![' '];
    reveal(symbol_for_name);
    reveal(symbol_of_length_5);
    reveal(symbol_of_length_6);
    lemma_longer_absent(s);
    lemma_longer_absent(t);
    lemma_starts_with_chars(s);
    lemma_starts_with_chars(t);
    assert(s.subrange(0, 5) =~= s);
    assert(t.subrange(0, 5) =~= s);
}

/// `epsilon` names `ε`, alone and before a space.
pub proof fn lemma_name_epsilon()
    ensures
        symbol_for_name(seq!['e', 'p', 's', 'i', 'l', 'o', 'n']) == Some((7nat, 'ε')),
        symbol_for_name(seq!['e', 'p', 's', 'i', 'l', 'o', 'n'] + seq![' ']) == Some((7nat, 'ε')),
{
    let s = seq!['e', 'p', 's', 'i', 'l', 'o', 'n'];
    let t = s + seq![' '];
    reveal(symbol_for_name);
    reveal(symbol_of_length_7);
    reveal(symbol_of_length_8);
    lemma_longer_absent(s);
    lemma_longer_absent(t);
    lemma_starts_with_chars(s);
    lemma_starts_with_chars(t);
    assert(s.subrange(0, 7) =~= s);
    assert(t.subrange(0, 7) =~= s);
}

/// `varepsilon` names `ε`, alone and before a space.
pub proof fn lemma_name_varepsilon()
    ensures
        symbol_for_name(seq!['v', 'a', 'r', 'e', 'p', 's', 'i', 'l', 'o', 'n']) == Some((10nat, 'ε')),
        symbol_for_name(seq!['v', 'a', 'r', 'e', 'p', 's', 'i', 'l', 'o', 'n'] + seq![' ']) == Some((10nat, 'ε')),
{
    let s = seq!['v', 'a', 'r', 'e', 'p', 's', 'i', 'l', 'o', 'n'];
    let t = s + seq![' '];
    reveal(symbol_for_name);
    reveal(symbol_of_length_10);
    lemma_longer_absent(s);
    lemma_longer_absent(t);
    lemma_starts_with_chars(s);
    lemma_starts_with_chars(t);
    assert(s.subrange(0, 10) =~= s);
    assert(t.subrange(0, 10) =~= s);
}

/// `zeta` names `ζ`, alone and before a space.
pub proof fn lemma_name_zeta()
    ensures
        symbol_for_name(seq!['z', 'e', 't', 'a']) == Some((4nat, 'ζ')),
        symbol_for_name(seq!['z', 'e', 't', 'a'] + seq![' ']) == Some((4nat, 'ζ')),
{
    let s = seq!['z', 'e', 't', 'a'];
    let t = s + seq![' '];
    reveal(symbol_for_name);
    reveal(symbol_of_length_4);
    reveal(symbol_of_length_5);
    lemma_longer_absent(s);
    lemma_longer_absent(t);
    lemma_starts_with_chars(s);
    lemma_starts_with_chars(t);
    assert(s.subrange(0, 4) =~= s);
    assert(t.subrange(0, 4) =~= s);
}

/// `eta` names `η`, alone and before a space.
pub proof fn lemma_name_eta()
    ensures
        symbol_for_name(seq!['e', 't', 'a']) == Some((3nat, 'η')),
        symbol_for_name(seq!['e', 't', 'a'] + seq![' ']) == Some((3nat, 'η')),
{
    let s = seq!['e', 't', 'a'];
    let t = s + seq![' '];
    reveal(symbol_for_name);
    reveal(symbol_of_length_3);
    reveal(symbol_of_length_4);
    lemma_longer_absent(s);
    lemma_longer_absent(t);
    lemma_starts_with_chars(s);
    lemma_starts_with_chars(t);
    assert(s.subrange(0, 3) =~= s);
    assert(t.subrange(0, 3) =~= s);
}

/// `theta` names `θ`, alone and before a space.
pub proof fn lemma_name_theta()
    ensures
        symbol_for_name(seq!['t', 'h', 'e', 't', 'a']) == Some((5nat, 'θ')),
        symbol_for_name(seq!['t', 'h', 'e', 't', 'a'] + seq![' ']) == Some((5nat, 'θ')),
{
    let s = seq!['t', 'h', 'e', 't', 'a'];
    let t = s + seq![' '];
    reveal(symbol_for_name);
    reveal(symbol_of_length_5);
    reveal(symbol_of_length_6);
    lemma_longer_absent(s);
    lemma_longer_absent(t);
    lemma_starts_with_chars(s);
    lemma_starts_with_chars(t);
    assert(s.subrange(0, 5) =~= s);
    assert(t.subrange(0, 5) =~= s);
}

/// `vartheta` names `ϑ`, alone and before a space.
pub proof fn lemma_name_vartheta()
    ensures
        symbol_for_name(seq!['v', 'a', 'r', 't', 'h', 'e', 't', 'a']) == Some((8nat, 'ϑ')),
        symbol_for_name(seq!['v', 'a', 'r', 't', 'h', 'e', 't', 'a'] + seq![' ']) == Some((8nat, 'ϑ')),
{
    let s = seq!['v', 'a', 'r', 't', 'h', 'e', 't', 'a'];
    let t = s + seq![' '];
    reveal(symbol_for_name);
    reveal(symbol_of_length_8);
    reveal(symbol_of_length_9);
    lemma_longer_absent(s);
    lemma_longer_absent(t);
    lemma_starts_with_chars(s);
    lemma_starts_with_chars(t);
    assert(s.subrange(0, 8) =~= s);
    assert(t.subrange(0, 8) =~= s);
}

/// `iota` names `ι`, alone and before a space.
pub proof fn lemma_name_iota()
    ensures
        symbol_for_name(seq!['i', 'o', 't', 'a']) == Some((4nat, 'ι')),
        symbol_for_name(seq!['i', 'o', 't', 'a'] + seq![' ']) == Some((4nat, 'ι')),
{
    let s = seq!['i', 'o', 't', 'a'];
    let t = s + seq![' '];
    reveal(symbol_for_name);
    reveal(symbol_of_length_4);
    reveal(symbol_of_length_5);
    lemma_longer_absent(s);
    lemma_longer_absent(t);
    lemma_starts_with_chars(s);
    lemma_starts_with_chars(t);
    assert(s.subrange(0, 4) =~= s);
    assert(t.subrange(0, 4) =~= s);
}

/// `kappa` names `κ`, alone and before a space.
pub proof fn lemma_name_kappa()
    ensures
        symbol_for_name(seq!['k', 'a', 'p', 'p', 'a']) == Some((5nat, 'κ')),
        symbol_for_name(seq!['k', 'a', 'p', 'p', 'a'] + seq![' ']) == Some((5nat, 'κ')),
{
    let s = seq!['k', 'a', 'p', 'p', 'a'];
    let t = s + seq![' '];
    reveal(symbol_for_name);
    reveal(symbol_of_length_5);
    reveal(symbol_of_length_6);
    lemma_longer_absent(s);
    lemma_longer_absent(t);
    lemma_starts_with_chars(s);
    lemma_starts_with_chars(t);
    assert(s.subrange(0, 5) =~= s);
    assert(t.subrange(0, 5) =~= s);
}

/// `lambda` names `λ`, alone and before a space.
pub proof fn lemma_name_lambda()
    ensures
        symbol_for_name(seq!['l', 'a', 'm', 'b', 'd', 'a']) == Some((6nat, 'λ')),
        symbol_for_name(seq!['l', 'a', 'm', 'b', 'd', 'a'] + seq![' ']) == Some((6nat, 'λ')),
{
    let s = seq!['l', 'a', 'm', 'b', 'd', 'a'];
    let t = s + seq![' '];
    reveal(symbol_for_name);
    reveal(symbol_of_length_6);
    reveal(symbol_of_length_7);
    lemma_longer_absent(s);
    lemma_longer_absent(t);
    lemma_starts_with_chars(s);
    lemma_starts_with_chars(t);
    assert(s.subrange(0, 6) =~= s);
    assert(t.subrange(0, 6) =~= s);
}

/// `mu` names `μ`, alone and before a space.
pub proof fn lemma_name_mu()
    ensures
        symbol_for_name(seq!['m', 'u']) == Some((2nat, 'μ')),
        symbol_for_name(seq!['m', 'u'] + seq![' ']) == Some((2nat, 'μ')),
{
    let s = seq!['m', 'u'];
    let t = s + seq![' '];
    reveal(symbol_for_name);
    reveal(symbol_of_length_2);
    reveal(symbol_of_length_3);
    lemma_longer_absent(s);
    lemma_longer_absent(t);
    lemma_starts_with_chars(s);
    lemma_starts_with_chars(t);
    assert(s.subrange(0, 2) =~= s);
    assert(t.subrange(0, 2) =~= s);
}

/// `nu` names `ν`, alone and before a space.
pub proof fn lemma_name_nu()
    ensures
        symbol_for_name(seq!['n', 'u']) == Some((2nat, 'ν')),
        symbol_for_name(seq!['n', 'u'] + seq![' ']) == Some((2nat, 'ν')),
{
    let s = seq!['n', 'u'];
    let t = s + seq![' '];
    reveal(symbol_for_name);
    reveal(symbol_of_length_2);
    reveal(symbol_of_length_3);
    lemma_longer_absent(s);
    lemma_longer_absent(t);
    lemma_starts_with_chars(s);
    lemma_starts_with_chars(t);
    assert(s.subrange(0, 2) =~= s);
    assert(t.subrange(0, 2) =~= s);
}

/// `xi` names `ξ`, alone and before a space.
pub proof fn lemma_name_xi()
    ensures
        symbol_for_name(seq!['x', 'i']) == Some((2nat, 'ξ')),
        symbol_for_name(seq!['x', 'i'] + seq![' ']) == Some((2nat, 'ξ')),
{
    let s = seq!['x', 'i'];
    let t = s + seq![' '];
    reveal(symbol_for_name);
    reveal(symbol_of_length_2);
    reveal(symbol_of_length_3);
    lemma_longer_absent(s);
    lemma_longer_absent(t);
    lemma_starts_with_chars(s);
    lemma_starts_with_chars(t);
    assert(s.subrange(0, 2) =~= s);
    assert(t.subrange(0, 2) =~= s);
}

/// `pi` names `π`, alone and before a space.
pub proof fn lemma_name_pi()
    ensures
        symbol_for_name(seq!['p', 'i']) == Some((2nat, 'π')),
        symbol_for_name(seq!['p', 'i'] + seq![' ']) == Some((2nat, 'π')),
{
    let s = seq!['p', 'i'];
    let t = s + seq![' '];
    reveal(symbol_for_name);
    reveal(symbol_of_length_2);
    reveal(symbol_of_length_3);
    lemma_longer_absent(s);
    lemma_longer_absent(t);
    lemma_starts_with_chars(s);
    lemma_starts_with_chars(t);
    assert(s.subrange(0, 2) =~= s);
    assert(t.subrange(0, 2) =~= s);
}

/// `rho` names `ρ`, alone and before a space.
pub proof fn lemma_name_rho()
    ensures
        symbol_for_name(seq!['r', 'h', 'o']) == Some((3nat, 'ρ')),
        symbol_for_name(seq!['r', 'h', 'o'] + seq![' ']) == Some((3nat, 'ρ')),
{
    let s = seq!['r', 'h', 'o'];
    let t = s + seq![' '];
    reveal(symbol_for_name);
    reveal(symbol_of_length_3);
    reveal(symbol_of_length_4);
    lemma_longer_absent(s);
    lemma_longer_absent(t);
    lemma_starts_with_chars(s);
    lemma_starts_with_chars(t);
    assert(s.subrange(0, 3) =~= s);
    assert(t.subrange(0, 3) =~= s);
}

/// `sigma` names `σ`, alone and before a space.
pub proof fn lemma_name_sigma()
    ensures
        symbol_for_name(seq!['s', 'i', 'g', 'm', 'a']) == Some((5nat, 'σ')),
        symbol_for_name(seq!['s', 'i', 'g', 'm', 'a'] + seq![' ']) == Some((5nat, 'σ')),
{
    let s = seq!['s', 'i', 'g', 'm', 'a'];
    let t = s + seq![' '];
    reveal(symbol_for_name);
    reveal(symbol_of_length_5);
    reveal(symbol_of_length_6);
    lemma_longer_absent(s);
    lemma_longer_absent(t);
    lemma_starts_with_chars(s);
    lemma_starts_with_chars(t);
    assert(s.subrange(0, 5) =~= s);
    assert(t.subrange(0, 5) =~= s);
}

/// `tau` names `τ`, alone and before a space.
pub proof fn lemma_name_tau()
    ensures
        symbol_for_name(seq!['t', 'a', 'u']) == Some((3nat, 'τ')),
        symbol_for_name(seq!['t', 'a', 'u'] + seq![' ']) == Some((3nat, 'τ')),
{
    let s = seq!['t', 'a', 'u'];
    let t = s + seq![' '];
    reveal(symbol_for_name);
    reveal(symbol_of_length_3);
    reveal(symbol_of_length_4);
    lemma_longer_absent(s);
    lemma_longer_absent(t);
    lemma_starts_with_chars(s);
    lemma_starts_with_chars(t);
    assert(s.subrange(0, 3) =~= s);
    assert(t.subrange(0, 3) =~= s);
}

/// `upsilon` names `υ`, alone and before a space.
pub proof fn lemma_name_upsilon()
    ensures
        symbol_for_name(seq!['u', 'p', 's', 'i', 'l', 'o', 'n']) == Some((7nat, 'υ')),
        symbol_for_name(seq!['u', 'p', 's', 'i', 'l', 'o', 'n'] + seq![' ']) == Some((7nat, 'υ')),
{
    let s = seq!['u', 'p', 's', 'i', 'l', 'o', 'n'];
    let t = s + seq![' '];
    reveal(symbol_for_name);
    reveal(symbol_of_length_7);
    reveal(symbol_of_length_8);
    lemma_longer_absent(s);
    lemma_longer_absent(t);
    lemma_starts_with_chars(s);
    lemma_starts_with_chars(t);
    assert(s.subrange(0, 7) =~= s);
    assert(t.subrange(0, 7) =~= s);
}

/// `phi` names `φ`, alone and before a space.
pub proof fn lemma_name_phi()
    ensures
        symbol_for_name(seq!['p', 'h', 'i']) == Some((3nat, 'φ')),
        symbol_for_name(seq!['p', 'h', 'i'] + seq![' ']) == Some((3nat, 'φ')),
{
    let s = seq!['p', 'h', 'i'];
    let t = s + seq![' '];
    reveal(symbol_for_name);
    reveal(symbol_of_length_3);
    reveal(symbol_of_length_4);
    lemma_longer_absent(s);
    lemma_longer_absent(t);
    lemma_starts_with_chars(s);
    lemma_starts_with_chars(t);
    assert(s.subrange(0, 3) =~= s);
    assert(t.subrange(0, 3) =~= s);
}

/// `varphi` names `φ`, alone and before a space.
pub proof fn lemma_name_varphi()
    ensures
        symbol_for_name(seq!['v', 'a', 'r', 'p', 'h', 'i']) == Some((6nat, 'φ')),
        symbol_for_name(seq!['v', 'a', 'r', 'p', 'h', 'i'] + seq![' ']) == Some((6nat, 'φ')),
{
    let s = seq!['v', 'a', 'r', 'p', 'h', 'i'];
    let t = s + seq![' '];
    reveal(symbol_for_name);
    reveal(symbol_of_length_6);
    reveal(symbol_of_length_7);
    lemma_longer_absent(s);
    lemma_longer_absent(t);
    lemma_starts_with_chars(s);
    lemma_starts_with_chars(t);
    assert(s.subrange(0, 6) =~= s);
    assert(t.subrange(0, 6) =~= s);
}

/// `chi` names `χ`, alone and before a space.
pub proof fn lemma_name_chi()
    ensures
        symbol_for_name(seq!['c', 'h', 'i']) == Some((3nat, 'χ')),
        symbol_for_name(seq!['c', 'h', 'i'] + seq![' ']) == Some((3nat, 'χ')),
{
    let s = seq!['c', 'h', 'i'];
    let t = s + seq![' '];
    reveal(symbol_for_name);
    reveal(symbol_of_length_3);
    reveal(symbol_of_length_4);
    lemma_longer_absent(s);
    lemma_longer_absent(t);
    lemma_starts_with_chars(s);
    lemma_starts_with_chars(t);
    assert(s.subrange(0, 3) =~= s);
    assert(t.subrange(0, 3) =~= s);
}

/// `psi` names `ψ`, alone and before a space.
pub proof fn lemma_name_psi()
    ensures
        symbol_for_name(seq!['p', 's', 'i']) == Some((3nat, 'ψ')),
        symbol_for_name(seq!['p', 's', 'i'] + seq![' ']) == Some((3nat, 'ψ')),
{
    let s = seq!['p', 's', 'i'];
    let t = s + seq![' '];
    reveal(symbol_for_name);
    reveal(symbol_of_length_3);
    reveal(symbol_of_length_4);
    lemma_longer_absent(s);
    lemma_longer_absent(t);
    lemma_starts_with_chars(s);
    lemma_starts_with_chars(t);
    assert(s.subrange(0, 3) =~= s);
    assert(t.subrange(0, 3) =~= s);
}

/// `omega` names `ω`, alone and before a space.
pub proof fn lemma_name_omega()
    ensures
        symbol_for_name(seq!['o', 'm', 'e', 'g', 'a']) == Some((5nat, 'ω')),
        symbol_for_name(seq!['o', 'm', 'e', 'g', 'a'] + seq![' ']) == Some((5nat, 'ω')),
{
    let s = seq!['o', 'm', 'e', 'g', 'a'];
    let t = s + seq![' '];
    reveal(symbol_for_name);
    reveal(symbol_of_length_5);
    reveal(symbol_of_length_6);
    lemma_longer_absent(s);
    lemma_longer_absent(t);
    lemma_starts_with_chars(s);
    lemma_starts_with_chars(t);
    assert(s.subrange(0, 5) =~= s);
    assert(t.subrange(0, 5) =~= s);
}

/// `Gamma` names `Γ`, alone and before a space.
pub proof fn lemma_name_upper_gamma()
    ensures
        symbol_for_name(seq!['G', 'a', 'm', 'm', 'a']) == Some((5nat, 'Γ')),
        symbol_for_name(seq!['G', 'a', 'm', 'm', 'a'] + seq![' ']) == Some((5nat, 'Γ')),
{
    let s = seq!['G', 'a', 'm', 'm', 'a'];
    let t = s + seq![' '];
    reveal(symbol_for_name);
    reveal(symbol_of_length_5);
    reveal(symbol_of_length_6);
    lemma_longer_absent(s);
    lemma_longer_absent(t);
    lemma_starts_with_chars(s);
    lemma_starts_with_chars(t);
    assert(s.subrange(0, 5) =~= s);
    assert(t.subrange(0, 5) =~= s);
}

/// `Delta` names `Δ`, alone and before a space.
pub proof fn lemma_name_upper_delta()
    ensures
        symbol_for_name(seq!['D', 'e', 'l', 't', 'a']) == Some((5nat, 'Δ')),
        symbol_for_name(seq!['D', 'e', 'l', 't', 'a'] + seq![' ']) == Some((5nat, 'Δ')),
{
    let s = seq!['D', 'e', 'l', 't', 'a'];
    let t = s + seq![' '];
    reveal(symbol_for_name);
    reveal(symbol_of_length_5);
    reveal(symbol_of_length_6);
    lemma_longer_absent(s);
    lemma_longer_absent(t);
    lemma_starts_with_chars(s);
    lemma_starts_with_chars(t);
    assert(s.subrange(0, 5) =~= s);
    assert(t.subrange(0, 5) =~= s);
}

/// `Theta` names `Θ`, alone and before a space.
pub proof fn lemma_name_upper_theta()
    ensures
        symbol_for_name(seq!['T', 'h', 'e', 't', 'a']) == Some((5nat, 'Θ')),
        symbol_for_name(seq!['T', 'h', 'e', 't', 'a'] + seq![' ']) == Some((5nat, 'Θ')),
{
    let s = seq!['T', 'h', 'e', 't', 'a'];
    let t = s + seq![' '];
    reveal(symbol_for_name);
    reveal(symbol_of_length_5);
    reveal(symbol_of_length_6);
    lemma_longer_absent(s);
    lemma_longer_absent(t);
    lemma_starts_with_chars(s);
    lemma_starts_with_chars(t);
    assert(s.subrange(0, 5) =~= s);
    assert(t.subrange(0, 5) =~= s);
}

/// `Lambda` names `Λ`, alone and before a space.
pub proof fn lemma_name_upper_lambda()
    ensures
        symbol_for_name(seq!['L', 'a', 'm', 'b', 'd', 'a']) == Some((6nat, 'Λ')),
        symbol_for_name(seq!['L', 'a', 'm', 'b', 'd', 'a'] + seq![' ']) == Some((6nat, 'Λ')),
{
    let s = seq!['L', 'a', 'm', 'b', 'd', 'a'];
    let t = s + seq![' '];
    reveal(symbol_for_name);
    reveal(symbol_of_length_6);
    reveal(symbol_of_length_7);
    lemma_longer_absent(s);
    lemma_longer_absent(t);
    lemma_starts_with_chars(s);
    lemma_starts_with_chars(t);
    assert(s.subrange(0, 6) =~= s);
    assert(t.subrange(0, 6) =~= s);
}

/// `Xi` names `Ξ`, alone and before a space.
pub proof fn lemma_name_upper_xi()
    ensures
        symbol_for_name(seq!['X', 'i']) == Some((2nat, 'Ξ')),
        symbol_for_name(seq!['X', 'i'] + seq![' ']) == Some((2nat, 'Ξ')),
{
    let s = seq!['X', 'i'];
    let t = s + seq![' '];
    reveal(symbol_for_name);
    reveal(symbol_of_length_2);
    reveal(symbol_of_length_3);
    lemma_longer_absent(s);
    lemma_longer_absent(t);
    lemma_starts_with_chars(s);
    lemma_starts_with_chars(t);
    assert(s.subrange(0, 2) =~= s);
    assert(t.subrange(0, 2) =~= s);
}

/// `Pi` names `Π`, alone and before a space.
pub proof fn lemma_name_upper_pi()
    ensures
        symbol_for_name(seq!['P', 'i']) == Some((2nat, 'Π')),
        symbol_for_name(seq!['P', 'i'] + seq![' ']) == Some((2nat, 'Π')),
{
    let s = seq!['P', 'i'];
    let t = s + seq![' '];
    reveal(symbol_for_name);
    reveal(symbol_of_length_2);
    reveal(symbol_of_length_3);
    lemma_longer_absent(s);
    lemma_longer_absent(t);
    lemma_starts_with_chars(s);
    lemma_starts_with_chars(t);
    assert(s.subrange(0, 2) =~= s);
    assert(t.subrange(0, 2) =~= s);
}

/// `Sigma` names `Σ`, alone and before a space.
pub proof fn lemma_name_upper_sigma()
    ensures
        symbol_for_name(seq!['S', 'i', 'g', 'm', 'a']) == Some((5nat, 'Σ')),
        symbol_for_name(seq!['S', 'i', 'g', 'm', 'a'] + seq![' ']) == Some((5nat, 'Σ')),
{
    let s = seq!['S', 'i', 'g', 'm', 'a'];
    let t = s + seq![' '];
    reveal(symbol_for_name);
    reveal(symbol_of_length_5);
    reveal(symbol_of_length_6);
    lemma_longer_absent(s);
    lemma_longer_absent(t);
    lemma_starts_with_chars(s);
    lemma_starts_with_chars(t);
    assert(s.subrange(0, 5) =~= s);
    assert(t.subrange(0, 5) =~= s);
}

/// `Upsilon` names `Υ`, alone and before a space.
pub proof fn lemma_name_upper_upsilon()
    ensures
        symbol_for_name(seq!['U', 'p', 's', 'i', 'l', 'o', 'n']) == Some((7nat, 'Υ')),
        symbol_for_name(seq!['U', 'p', 's', 'i', 'l', 'o', 'n'] + seq![' ']) == Some((7nat, 'Υ')),
{
    let s = seq!['U', 'p', 's', 'i', 'l', 'o', 'n'];
    let t = s + seq![' '];
    reveal(symbol_for_name);
    reveal(symbol_of_length_7);
    reveal(symbol_of_length_8);
    lemma_longer_absent(s);
    lemma_longer_absent(t);
    lemma_starts_with_chars(s);
    lemma_starts_with_chars(t);
    assert(s.subrange(0, 7) =~= s);
    assert(t.subrange(0, 7) =~= s);
}

/// `Phi` names `Φ`, alone and before a space.
pub proof fn lemma_name_upper_phi()
    ensures
        symbol_for_name(seq!['P', 'h', 'i']) == Some((3nat, 'Φ')),
        symbol_for_name(seq!['P', 'h', 'i'] + seq![' ']) == Some((3nat, 'Φ')),
{
    let s = seq!['P', 'h', 'i'];
    let t = s + seq![' '];
    reveal(symbol_for_name);
    reveal(symbol_of_length_3);
    reveal(symbol_of_length_4);
    lemma_longer_absent(s);
    lemma_longer_absent(t);
    lemma_starts_with_chars(s);
    lemma_starts_with_chars(t);
    assert(s.subrange(0, 3) =~= s);
    assert(t.subrange(0, 3) =~= s);
}

/// `Psi` names `Ψ`, alone and before a space.
pub proof fn lemma_name_upper_psi()
    ensures
        symbol_for_name(seq!['P', 's', 'i']) == Some((3nat, 'Ψ')),
        symbol_for_name(seq!['P', 's', 'i'] + seq![' ']) == Some((3nat, 'Ψ')),
{
    let s = seq!['P', 's', 'i'];
    let t = s + seq![' '];
    reveal(symbol_for_name);
    reveal(symbol_of_length_3);
    reveal(symbol_of_length_4);
    lemma_longer_absent(s);
    lemma_longer_absent(t);
    lemma_starts_with_chars(s);
    lemma_starts_with_chars(t);
    assert(s.subrange(0, 3) =~= s);
    assert(t.subrange(0, 3) =~= s);
}

/// `Omega` names `Ω`, alone and before a space.
pub proof fn lemma_name_upper_omega()
    ensures
        symbol_for_name(seq!['O', 'm', 'e', 'g', 'a']) == Some((5nat, 'Ω')),
        symbol_for_name(seq!['O', 'm', 'e', 'g', 'a'] + seq![' ']) == Some((5nat, 'Ω')),
{
    let s = seq!['O', 'm', 'e', 'g', 'a'];
    let t = s + seq![' '];
    reveal(symbol_for_name);
    reveal(symbol_of_length_5);
    reveal(symbol_of_length_6);
    lemma_longer_absent(s);
    lemma_longer_absent(t);
    lemma_starts_with_chars(s);
    lemma_starts_with_chars(t);
    assert(s.subrange(0, 5) =~= s);
    assert(t.subrange(0, 5) =~= s);
}

/// `pm` names `±`, alone and before a space.
pub proof fn lemma_name_pm()
    ensures
        symbol_for_name(seq!['p', 'm']) == Some((2nat, '±')),
        symbol_for_name(seq!['p', 'm'] + seq![' ']) == Some((2nat, '±')),
{
    let s = seq!['p', 'm'];
    let t = s + seq![' '];
    reveal(symbol_for_name);
    reveal(symbol_of_length_2);
    reveal(symbol_of_length_3);
    lemma_longer_absent(s);
    lemma_longer_absent(t);
    lemma_starts_with_chars(s);
    lemma_starts_with_chars(t);
    assert(s.subrange(0, 2) =~= s);
    assert(t.subrange(0, 2) =~= s);
}

/// `mp` names `∓`, alone and before a space.
pub proof fn lemma_name_mp()
    ensures
        symbol_for_name(seq!['m', 'p']) == Some((2nat, '∓')),
        symbol_for_name(seq!['m', 'p'] + seq![' ']) == Some((2nat, '∓')),
{
    let s = seq!['m', 'p'];
    let t = s + seq![' '];
    reveal(symbol_for_name);
    reveal(symbol_of_length_2);
    reveal(symbol_of_length_3);
    lemma_longer_absent(s);
    lemma_longer_absent(t);
    lemma_starts_with_chars(s);
    lemma_starts_with_chars(t);
    assert(s.subrange(0, 2) =~= s);
    assert(t.subrange(0, 2) =~= s);
}

/// `times` names `×`, alone and before a space.
pub proof fn lemma_name_times()
    ensures
        symbol_for_name(seq!['t', 'i', 'm', 'e', 's']) == Some((5nat, '×')),
        symbol_for_name(seq!['t', 'i', 'm', 'e', 's'] + seq![' ']) == Some((5nat, '×')),
{
    let s = seq!['t', 'i', 'm', 'e', 's'];
    let t = s + seq![' '];
    reveal(symbol_for_name);
    reveal(symbol_of_length_5);
    reveal(symbol_of_length_6);
    lemma_longer_absent(s);
    lemma_longer_absent(t);
    lemma_starts_with_chars(s);
    lemma_starts_with_chars(t);
    assert(s.subrange(0, 5) =~= s);
    assert(t.subrange(0, 5) =~= s);
}

/// `div` names `÷`, alone and before a space.
pub proof fn lemma_name_div()
    ensures
        symbol_for_name(seq!['d', 'i', 'v']) == Some((3nat, '÷')),
        symbol_for_name(seq!['d', 'i', 'v'] + seq![' ']) == Some((3nat, '÷')),
{
    let s = seq!['d', 'i', 'v'];
    let t = s + seq![' '];
    reveal(symbol_for_name);
    reveal(symbol_of_length_3);
    reveal(symbol_of_length_4);
    lemma_longer_absent(s);
    lemma_longer_absent(t);
    lemma_starts_with_chars(s);
    lemma_starts_with_chars(t);
    assert(s.subrange(0, 3) =~= s);
    assert(t.subrange(0, 3) =~= s);
}

/// `cdot` names `·`, alone and before a space.
pub proof fn lemma_name_cdot()
    ensures
        symbol_for_name(seq!['c', 'd', 'o', 't']) == Some((4nat, '·')),
        symbol_for_name(seq!['c', 'd', 'o', 't'] + seq![' ']) == Some((4nat, '·')),
{
    let s = seq!['c', 'd', 'o', 't'];
    let t = s + seq![' '];
    reveal(symbol_for_name);
    reveal(symbol_of_length_4);
    reveal(symbol_of_length_5);
    lemma_longer_absent(s);
    lemma_longer_absent(t);
    lemma_starts_with_chars(s);
    lemma_starts_with_chars(t);
    assert(s.subrange(0, 4) =~= s);
    assert(t.subrange(0, 4) =~= s);
}

/// `circ` names `∘`, alone and before a space.
pub proof fn lemma_name_circ()
    ensures
        symbol_for_name(seq!['c', 'i', 'r', 'c']) == Some((4nat, '∘')),
        symbol_for_name(seq!['c', 'i', 'r', 'c'] + seq![' ']) == Some((4nat, '∘')),
{
    let s = seq!['c', 'i', 'r', 'c'];
    let t = s + seq![' '];
    reveal(symbol_for_name);
    reveal(symbol_of_length_4);
    reveal(symbol_of_length_5);
    lemma_longer_absent(s);
    lemma_longer_absent(t);
    lemma_starts_with_chars(s);
    lemma_starts_with_chars(t);
    assert(s.subrange(0, 4) =~= s);
    assert(t.subrange(0, 4) =~= s);
}

/// `leq` names `≤`, alone and before a space.
pub proof fn lemma_name_leq()
    ensures
        symbol_for_name(seq!['l', 'e', 'q']) == Some((3nat, '≤')),
        symbol_for_name(seq!['l', 'e', 'q'] + seq![' ']) == Some((3nat, '≤')),
{
    let s = seq!['l', 'e', 'q'];
    let t = s + seq![' '];
    reveal(symbol_for_name);
    reveal(symbol_of_length_3);
    reveal(symbol_of_length_4);
    lemma_longer_absent(s);
    lemma_longer_absent(t);
    lemma_starts_with_chars(s);
    lemma_starts_with_chars(t);
    assert(s.subrange(0, 3) =~= s);
    assert(t.subrange(0, 3) =~= s);
}

/// `le` names `≤`, alone and before a space.
pub proof fn lemma_name_le()
    ensures
        symbol_for_name(seq!['l', 'e']) == Some((2nat, '≤')),
        symbol_for_name(seq!['l', 'e'] + seq![' ']) == Some((2nat, '≤')),
{
    let s = seq!['l', 'e'];
    let t = s + seq![' '];
    reveal(symbol_for_name);
    reveal(symbol_of_length_2);
    reveal(symbol_of_length_3);
    lemma_longer_absent(s);
    lemma_longer_absent(t);
    lemma_starts_with_chars(s);
    lemma_starts_with_chars(t);
    assert(s.subrange(0, 2) =~= s);
    assert(t.subrange(0, 2) =~= s);
}

/// `geq` names `≥`, alone and before a space.
pub proof fn lemma_name_geq()
    ensures
        symbol_for_name(seq!['g', 'e', 'q']) == Some((3nat, '≥')),
        symbol_for_name(seq!['g', 'e', 'q'] + seq![' ']) == Some((3nat, '≥')),
{
    let s = seq!['g', 'e', 'q'];
    let t = s + seq![' '];
    reveal(symbol_for_name);
    reveal(symbol_of_length_3);
    reveal(symbol_of_length_4);
    lemma_longer_absent(s);
    lemma_longer_absent(t);
    lemma_starts_with_chars(s);
    lemma_starts_with_chars(t);
    assert(s.subrange(0, 3) =~= s);
    assert(t.subrange(0, 3) =~= s);
}

/// `ge` names `≥`, alone and before a space.
pub proof fn lemma_name_ge()
    ensures
        symbol_for_name(seq!['g', 'e']) == Some((2nat, '≥')),
        symbol_for_name(seq!['g', 'e'] + seq![' ']) == Some((2nat, '≥')),
{
    let s = seq!['g', 'e'];
    let t = s + seq![' '];
    reveal(symbol_for_name);
    reveal(symbol_of_length_2);
    reveal(symbol_of_length_3);
    lemma_longer_absent(s);
    lemma_longer_absent(t);
    lemma_starts_with_chars(s);
    lemma_starts_with_chars(t);
    assert(s.subrange(0, 2) =~= s);
    assert(t.subrange(0, 2) =~= s);
}

/// `neq` names `≠`, alone and before a space.
pub proof fn lemma_name_neq()
    ensures
        symbol_for_name(seq!['n', 'e', 'q']) == Some((3nat, '≠')),
        symbol_for_name(seq!['n', 'e', 'q'] + seq![' ']) == Some((3nat, '≠')),
{
    let s = seq!['n', 'e', 'q'];
    let t = s + seq![' '];
    reveal(symbol_for_name);
    reveal(symbol_of_length_3);
    reveal(symbol_of_length_4);
    lemma_longer_absent(s);
    lemma_longer_absent(t);
    lemma_starts_with_chars(s);
    lemma_starts_with_chars(t);
    assert(s.subrange(0, 3) =~= s);
    assert(t.subrange(0, 3) =~= s);
}

/// `ne` names `≠`, alone and before a space.
pub proof fn lemma_name_ne()
    ensures
        symbol_for_name(seq!['n', 'e']) == Some((2nat, '≠')),
        symbol_for_name(seq!['n', 'e'] + seq![' ']) == Some((2nat, '≠')),
{
    let s = seq!['n', 'e'];
    let t = s + seq![' '];
    reveal(symbol_for_name);
    reveal(symbol_of_length_2);
    reveal(symbol_of_length_3);
    lemma_longer_absent(s);
    lemma_longer_absent(t);
    lemma_starts_with_chars(s);
    lemma_starts_with_chars(t);
    assert(s.subrange(0, 2) =~= s);
    assert(t.subrange(0, 2) =~= s);
}

/// `approx` names `≈`, alone and before a space.
pub proof fn lemma_name_approx()
    ensures
        symbol_for_name(seq!['a', 'p', 'p', 'r', 'o', 'x']) == Some((6nat, '≈')),
        symbol_for_name(seq!['a', 'p', 'p', 'r', 'o', 'x'] + seq![' ']) == Some((6nat, '≈')),
{
    let s = seq!['a', 'p', 'p', 'r', 'o', 'x'];
    let t = s + seq![' '];
    reveal(symbol_for_name);
    reveal(symbol_of_length_6);
    reveal(symbol_of_length_7);
    lemma_longer_absent(s);
    lemma_longer_absent(t);
    lemma_starts_with_chars(s);
    lemma_starts_with_chars(t);
    assert(s.subrange(0, 6) =~= s);
    assert(t.subrange(0, 6) =~= s);
}

/// `equiv` names `≡`, alone and before a space.
pub proof fn lemma_name_equiv()
    ensures
        symbol_for_name(seq!['e', 'q', 'u', 'i', 'v']) == Some((5nat, '≡')),
        symbol_for_name(seq!['e', 'q', 'u', 'i', 'v'] + seq![' ']) == Some((5nat, '≡')),
{
    let s = seq!['e', 'q', 'u', 'i', 'v'];
    let t = s + seq![' '];
    reveal(symbol_for_name);
    reveal(symbol_of_length_5);
    reveal(symbol_of_length_6);
    lemma_longer_absent(s);
    lemma_longer_absent(t);
    lemma_starts_with_chars(s);
    lemma_starts_with_chars(t);
    assert(s.subrange(0, 5) =~= s);
    assert(t.subrange(0, 5) =~= s);
}

/// `sim` names `∼`, alone and before a space.
pub proof fn lemma_name_sim()
    ensures
        symbol_for_name(seq!['s', 'i', 'm']) == Some((3nat, '∼')),
        symbol_for_name(seq!['s', 'i', 'm'] + seq![' ']) == Some((3nat, '∼')),
{
    let s = seq!['s', 'i', 'm'];
    let t = s + seq![' '];
    reveal(symbol_for_name);
    reveal(symbol_of_length_3);
    reveal(symbol_of_length_4);
    lemma_longer_absent(s);
    lemma_longer_absent(t);
    lemma_starts_with_chars(s);
    lemma_starts_with_chars(t);
    assert(s.subrange(0, 3) =~= s);
    assert(t.subrange(0, 3) =~= s);
}

/// `propto` names `∝`, alone and before a space.
pub proof fn lemma_name_propto()
    ensures
        symbol_for_name(seq!['p', 'r', 'o', 'p', 't', 'o']) == Some((6nat, '∝')),
        symbol_for_name(seq!['p', 'r', 'o', 'p', 't', 'o'] + seq![' ']) == Some((6nat, '∝')),
{
    let s = seq!['p', 'r', 'o', 'p', 't', 'o'];
    let t = s + seq![' '];
    reveal(symbol_for_name);
    reveal(symbol_of_length_6);
    reveal(symbol_of_length_7);
    lemma_longer_absent(s);
    lemma_longer_absent(t);
    lemma_starts_with_chars(s);
    lemma_starts_with_chars(t);
    assert(s.subrange(0, 6) =~= s);
    assert(t.subrange(0, 6) =~= s);
}

/// `ll` names `≪`, alone and before a space.
pub proof fn lemma_name_ll()
    ensures
        symbol_for_name(seq!['l', 'l']) == Some((2nat, '≪')),
        symbol_for_name(seq!['l', 'l'] + seq![' ']) == Some((2nat, '≪')),
{
    let s = seq!['l', 'l'];
    let t = s + seq![' '];
    reveal(symbol_for_name);
    reveal(symbol_of_length_2);
    reveal(symbol_of_length_3);
    lemma_longer_absent(s);
    lemma_longer_absent(t);
    lemma_starts_with_chars(s);
    lemma_starts_with_chars(t);
    assert(s.subrange(0, 2) =~= s);
    assert(t.subrange(0, 2) =~= s);
}

/// `gg` names `≫`, alone and before a space.
pub proof fn lemma_name_gg()
    ensures
        symbol_for_name(seq!['g', 'g']) == Some((2nat, '≫')),
        symbol_for_name(seq!['g', 'g'] + seq![' ']) == Some((2nat, '≫')),
{
    let s = seq!['g', 'g'];
    let t = s + seq![' '];
    reveal(symbol_for_name);
    reveal(symbol_of_length_2);
    reveal(symbol_of_length_3);
    lemma_longer_absent(s);
    lemma_longer_absent(t);
    lemma_starts_with_chars(s);
    lemma_starts_with_chars(t);
    assert(s.subrange(0, 2) =~= s);
    assert(t.subrange(0, 2) =~= s);
}

/// `to` names `→`, alone and before a space.
pub proof fn lemma_name_to()
    ensures
        symbol_for_name(seq!['t', 'o']) == Some((2nat, '→')),
        symbol_for_name(seq!['t', 'o'] + seq![' ']) == Some((2nat, '→')),
{
    let s = seq!['t', 'o'];
    let t = s + seq![' '];
    reveal(symbol_for_name);
    reveal(symbol_of_length_2);
    reveal(symbol_of_length_3);
    lemma_longer_absent(s);
    lemma_longer_absent(t);
    lemma_starts_with_chars(s);
    lemma_starts_with_chars(t);
    assert(s.subrange(0, 2) =~= s);
    assert(t.subrange(0, 2) =~= s);
}

/// `rightarrow` names `→`, alone and before a space.
pub proof fn lemma_name_rightarrow()
    ensures
        symbol_for_name(seq!['r', 'i', 'g', 'h', 't', 'a', 'r', 'r', 'o', 'w']) == Some((10nat, '→')),
        symbol_for_name(seq!['r', 'i', 'g', 'h', 't', 'a', 'r', 'r', 'o', 'w'] + seq![' ']) == Some((10nat, '→')),
{
    let s = seq!['r', 'i', 'g', 'h', 't', 'a', 'r', 'r', 'o', 'w'];
    let t = s + seq![' '];
    reveal(symbol_for_name);
    reveal(symbol_of_length_10);
    lemma_longer_absent(s);
    lemma_longer_absent(t);
    lemma_starts_with_chars(s);
    lemma_starts_with_chars(t);
    assert(s.subrange(0, 10) =~= s);
    assert(t.subrange(0, 10) =~= s);
}

/// `leftarrow` names `←`, alone and before a space.
pub proof fn lemma_name_leftarrow()
    ensures
        symbol_for_name(seq!['l', 'e', 'f', 't', 'a', 'r', 'r', 'o', 'w']) == Some((9nat, '←')),
        symbol_for_name(seq!['l', 'e', 'f', 't', 'a', 'r', 'r', 'o', 'w'] + seq![' ']) == Some((9nat, '←')),
{
    let s = seq!['l', 'e', 'f', 't', 'a', 'r', 'r', 'o', 'w'];
    let t = s + seq![' '];
    reveal(symbol_for_name);
    reveal(symbol_of_length_9);
    reveal(symbol_of_length_10);
    lemma_longer_absent(s);
    lemma_longer_absent(t);
    lemma_starts_with_chars(s);
    lemma_starts_with_chars(t);
    assert(s.subrange(0, 9) =~= s);
    assert(t.subrange(0, 9) =~= s);
}

/// `Rightarrow` names `⇒`, alone and before a space.
pub proof fn lemma_name_upper_rightarrow()
    ensures
        symbol_for_name(seq!['R', 'i', 'g', 'h', 't', 'a', 'r', 'r', 'o', 'w']) == Some((10nat, '⇒')),
        symbol_for_name(seq!['R', 'i', 'g', 'h', 't', 'a', 'r', 'r', 'o', 'w'] + seq![' ']) == Some((10nat, '⇒')),
{
    let s = seq!['R', 'i', 'g', 'h', 't', 'a', 'r', 'r', 'o', 'w'];
    let t = s + seq![' '];
    reveal(symbol_for_name);
    reveal(symbol_of_length_10);
    lemma_longer_absent(s);
    lemma_longer_absent(t);
    lemma_starts_with_chars(s);
    lemma_starts_with_chars(t);
    assert(s.subrange(0, 10) =~= s);
    assert(t.subrange(0, 10) =~= s);
}

/// `Leftarrow` names `⇐`, alone and before a space.
pub proof fn lemma_name_upper_leftarrow()
    ensures
        symbol_for_name(seq!['L', 'e', 'f', 't', 'a', 'r', 'r', 'o', 'w']) == Some((9nat, '⇐')),
        symbol_for_name(seq!['L', 'e', 'f', 't', 'a', 'r', 'r', 'o', 'w'] + seq![' ']) == Some((9nat, '⇐')),
{
    let s = seq!['L', 'e', 'f', 't', 'a', 'r', 'r', 'o', 'w'];
    let t = s + seq![' '];
    reveal(symbol_for_name);
    reveal(symbol_of_length_9);
    reveal(symbol_of_length_10);
    lemma_longer_absent(s);
    lemma_longer_absent(t);
    lemma_starts_with_chars(s);
    lemma_starts_with_chars(t);
    assert(s.subrange(0, 9) =~= s);
    assert(t.subrange(0, 9) =~= s);
}

/// `leftrightarrow` names `↔`, alone and before a space.
pub proof fn lemma_name_leftrightarrow()
    ensures
        symbol_for_name(seq!['l', 'e', 'f', 't', 'r', 'i', 'g', 'h', 't', 'a', 'r', 'r', 'o', 'w']) == Some((14nat, '↔')),
        symbol_for_name(seq!['l', 'e', 'f', 't', 'r', 'i', 'g', 'h', 't', 'a', 'r', 'r', 'o', 'w'] + seq![' ']) == Some((14nat, '↔')),
{
    let s = seq!['l', 'e', 'f', 't', 'r', 'i', 'g', 'h', 't', 'a', 'r', 'r', 'o', 'w'];
    let t = s + seq![' '];
    reveal(symbol_for_name);
    reveal(symbol_of_length_14);
    lemma_longer_absent(s);
    lemma_longer_absent(t);
    lemma_starts_with_chars(s);
    lemma_starts_with_chars(t);
    assert(s.subrange(0, 14) =~= s);
    assert(t.subrange(0, 14) =~= s);
}

/// `Leftrightarrow` names `⇔`, alone and before a space.
pub proof fn lemma_name_upper_leftrightarrow()
    ensures
        symbol_for_name(seq!['L', 'e', 'f', 't', 'r', 'i', 'g', 'h', 't', 'a', 'r', 'r', 'o', 'w']) == Some((14nat, '⇔')),
        symbol_for_name(seq!['L', 'e', 'f', 't', 'r', 'i', 'g', 'h', 't', 'a', 'r', 'r', 'o', 'w'] + seq![' ']) == Some((14nat, '⇔')),
{
    let s = seq!['L', 'e', 'f', 't', 'r', 'i', 'g', 'h', 't', 'a', 'r', 'r', 'o', 'w'];
    let t = s + seq![' '];
    reveal(symbol_for_name);
    reveal(symbol_of_length_14);
    lemma_longer_absent(s);
    lemma_longer_absent(t);
    lemma_starts_with_chars(s);
    lemma_starts_with_chars(t);
    assert(s.subrange(0, 14) =~= s);
    assert(t.subrange(0, 14) =~= s);
}

/// `mapsto` names `↦`, alone and before a space.
pub proof fn lemma_name_mapsto()
    ensures
        symbol_for_name(seq!['m', 'a', 'p', 's', 't', 'o']) == Some((6nat, '↦')),
        symbol_for_name(seq!['m', 'a', 'p', 's', 't', 'o'] + seq![' ']) == Some((6nat, '↦')),
{
    let s = seq!['m', 'a', 'p', 's', 't', 'o'];
    let t = s + seq![' '];
    reveal(symbol_for_name);
    reveal(symbol_of_length_6);
    reveal(symbol_of_length_7);
    lemma_longer_absent(s);
    lemma_longer_absent(t);
    lemma_starts_with_chars(s);
    lemma_starts_with_chars(t);
    assert(s.subrange(0, 6) =~= s);
    assert(t.subrange(0, 6) =~= s);
}

/// `uparrow` names `↑`, alone and before a space.
pub proof fn lemma_name_uparrow()
    ensures
        symbol_for_name(seq!['u', 'p', 'a', 'r', 'r', 'o', 'w']) == Some((7nat, '↑')),
        symbol_for_name(seq!['u', 'p', 'a', 'r', 'r', 'o', 'w'] + seq![' ']) == Some((7nat, '↑')),
{
    let s = seq!['u', 'p', 'a', 'r', 'r', 'o', 'w'];
    let t = s + seq![' '];
    reveal(symbol_for_name);
    reveal(symbol_of_length_7);
    reveal(symbol_of_length_8);
    lemma_longer_absent(s);
    lemma_longer_absent(t);
    lemma_starts_with_chars(s);
    lemma_starts_with_chars(t);
    assert(s.subrange(0, 7) =~= s);
    assert(t.subrange(0, 7) =~= s);
}

/// `downarrow` names `↓`, alone and before a space.
pub proof fn lemma_name_downarrow()
    ensures
        symbol_for_name(seq!['d', 'o', 'w', 'n', 'a', 'r', 'r', 'o', 'w']) == Some((9nat, '↓')),
        symbol_for_name(seq!['d', 'o', 'w', 'n', 'a', 'r', 'r', 'o', 'w'] + seq![' ']) == Some((9nat, '↓')),
{
    let s = seq!['d', 'o', 'w', 'n', 'a', 'r', 'r', 'o', 'w'];
    let t = s + seq![' '];
    reveal(symbol_for_name);
    reveal(symbol_of_length_9);
    reveal(symbol_of_length_10);
    lemma_longer_absent(s);
    lemma_longer_absent(t);
    lemma_starts_with_chars(s);
    lemma_starts_with_chars(t);
    assert(s.subrange(0, 9) =~= s);
    assert(t.subrange(0, 9) =~= s);
}

/// `sum` names `∑`, alone and before a space.
pub proof fn lemma_name_sum()
    ensures
        symbol_for_name(seq!['s', 'u', 'm']) == Some((3nat, '∑')),
        symbol_for_name(seq!['s', 'u', 'm'] + seq![' ']) == Some((3nat, '∑')),
{
    let s = seq!['s', 'u', 'm'];
    let t = s + seq![' '];
    reveal(symbol_for_name);
    reveal(symbol_of_length_3);
    reveal(symbol_of_length_4);
    lemma_longer_absent(s);
    lemma_longer_absent(t);
    lemma_starts_with_chars(s);
    lemma_starts_with_chars(t);
    assert(s.subrange(0, 3) =~= s);
    assert(t.subrange(0, 3) =~= s);
}

/// `prod` names `∏`, alone and before a space.
pub proof fn lemma_name_prod()
    ensures
        symbol_for_name(seq!['p', 'r', 'o', 'd']) == Some((4nat, '∏')),
        symbol_for_name(seq!['p', 'r', 'o', 'd'] + seq![' ']) == Some((4nat, '∏')),
{
    let s = seq!['p', 'r', 'o', 'd'];
    let t = s + seq![' '];
    reveal(symbol_for_name);
    reveal(symbol_of_length_4);
    reveal(symbol_of_length_5);
    lemma_longer_absent(s);
    lemma_longer_absent(t);
    lemma_starts_with_chars(s);
    lemma_starts_with_chars(t);
    assert(s.subrange(0, 4) =~= s);
    assert(t.subrange(0, 4) =~= s);
}

/// `int` names `∫`, alone and before a space.
pub proof fn lemma_name_int()
    ensures
        symbol_for_name(seq!['i', 'n', 't']) == Some((3nat, '∫')),
        symbol_for_name(seq!['i', 'n', 't'] + seq![' ']) == Some((3nat, '∫')),
{
    let s = seq!['i', 'n', 't'];
    let t = s + seq![' '];
    reveal(symbol_for_name);
    reveal(symbol_of_length_3);
    reveal(symbol_of_length_4);
    lemma_longer_absent(s);
    lemma_longer_absent(t);
    lemma_starts_with_chars(s);
    lemma_starts_with_chars(t);
    assert(s.subrange(0, 3) =~= s);
    assert(t.subrange(0, 3) =~= s);
}

/// `oint` names `∮`, alone and before a space.
pub proof fn lemma_name_oint()
    ensures
        symbol_for_name(seq!['o', 'i', 'n', 't']) == Some((4nat, '∮')),
        symbol_for_name(seq!['o', 'i', 'n', 't'] + seq![' ']) == Some((4nat, '∮')),
{
    let s = seq!['o', 'i', 'n', 't'];
    let t = s + seq![' '];
    reveal(symbol_for_name);
    reveal(symbol_of_length_4);
    reveal(symbol_of_length_5);
    lemma_longer_absent(s);
    lemma_longer_absent(t);
    lemma_starts_with_chars(s);
    lemma_starts_with_chars(t);
    assert(s.subrange(0, 4) =~= s);
    assert(t.subrange(0, 4) =~= s);
}

/// `bigcup` names `⋃`, alone and before a space.
pub proof fn lemma_name_bigcup()
    ensures
        symbol_for_name(seq!['b', 'i', 'g', 'c', 'u', 'p']) == Some((6nat, '⋃')),
        symbol_for_name(seq!['b', 'i', 'g', 'c', 'u', 'p'] + seq![' ']) == Some((6nat, '⋃')),
{
    let s = seq!['b', 'i', 'g', 'c', 'u', 'p'];
    let t = s + seq![' '];
    reveal(symbol_for_name);
    reveal(symbol_of_length_6);
    reveal(symbol_of_length_7);
    lemma_longer_absent(s);
    lemma_longer_absent(t);
    lemma_starts_with_chars(s);
    lemma_starts_with_chars(t);
    assert(s.subrange(0, 6) =~= s);
    assert(t.subrange(0, 6) =~= s);
}

/// `bigcap` names `⋂`, alone and before a space.
pub proof fn lemma_name_bigcap()
    ensures
        symbol_for_name(seq!['b', 'i', 'g', 'c', 'a', 'p']) == Some((6nat, '⋂')),
        symbol_for_name(seq!['b', 'i', 'g', 'c', 'a', 'p'] + seq![' ']) == Some((6nat, '⋂')),
{
    let s = seq!['b', 'i', 'g', 'c', 'a', 'p'];
    let t = s + seq![' '];
    reveal(symbol_for_name);
    reveal(symbol_of_length_6);
    reveal(symbol_of_length_7);
    lemma_longer_absent(s);
    lemma_longer_absent(t);
    lemma_starts_with_chars(s);
    lemma_starts_with_chars(t);
    assert(s.subrange(0, 6) =~= s);
    assert(t.subrange(0, 6) =~= s);
}

/// `in` names `∈`, alone and before a space.
pub proof fn lemma_name_in()
    ensures
        symbol_for_name(seq!['i', 'n']) == Some((2nat, '∈')),
        symbol_for_name(seq!['i', 'n'] + seq![' ']) == Some((2nat, '∈')),
{
    let s = seq!['i', 'n'];
    let t = s + seq![' '];
    reveal(symbol_for_name);
    reveal(symbol_of_length_2);
    reveal(symbol_of_length_3);
    lemma_longer_absent(s);
    lemma_longer_absent(t);
    lemma_starts_with_chars(s);
    lemma_starts_with_chars(t);
    assert(s.subrange(0, 2) =~= s);
    assert(t.subrange(0, 2) =~= s);
}

/// `notin` names `∉`, alone and before a space.
pub proof fn lemma_name_notin()
    ensures
        symbol_for_name(seq!['n', 'o', 't', 'i', 'n']) == Some((5nat, '∉')),
        symbol_for_name(seq!['n', 'o', 't', 'i', 'n'] + seq![' ']) == Some((5nat, '∉')),
{
    let s = seq!['n', 'o', 't', 'i', 'n'];
    let t = s + seq![' '];
    reveal(symbol_for_name);
    reveal(symbol_of_length_5);
    reveal(symbol_of_length_6);
    lemma_longer_absent(s);
    lemma_longer_absent(t);
    lemma_starts_with_chars(s);
    lemma_starts_with_chars(t);
    assert(s.subrange(0, 5) =~= s);
    assert(t.subrange(0, 5) =~= s);
}

/// `subset` names `⊂`, alone and before a space.
pub proof fn lemma_name_subset()
    ensures
        symbol_for_name(seq!['s', 'u', 'b', 's', 'e', 't']) == Some((6nat, '⊂')),
        symbol_for_name(seq!['s', 'u', 'b', 's', 'e', 't'] + seq![' ']) == Some((6nat, '⊂')),
{
    let s = seq!['s', 'u', 'b', 's', 'e', 't'];
    let t = s + seq![' '];
    reveal(symbol_for_name);
    reveal(symbol_of_length_6);
    reveal(symbol_of_length_7);
    lemma_longer_absent(s);
    lemma_longer_absent(t);
    lemma_starts_with_chars(s);
    lemma_starts_with_chars(t);
    assert(s.subrange(0, 6) =~= s);
    assert(t.subrange(0, 6) =~= s);
}

/// `supset` names `⊃`, alone and before a space.
pub proof fn lemma_name_supset()
    ensures
        symbol_for_name(seq!['s', 'u', 'p', 's', 'e', 't']) == Some((6nat, '⊃')),
        symbol_for_name(seq!['s', 'u', 'p', 's', 'e', 't'] + seq![' ']) == Some((6nat, '⊃')),
{
    let s = seq!['s', 'u', 'p', 's', 'e', 't'];
    let t = s + seq![' '];
    reveal(symbol_for_name);
    reveal(symbol_of_length_6);
    reveal(symbol_of_length_7);
    lemma_longer_absent(s);
    lemma_longer_absent(t);
    lemma_starts_with_chars(s);
    lemma_starts_with_chars(t);
    assert(s.subrange(0, 6) =~= s);
    assert(t.subrange(0, 6) =~= s);
}

/// `subseteq` names `⊆`, alone and before a space.
pub proof fn lemma_name_subseteq()
    ensures
        symbol_for_name(seq!['s', 'u', 'b', 's', 'e', 't', 'e', 'q']) == Some((8nat, '⊆')),
        symbol_for_name(seq!['s', 'u', 'b', 's', 'e', 't', 'e', 'q'] + seq![' ']) == Some((8nat, '⊆')),
{
    let s = seq!['s', 'u', 'b', 's', 'e', 't', 'e', 'q'];
    let t = s + seq![' '];
    reveal(symbol_for_name);
    reveal(symbol_of_length_8);
    reveal(symbol_of_length_9);
    lemma_longer_absent(s);
    lemma_longer_absent(t);
    lemma_starts_with_chars(s);
    lemma_starts_with_chars(t);
    assert(s.subrange(0, 8) =~= s);
    assert(t.subrange(0, 8) =~= s);
}

/// `supseteq` names `⊇`, alone and before a space.
pub proof fn lemma_name_supseteq()
    ensures
        symbol_for_name(seq!['s', 'u', 'p', 's', 'e', 't', 'e', 'q']) == Some((8nat, '⊇')),
        symbol_for_name(seq!['s', 'u', 'p', 's', 'e', 't', 'e', 'q'] + seq![' ']) == Some((8nat, '⊇')),
{
    let s = seq!['s', 'u', 'p', 's', 'e', 't', 'e', 'q'];
    let t = s + seq![' '];
    reveal(symbol_for_name);
    reveal(symbol_of_length_8);
    reveal(symbol_of_length_9);
    lemma_longer_absent(s);
    lemma_longer_absent(t);
    lemma_starts_with_chars(s);
    lemma_starts_with_chars(t);
    assert(s.subrange(0, 8) =~= s);
    assert(t.subrange(0, 8) =~= s);
}

/// `cup` names `∪`, alone and before a space.
pub proof fn lemma_name_cup()
    ensures
        symbol_for_name(seq!['c', 'u', 'p']) == Some((3nat, '∪')),
        symbol_for_name(seq!['c', 'u', 'p'] + seq![' ']) == Some((3nat, '∪')),
{
    let s = seq!['c', 'u', 'p'];
    let t = s + seq![' '];
    reveal(symbol_for_name);
    reveal(symbol_of_length_3);
    reveal(symbol_of_length_4);
    lemma_longer_absent(s);
    lemma_longer_absent(t);
    lemma_starts_with_chars(s);
    lemma_starts_with_chars(t);
    assert(s.subrange(0, 3) =~= s);
    assert(t.subrange(0, 3) =~= s);
}

/// `cap` names `∩`, alone and before a space.
pub proof fn lemma_name_cap()
    ensures
        symbol_for_name(seq!['c', 'a', 'p']) == Some((3nat, '∩')),
        symbol_for_name(seq!['c', 'a', 'p'] + seq![' ']) == Some((3nat, '∩')),
{
    let s = seq!['c', 'a', 'p'];
    let t = s + seq![' '];
    reveal(symbol_for_name);
    reveal(symbol_of_length_3);
    reveal(symbol_of_length_4);
    lemma_longer_absent(s);
    lemma_longer_absent(t);
    lemma_starts_with_chars(s);
    lemma_starts_with_chars(t);
    assert(s.subrange(0, 3) =~= s);
    assert(t.subrange(0, 3) =~= s);
}

/// `emptyset` names `∅`, alone and before a space.
pub proof fn lemma_name_emptyset()
    ensures
        symbol_for_name(seq!['e', 'm', 'p', 't', 'y', 's', 'e', 't']) == Some((8nat, '∅')),
        symbol_for_name(seq!['e', 'm', 'p', 't', 'y', 's', 'e', 't'] + seq![' ']) == Some((8nat, '∅')),
{
    let s = seq!['e', 'm', 'p', 't', 'y', 's', 'e', 't'];
    let t = s + seq![' '];
    reveal(symbol_for_name);
    reveal(symbol_of_length_8);
    reveal(symbol_of_length_9);
    lemma_longer_absent(s);
    lemma_longer_absent(t);
    lemma_starts_with_chars(s);
    lemma_starts_with_chars(t);
    assert(s.subrange(0, 8) =~= s);
    assert(t.subrange(0, 8) =~= s);
}

/// `varnothing` names `∅`, alone and before a space.
pub proof fn lemma_name_varnothing()
    ensures
        symbol_for_name(seq!['v', 'a', 'r', 'n', 'o', 't', 'h', 'i', 'n', 'g']) == Some((10nat, '∅')),
        symbol_for_name(seq!['v', 'a', 'r', 'n', 'o', 't', 'h', 'i', 'n', 'g'] + seq![' ']) == Some((10nat, '∅')),
{
    let s = seq!['v', 'a', 'r', 'n', 'o', 't', 'h', 'i', 'n', 'g'];
    let t = s + seq![' '];
    reveal(symbol_for_name);
    reveal(symbol_of_length_10);
    lemma_longer_absent(s);
    lemma_longer_absent(t);
    lemma_starts_with_chars(s);
    lemma_starts_with_chars(t);
    assert(s.subrange(0, 10) =~= s);
    assert(t.subrange(0, 10) =~= s);
}

/// `forall` names `∀`, alone and before a space.
pub proof fn lemma_name_forall()
    ensures
        symbol_for_name(seq!['f', 'o', 'r', 'a', 'l', 'l']) == Some((6nat, '∀')),
        symbol_for_name(seq!['f', 'o', 'r', 'a', 'l', 'l'] + seq![' ']) == Some((6nat, '∀')),
{
    let s = seq!['f', 'o', 'r', 'a', 'l', 'l'];
    let t = s + seq![' '];
    reveal(symbol_for_name);
    reveal(symbol_of_length_6);
    reveal(symbol_of_length_7);
    lemma_longer_absent(s);
    lemma_longer_absent(t);
    lemma_starts_with_chars(s);
    lemma_starts_with_chars(t);
    assert(s.subrange(0, 6) =~= s);
    assert(t.subrange(0, 6) =~= s);
}

/// `exists` names `∃`, alone and before a space.
pub proof fn lemma_name_exists()
    ensures
        symbol_for_name(seq!['e', 'x', 'i', 's', 't', 's']) == Some((6nat, '∃')),
        symbol_for_name(seq!['e', 'x', 'i', 's', 't', 's'] + seq![' ']) == Some((6nat, '∃')),
{
    let s = seq!['e', 'x', 'i', 's', 't', 's'];
    let t = s + seq![' '];
    reveal(symbol_for_name);
    reveal(symbol_of_length_6);
    reveal(symbol_of_length_7);
    lemma_longer_absent(s);
    lemma_longer_absent(t);
    lemma_starts_with_chars(s);
    lemma_starts_with_chars(t);
    assert(s.subrange(0, 6) =~= s);
    assert(t.subrange(0, 6) =~= s);
}

/// `neg` names `¬`, alone and before a space.
pub proof fn lemma_name_neg()
    ensures
        symbol_for_name(seq!['n', 'e', 'g']) == Some((3nat, '¬')),
        symbol_for_name(seq!['n', 'e', 'g'] + seq![' ']) == Some((3nat, '¬')),
{
    let s = seq!['n', 'e', 'g'];
    let t = s + seq![' '];
    reveal(symbol_for_name);
    reveal(symbol_of_length_3);
    reveal(symbol_of_length_4);
    lemma_longer_absent(s);
    lemma_longer_absent(t);
    lemma_starts_with_chars(s);
    lemma_starts_with_chars(t);
    assert(s.subrange(0, 3) =~= s);
    assert(t.subrange(0, 3) =~= s);
}

/// `land` names `∧`, alone and before a space.
pub proof fn lemma_name_land()
    ensures
        symbol_for_name(seq!['l', 'a', 'n', 'd']) == Some((4nat, '∧')),
        symbol_for_name(seq!['l', 'a', 'n', 'd'] + seq![' ']) == Some((4nat, '∧')),
{
    let s = seq!['l', 'a', 'n', 'd'];
    let t = s + seq![' '];
    reveal(symbol_for_name);
    reveal(symbol_of_length_4);
    reveal(symbol_of_length_5);
    lemma_longer_absent(s);
    lemma_longer_absent(t);
    lemma_starts_with_chars(s);
    lemma_starts_with_chars(t);
    assert(s.subrange(0, 4) =~= s);
    assert(t.subrange(0, 4) =~= s);
}

/// `lor` names `∨`, alone and before a space.
pub proof fn lemma_name_lor()
    ensures
        symbol_for_name(seq!['l', 'o', 'r']) == Some((3nat, '∨')),
        symbol_for_name(seq!['l', 'o', 'r'] + seq![' ']) == Some((3nat, '∨')),
{
    let s = seq!['l', 'o', 'r'];
    let t = s + seq![' '];
    reveal(symbol_for_name);
    reveal(symbol_of_length_3);
    reveal(symbol_of_length_4);
    lemma_longer_absent(s);
    lemma_longer_absent(t);
    lemma_starts_with_chars(s);
    lemma_starts_with_chars(t);
    assert(s.subrange(0, 3) =~= s);
    assert(t.subrange(0, 3) =~= s);
}

/// `implies` names `⟹`, alone and before a space.
pub proof fn lemma_name_implies()
    ensures
        symbol_for_name(seq!['i', 'm', 'p', 'l', 'i', 'e', 's']) == Some((7nat, '⟹')),
        symbol_for_name(seq!['i', 'm', 'p', 'l', 'i', 'e', 's'] + seq![' ']) == Some((7nat, '⟹')),
{
    let s = seq!['i', 'm', 'p', 'l', 'i', 'e', 's'];
    let t = s + seq![' '];
    reveal(symbol_for_name);
    reveal(symbol_of_length_7);
    reveal(symbol_of_length_8);
    lemma_longer_absent(s);
    lemma_longer_absent(t);
    lemma_starts_with_chars(s);
    lemma_starts_with_chars(t);
    assert(s.subrange(0, 7) =~= s);
    assert(t.subrange(0, 7) =~= s);
}

/// `iff` names `⟺`, alone and before a space.
pub proof fn lemma_name_iff()
    ensures
        symbol_for_name(seq!['i', 'f', 'f']) == Some((3nat, '⟺')),
        symbol_for_name(seq!['i', 'f', 'f'] + seq![' ']) == Some((3nat, '⟺')),
{
    let s = seq!['i', 'f', 'f'];
    let t = s + seq![' '];
    reveal(symbol_for_name);
    reveal(symbol_of_length_3);
    reveal(symbol_of_length_4);
    lemma_longer_absent(s);
    lemma_longer_absent(t);
    lemma_starts_with_chars(s);
    lemma_starts_with_chars(t);
    assert(s.subrange(0, 3) =~= s);
    assert(t.subrange(0, 3) =~= s);
}

/// `infty` names `∞`, alone and before a space.
pub proof fn lemma_name_infty()
    ensures
        symbol_for_name(seq!['i', 'n', 'f', 't', 'y']) == Some((5nat, '∞')),
        symbol_for_name(seq!['i', 'n', 'f', 't', 'y'] + seq![' ']) == Some((5nat, '∞')),
{
    let s = seq!['i', 'n', 'f', 't', 'y'];
    let t = s + seq![' '];
    reveal(symbol_for_name);
    reveal(symbol_of_length_5);
    reveal(symbol_of_length_6);
    lemma_longer_absent(s);
    lemma_longer_absent(t);
    lemma_starts_with_chars(s);
    lemma_starts_with_chars(t);
    assert(s.subrange(0, 5) =~= s);
    assert(t.subrange(0, 5) =~= s);
}

/// `partial` names `∂`, alone and before a space.
pub proof fn lemma_name_partial()
    ensures
        symbol_for_name(seq!['p', 'a', 'r', 't', 'i', 'a', 'l']) == Some((7nat, '∂')),
        symbol_for_name(seq!['p', 'a', 'r', 't', 'i', 'a', 'l'] + seq![' ']) == Some((7nat, '∂')),
{
    let s = seq!['p', 'a', 'r', 't', 'i', 'a', 'l'];
    let t = s + seq![' '];
    reveal(symbol_for_name);
    reveal(symbol_of_length_7);
    reveal(symbol_of_length_8);
    lemma_longer_absent(s);
    lemma_longer_absent(t);
    lemma_starts_with_chars(s);
    lemma_starts_with_chars(t);
    assert(s.subrange(0, 7) =~= s);
    assert(t.subrange(0, 7) =~= s);
}

/// `nabla` names `∇`, alone and before a space.
pub proof fn lemma_name_nabla()
    ensures
        symbol_for_name(seq!['n', 'a', 'b', 'l', 'a']) == Some((5nat, '∇')),
        symbol_for_name(seq!['n', 'a', 'b', 'l', 'a'] + seq![' ']) == Some((5nat, '∇')),
{
    let s = seq!['n', 'a', 'b', 'l', 'a'];
    let t = s + seq![' '];
    reveal(symbol_for_name);
    reveal(symbol_of_length_5);
    reveal(symbol_of_length_6);
    lemma_longer_absent(s);
    lemma_longer_absent(t);
    lemma_starts_with_chars(s);
    lemma_starts_with_chars(t);
    assert(s.subrange(0, 5) =~= s);
    assert(t.subrange(0, 5) =~= s);
}

/// `sqrt` names `√`, alone and before a space.
pub proof fn lemma_name_sqrt()
    ensures
        symbol_for_name(seq!['s', 'q', 'r', 't']) == Some((4nat, '√')),
        symbol_for_name(seq!['s', 'q', 'r', 't'] + seq![' ']) == Some((4nat, '√')),
{
    let s = seq!['s', 'q', 'r', 't'];
    let t = s + seq![' '];
    reveal(symbol_for_name);
    reveal(symbol_of_length_4);
    reveal(symbol_of_length_5);
    lemma_longer_absent(s);
    lemma_longer_absent(t);
    lemma_starts_with_chars(s);
    lemma_starts_with_chars(t);
    assert(s.subrange(0, 4) =~= s);
    assert(t.subrange(0, 4) =~= s);
}

/// `ldots` names `…`, alone and before a space.
pub proof fn lemma_name_ldots()
    ensures
        symbol_for_name(seq!['l', 'd', 'o', 't', 's']) == Some((5nat, '…')),
        symbol_for_name(seq!['l', 'd', 'o', 't', 's'] + seq![' ']) == Some((5nat, '…')),
{
    let s = seq!['l', 'd', 'o', 't', 's'];
    let t = s + seq![' '];
    reveal(symbol_for_name);
    reveal(symbol_of_length_5);
    reveal(symbol_of_length_6);
    lemma_longer_absent(s);
    lemma_longer_absent(t);
    lemma_starts_with_chars(s);
    lemma_starts_with_chars(t);
    assert(s.subrange(0, 5) =~= s);
    assert(t.subrange(0, 5) =~= s);
}

/// `cdots` names `⋯`, alone and before a space.
pub proof fn lemma_name_cdots()
    ensures
        symbol_for_name(seq!['c', 'd', 'o', 't', 's']) == Some((5nat, '⋯')),
        symbol_for_name(seq!['c', 'd', 'o', 't', 's'] + seq![' ']) == Some((5nat, '⋯')),
{
    let s = seq!['c', 'd', 'o', 't', 's'];
    let t = s + seq![' '];
    reveal(symbol_for_name);
    reveal(symbol_of_length_5);
    reveal(symbol_of_length_6);
    lemma_longer_absent(s);
    lemma_longer_absent(t);
    lemma_starts_with_chars(s);
    lemma_starts_with_chars(t);
    assert(s.subrange(0, 5) =~= s);
    assert(t.subrange(0, 5) =~= s);
}

/// `vdots` names `⋮`, alone and before a space.
pub proof fn lemma_name_vdots()
    ensures
        symbol_for_name(seq!['v', 'd', 'o', 't', 's']) == Some((5nat, '⋮')),
        symbol_for_name(seq!['v', 'd', 'o', 't', 's'] + seq![' ']) == Some((5nat, '⋮')),
{
    let s = seq!['v', 'd', 'o', 't', 's'];
    let t = s + seq![' '];
    reveal(symbol_for_name);
    reveal(symbol_of_length_5);
    reveal(symbol_of_length_6);
    lemma_longer_absent(s);
    lemma_longer_absent(t);
    lemma_starts_with_chars(s);
    lemma_starts_with_chars(t);
    assert(s.subrange(0, 5) =~= s);
    assert(t.subrange(0, 5) =~= s);
}

/// `ddots` names `⋱`, alone and before a space.
pub proof fn lemma_name_ddots()
    ensures
        symbol_for_name(seq!['d', 'd', 'o', 't', 's']) == Some((5nat, '⋱')),
        symbol_for_name(seq!['d', 'd', 'o', 't', 's'] + seq![' ']) == Some((5nat, '⋱')),
{
    let s = seq!['d', 'd', 'o', 't', 's'];
    let t = s + seq![' '];
    reveal(symbol_for_name);
    reveal(symbol_of_length_5);
    reveal(symbol_of_length_6);
    lemma_longer_absent(s);
    lemma_longer_absent(t);
    lemma_starts_with_chars(s);
    lemma_starts_with_chars(t);
    assert(s.subrange(0, 5) =~= s);
    assert(t.subrange(0, 5) =~= s);
}

/// `langle` names `⟨`, alone and before a space.
pub proof fn lemma_name_langle()
    ensures
        symbol_for_name(seq!['l', 'a', 'n', 'g', 'l', 'e']) == Some((6nat, '⟨')),
        symbol_for_name(seq!['l', 'a', 'n', 'g', 'l', 'e'] + seq![' ']) == Some((6nat, '⟨')),
{
    let s = seq!['l', 'a', 'n', 'g', 'l', 'e'];
    let t = s + seq![' '];
    reveal(symbol_for_name);
    reveal(symbol_of_length_6);
    reveal(symbol_of_length_7);
    lemma_longer_absent(s);
    lemma_longer_absent(t);
    lemma_starts_with_chars(s);
    lemma_starts_with_chars(t);
    assert(s.subrange(0, 6) =~= s);
    assert(t.subrange(0, 6) =~= s);
}

/// `rangle` names `⟩`, alone and before a space.
pub proof fn lemma_name_rangle()
    ensures
        symbol_for_name(seq!['r', 'a', 'n', 'g', 'l', 'e']) == Some((6nat, '⟩')),
        symbol_for_name(seq!['r', 'a', 'n', 'g', 'l', 'e'] + seq![' ']) == Some((6nat, '⟩')),
{
    let s = seq!['r', 'a', 'n', 'g', 'l', 'e'];
    let t = s + seq![' '];
    reveal(symbol_for_name);
    reveal(symbol_of_length_6);
    reveal(symbol_of_length_7);
    lemma_longer_absent(s);
    lemma_longer_absent(t);
    lemma_starts_with_chars(s);
    lemma_starts_with_chars(t);
    assert(s.subrange(0, 6) =~= s);
    assert(t.subrange(0, 6) =~= s);
}

/// `|` names `‖`, alone and before a space.
pub proof fn lemma_name_bar()
    ensures
        symbol_for_name(seq!['|']) == Some((1nat, '‖')),
        symbol_for_name(seq!['|'] + seq![' ']) == Some((1nat, '‖')),
{
    let s = seq!['|'];
    let t = s + seq![' '];
    reveal(symbol_for_name);
    reveal(symbol_of_length_1);
    reveal(symbol_of_length_2);
    lemma_longer_absent(s);
    lemma_longer_absent(t);
    lemma_starts_with_chars(s);
    lemma_starts_with_chars(t);
    assert(s.subrange(0, 1) =~= s);
    assert(t.subrange(0, 1) =~= s);
}

/// `ell` names `ℓ`, alone and before a space.
pub proof fn lemma_name_ell()
    ensures
        symbol_for_name(seq!['e', 'l', 'l']) == Some((3nat, 'ℓ')),
        symbol_for_name(seq!['e', 'l', 'l'] + seq![' ']) == Some((3nat, 'ℓ')),
{
    let s = seq!['e', 'l', 'l'];
    let t = s + seq![' '];
    reveal(symbol_for_name);
    reveal(symbol_of_length_3);
    reveal(symbol_of_length_4);
    lemma_longer_absent(s);
    lemma_longer_absent(t);
    lemma_starts_with_chars(s);
    lemma_starts_with_chars(t);
    assert(s.subrange(0, 3) =~= s);
    assert(t.subrange(0, 3) =~= s);
}

/// `hbar` names `ℏ`, alone and before a space.
pub proof fn lemma_name_hbar()
    ensures
        symbol_for_name(seq!['h', 'b', 'a', 'r']) == Some((4nat, 'ℏ')),
        symbol_for_name(seq!['h', 'b', 'a', 'r'] + seq![' ']) == Some((4nat, 'ℏ')),
{
    let s = seq!['h', 'b', 'a', 'r'];
    let t = s + seq![' '];
    reveal(symbol_for_name);
    reveal(symbol_of_length_4);
    reveal(symbol_of_length_5);
    lemma_longer_absent(s);
    lemma_longer_absent(t);
    lemma_starts_with_chars(s);
    lemma_starts_with_chars(t);
    assert(s.subrange(0, 4) =~= s);
    assert(t.subrange(0, 4) =~= s);
}

/// `mathbb{R}` names `ℝ`, alone and before a space.
pub proof fn lemma_name_mathbb_upper_r()
    ensures
        symbol_for_name(seq!['m', 'a', 't', 'h', 'b', 'b', '{', 'R', '}']) == Some((9nat, 'ℝ')),
        symbol_for_name(seq!['m', 'a', 't', 'h', 'b', 'b', '{', 'R', '}'] + seq![' ']) == Some((9nat, 'ℝ')),
{
    let s = seq!['m', 'a', 't', 'h', 'b', 'b', '{', 'R', '}'];
    let t = s + seq![' '];
    reveal(symbol_for_name);
    reveal(symbol_of_length_9);
    reveal(symbol_of_length_10);
    lemma_longer_absent(s);
    lemma_longer_absent(t);
    lemma_starts_with_chars(s);
    lemma_starts_with_chars(t);
    assert(s.subrange(0, 9) =~= s);
    assert(t.subrange(0, 9) =~= s);
}

/// `mathbb{N}` names `ℕ`, alone and before a space.
pub proof fn lemma_name_mathbb_upper_n()
    ensures
        symbol_for_name(seq!['m', 'a', 't', 'h', 'b', 'b', '{', 'N', '}']) == Some((9nat, 'ℕ')),
        symbol_for_name(seq!['m', 'a', 't', 'h', 'b', 'b', '{', 'N', '}'] + seq![' ']) == Some((9nat, 'ℕ')),
{
    let s = seq!['m', 'a', 't', 'h', 'b', 'b', '{', 'N', '}'];
    let t = s + seq![' '];
    reveal(symbol_for_name);
    reveal(symbol_of_length_9);
    reveal(symbol_of_length_10);
    lemma_longer_absent(s);
    lemma_longer_absent(t);
    lemma_starts_with_chars(s);
    lemma_starts_with_chars(t);
    assert(s.subrange(0, 9) =~= s);
    assert(t.subrange(0, 9) =~= s);
}

/// `mathbb{Z}` names `ℤ`, alone and before a space.
pub proof fn lemma_name_mathbb_upper_z()
    ensures
        symbol_for_name(seq!['m', 'a', 't', 'h', 'b', 'b', '{', 'Z', '}']) == Some((9nat, 'ℤ')),
        symbol_for_name(seq!['m', 'a', 't', 'h', 'b', 'b', '{', 'Z', '}'] + seq![' ']) == Some((9nat, 'ℤ')),
{
    let s = seq!['m', 'a', 't', 'h', 'b', 'b', '{', 'Z', '}'];
    let t = s + seq![' '];
    reveal(symbol_for_name);
    reveal(symbol_of_length_9);
    reveal(symbol_of_length_10);
    lemma_longer_absent(s);
    lemma_longer_absent(t);
    lemma_starts_with_chars(s);
    lemma_starts_with_chars(t);
    assert(s.subrange(0, 9) =~= s);
    assert(t.subrange(0, 9) =~= s);
}

/// `mathbb{Q}` names `ℚ`, alone and before a space.
pub proof fn lemma_name_mathbb_upper_q()
    ensures
        symbol_for_name(seq!['m', 'a', 't', 'h', 'b', 'b', '{', 'Q', '}']) == Some((9nat, 'ℚ')),
        symbol_for_name(seq!['m', 'a', 't', 'h', 'b', 'b', '{', 'Q', '}'] + seq![' ']) == Some((9nat, 'ℚ')),
{
    let s = seq!['m', 'a', 't', 'h', 'b', 'b', '{', 'Q', '}'];
    let t = s + seq![' '];
    reveal(symbol_for_name);
    reveal(symbol_of_length_9);
    reveal(symbol_of_length_10);
    lemma_longer_absent(s);
    lemma_longer_absent(t);
    lemma_starts_with_chars(s);
    lemma_starts_with_chars(t);
    assert(s.subrange(0, 9) =~= s);
    assert(t.subrange(0, 9) =~= s);
}

/// `mathbb{C}` names `ℂ`, alone and before a space.
pub proof fn lemma_name_mathbb_upper_c()
    ensures
        symbol_for_name(seq!['m', 'a', 't', 'h', 'b', 'b', '{', 'C', '}']) == Some((9nat, 'ℂ')),
        symbol_for_name(seq!['m', 'a', 't', 'h', 'b', 'b', '{', 'C', '}'] + seq![' ']) == Some((9nat, 'ℂ')),
{
    let s = seq!['m', 'a', 't', 'h', 'b', 'b', '{', 'C', '}'];
    let t = s + seq![' '];
    reveal(symbol_for_name);
    reveal(symbol_of_length_9);
    reveal(symbol_of_length_10);
    lemma_longer_absent(s);
    lemma_longer_absent(t);
    lemma_starts_with_chars(s);
    lemma_starts_with_chars(t);
    assert(s.subrange(0, 9) =~= s);
    assert(t.subrange(0, 9) =~= s);
}

} // verus!
