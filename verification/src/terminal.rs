//! Terminal rendering capabilities: the `--mode` names, detection from the
//! environment's values, and the dark-background guess.
use vstd::prelude::*;
use crate::scanner::split_on;
use crate::text::{chars_of, contains_exec, contains_seq, equals_chars, opt_chars, slice_chars};

verus! {

/// Terminal rendering capability levels.
#[derive(Debug, Clone, Copy, PartialEq, Eq, Structural)]
pub enum Capability {
    KittyGraphics,
    ITerm2,
    UnicodeArt,
    InlineUnicode,
}

/// The capability that a `--mode` name selects; `None` for any other name
/// (`auto` and `off` among them).
pub open spec fn mode_capability(mode: Seq<char>) -> Option<Capability> {
    if mode == seq!['k', 'i', 't', 't', 'y'] {
        Some(Capability::KittyGraphics)
    } else if mode == seq!['i', 't', 'e', 'r', 'm', '2'] {
        Some(Capability::ITerm2)
    } else if mode == seq!['u', 'n', 'i', 'c', 'o', 'd', 'e'] {
        Some(Capability::UnicodeArt)
    } else if mode == seq!['i', 'n', 'l', 'i', 'n', 'e'] {
        Some(Capability::InlineUnicode)
    } else {
        None
    }
}

/// Parses the `--mode` flag to a capability. Returns `None` for `auto`.
pub fn parse_mode(mode: &str) -> (r: Option<Capability>)
    ensures
        r == mode_capability(mode@),
{
    let m = chars_of(mode);
    let kitty: [char; 5] = ['k', 'i', 't', 't', 'y'];
    let iterm2: [char; 6] = ['i', 't', 'e', 'r', 'm', '2'];
    let unicode: [char; 7] = ['u', 'n', 'i', 'c', 'o', 'd', 'e'];
    let inline: [char; 6] = ['i', 'n', 'l', 'i', 'n', 'e'];
    assert(kitty@ == seq!['k', 'i', 't', 't', 'y']);
    assert(iterm2@ == seq!['i', 't', 'e', 'r', 'm', '2']);
    assert(unicode@ == seq!['u', 'n', 'i', 'c', 'o', 'd', 'e']);
    assert(inline@ == seq!['i', 'n', 'l', 'i', 'n', 'e']);
    if equals_chars(&m, &kitty) {
        Some(Capability::KittyGraphics)
    } else if equals_chars(&m, &iterm2) {
        Some(Capability::ITerm2)
    } else if equals_chars(&m, &unicode) {
        Some(Capability::UnicodeArt)
    } else if equals_chars(&m, &inline) {
        Some(Capability::InlineUnicode)
    } else {
        None
    }
}

/// The capability that the terminal's environment indicates: kitty graphics
/// for a `TERM_PROGRAM` of WezTerm or ghostty or a `TERM` that mentions kitty,
/// then iTerm2 for a `TERM_PROGRAM` of iTerm.app, then the presence of
/// `KITTY_WINDOW_ID` or `ITERM_SESSION_ID`; Unicode art otherwise.
pub open spec fn detected_capability(
    term_program: Option<Seq<char>>,
    term: Option<Seq<char>>,
    kitty_window_id: bool,
    iterm_session_id: bool,
) -> Capability {
    if term_program == Some(seq!['W', 'e', 'z', 'T', 'e', 'r', 'm']) || term_program == Some(
        seq!['g', 'h', 'o', 's', 't', 't', 'y'],
    ) {
        Capability::KittyGraphics
    } else if term matches Some(t) && contains_seq(t, seq!['k', 'i', 't', 't', 'y']) {
        Capability::KittyGraphics
    } else if term_program == Some(seq!['i', 'T', 'e', 'r', 'm', '.', 'a', 'p', 'p']) {
        Capability::ITerm2
    } else if kitty_window_id {
        Capability::KittyGraphics
    } else if iterm_session_id {
        Capability::ITerm2
    } else {
        Capability::UnicodeArt
    }
}

/// Detects the terminal's rendering capability from the values of
/// `TERM_PROGRAM` and `TERM` and from whether `KITTY_WINDOW_ID` and
/// `ITERM_SESSION_ID` are set.
pub fn detect_capability(
    term_program: Option<&str>,
    term: Option<&str>,
    kitty_window_id: bool,
    iterm_session_id: bool,
) -> (cap: Capability)
    ensures
        cap == detected_capability(
            opt_chars(term_program),
            opt_chars(term),
            kitty_window_id,
            iterm_session_id,
        ),
{
    let wezterm: [char; 7] = ['W', 'e', 'z', 'T', 'e', 'r', 'm'];
    let ghostty: [char; 7] = ['g', 'h', 'o', 's', 't', 't', 'y'];
    let iterm: [char; 9] = ['i', 'T', 'e', 'r', 'm', '.', 'a', 'p', 'p'];
    let kitty: [char; 5] = ['k', 'i', 't', 't', 'y'];
    assert(wezterm@ == seq!['W', 'e', 'z', 'T', 'e', 'r', 'm']);
    assert(ghostty@ == seq!['g', 'h', 'o', 's', 't', 't', 'y']);
    assert(iterm@ == seq!['i', 'T', 'e', 'r', 'm', '.', 'a', 'p', 'p']);
    assert(kitty@ == seq!['k', 'i', 't', 't', 'y']);
    if let Some(prog) = term_program {
        let p = chars_of(prog);
        if equals_chars(&p, &wezterm) || equals_chars(&p, &ghostty) {
            return Capability::KittyGraphics;
        }
    }
    if let Some(t) = term {
        let tc = chars_of(t);
        if contains_exec(&tc, &kitty) {
            return Capability::KittyGraphics;
        }
    }
    if let Some(prog) = term_program {
        let p = chars_of(prog);
        if equals_chars(&p, &iterm) {
            return Capability::ITerm2;
        }
    }
    if kitty_window_id {
        return Capability::KittyGraphics;
    }
    if iterm_session_id {
        return Capability::ITerm2;
    }
    Capability::UnicodeArt
}

/// The value of the decimal digits `d`.
pub open spec fn digits_value(d: Seq<char>) -> int
    decreases d.len(),
{
    if d.len() == 0 {
        0
    } else {
        digits_value(d.drop_last()) * 10 + (d.last() as int - 48)
    }
}

/// `u8::from_str`: an optional `+` followed by at least one decimal digit,
/// with a value of at most 255.
pub open spec fn u8_decimal(s: Seq<char>) -> Option<u8> {
    let d = if s.len() > 0 && s[0] == '+' {
        s.skip(1)
    } else {
        s
    };
    if d.len() > 0 && (forall|i: int| 0 <= i < d.len() ==> '0' <= #[trigger] d[i] && d[i] <= '9')
        && digits_value(d) <= 255 {
        Some(digits_value(d) as u8)
    } else {
        None
    }
}

/// `str::parse::<u8>`: the number that `s` spells, if it is an optional `+`
/// followed by decimal digits with a value of at most 255 (as the
/// documentation of `u8::from_str_radix` says).
#[verifier::external_body]
fn parse_u8(s: &str) -> (r: Option<u8>)
    ensures
        r == u8_decimal(s@),
{
    s.parse::<u8>().ok()
}

/// Whether the background is dark, given the value of `COLORFGBG`
/// (`fg;bg`): a background colour number below 8 is dark, any other number
/// light; without a readable number the background is taken to be dark.
pub open spec fn dark_background(colorfgbg: Option<Seq<char>>) -> bool {
    match colorfgbg {
        Some(v) => match u8_decimal(split_on(v, ';').last()) {
            Some(n) => n < 8,
            None => true,
        },
        None => true,
    }
}

/// The text after the last `;` of `v` (all of `v` if there is none).
fn last_field(v: &Vec<char>) -> (r: Vec<char>)
    ensures
        r@ == split_on(v@, ';').last(),
{
    let mut start: usize = v.len();
    assert(v@.take(start as int) =~= v@);
    assert(split_on(v@, ';').last() + v@.skip(start as int) =~= split_on(v@, ';').last());
    while start > 0 && v[start - 1] != ';'
        invariant
            start <= v.len(),
            split_on(v@, ';').last() == split_on(v@.take(start as int), ';').last() + v@.skip(
                start as int,
            ),
        decreases start,
    {
        let ghost pre = v@.take(start as int);
        assert(pre.drop_last() =~= v@.take(start - 1));
        proof {
            crate::scanner::lemma_split_nonempty(pre.drop_last(), ';');
        }
        let ghost r = split_on(pre.drop_last(), ';');
        assert(split_on(pre, ';').last() =~= r.last().push(pre.last()));
        assert(v@.skip(start - 1) =~= seq![pre.last()] + v@.skip(start as int));
        start = start - 1;
    }
    if start > 0 {
        let ghost pre = v@.take(start as int);
        assert(pre.drop_last() =~= v@.take(start - 1));
        assert(split_on(pre, ';').last() =~= Seq::<char>::empty());
    } else {
        assert(v@.take(0) =~= Seq::<char>::empty());
    }
    assert(v@.skip(start as int) =~= v@.subrange(start as int, v.len() as int));
    slice_chars(v, start, v.len())
}

/// Detects a dark background from the value of `COLORFGBG`.
pub fn is_dark_background(colorfgbg: Option<&str>) -> (dark: bool)
    ensures
        dark == dark_background(opt_chars(colorfgbg)),
{
    match colorfgbg {
        Some(val) => {
            let v = chars_of(val);
            let field = last_field(&v);
            let text = crate::text::string_of(&field);
            match parse_u8(text.as_str()) {
                Some(n) => n < 8,
                None => true,
            }
        },
        None => true,
    }
}

} // verus!
