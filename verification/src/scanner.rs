//! Which math delimiters the stream scanner looks for.
use vstd::prelude::*;
use crate::text::{chars_of, equals_chars, trim, trim_chars};

verus! {

/// Which delimiter types to detect.
#[derive(Debug, Clone, Copy, PartialEq, Eq, Structural)]
pub struct DelimiterConfig {
    /// ```` ```math ```` blocks.
    pub block: bool,
    /// `$$...$$`, `\[...\]` and `\(...\)`.
    pub display: bool,
    /// `$...$`.
    pub inline: bool,
}

/// `s` cut at every `sep`, as `str::split` cuts it: there is always at least
/// one piece, and an empty text gives one empty piece.
pub open spec fn split_on(s: Seq<char>, sep: char) -> Seq<Seq<char>>
    decreases s.len(),
{
    if s.len() == 0 {
        seq![Seq::<char>::empty()]
    } else if s.last() == sep {
        split_on(s.drop_last(), sep).push(Seq::<char>::empty())
    } else {
        let r = split_on(s.drop_last(), sep);
        r.update(r.len() - 1, r.last().push(s.last()))
    }
}

/// The comma-separated words of a delimiter list, each trimmed.
pub open spec fn delimiter_words(s: Seq<char>) -> Seq<Seq<char>> {
    split_on(s, ',').map_values(|p: Seq<char>| trim(p))
}

pub open spec fn word_all() -> Seq<char> {
    seq!['a', 'l', 'l']
}

pub open spec fn word_block() -> Seq<char> {
    seq!['b', 'l', 'o', 'c', 'k']
}

pub open spec fn word_display() -> Seq<char> {
    seq!['d', 'i', 's', 'p', 'l', 'a', 'y']
}

pub open spec fn word_inline() -> Seq<char> {
    seq!['i', 'n', 'l', 'i', 'n', 'e']
}

/// The configuration that a delimiter list names: `all` turns every kind on,
/// otherwise a kind is on exactly when its name is one of the words.
pub open spec fn delimiter_config_of(s: Seq<char>) -> DelimiterConfig {
    let words = delimiter_words(s);
    if words.contains(word_all()) {
        DelimiterConfig { block: true, display: true, inline: true }
    } else {
        DelimiterConfig {
            block: words.contains(word_block()),
            display: words.contains(word_display()),
            inline: words.contains(word_inline()),
        }
    }
}

/// Splitting always gives at least one piece.
pub proof fn lemma_split_nonempty(s: Seq<char>, sep: char)
    ensures
        split_on(s, sep).len() >= 1,
    decreases s.len(),
{
    if s.len() > 0 {
        lemma_split_nonempty(s.drop_last(), sep);
    }
}

/// Parses a comma-separated delimiter list such as `block,display` or `all`.
pub fn parse_delimiter_config(s: &str) -> (config: DelimiterConfig)
    ensures
        config == delimiter_config_of(s@),
{
    let chars = chars_of(s);
    let all_w: [char; 3] = ['a', 'l', 'l'];
    let block_w: [char; 5] = ['b', 'l', 'o', 'c', 'k'];
    let display_w: [char; 7] = ['d', 'i', 's', 'p', 'l', 'a', 'y'];
    let inline_w: [char; 6] = ['i', 'n', 'l', 'i', 'n', 'e'];
    assert(all_w@ == word_all());
    assert(block_w@ == word_block());
    assert(display_w@ == word_display());
    assert(inline_w@ == word_inline());
    let mut seen_all = false;
    let mut seen_block = false;
    let mut seen_display = false;
    let mut seen_inline = false;
    let mut piece: Vec<char> = Vec::new();
    let mut i: usize = 0;
    assert(chars@.take(0) =~= Seq::<char>::empty());
    while i < chars.len()
        invariant
            i <= chars.len(),
            chars@ == s@,
            all_w@ == word_all(),
            block_w@ == word_block(),
            display_w@ == word_display(),
            inline_w@ == word_inline(),
            split_on(chars@.take(i as int), ',').len() >= 1,
            piece@ == split_on(chars@.take(i as int), ',').last(),
            seen_all == split_on(chars@.take(i as int), ',').drop_last().map_values(
                |p: Seq<char>| trim(p),
            ).contains(word_all()),
            seen_block == split_on(chars@.take(i as int), ',').drop_last().map_values(
                |p: Seq<char>| trim(p),
            ).contains(word_block()),
            seen_display == split_on(chars@.take(i as int), ',').drop_last().map_values(
                |p: Seq<char>| trim(p),
            ).contains(word_display()),
            seen_inline == split_on(chars@.take(i as int), ',').drop_last().map_values(
                |p: Seq<char>| trim(p),
            ).contains(word_inline()),
        decreases chars.len() - i,
    {
        let ghost before = chars@.take(i as int);
        let ghost after = chars@.take(i + 1);
        assert(after.drop_last() =~= before);
        assert(after.last() == chars@[i as int]);
        proof {
            lemma_split_nonempty(before, ',');
        }
        let ch = chars[i];
        if ch == ',' {
            let t = trim_chars(&piece);
            let ghost old_pieces = split_on(before, ',');
            let ghost trimmed_old = old_pieces.drop_last().map_values(|p: Seq<char>| trim(p));
            let ghost new_pieces = split_on(after, ',');
            assert(new_pieces == old_pieces.push(Seq::<char>::empty()));
            assert(new_pieces.drop_last() =~= old_pieces);
            let ghost trimmed_new = new_pieces.drop_last().map_values(|p: Seq<char>| trim(p));
            assert(trimmed_new =~= trimmed_old.push(t@)) by {
                assert(old_pieces =~= old_pieces.drop_last().push(old_pieces.last()));
            }
            proof {
                assert forall|w: Seq<char>| trimmed_new.contains(w) == (trimmed_old.contains(w) || t@ == w) by {
                    if trimmed_new.contains(w) {
                        let k = choose|k: int| 0 <= k < trimmed_new.len() && trimmed_new[k] == w;
                        if k < trimmed_old.len() {
                            assert(trimmed_old[k] == w);
                        }
                    }
                    if trimmed_old.contains(w) {
                        let k = choose|k: int| 0 <= k < trimmed_old.len() && trimmed_old[k] == w;
                        assert(trimmed_new[k] == w);
                    }
                    if t@ == w {
                        assert(trimmed_new[trimmed_old.len() as int] == w);
                    }
                }
            }
            seen_all = seen_all || equals_chars(&t, &all_w);
            seen_block = seen_block || equals_chars(&t, &block_w);
            seen_display = seen_display || equals_chars(&t, &display_w);
            seen_inline = seen_inline || equals_chars(&t, &inline_w);
            piece = Vec::new();
            assert(piece@ =~= new_pieces.last());
        } else {
            let ghost old_pieces = split_on(before, ',');
            let ghost new_pieces = split_on(after, ',');
            assert(new_pieces.drop_last() =~= old_pieces.drop_last());
            piece.push(ch);
        }
        i = i + 1;
    }
    assert(chars@.take(i as int) =~= s@);
    let t = trim_chars(&piece);
    let ghost pieces = split_on(s@, ',');
    assert(pieces =~= pieces.drop_last().push(pieces.last()));
    let ghost trimmed_old = pieces.drop_last().map_values(|p: Seq<char>| trim(p));
    let ghost words = delimiter_words(s@);
    assert(words =~= trimmed_old.push(t@));
    proof {
        assert forall|w: Seq<char>| words.contains(w) == (trimmed_old.contains(w) || t@ == w) by {
            if words.contains(w) {
                let k = choose|k: int| 0 <= k < words.len() && words[k] == w;
                if k < trimmed_old.len() {
                    assert(trimmed_old[k] == w);
                }
            }
            if trimmed_old.contains(w) {
                let k = choose|k: int| 0 <= k < trimmed_old.len() && trimmed_old[k] == w;
                assert(words[k] == w);
            }
            if t@ == w {
                assert(words[trimmed_old.len() as int] == w);
            }
        }
    }
    let all = seen_all || equals_chars(&t, &all_w);
    if all {
        return DelimiterConfig { block: true, display: true, inline: true };
    }
    DelimiterConfig {
        block: seen_block || equals_chars(&t, &block_w),
        display: seen_display || equals_chars(&t, &display_w),
        inline: seen_inline || equals_chars(&t, &inline_w),
    }
}

} // verus!
