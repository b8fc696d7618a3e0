//! The streaming delimiter scanner: a state machine fed one character at a
//! time, which passes plain text (ANSI escapes included) through and cuts out
//! complete math blocks.
use vstd::prelude::*;
use crate::scanner::DelimiterConfig;
use crate::text::{
    backticks,
    chars_of,
    is_trimmed,
    lacks,
    lemma_trim_is_trimmed,
    lemma_trim_lacks,
    push_all,
    slice_chars,
    string_of,
    trim,
    trim_chars,
};
use std::time::{Duration, Instant};

verus! {

/// A point in time, read from the system's monotonic clock.
#[verifier::external_type_specification]
#[verifier::external_body]
pub struct ExInstant(Instant);

/// `Instant::now`: the current time. Nothing is stated of the value.
#[verifier::external_body]
fn instant_now() -> Instant {
    Instant::now()
}

/// `Instant::elapsed`: the time since `t`. It depends on the clock, so
/// nothing is stated of the value.
#[verifier::external_body]
fn instant_elapsed(t: &Instant) -> Duration {
    t.elapsed()
}

/// `Duration::as_millis`: the whole milliseconds of `d`. `Duration` is opaque
/// here, so nothing is stated of the value.
#[verifier::external_body]
fn duration_as_millis(d: &Duration) -> u128 {
    d.as_millis()
}

/// How long a lone `$` may wait for the character that decides what it is.
pub const DOLLAR_TIMEOUT_MS: u128 = 50;

/// Events emitted by the streaming scanner.
#[derive(Debug, PartialEq, Clone)]
pub enum Event {
    /// Pass-through text (including ANSI escapes).
    Text(String),
    /// Complete LaTeX math block ready for conversion.
    Math(String),
}

/// The mathematical content of an [`Event`].
pub enum EventView {
    Text(Seq<char>),
    Math(Seq<char>),
}

impl View for Event {
    type V = EventView;

    open spec fn view(&self) -> EventView {
        match self {
            Event::Text(t) => EventView::Text(t@),
            Event::Math(m) => EventView::Math(m@),
        }
    }
}

/// The views of a list of events.
pub open spec fn view_events(events: Seq<Event>) -> Seq<EventView> {
    events.map_values(|e: Event| e@)
}

fn push_event(events: &mut Vec<Event>, e: Event)
    ensures
        view_events(final(events)@) == view_events(old(events)@) + seq![e@],
{
    events.push(e);
    assert(view_events(events@) =~= view_events(old(events)@) + seq![e@]);
}

// ---------------------------------------------------------------------------
// ANSI stripping
// ---------------------------------------------------------------------------
/// The final byte of a CSI sequence: `0x40..=0x7E`.
pub open spec fn is_csi_final(c: char) -> bool {
    '\u{40}' <= c && c <= '\u{7e}'
}

/// What follows a CSI sequence whose parameters start at `s[0]`: everything
/// after its final byte, or nothing if it is unterminated.
pub open spec fn after_csi(s: Seq<char>) -> Seq<char>
    decreases s.len(),
{
    if s.len() == 0 {
        s
    } else if is_csi_final(s[0]) {
        s.skip(1)
    } else {
        after_csi(s.skip(1))
    }
}

/// What follows an OSC sequence whose body starts at `s[0]`: everything after
/// the BEL or the `ESC \` that ends it; `prev` is the character before `s[0]`.
pub open spec fn after_osc(s: Seq<char>, prev: char) -> Seq<char>
    decreases s.len(),
{
    if s.len() == 0 {
        s
    } else if s[0] == '\u{7}' || (s[0] == '\\' && prev == '\u{1b}') {
        s.skip(1)
    } else {
        after_osc(s.skip(1), s[0])
    }
}

pub proof fn lemma_after_csi_len(s: Seq<char>)
    ensures
        after_csi(s).len() <= s.len(),
    decreases s.len(),
{
    if s.len() > 0 && !is_csi_final(s[0]) {
        lemma_after_csi_len(s.skip(1));
    }
}

pub proof fn lemma_after_osc_len(s: Seq<char>, prev: char)
    ensures
        after_osc(s, prev).len() <= s.len(),
    decreases s.len(),
{
    if s.len() > 0 && !(s[0] == '\u{7}' || (s[0] == '\\' && prev == '\u{1b}')) {
        lemma_after_osc_len(s.skip(1), s[0]);
    }
}

/// `s` with its ANSI escape sequences removed: CSI (`ESC [` ... final byte),
/// OSC (`ESC ]` ... BEL or `ESC \`), and two-character escapes.
pub open spec fn ansi_stripped(s: Seq<char>) -> Seq<char>
    decreases s.len(),
{
    if s.len() == 0 {
        seq![]
    } else if s[0] == '\u{1b}' {
        if s.len() == 1 {
            seq![]
        } else if s[1] == '[' {
            proof {
                lemma_after_csi_len(s.skip(2));
            }
            ansi_stripped(after_csi(s.skip(2)))
        } else if s[1] == ']' {
            proof {
                lemma_after_osc_len(s.skip(2), ' ');
            }
            ansi_stripped(after_osc(s.skip(2), ' '))
        } else {
            ansi_stripped(s.skip(2))
        }
    } else {
        seq![s[0]] + ansi_stripped(s.skip(1))
    }
}

/// Stripping ANSI escapes leaves no ESC character.
pub proof fn lemma_stripped_lacks_esc(s: Seq<char>)
    ensures
        lacks(ansi_stripped(s), '\u{1b}'),
    decreases s.len(),
{
    if s.len() == 0 {
    } else if s[0] == '\u{1b}' {
        if s.len() == 1 {
        } else if s[1] == '[' {
            lemma_after_csi_len(s.skip(2));
            lemma_stripped_lacks_esc(after_csi(s.skip(2)));
        } else if s[1] == ']' {
            lemma_after_osc_len(s.skip(2), ' ');
            lemma_stripped_lacks_esc(after_osc(s.skip(2), ' '));
        } else {
            lemma_stripped_lacks_esc(s.skip(2));
        }
    } else {
        lemma_stripped_lacks_esc(s.skip(1));
        let r = ansi_stripped(s.skip(1));
        assert(ansi_stripped(s) == seq![s[0]] + r);
        assert forall|i: int| 0 <= i < ansi_stripped(s).len() implies ansi_stripped(s)[i]
            != '\u{1b}' by {
            if i > 0 {
                assert(ansi_stripped(s)[i] == r[i - 1]);
            }
        }
    }
}

/// `a` is a subsequence of `s`: `a` is what is left of `s` after some of its
/// characters are taken out.
pub open spec fn is_subsequence(a: Seq<char>, s: Seq<char>) -> bool
    decreases s.len(),
{
    if s.len() == 0 {
        a.len() == 0
    } else {
        ||| is_subsequence(a, s.skip(1))
        ||| a.len() > 0 && a[0] == s[0] && is_subsequence(a.skip(1), s.skip(1))
    }
}

proof fn lemma_subsequence_of_suffix(a: Seq<char>, s: Seq<char>, k: int)
    requires
        0 <= k <= s.len(),
        is_subsequence(a, s.skip(k)),
    ensures
        is_subsequence(a, s),
    decreases k,
{
    if k > 0 {
        assert(s.skip(k - 1).skip(1) =~= s.skip(k));
        lemma_subsequence_of_suffix(a, s, k - 1);
    } else {
        assert(s.skip(0) =~= s);
    }
}

proof fn lemma_empty_subsequence(s: Seq<char>)
    ensures
        is_subsequence(seq![], s),
    decreases s.len(),
{
    if s.len() > 0 {
        lemma_empty_subsequence(s.skip(1));
    }
}

proof fn lemma_after_csi_suffix(s: Seq<char>) -> (k: int)
    ensures
        0 <= k <= s.len(),
        after_csi(s) == s.skip(k),
    decreases s.len(),
{
    if s.len() == 0 {
        assert(s.skip(0) =~= s);
        0
    } else if is_csi_final(s[0]) {
        1
    } else {
        let k = lemma_after_csi_suffix(s.skip(1));
        assert(s.skip(1).skip(k) =~= s.skip(k + 1));
        k + 1
    }
}

proof fn lemma_after_osc_suffix(s: Seq<char>, prev: char) -> (k: int)
    ensures
        0 <= k <= s.len(),
        after_osc(s, prev) == s.skip(k),
    decreases s.len(),
{
    if s.len() == 0 {
        assert(s.skip(0) =~= s);
        0
    } else if s[0] == '\u{7}' || (s[0] == '\\' && prev == '\u{1b}') {
        1
    } else {
        let k = lemma_after_osc_suffix(s.skip(1), s[0]);
        assert(s.skip(1).skip(k) =~= s.skip(k + 1));
        k + 1
    }
}

/// Stripping ANSI escapes only takes characters out: what is left keeps its
/// order.
pub proof fn lemma_stripped_is_subsequence(s: Seq<char>)
    ensures
        is_subsequence(ansi_stripped(s), s),
    decreases s.len(),
{
    if s.len() == 0 {
    } else if s[0] == '\u{1b}' {
        if s.len() == 1 {
            lemma_empty_subsequence(s);
        } else if s[1] == '[' {
            let k = lemma_after_csi_suffix(s.skip(2));
            lemma_after_csi_len(s.skip(2));
            lemma_stripped_is_subsequence(after_csi(s.skip(2)));
            assert(s.skip(2).skip(k) =~= s.skip(k + 2));
            lemma_subsequence_of_suffix(ansi_stripped(s), s, k + 2);
        } else if s[1] == ']' {
            let k = lemma_after_osc_suffix(s.skip(2), ' ');
            lemma_after_osc_len(s.skip(2), ' ');
            lemma_stripped_is_subsequence(after_osc(s.skip(2), ' '));
            assert(s.skip(2).skip(k) =~= s.skip(k + 2));
            lemma_subsequence_of_suffix(ansi_stripped(s), s, k + 2);
        } else {
            lemma_stripped_is_subsequence(s.skip(2));
            lemma_subsequence_of_suffix(ansi_stripped(s), s, 2);
        }
    } else {
        lemma_stripped_is_subsequence(s.skip(1));
        let a = ansi_stripped(s);
        assert(a.skip(1) =~= ansi_stripped(s.skip(1)));
    }
}

/// Text without an ESC character is left as it is.
pub proof fn lemma_strip_plain_text(s: Seq<char>)
    requires
        lacks(s, '\u{1b}'),
    ensures
        ansi_stripped(s) == s,
    decreases s.len(),
{
    if s.len() > 0 {
        assert(s[0] != '\u{1b}');
        assert(lacks(s.skip(1), '\u{1b}')) by {
            assert forall|i: int| 0 <= i < s.skip(1).len() implies s.skip(1)[i] != '\u{1b}' by {
                assert(s.skip(1)[i] == s[i + 1]);
            }
        }
        lemma_strip_plain_text(s.skip(1));
        assert(seq![s[0]] + s.skip(1) =~= s);
    }
}

/// Stripping twice is stripping once.
pub proof fn lemma_strip_idempotent(s: Seq<char>)
    ensures
        ansi_stripped(ansi_stripped(s)) == ansi_stripped(s),
{
    lemma_stripped_lacks_esc(s);
    lemma_strip_plain_text(ansi_stripped(s));
}

fn is_csi_final_exec(c: char) -> (b: bool)
    ensures
        b == is_csi_final(c),
{
    '\u{40}' <= c && c <= '\u{7e}'
}

/// The characters of `v` with ANSI escape sequences removed.
fn strip_ansi_chars(v: &Vec<char>) -> (out: Vec<char>)
    ensures
        out@ == ansi_stripped(v@),
{
    let n = v.len();
    let mut out: Vec<char> = Vec::new();
    let mut i: usize = 0;
    assert(v@.skip(0) =~= v@);
    while i < n
        invariant
            n == v.len(),
            i <= n,
            out@ + ansi_stripped(v@.skip(i as int)) == ansi_stripped(v@),
        decreases n - i,
    {
        let ghost rest = v@.skip(i as int);
        assert(rest[0] == v@[i as int]);
        if v[i] == '\u{1b}' {
            if i + 1 == n {
                assert(rest.len() == 1);
                i = n;
                assert(v@.skip(i as int) =~= Seq::<char>::empty());
                assert(out@ + Seq::<char>::empty() =~= out@);
            } else {
                assert(rest[1] == v@[i + 1]);
                let c = v[i + 1];
                if c == '[' {
                    let mut j: usize = i + 2;
                    assert(rest.skip(2) =~= v@.skip(j as int));
                    while j < n && !is_csi_final_exec(v[j])
                        invariant
                            n == v.len(),
                            i + 2 <= j <= n,
                            after_csi(rest.skip(2)) == after_csi(v@.skip(j as int)),
                        decreases n - j,
                    {
                        assert(v@.skip(j as int)[0] == v@[j as int]);
                        assert(v@.skip(j as int).skip(1) =~= v@.skip(j + 1));
                        j = j + 1;
                    }
                    if j < n {
                        assert(v@.skip(j as int)[0] == v@[j as int]);
                        assert(v@.skip(j as int).skip(1) =~= v@.skip(j + 1));
                        i = j + 1;
                    } else {
                        assert(v@.skip(j as int) =~= Seq::<char>::empty());
                        i = n;
                    }
                } else if c == ']' {
                    let mut j: usize = i + 2;
                    let mut prev: char = ' ';
                    assert(rest.skip(2) =~= v@.skip(j as int));
                    while j < n && !(v[j] == '\u{7}' || (v[j] == '\\' && prev == '\u{1b}'))
                        invariant
                            n == v.len(),
                            i + 2 <= j <= n,
                            after_osc(rest.skip(2), ' ') == after_osc(v@.skip(j as int), prev),
                        decreases n - j,
                    {
                        assert(v@.skip(j as int)[0] == v@[j as int]);
                        assert(v@.skip(j as int).skip(1) =~= v@.skip(j + 1));
                        prev = v[j];
                        j = j + 1;
                    }
                    if j < n {
                        assert(v@.skip(j as int)[0] == v@[j as int]);
                        assert(v@.skip(j as int).skip(1) =~= v@.skip(j + 1));
                        i = j + 1;
                    } else {
                        assert(v@.skip(j as int) =~= Seq::<char>::empty());
                        i = n;
                    }
                } else {
                    assert(rest.skip(2) =~= v@.skip(i + 2));
                    i = i + 2;
                }
            }
        } else {
            let ghost before = out@;
            out.push(v[i]);
            assert(rest.skip(1) =~= v@.skip(i + 1));
            assert(out@ + ansi_stripped(v@.skip(i + 1)) =~= before + (seq![v@[i as int]]
                + ansi_stripped(rest.skip(1))));
            i = i + 1;
        }
    }
    assert(v@.skip(n as int) =~= Seq::<char>::empty());
    assert(out@ + Seq::<char>::empty() =~= out@);
    out
}

/// Strips ANSI escape sequences from a string.
/// Used to clean math content that may have ANSI codes mixed in from colored
/// terminal output.
pub fn strip_ansi(s: &str) -> (r: String)
    ensures
        r@ == ansi_stripped(s@),
        lacks(r@, '\u{1b}'),
        is_subsequence(r@, s@),
        lacks(s@, '\u{1b}') ==> r@ == s@,
{
    let v = chars_of(s);
    let out = strip_ansi_chars(&v);
    proof {
        lemma_stripped_lacks_esc(s@);
        lemma_stripped_is_subsequence(s@);
        if lacks(s@, '\u{1b}') {
            lemma_strip_plain_text(s@);
        }
    }
    string_of(&out)
}

/// The math content that a raw block yields: ANSI escapes removed, then trimmed.
pub open spec fn clean_math(content: Seq<char>) -> Seq<char> {
    trim(ansi_stripped(content))
}

/// A math event with its content cleaned.
pub open spec fn math_event(content: Seq<char>) -> EventView {
    EventView::Math(clean_math(content))
}

fn make_math_event(content: &Vec<char>) -> (e: Event)
    ensures
        e@ == math_event(content@),
{
    let stripped = strip_ansi_chars(content);
    let trimmed = trim_chars(&stripped);
    Event::Math(string_of(&trimmed))
}

/// Cleaned math content holds no ESC and no white space at either end.
pub proof fn lemma_clean_math(content: Seq<char>)
    ensures
        lacks(clean_math(content), '\u{1b}'),
        is_trimmed(clean_math(content)),
{
    lemma_stripped_lacks_esc(content);
    lemma_trim_lacks(ansi_stripped(content), '\u{1b}');
    lemma_trim_is_trimmed(ansi_stripped(content));
}

// ---------------------------------------------------------------------------
// The state machine, as a function of state, pending text and character
// ---------------------------------------------------------------------------
/// Scanner states.
#[derive(Debug, Clone, Copy, PartialEq, Eq, Structural)]
pub enum State {
    /// Normal text passthrough.
    Normal,
    /// Inside an ANSI escape sequence.
    AnsiEscape,
    /// Saw a single `$`, waiting to see if it's math or a shell variable.
    DollarPending,
    /// Saw `$$`, accumulating display math.
    DoubleDollarMath,
    /// Saw `$` confirmed as inline math start, accumulating.
    SingleDollarMath,
    /// Inside a ```` ```math ```` block.
    MathBlock,
    /// Saw `\[`, accumulating display math.
    BracketMath,
    /// Saw `\(`, accumulating inline math.
    ParenMath,
    /// Saw `\`, waiting for the next character.
    BackslashPending,
    /// Saw one backtick.
    Backtick1,
    /// Saw two backticks.
    Backtick2,
    /// Saw three backticks, checking for `math`.
    BacktickTriple,
    /// Inside the closing backticks of a math block.
    MathBlockClosing { count: usize },
}

/// What the scanner holds between characters.
pub struct ScanView {
    pub config: DelimiterConfig,
    pub state: State,
    pub buffer: Seq<char>,
}

/// The outcome of one step: the next state, the pending text, and the events
/// emitted.
pub struct StepOut {
    pub state: State,
    pub buffer: Seq<char>,
    pub events: Seq<EventView>,
}

/// Stay in (or move to) `state` with pending text `buffer`, emitting nothing.
pub open spec fn keep(state: State, buffer: Seq<char>) -> StepOut {
    StepOut { state, buffer, events: seq![] }
}

/// One text event for `b`, or none if `b` is empty.
pub open spec fn text_events(b: Seq<char>) -> Seq<EventView> {
    if b.len() > 0 {
        seq![EventView::Text(b)]
    } else {
        seq![]
    }
}

/// Emit the pending text `b` (if any), then move to `state` with `buffer`.
pub open spec fn emit_then(b: Seq<char>, state: State, buffer: Seq<char>) -> StepOut {
    StepOut { state, buffer, events: text_events(b) }
}

/// Emit `t` as text and return to `Normal` with nothing pending.
pub open spec fn finish_text(t: Seq<char>) -> StepOut {
    StepOut { state: State::Normal, buffer: seq![], events: seq![EventView::Text(t)] }
}

/// Emit `content` as math and return to `Normal` with nothing pending.
pub open spec fn finish_math(content: Seq<char>) -> StepOut {
    StepOut { state: State::Normal, buffer: seq![], events: seq![math_event(content)] }
}

pub open spec fn is_ascii_char(c: char) -> bool {
    c <= '\u{7f}'
}

pub open spec fn word_math() -> Seq<char> {
    seq!['m', 'a', 't', 'h']
}

pub open spec fn step_normal(cfg: DelimiterConfig, b: Seq<char>, ch: char) -> StepOut {
    if ch == '\u{1b}' {
        emit_then(b, State::AnsiEscape, seq![ch])
    } else if ch == '$' && (cfg.display || cfg.inline) {
        emit_then(b, State::DollarPending, seq!['$'])
    } else if ch == '\\' && (cfg.display || cfg.inline) {
        emit_then(b, State::BackslashPending, seq!['\\'])
    } else if ch == '`' && cfg.block {
        emit_then(b, State::Backtick1, seq!['`'])
    } else {
        keep(State::Normal, b.push(ch))
    }
}

/// Inside an escape sequence that began with ESC: the sequence is complete
/// when its terminator arrives, and is then emitted as text. The byte after
/// ESC decides the kind: `[` (CSI) ends at a final byte `0x40..=0x7E`, `]`
/// (OSC) at BEL or `ESC \`, `P X ^ _` at `ESC \` or BEL, and any other ASCII
/// character is a complete two-character escape. A non-ASCII character after
/// ESC is not that byte, so such a sequence ends like `P`'s.
pub open spec fn step_ansi(b: Seq<char>, ch: char) -> StepOut {
    let b2 = b.push(ch);
    if b.len() == 1 && is_ascii_char(ch) {
        // the character right after ESC
        if ch == '[' || ch == ']' || ch == 'P' || ch == 'X' || ch == '^' || ch == '_' {
            keep(State::AnsiEscape, b2)
        } else {
            finish_text(b2)
        }
    } else {
        let second = if b2.len() > 1 {
            b2[1]
        } else {
            ' '
        };
        let after_esc = b.len() > 0 && b.last() == '\u{1b}';
        let done = if second == '[' {
            is_csi_final(ch)
        } else if second == ']' {
            ch == '\u{7}' || (ch == '\\' && after_esc)
        } else {
            (ch == '\\' && after_esc) || ch == '\u{7}'
        };
        if done {
            finish_text(b2)
        } else {
            keep(State::AnsiEscape, b2)
        }
    }
}

pub open spec fn step_dollar_pending(cfg: DelimiterConfig, b: Seq<char>, ch: char) -> StepOut {
    if ch == '$' && cfg.display {
        keep(State::DoubleDollarMath, seq![])
    } else if ch == ' ' || ('0' <= ch && ch <= '9') {
        finish_text(b.push(ch))
    } else if cfg.inline {
        keep(State::SingleDollarMath, seq![ch])
    } else {
        finish_text(b.push(ch))
    }
}

pub open spec fn step_double_dollar(b: Seq<char>, ch: char) -> StepOut {
    if ch == '$' && b.len() > 0 && b.last() == '$' {
        finish_math(b.drop_last())
    } else {
        keep(State::DoubleDollarMath, b.push(ch))
    }
}

pub open spec fn step_single_dollar(b: Seq<char>, ch: char) -> StepOut {
    if ch == '$' {
        if b.contains('\\') {
            finish_math(b)
        } else {
            finish_text(seq!['$'] + b + seq!['$'])
        }
    } else {
        keep(State::SingleDollarMath, b.push(ch))
    }
}

pub open spec fn step_math_block(b: Seq<char>, ch: char) -> StepOut {
    if ch == '`' {
        keep(State::MathBlockClosing { count: 1 }, b)
    } else {
        keep(State::MathBlock, b.push(ch))
    }
}

pub open spec fn step_block_closing(count: usize, b: Seq<char>, ch: char) -> StepOut {
    if ch == '`' {
        if count + 1 >= 3 {
            finish_math(b)
        } else {
            keep(State::MathBlockClosing { count: (count + 1) as usize }, b)
        }
    } else {
        keep(State::MathBlock, b + backticks(count as nat) + seq![ch])
    }
}

/// In `\[...` or `\(...`: the closer is `close` right after a backslash.
pub open spec fn step_closer(st: State, close: char, b: Seq<char>, ch: char) -> StepOut {
    if ch == close && b.len() > 0 && b.last() == '\\' {
        finish_math(b.drop_last())
    } else {
        keep(st, b.push(ch))
    }
}

pub open spec fn step_backslash(cfg: DelimiterConfig, b: Seq<char>, ch: char) -> StepOut {
    if ch == '[' && cfg.display {
        keep(State::BracketMath, seq![])
    } else if ch == '(' && cfg.display {
        keep(State::ParenMath, seq![])
    } else {
        finish_text(b.push(ch))
    }
}

pub open spec fn step_backtick(next: State, b: Seq<char>, ch: char) -> StepOut {
    if ch == '`' {
        keep(next, b.push('`'))
    } else {
        finish_text(b.push(ch))
    }
}

/// After three backticks: wait while the text after them can still become
/// `math`, enter the block on `math` + newline (or carriage return), and give
/// up otherwise.
pub open spec fn step_backtick_triple(b: Seq<char>, ch: char) -> StepOut {
    let b2 = b.push(ch);
    let after = if b2.len() >= 3 {
        b2.skip(3)
    } else {
        seq![]
    };
    if after.len() <= 4 && word_math().take(after.len() as int) == after {
        keep(State::BacktickTriple, b2)
    } else if after.len() >= 5 && (after.take(5) == word_math().push('\n') || after.take(5)
        == word_math().push('\r')) {
        keep(State::MathBlock, seq![])
    } else {
        finish_text(b2)
    }
}

/// One character through the scanner.
pub open spec fn step(cfg: DelimiterConfig, st: State, b: Seq<char>, ch: char) -> StepOut {
    match st {
        State::Normal => step_normal(cfg, b, ch),
        State::AnsiEscape => step_ansi(b, ch),
        State::DollarPending => step_dollar_pending(cfg, b, ch),
        State::DoubleDollarMath => step_double_dollar(b, ch),
        State::SingleDollarMath => step_single_dollar(b, ch),
        State::MathBlock => step_math_block(b, ch),
        State::BracketMath => step_closer(State::BracketMath, ']', b, ch),
        State::ParenMath => step_closer(State::ParenMath, ')', b, ch),
        State::BackslashPending => step_backslash(cfg, b, ch),
        State::Backtick1 => step_backtick(State::Backtick2, b, ch),
        State::Backtick2 => step_backtick(State::BacktickTriple, b, ch),
        State::BacktickTriple => step_backtick_triple(b, ch),
        State::MathBlockClosing { count } => step_block_closing(count, b, ch),
    }
}

/// A whole input through the scanner, one character after another.
pub open spec fn run(cfg: DelimiterConfig, st: State, b: Seq<char>, input: Seq<char>) -> StepOut
    decreases input.len(),
{
    if input.len() == 0 {
        keep(st, b)
    } else {
        let prev = run(cfg, st, b, input.drop_last());
        let r = step(cfg, prev.state, prev.buffer, input.last());
        StepOut { state: r.state, buffer: r.buffer, events: prev.events + r.events }
    }
}

/// What end of stream emits for what is still pending: it is text, with the
/// opening delimiter of an unclosed math block put back in front.
pub open spec fn flush_events(st: State, b: Seq<char>) -> Seq<EventView> {
    if b.len() == 0 {
        seq![]
    } else {
        seq![
            EventView::Text(
                match st {
                    State::SingleDollarMath => seq!['$'] + b,
                    State::DoubleDollarMath => seq!['$', '$'] + b,
                    State::MathBlock => seq!['`', '`', '`', 'm', 'a', 't', 'h', '\n'] + b,
                    State::BracketMath => seq!['\\', '['] + b,
                    State::ParenMath => seq!['\\', '('] + b,
                    _ => b,
                },
            ),
        ]
    }
}

// ---------------------------------------------------------------------------
// The scanner
// ---------------------------------------------------------------------------
/// Scanner state machine for streaming input.
pub struct StreamScanner {
    config: DelimiterConfig,
    phase: Phase,
    buffer: Vec<char>,
}

/// The state together with the time at which the pending `$` arrived: there
/// is such a time exactly when a `$` is pending.
struct Phase {
    state: State,
    started: Option<Instant>,
}

impl Phase {
    #[verifier::type_invariant]
    spec fn timer_matches_state(self) -> bool {
        (self.state == State::DollarPending) == (self.started is Some)
    }
}

impl View for StreamScanner {
    type V = ScanView;

    closed spec fn view(&self) -> ScanView {
        ScanView { config: self.config, state: self.phase.state, buffer: self.buffer@ }
    }
}

impl StreamScanner {
    /// When the pending `$` arrived, read from the clock as it arrived; `None`
    /// when no `$` is pending.
    pub closed spec fn timer(&self) -> Option<Instant> {
        self.phase.started
    }
}

/// `post` and `events` are what `pre` and `events_pre` become by the step `r`.
pub open spec fn took_step(
    pre: ScanView,
    post: ScanView,
    events_pre: Seq<Event>,
    events_post: Seq<Event>,
    r: StepOut,
) -> bool {
    &&& post.config == pre.config
    &&& post.state == r.state
    &&& post.buffer == r.buffer
    &&& view_events(events_post) == view_events(events_pre) + r.events
}

/// The view that `pre` has after the run `r`.
pub open spec fn after_run(pre: ScanView, r: StepOut) -> ScanView {
    ScanView { config: pre.config, state: r.state, buffer: r.buffer }
}

/// Every math event is clean: no ESC, no white space at either end.
pub open spec fn math_events_clean(events: Seq<EventView>) -> bool {
    forall|k: int|
        0 <= k < events.len() ==> (#[trigger] events[k] matches EventView::Math(m) ==> lacks(
            m,
            '\u{1b}',
        ) && is_trimmed(m))
}

impl StreamScanner {
    /// A scanner in its initial state.
    pub fn new(config: DelimiterConfig) -> (s: Self)
        ensures
            s@.config == config,
            s@.state == State::Normal,
            s@.buffer == Seq::<char>::empty(),
            s.timer() is None,
    {
        StreamScanner {
            config,
            phase: Phase { state: State::Normal, started: None },
            buffer: Vec::new(),
        }
    }

    /// Feeds a chunk of input and collects the emitted events. A `$` that
    /// starts to pend reads the clock into `timer()`; the timer is stopped
    /// whenever the scanner is in any other state.
    pub fn feed(&mut self, input: &str) -> (events: Vec<Event>)
        ensures
            final(self)@ == after_run(
                old(self)@,
                run(old(self)@.config, old(self)@.state, old(self)@.buffer, input@),
            ),
            view_events(events@) == run(
                old(self)@.config,
                old(self)@.state,
                old(self)@.buffer,
                input@,
            ).events,
            math_events_clean(view_events(events@)),
            (final(self)@.state == State::DollarPending) == (final(self).timer() is Some),
            input@.len() == 0 ==> final(self).timer() == old(self).timer(),
    {
        let chars = chars_of(input);
        let mut events: Vec<Event> = Vec::new();
        let ghost cfg = self.config;
        let ghost st0 = self.phase.state;
        let ghost b0 = self.buffer@;
        let mut i: usize = 0;
        assert(chars@.take(0) =~= Seq::<char>::empty());
        assert(view_events(events@) =~= Seq::<EventView>::empty());
        while i < chars.len()
            invariant
                i <= chars.len(),
                chars@ == input@,
                self.config == cfg,
                self.phase.state == run(cfg, st0, b0, chars@.take(i as int)).state,
                self.buffer@ == run(cfg, st0, b0, chars@.take(i as int)).buffer,
                view_events(events@) == run(cfg, st0, b0, chars@.take(i as int)).events,
                i == 0 ==> self.timer() == old(self).timer(),
            decreases chars.len() - i,
        {
            assert(chars@.take(i + 1).drop_last() =~= chars@.take(i as int));
            assert(chars@.take(i + 1).last() == chars@[i as int]);
            self.process_char(chars[i], &mut events);
            i = i + 1;
        }
        assert(chars@.take(i as int) =~= input@);
        proof {
            lemma_run_math_clean(cfg, st0, b0, input@);
            use_type_invariant(&self.phase);
        }
        events
    }

    /// Checks the pending `$` against the clock (call periodically). When it
    /// has waited the timeout out, what it holds is emitted as text.
    ///
    /// The time waited is read from the clock, from the instant in
    /// `timer()`; which of the two outcomes comes depends on it.
    pub fn check_timeout(&mut self) -> (events: Vec<Event>)
        ensures
            old(self)@.state == State::DollarPending ==> old(self).timer() is Some,
            final(self)@ == old(self)@ && final(self).timer() == old(self).timer()
                && events@.len() == 0 || old(self)@.state == State::DollarPending && final(self)@
                == after_run(old(self)@, keep(State::Normal, seq![])) && final(self).timer()
                is None && view_events(events@) == text_events(old(self)@.buffer),
    {
        proof {
            use_type_invariant(&self.phase);
        }
        if self.phase.state == State::DollarPending {
            let elapsed: Option<u128> = match &self.phase.started {
                Some(t) => Some(duration_as_millis(&instant_elapsed(t))),
                None => None,
            };
            if let Some(ms) = elapsed {
                return self.check_timeout_at(ms);
            }
        }
        Vec::new()
    }

    /// The timeout decision for a `$` that has waited `elapsed_ms`
    /// milliseconds: at `DOLLAR_TIMEOUT_MS` or more, the pending text is
    /// emitted and the scanner returns to `Normal`; otherwise nothing changes.
    pub fn check_timeout_at(&mut self, elapsed_ms: u128) -> (events: Vec<Event>)
        ensures
            old(self)@.state == State::DollarPending && elapsed_ms >= DOLLAR_TIMEOUT_MS ==> {
                &&& final(self)@ == after_run(old(self)@, keep(State::Normal, seq![]))
                &&& final(self).timer() is None
                &&& view_events(events@) == text_events(old(self)@.buffer)
            },
            !(old(self)@.state == State::DollarPending && elapsed_ms >= DOLLAR_TIMEOUT_MS) ==> {
                &&& final(self)@ == old(self)@
                &&& final(self).timer() == old(self).timer()
                &&& events@.len() == 0
            },
    {
        let mut events: Vec<Event> = Vec::new();
        if self.phase.state == State::DollarPending && elapsed_ms >= DOLLAR_TIMEOUT_MS {
            assert(view_events(events@) =~= Seq::<EventView>::empty());
            self.emit_buffer(&mut events);
            self.set_state(State::Normal);
            assert(self.buffer@ =~= seq![]);
        }
        events
    }

    /// Flushes any remaining buffered content (call at end of stream).
    pub fn flush(&mut self) -> (events: Vec<Event>)
        ensures
            final(self)@ == after_run(old(self)@, keep(State::Normal, seq![])),
            view_events(events@) == flush_events(old(self)@.state, old(self)@.buffer),
            final(self).timer() is None,
    {
        let mut events: Vec<Event> = Vec::new();
        let mut text: Vec<char> = Vec::new();
        std::mem::swap(&mut text, &mut self.buffer);
        if text.len() > 0 {
            let ghost b = text@;
            let mut out: Vec<char> = Vec::new();
            match self.phase.state {
                State::SingleDollarMath => {
                    out.push('$');
                    assert(out@ =~= seq!['$']);
                },
                State::DoubleDollarMath => {
                    out.push('$');
                    out.push('$');
                    assert(out@ =~= seq!['$', '$']);
                },
                State::MathBlock => {
                    let open: [char; 8] = ['`', '`', '`', 'm', 'a', 't', 'h', '\n'];
                    push_all(&mut out, &open);
                    assert(out@ =~= seq!['`', '`', '`', 'm', 'a', 't', 'h', '\n']);
                },
                State::BracketMath => {
                    out.push('\\');
                    out.push('[');
                    assert(out@ =~= seq!['\\', '[']);
                },
                State::ParenMath => {
                    out.push('\\');
                    out.push('(');
                    assert(out@ =~= seq!['\\', '(']);
                },
                _ => {
                    assert(out@ =~= Seq::<char>::empty());
                },
            }
            push_all(&mut out, text.as_slice());
            assert(Seq::<char>::empty() + b =~= b);
            assert(view_events(events@) =~= Seq::<EventView>::empty());
            push_event(&mut events, Event::Text(string_of(&out)));
            assert(view_events(events@) =~= flush_events(old(self)@.state, old(self)@.buffer));
        } else {
            assert(view_events(events@) =~= Seq::<EventView>::empty());
        }
        self.set_state(State::Normal);
        assert(self.buffer@ =~= seq![]);
        events
    }

    /// Moves to `next`. Entering `DollarPending` starts the timer from the
    /// clock; any other state stops it.
    fn set_state(&mut self, next: State)
        ensures
            final(self).config == old(self).config,
            final(self).buffer@ == old(self).buffer@,
            final(self).phase.state == next,
            next != State::DollarPending ==> final(self).phase.started is None,
    {
        if next == State::DollarPending {
            self.phase = Phase { state: next, started: Some(instant_now()) };
        } else {
            self.phase = Phase { state: next, started: None };
        }
    }

    /// Moves the pending text out of the scanner as a text event, if any.
    fn emit_buffer(&mut self, events: &mut Vec<Event>)
        ensures
            final(self).config == old(self).config,
            final(self).phase == old(self).phase,
            final(self).buffer@ == Seq::<char>::empty(),
            view_events(final(events)@) == view_events(old(events)@) + text_events(
                old(self).buffer@,
            ),
    {
        let mut text: Vec<char> = Vec::new();
        std::mem::swap(&mut text, &mut self.buffer);
        if text.len() > 0 {
            push_event(events, Event::Text(string_of(&text)));
        } else {
            assert(view_events(events@) =~= view_events(old(events)@) + text_events(
                old(self).buffer@,
            ));
        }
    }

    /// Emits the pending text plus `ch` as text and returns to `Normal`.
    fn finish_text_with(&mut self, ch: char, events: &mut Vec<Event>)
        ensures
            took_step(
                old(self)@,
                final(self)@,
                old(events)@,
                final(events)@,
                finish_text(old(self)@.buffer.push(ch)),
            ),
    {
        self.buffer.push(ch);
        let mut text: Vec<char> = Vec::new();
        std::mem::swap(&mut text, &mut self.buffer);
        push_event(events, Event::Text(string_of(&text)));
        self.set_state(State::Normal);
        assert(self.buffer@ =~= seq![]);
    }

    /// Emits `content` as math and returns to `Normal` with nothing pending.
    fn finish_math_with(&mut self, content: &Vec<char>, events: &mut Vec<Event>)
        ensures
            took_step(
                old(self)@,
                final(self)@,
                old(events)@,
                final(events)@,
                finish_math(content@),
            ),
    {
        push_event(events, make_math_event(content));
        self.buffer = Vec::new();
        self.set_state(State::Normal);
        assert(self.buffer@ =~= seq![]);
    }

    /// Emits the pending text, then starts a new pending text `first` in `next`.
    fn emit_and_enter(&mut self, first: char, next: State, events: &mut Vec<Event>)
        ensures
            took_step(
                old(self)@,
                final(self)@,
                old(events)@,
                final(events)@,
                emit_then(old(self)@.buffer, next, seq![first]),
            ),
    {
        self.emit_buffer(events);
        self.buffer.push(first);
        self.set_state(next);
        assert(self.buffer@ =~= seq![first]);
    }

    fn process_char(&mut self, ch: char, events: &mut Vec<Event>)
        ensures
            took_step(
                old(self)@,
                final(self)@,
                old(events)@,
                final(events)@,
                step(old(self)@.config, old(self)@.state, old(self)@.buffer, ch),
            ),
    {
        match self.phase.state {
            State::Normal => self.handle_normal(ch, events),
            State::AnsiEscape => self.handle_ansi_escape(ch, events),
            State::DollarPending => self.handle_dollar_pending(ch, events),
            State::DoubleDollarMath => self.handle_double_dollar_math(ch, events),
            State::SingleDollarMath => self.handle_single_dollar_math(ch, events),
            State::MathBlock => self.handle_math_block(ch, events),
            State::BracketMath => self.handle_closer(']', ch, events),
            State::ParenMath => self.handle_closer(')', ch, events),
            State::BackslashPending => self.handle_backslash_pending(ch, events),
            State::Backtick1 => self.handle_backtick(State::Backtick2, ch, events),
            State::Backtick2 => self.handle_backtick(State::BacktickTriple, ch, events),
            State::BacktickTriple => self.handle_backtick_triple(ch, events),
            State::MathBlockClosing { count } => self.handle_math_block_closing(
                count,
                ch,
                events,
            ),
        }
    }

    fn handle_normal(&mut self, ch: char, events: &mut Vec<Event>)
        requires
            old(self).phase.state == State::Normal,
        ensures
            took_step(
                old(self)@,
                final(self)@,
                old(events)@,
                final(events)@,
                step_normal(old(self)@.config, old(self)@.buffer, ch),
            ),
    {
        let math_on = self.config.display || self.config.inline;
        if ch == '\u{1b}' {
            self.emit_and_enter(ch, State::AnsiEscape, events);
        } else if ch == '$' && math_on {
            self.emit_and_enter('$', State::DollarPending, events);
        } else if ch == '\\' && math_on {
            self.emit_and_enter('\\', State::BackslashPending, events);
        } else if ch == '`' && self.config.block {
            self.emit_and_enter('`', State::Backtick1, events);
        } else {
            self.buffer.push(ch);
            assert(view_events(events@) =~= view_events(old(events)@) + seq![]);
        }
    }

    fn handle_ansi_escape(&mut self, ch: char, events: &mut Vec<Event>)
        ensures
            took_step(
                old(self)@,
                final(self)@,
                old(events)@,
                final(events)@,
                step_ansi(old(self)@.buffer, ch),
            ),
    {
        let first = self.buffer.len() == 1 && ch <= '\u{7f}';
        let after_esc = self.buffer.len() > 0 && self.buffer[self.buffer.len() - 1] == '\u{1b}';
        let ghost b2 = old(self)@.buffer.push(ch);
        // the second character of `buffer` once `ch` is in it
        let second = if self.buffer.len() >= 2 {
            self.buffer[1]
        } else if self.buffer.len() == 1 {
            ch
        } else {
            ' '
        };
        assert(second == (if b2.len() > 1 {
            b2[1]
        } else {
            ' '
        }));
        if first {
            if ch == '[' || ch == ']' || ch == 'P' || ch == 'X' || ch == '^' || ch == '_' {
                self.buffer.push(ch);
                self.set_state(State::AnsiEscape);
                assert(view_events(events@) =~= view_events(old(events)@) + seq![]);
            } else {
                self.finish_text_with(ch, events);
            }
        } else {
            let done = if second == '[' {
                is_csi_final_exec(ch)
            } else if second == ']' {
                ch == '\u{7}' || (ch == '\\' && after_esc)
            } else {
                (ch == '\\' && after_esc) || ch == '\u{7}'
            };
            if done {
                self.finish_text_with(ch, events);
            } else {
                self.buffer.push(ch);
                self.set_state(State::AnsiEscape);
                assert(view_events(events@) =~= view_events(old(events)@) + seq![]);
            }
        }
    }

    fn handle_dollar_pending(&mut self, ch: char, events: &mut Vec<Event>)
        ensures
            took_step(
                old(self)@,
                final(self)@,
                old(events)@,
                final(events)@,
                step_dollar_pending(old(self)@.config, old(self)@.buffer, ch),
            ),
    {
        if ch == '$' && self.config.display {
            self.buffer.clear();
            self.set_state(State::DoubleDollarMath);
            assert(view_events(events@) =~= view_events(old(events)@) + seq![]);
        } else if ch == ' ' || ('0' <= ch && ch <= '9') {
            self.finish_text_with(ch, events);
        } else if self.config.inline {
            self.buffer.clear();
            self.buffer.push(ch);
            self.set_state(State::SingleDollarMath);
            assert(self.buffer@ =~= seq![ch]);
            assert(view_events(events@) =~= view_events(old(events)@) + seq![]);
        } else {
            self.finish_text_with(ch, events);
        }
    }

    fn handle_double_dollar_math(&mut self, ch: char, events: &mut Vec<Event>)
        ensures
            took_step(
                old(self)@,
                final(self)@,
                old(events)@,
                final(events)@,
                step_double_dollar(old(self)@.buffer, ch),
            ),
    {
        let n = self.buffer.len();
        if ch == '$' && n > 0 && self.buffer[n - 1] == '$' {
            let content = slice_chars(&self.buffer, 0, n - 1);
            assert(content@ =~= old(self)@.buffer.drop_last());
            self.finish_math_with(&content, events);
        } else {
            self.buffer.push(ch);
            self.set_state(State::DoubleDollarMath);
            assert(view_events(events@) =~= view_events(old(events)@) + seq![]);
        }
    }

    fn handle_single_dollar_math(&mut self, ch: char, events: &mut Vec<Event>)
        ensures
            took_step(
                old(self)@,
                final(self)@,
                old(events)@,
                final(events)@,
                step_single_dollar(old(self)@.buffer, ch),
            ),
    {
        if ch == '$' {
            let mut content: Vec<char> = Vec::new();
            std::mem::swap(&mut content, &mut self.buffer);
            if has_char(&content, '\\') {
                self.finish_math_with(&content, events);
            } else {
                let mut text: Vec<char> = Vec::new();
                text.push('$');
                push_all(&mut text, content.as_slice());
                text.push('$');
                assert(text@ =~= seq!['$'] + content@ + seq!['$']);
                push_event(events, Event::Text(string_of(&text)));
                self.set_state(State::Normal);
                assert(self.buffer@ =~= seq![]);
            }
        } else {
            self.buffer.push(ch);
            self.set_state(State::SingleDollarMath);
            assert(view_events(events@) =~= view_events(old(events)@) + seq![]);
        }
    }

    fn handle_math_block(&mut self, ch: char, events: &mut Vec<Event>)
        ensures
            took_step(
                old(self)@,
                final(self)@,
                old(events)@,
                final(events)@,
                step_math_block(old(self)@.buffer, ch),
            ),
    {
        if ch == '`' {
            self.set_state(State::MathBlockClosing { count: 1 });
        } else {
            self.buffer.push(ch);
            self.set_state(State::MathBlock);
        }
        assert(view_events(events@) =~= view_events(old(events)@) + seq![]);
    }

    fn handle_math_block_closing(&mut self, count: usize, ch: char, events: &mut Vec<Event>)
        ensures
            took_step(
                old(self)@,
                final(self)@,
                old(events)@,
                final(events)@,
                step_block_closing(count, old(self)@.buffer, ch),
            ),
    {
        if ch == '`' {
            if count >= 2 {
                let mut content: Vec<char> = Vec::new();
                std::mem::swap(&mut content, &mut self.buffer);
                self.finish_math_with(&content, events);
            } else {
                self.set_state(State::MathBlockClosing { count: count + 1 });
                assert(view_events(events@) =~= view_events(old(events)@) + seq![]);
            }
        } else {
            let mut k: usize = 0;
            while k < count
                invariant
                    k <= count,
                    self.config == old(self).config,
                    self.buffer@ == old(self)@.buffer + backticks(k as nat),
                decreases count - k,
            {
                self.buffer.push('`');
                k = k + 1;
                assert(self.buffer@ =~= old(self)@.buffer + backticks(k as nat));
            }
            self.buffer.push(ch);
            assert(self.buffer@ =~= old(self)@.buffer + backticks(count as nat) + seq![ch]);
            self.set_state(State::MathBlock);
            assert(view_events(events@) =~= view_events(old(events)@) + seq![]);
        }
    }

    fn handle_closer(&mut self, close: char, ch: char, events: &mut Vec<Event>)
        requires
            old(self).phase.state == State::BracketMath && close == ']' || old(self).phase.state
                == State::ParenMath && close == ')',
        ensures
            took_step(
                old(self)@,
                final(self)@,
                old(events)@,
                final(events)@,
                step_closer(old(self)@.state, close, old(self)@.buffer, ch),
            ),
    {
        let n = self.buffer.len();
        if ch == close && n > 0 && self.buffer[n - 1] == '\\' {
            let content = slice_chars(&self.buffer, 0, n - 1);
            assert(content@ =~= old(self)@.buffer.drop_last());
            self.finish_math_with(&content, events);
        } else {
            self.buffer.push(ch);
            assert(view_events(events@) =~= view_events(old(events)@) + seq![]);
        }
    }

    fn handle_backslash_pending(&mut self, ch: char, events: &mut Vec<Event>)
        ensures
            took_step(
                old(self)@,
                final(self)@,
                old(events)@,
                final(events)@,
                step_backslash(old(self)@.config, old(self)@.buffer, ch),
            ),
    {
        if ch == '[' && self.config.display {
            self.buffer.clear();
            self.set_state(State::BracketMath);
            assert(view_events(events@) =~= view_events(old(events)@) + seq![]);
        } else if ch == '(' && self.config.display {
            self.buffer.clear();
            self.set_state(State::ParenMath);
            assert(view_events(events@) =~= view_events(old(events)@) + seq![]);
        } else {
            self.finish_text_with(ch, events);
        }
    }

    fn handle_backtick(&mut self, next: State, ch: char, events: &mut Vec<Event>)
        ensures
            took_step(
                old(self)@,
                final(self)@,
                old(events)@,
                final(events)@,
                step_backtick(next, old(self)@.buffer, ch),
            ),
    {
        if ch == '`' {
            self.buffer.push('`');
            self.set_state(next);
            assert(view_events(events@) =~= view_events(old(events)@) + seq![]);
        } else {
            self.finish_text_with(ch, events);
        }
    }

    fn handle_backtick_triple(&mut self, ch: char, events: &mut Vec<Event>)
        ensures
            took_step(
                old(self)@,
                final(self)@,
                old(events)@,
                final(events)@,
                step_backtick_triple(old(self)@.buffer, ch),
            ),
    {
        self.buffer.push(ch);
        let ghost b2 = self.buffer@;
        let after = if self.buffer.len() >= 3 {
            slice_chars(&self.buffer, 3, self.buffer.len())
        } else {
            Vec::new()
        };
        assert(after@ =~= (if b2.len() >= 3 {
            b2.skip(3)
        } else {
            seq![]
        }));
        let math: [char; 4] = ['m', 'a', 't', 'h'];
        assert(math@ == word_math());
        let n = after.len();
        let mut prefix = n <= 4;
        let mut k: usize = 0;
        while prefix && k < n
            invariant
                k <= n == after.len(),
                math@ == word_math(),
                prefix ==> n <= 4 && forall|j: int| 0 <= j < k ==> after@[j] == math@[j],
                !prefix ==> !(n <= 4 && word_math().take(n as int) == after@),
            decreases n - k,
        {
            if after[k] != math[k] {
                prefix = false;
                assert(word_math().take(n as int)[k as int] != after@[k as int]);
            }
            k = k + 1;
        }
        if prefix {
            assert(word_math().take(n as int) =~= after@);
            self.set_state(State::BacktickTriple);
            assert(view_events(events@) =~= view_events(old(events)@) + seq![]);
        } else {
            let opens = n >= 5 && after[0] == 'm' && after[1] == 'a' && after[2] == 't' && after[3]
                == 'h' && (after[4] == '\n' || after[4] == '\r');
            assert(opens == (n >= 5 && (after@.take(5) == word_math().push('\n') || after@.take(5)
                == word_math().push('\r')))) by {
                if n >= 5 {
                    if after@.take(5) == word_math().push('\n') {
                        assert(after@.take(5)[4] == '\n');
                        assert(after@.take(5)[0] == 'm');
                        assert(after@.take(5)[1] == 'a');
                        assert(after@.take(5)[2] == 't');
                        assert(after@.take(5)[3] == 'h');
                    }
                    if after@.take(5) == word_math().push('\r') {
                        assert(after@.take(5)[4] == '\r');
                        assert(after@.take(5)[0] == 'm');
                        assert(after@.take(5)[1] == 'a');
                        assert(after@.take(5)[2] == 't');
                        assert(after@.take(5)[3] == 'h');
                    }
                    if opens {
                        if after[4] == '\n' {
                            assert(after@.take(5) =~= word_math().push('\n'));
                        } else {
                            assert(after@.take(5) =~= word_math().push('\r'));
                        }
                    }
                }
            }
            if opens {
                self.buffer.clear();
                self.set_state(State::MathBlock);
                assert(view_events(events@) =~= view_events(old(events)@) + seq![]);
            } else {
                let mut text: Vec<char> = Vec::new();
                std::mem::swap(&mut text, &mut self.buffer);
                push_event(events, Event::Text(string_of(&text)));
                self.set_state(State::Normal);
                assert(self.buffer@ =~= seq![]);
            }
        }
    }
}

/// Whether `c` occurs in `v`.
fn has_char(v: &Vec<char>, c: char) -> (b: bool)
    ensures
        b == v@.contains(c),
{
    let mut i: usize = 0;
    while i < v.len()
        invariant
            i <= v.len(),
            forall|j: int| 0 <= j < i ==> v@[j] != c,
        decreases v.len() - i,
    {
        if v[i] == c {
            return true;
        }
        i = i + 1;
    }
    false
}

// ---------------------------------------------------------------------------
// Laws
// ---------------------------------------------------------------------------
/// Every math event that one step emits is clean.
proof fn lemma_step_math_clean(cfg: DelimiterConfig, st: State, b: Seq<char>, ch: char)
    ensures
        math_events_clean(step(cfg, st, b, ch).events),
{
    let r = step(cfg, st, b, ch);
    assert forall|k: int| 0 <= k < r.events.len() implies (#[trigger] r.events[k] matches EventView::Math(
        m,
    ) ==> lacks(m, '\u{1b}') && is_trimmed(m)) by {
        if let EventView::Math(m) = r.events[k] {
            let c = choose|c: Seq<char>| r.events[k] == math_event(c);
            lemma_clean_math(c);
        }
    }
}

/// Math events carry no ANSI escape introducer and no white space at either
/// end, whatever the input, the configuration and the state.
pub proof fn lemma_run_math_clean(cfg: DelimiterConfig, st: State, b: Seq<char>, input: Seq<char>)
    ensures
        math_events_clean(run(cfg, st, b, input).events),
    decreases input.len(),
{
    if input.len() > 0 {
        lemma_run_math_clean(cfg, st, b, input.drop_last());
        let prev = run(cfg, st, b, input.drop_last());
        lemma_step_math_clean(cfg, prev.state, prev.buffer, input.last());
        let r = step(cfg, prev.state, prev.buffer, input.last());
        let all = prev.events + r.events;
        assert forall|k: int| 0 <= k < all.len() implies (#[trigger] all[k] matches EventView::Math(
            m,
        ) ==> lacks(m, '\u{1b}') && is_trimmed(m)) by {
            if k < prev.events.len() {
                assert(all[k] == prev.events[k]);
            } else {
                assert(all[k] == r.events[k - prev.events.len()]);
            }
        }
    }
}

/// Feeding a text in two chunks gives the same events, and leaves the scanner
/// in the same state, as feeding it in one piece: the scanner does not care
/// where the input is cut.
pub proof fn lemma_run_chunks(
    cfg: DelimiterConfig,
    st: State,
    b: Seq<char>,
    x: Seq<char>,
    y: Seq<char>,
)
    ensures
        run(cfg, st, b, x + y).state == run(
            cfg,
            run(cfg, st, b, x).state,
            run(cfg, st, b, x).buffer,
            y,
        ).state,
        run(cfg, st, b, x + y).buffer == run(
            cfg,
            run(cfg, st, b, x).state,
            run(cfg, st, b, x).buffer,
            y,
        ).buffer,
        run(cfg, st, b, x + y).events == run(cfg, st, b, x).events + run(
            cfg,
            run(cfg, st, b, x).state,
            run(cfg, st, b, x).buffer,
            y,
        ).events,
    decreases y.len(),
{
    let r1 = run(cfg, st, b, x);
    if y.len() == 0 {
        assert(x + y =~= x);
        assert(r1.events + Seq::<EventView>::empty() =~= r1.events);
    } else {
        lemma_run_chunks(cfg, st, b, x, y.drop_last());
        assert((x + y).drop_last() =~= x + y.drop_last());
        assert((x + y).last() == y.last());
        let r2 = run(cfg, r1.state, r1.buffer, y.drop_last());
        let s = step(cfg, r2.state, r2.buffer, y.last());
        assert(r1.events + r2.events + s.events =~= r1.events + (r2.events + s.events));
    }
}

/// Whether `c` opens a delimiter under `cfg` when it arrives in normal text.
pub open spec fn opens_delimiter(cfg: DelimiterConfig, c: char) -> bool {
    ||| (c == '$' || c == '\\') && (cfg.display || cfg.inline)
    ||| c == '`' && cfg.block
}

/// The characters of a list of events, in order.
pub open spec fn concat_events(events: Seq<EventView>) -> Seq<char>
    decreases events.len(),
{
    if events.len() == 0 {
        seq![]
    } else {
        concat_events(events.drop_last()) + match events.last() {
            EventView::Text(t) => t,
            EventView::Math(m) => m,
        }
    }
}

/// Every event is text.
pub open spec fn all_text(events: Seq<EventView>) -> bool {
    forall|k: int| 0 <= k < events.len() ==> #[trigger] events[k] is Text
}

proof fn lemma_concat_single_text(t: Seq<char>)
    ensures
        concat_events(seq![EventView::Text(t)]) == t,
{
    let e = seq![EventView::Text(t)];
    assert(e.drop_last() =~= Seq::<EventView>::empty());
    assert(concat_events(e.drop_last()) == Seq::<char>::empty());
    assert(Seq::<char>::empty() + t =~= t);
}

proof fn lemma_concat_events_append(a: Seq<EventView>, b: Seq<EventView>)
    ensures
        concat_events(a + b) == concat_events(a) + concat_events(b),
    decreases b.len(),
{
    if b.len() == 0 {
        assert(a + b =~= a);
        assert(concat_events(a) + Seq::<char>::empty() =~= concat_events(a));
    } else {
        lemma_concat_events_append(a, b.drop_last());
        assert((a + b).drop_last() =~= a + b.drop_last());
        assert((a + b).last() == b.last());
    }
}

proof fn lemma_passthrough_run(cfg: DelimiterConfig, input: Seq<char>)
    requires
        forall|i: int| 0 <= i < input.len() ==> !opens_delimiter(cfg, #[trigger] input[i]),
    ensures
        run(cfg, State::Normal, seq![], input).state == State::Normal || run(
            cfg,
            State::Normal,
            seq![],
            input,
        ).state == State::AnsiEscape,
        all_text(run(cfg, State::Normal, seq![], input).events),
        concat_events(run(cfg, State::Normal, seq![], input).events) + run(
            cfg,
            State::Normal,
            seq![],
            input,
        ).buffer == input,
    decreases input.len(),
{
    if input.len() == 0 {
        assert(concat_events(Seq::<EventView>::empty()) + Seq::<char>::empty() =~= input);
    } else {
        let front = input.drop_last();
        assert forall|i: int| 0 <= i < front.len() implies !opens_delimiter(
            cfg,
            #[trigger] front[i],
        ) by {
            assert(front[i] == input[i]);
        }
        lemma_passthrough_run(cfg, front);
        let prev = run(cfg, State::Normal, seq![], front);
        let ch = input.last();
        assert(!opens_delimiter(cfg, input[input.len() - 1]));
        let r = step(cfg, prev.state, prev.buffer, ch);
        lemma_concat_events_append(prev.events, r.events);
        assert(input =~= front.push(ch));
        if prev.state == State::Normal {
            if ch == '\u{1b}' {
                if prev.buffer.len() > 0 {
                    assert(r.events =~= seq![EventView::Text(prev.buffer)]);
                    lemma_concat_single_text(prev.buffer);
                } else {
                    assert(concat_events(r.events) =~= prev.buffer);
                }
            } else {
                assert(r.events =~= Seq::<EventView>::empty());
            }
        } else {
            let b2 = prev.buffer.push(ch);
            if r.events.len() > 0 {
                assert(r.events =~= seq![EventView::Text(b2)]);
                lemma_concat_single_text(b2);
            } else {
                assert(r.events =~= Seq::<EventView>::empty());
            }
        }
        let all = prev.events + r.events;
        assert forall|k: int| 0 <= k < all.len() implies #[trigger] all[k] is Text by {
            if k < prev.events.len() {
                assert(all[k] == prev.events[k]);
            } else {
                assert(all[k] == r.events[k - prev.events.len()]);
            }
        }
        assert(concat_events(all) + r.buffer =~= input);
    }
}

/// Text in which no character opens an enabled delimiter (ANSI escapes
/// included) passes through a fresh scanner unchanged: feeding it and then
/// flushing yields only text events, and together they spell the input.
pub proof fn lemma_passthrough(cfg: DelimiterConfig, input: Seq<char>)
    requires
        forall|i: int| 0 <= i < input.len() ==> !opens_delimiter(cfg, #[trigger] input[i]),
    ensures
        all_text(
            run(cfg, State::Normal, seq![], input).events + flush_events(
                run(cfg, State::Normal, seq![], input).state,
                run(cfg, State::Normal, seq![], input).buffer,
            ),
        ),
        concat_events(
            run(cfg, State::Normal, seq![], input).events + flush_events(
                run(cfg, State::Normal, seq![], input).state,
                run(cfg, State::Normal, seq![], input).buffer,
            ),
        ) == input,
{
    lemma_passthrough_run(cfg, input);
    let r = run(cfg, State::Normal, seq![], input);
    let f = flush_events(r.state, r.buffer);
    lemma_concat_events_append(r.events, f);
    if r.buffer.len() > 0 {
        assert(f =~= seq![EventView::Text(r.buffer)]);
        lemma_concat_single_text(r.buffer);
    } else {
        assert(f =~= Seq::<EventView>::empty());
        assert(concat_events(f) =~= r.buffer);
    }
    let all = r.events + f;
    assert forall|k: int| 0 <= k < all.len() implies #[trigger] all[k] is Text by {
        if k < r.events.len() {
            assert(all[k] == r.events[k]);
        } else {
            assert(all[k] == f[k - r.events.len()]);
        }
    }
}

/// The opener of a math block whose `math` was followed by `x`.
pub open spec fn block_opener(x: char) -> Seq<char> {
    seq!['`', '`', '`', 'm', 'a', 't', 'h', x]
}

/// The input that state `st` with pending text `b` stands for while no math
/// has come out: the pending text, after the opening delimiter of an open math
/// block (`x` is the character after `math` in a block's opener) and before the
/// closing backticks seen so far.
pub open spec fn pending_raw(st: State, b: Seq<char>, x: char) -> Seq<char> {
    match st {
        State::SingleDollarMath => seq!['$'] + b,
        State::DoubleDollarMath => seq!['$', '$'] + b,
        State::BracketMath => seq!['\\', '['] + b,
        State::ParenMath => seq!['\\', '('] + b,
        State::MathBlock => block_opener(x) + b,
        State::MathBlockClosing { count } => block_opener(x) + b + backticks(count as nat),
        _ => b,
    }
}

/// What the pending text of each waiting state holds.
pub open spec fn pending_shape(st: State, b: Seq<char>) -> bool {
    match st {
        State::DollarPending => b == seq!['$'],
        State::BackslashPending => b == seq!['\\'],
        State::Backtick1 => b == seq!['`'],
        State::Backtick2 => b == seq!['`', '`'],
        State::BacktickTriple => {
            &&& 3 <= b.len() <= 7
            &&& b.take(3) == seq!['`', '`', '`']
            &&& b.skip(3) == word_math().take(b.len() - 3)
        },
        State::SingleDollarMath => b.len() > 0,
        _ => true,
    }
}

/// End of stream gives back less than the input when the input ends inside
/// the closing backticks of a math block, right after a bare opening delimiter
/// of a math block, or inside a block whose opener ended in a carriage return
/// (it comes back with a newline).
pub open spec fn flush_loses(input: Seq<char>, st: State, b: Seq<char>) -> bool {
    ||| st is MathBlockClosing
    ||| b.len() == 0 && (st is DoubleDollarMath || st is BracketMath || st is ParenMath
        || st is MathBlock)
    ||| st is MathBlock && input[input.len() - b.len() - 1] == '\r'
}

proof fn lemma_concat_text_events(b: Seq<char>)
    ensures
        concat_events(text_events(b)) == b,
{
    if b.len() > 0 {
        lemma_concat_single_text(b);
    } else {
        assert(concat_events(text_events(b)) =~= b);
    }
}

proof fn lemma_all_text_split(a: Seq<EventView>, b: Seq<EventView>)
    requires
        all_text(a + b),
    ensures
        all_text(a),
        all_text(b),
{
    assert forall|k: int| 0 <= k < a.len() implies #[trigger] a[k] is Text by {
        assert((a + b)[k] == a[k]);
    }
    assert forall|k: int| 0 <= k < b.len() implies #[trigger] b[k] is Text by {
        assert((a + b)[k + a.len()] == b[k]);
    }
}

proof fn lemma_all_text_join(a: Seq<EventView>, b: Seq<EventView>)
    requires
        all_text(a),
        all_text(b),
    ensures
        all_text(a + b),
{
    assert forall|k: int| 0 <= k < (a + b).len() implies #[trigger] (a + b)[k] is Text by {
        if k < a.len() {
            assert((a + b)[k] == a[k]);
        } else {
            assert((a + b)[k] == b[k - a.len()]);
        }
    }
}

/// The step `r` accounts for `before`: what it emits, followed by the input
/// that its pending text stands for, is `before`, and its pending text has its
/// expected shape.
#[verifier::opaque]
spec fn accounts(r: StepOut, before: Seq<char>, x: char) -> bool {
    &&& pending_shape(r.state, r.buffer)
    &&& concat_events(r.events) + pending_raw(r.state, r.buffer, x) == before
}

proof fn lemma_raw_keep(st: State, b: Seq<char>, x: char)
    requires
        pending_shape(st, b),
    ensures
        accounts(keep(st, b), pending_raw(st, b, x), x),
{
    reveal(accounts);
    let e: Seq<EventView> = seq![];
    assert(concat_events(e) == Seq::<char>::empty());
    assert(Seq::<char>::empty() + pending_raw(st, b, x) =~= pending_raw(st, b, x));
}

proof fn lemma_raw_finish_text(t: Seq<char>, x: char)
    ensures
        accounts(finish_text(t), t, x),
{
    reveal(accounts);
    lemma_concat_single_text(t);
    assert(t + Seq::<char>::empty() =~= t);
}

proof fn lemma_raw_normal(cfg: DelimiterConfig, b: Seq<char>, ch: char, x: char)
    ensures
        accounts(step_normal(cfg, b, ch), b.push(ch), x),
{
    reveal(accounts);
    let r = step_normal(cfg, b, ch);
    lemma_concat_text_events(b);
    if r.state == State::Normal {
        assert(r.events =~= Seq::<EventView>::empty());
        assert(concat_events(r.events) =~= Seq::<char>::empty());
    }
    assert(concat_events(r.events) + r.buffer =~= b.push(ch));
}

proof fn lemma_raw_ansi(b: Seq<char>, ch: char, x: char)
    ensures
        accounts(step_ansi(b, ch), b.push(ch), x),
{
    let r = step_ansi(b, ch);
    if r.state == State::AnsiEscape {
        lemma_raw_keep(State::AnsiEscape, b.push(ch), x);
    } else {
        lemma_raw_finish_text(b.push(ch), x);
    }
}

proof fn lemma_raw_dollar_pending(cfg: DelimiterConfig, b: Seq<char>, ch: char, x: char)
    requires
        b == seq!['$'],
    ensures
        accounts(step_dollar_pending(cfg, b, ch), b.push(ch), x),
{
    let r = step_dollar_pending(cfg, b, ch);
    if r.events.len() > 0 {
        lemma_raw_finish_text(b.push(ch), x);
    } else {
        lemma_raw_keep(r.state, r.buffer, x);
        assert(pending_raw(r.state, r.buffer, x) =~= b.push(ch));
    }
}

proof fn lemma_raw_double_dollar(b: Seq<char>, ch: char, x: char)
    requires
        all_text(step_double_dollar(b, ch).events),
    ensures
        accounts(step_double_dollar(b, ch), (seq!['$', '$'] + b).push(ch), x),
{
    let r = step_double_dollar(b, ch);
    if r.events.len() > 0 {
        assert(r.events[0] is Text);
    }
    lemma_raw_keep(r.state, r.buffer, x);
    assert(pending_raw(r.state, r.buffer, x) =~= (seq!['$', '$'] + b).push(ch));
}

proof fn lemma_raw_single_dollar(b: Seq<char>, ch: char, x: char)
    requires
        b.len() > 0,
        all_text(step_single_dollar(b, ch).events),
    ensures
        accounts(step_single_dollar(b, ch), (seq!['$'] + b).push(ch), x),
{
    let r = step_single_dollar(b, ch);
    if r.events.len() > 0 {
        assert(r.events[0] is Text);
    }
    if ch == '$' {
        lemma_raw_finish_text(seq!['$'] + b + seq!['$'], x);
        assert(seq!['$'] + b + seq!['$'] =~= (seq!['$'] + b).push(ch));
    } else {
        lemma_raw_keep(r.state, r.buffer, x);
        assert(pending_raw(r.state, r.buffer, x) =~= (seq!['$'] + b).push(ch));
    }
}

proof fn lemma_raw_math_block(b: Seq<char>, ch: char, x: char)
    ensures
        accounts(step_math_block(b, ch), (block_opener(x) + b).push(ch), x),
{
    let r = step_math_block(b, ch);
    lemma_raw_keep(r.state, r.buffer, x);
    assert(pending_raw(r.state, r.buffer, x) =~= (block_opener(x) + b).push(ch));
}

proof fn lemma_raw_block_closing(count: usize, b: Seq<char>, ch: char, x: char)
    requires
        all_text(step_block_closing(count, b, ch).events),
    ensures
        accounts(
            step_block_closing(count, b, ch),
            (block_opener(x) + b + backticks(count as nat)).push(ch),
            x,
        ),
{
    let r = step_block_closing(count, b, ch);
    if r.events.len() > 0 {
        assert(r.events[0] is Text);
    }
    lemma_raw_keep(r.state, r.buffer, x);
    assert(pending_raw(r.state, r.buffer, x) =~= (block_opener(x) + b + backticks(
        count as nat,
    )).push(ch));
}

proof fn lemma_raw_closer(st: State, open: char, close: char, b: Seq<char>, ch: char, x: char)
    requires
        st == State::BracketMath && open == '[' || st == State::ParenMath && open == '(',
        all_text(step_closer(st, close, b, ch).events),
    ensures
        accounts(step_closer(st, close, b, ch), (seq!['\\', open] + b).push(ch), x),
{
    let r = step_closer(st, close, b, ch);
    if r.events.len() > 0 {
        assert(r.events[0] is Text);
    }
    lemma_raw_keep(r.state, r.buffer, x);
    assert(pending_raw(r.state, r.buffer, x) =~= (seq!['\\', open] + b).push(ch));
}

proof fn lemma_raw_backslash(cfg: DelimiterConfig, b: Seq<char>, ch: char, x: char)
    requires
        b == seq!['\\'],
    ensures
        accounts(step_backslash(cfg, b, ch), b.push(ch), x),
{
    let r = step_backslash(cfg, b, ch);
    if r.events.len() > 0 {
        lemma_raw_finish_text(b.push(ch), x);
    } else {
        lemma_raw_keep(r.state, r.buffer, x);
        assert(pending_raw(r.state, r.buffer, x) =~= b.push(ch));
    }
}

proof fn lemma_raw_backtick(next: State, b: Seq<char>, ch: char, x: char)
    requires
        next == State::Backtick2 && b == seq!['`'] || next == State::BacktickTriple && b == seq![
            '`',
            '`',
        ],
    ensures
        accounts(step_backtick(next, b, ch), b.push(ch), x),
{
    if ch == '`' {
        if next == State::BacktickTriple {
            assert(b.push(ch).take(3) =~= seq!['`', '`', '`']);
            assert(b.push(ch).skip(3) =~= word_math().take(0));
        } else {
            assert(b.push(ch) =~= seq!['`', '`']);
        }
        lemma_raw_keep(next, b.push(ch), x);
    } else {
        lemma_raw_finish_text(b.push(ch), x);
    }
}

proof fn lemma_raw_backtick_triple(b: Seq<char>, ch: char, x: char) -> (y: char)
    requires
        pending_shape(State::BacktickTriple, b),
        x == '\n' || x == '\r',
    ensures
        y == '\n' || y == '\r',
        accounts(step_backtick_triple(b, ch), b.push(ch), y),
{
    let r = step_backtick_triple(b, ch);
    let b2 = b.push(ch);
    let after = b2.skip(3);
    assert(b2.take(3) =~= b.take(3));
    assert(b2 =~= b2.take(3) + after);
    if r.state == State::MathBlock {
        assert(after.len() == 5);
        assert(after.take(5) =~= after);
        assert(after[4] == ch);
        assert(b2 =~= block_opener(ch));
        lemma_raw_keep(State::MathBlock, seq![], ch);
        assert(block_opener(ch) + Seq::<char>::empty() =~= block_opener(ch));
        ch
    } else if r.state == State::BacktickTriple {
        lemma_raw_keep(State::BacktickTriple, b2, x);
        x
    } else {
        lemma_raw_finish_text(b2, x);
        x
    }
}

/// One step that emits no math keeps the input accounted for: what it emits,
/// followed by what is pending after it, is what was pending before it
/// followed by the new character.
proof fn lemma_step_raw(cfg: DelimiterConfig, st: State, b: Seq<char>, x: char, ch: char) -> (y:
    char)
    requires
        pending_shape(st, b),
        x == '\n' || x == '\r',
        all_text(step(cfg, st, b, ch).events),
    ensures
        y == '\n' || y == '\r',
        accounts(step(cfg, st, b, ch), pending_raw(st, b, x).push(ch), y),
{
    match st {
        State::Normal => {
            lemma_raw_normal(cfg, b, ch, x);
            x
        },
        State::AnsiEscape => {
            lemma_raw_ansi(b, ch, x);
            x
        },
        State::DollarPending => {
            lemma_raw_dollar_pending(cfg, b, ch, x);
            x
        },
        State::DoubleDollarMath => {
            lemma_raw_double_dollar(b, ch, x);
            x
        },
        State::SingleDollarMath => {
            lemma_raw_single_dollar(b, ch, x);
            x
        },
        State::MathBlock => {
            lemma_raw_math_block(b, ch, x);
            x
        },
        State::MathBlockClosing { count } => {
            lemma_raw_block_closing(count, b, ch, x);
            x
        },
        State::BracketMath => {
            lemma_raw_closer(st, '[', ']', b, ch, x);
            x
        },
        State::ParenMath => {
            lemma_raw_closer(st, '(', ')', b, ch, x);
            x
        },
        State::BackslashPending => {
            lemma_raw_backslash(cfg, b, ch, x);
            x
        },
        State::Backtick1 => {
            lemma_raw_backtick(State::Backtick2, b, ch, x);
            x
        },
        State::Backtick2 => {
            lemma_raw_backtick(State::BacktickTriple, b, ch, x);
            x
        },
        State::BacktickTriple => { lemma_raw_backtick_triple(b, ch, x) },
    }
}

/// A run from a fresh scanner that emits no math accounts for all its input:
/// what it emitted, followed by what is pending, is the input.
proof fn lemma_run_raw(cfg: DelimiterConfig, input: Seq<char>) -> (x: char)
    requires
        all_text(run(cfg, State::Normal, seq![], input).events),
    ensures
        x == '\n' || x == '\r',
        pending_shape(
            run(cfg, State::Normal, seq![], input).state,
            run(cfg, State::Normal, seq![], input).buffer,
        ),
        concat_events(run(cfg, State::Normal, seq![], input).events) + pending_raw(
            run(cfg, State::Normal, seq![], input).state,
            run(cfg, State::Normal, seq![], input).buffer,
            x,
        ) == input,
    decreases input.len(),
{
    if input.len() == 0 {
        assert(concat_events(Seq::<EventView>::empty()) + Seq::<char>::empty() =~= input);
        '\n'
    } else {
        let front = input.drop_last();
        let ch = input.last();
        let prev = run(cfg, State::Normal, seq![], front);
        let r = step(cfg, prev.state, prev.buffer, ch);
        lemma_all_text_split(prev.events, r.events);
        let x = lemma_run_raw(cfg, front);
        let y = lemma_step_raw(cfg, prev.state, prev.buffer, x, ch);
        reveal(accounts);
        lemma_concat_events_append(prev.events, r.events);
        assert(input =~= front.push(ch));
        assert(concat_events(prev.events) + concat_events(r.events) + pending_raw(
            r.state,
            r.buffer,
            y,
        ) =~= (concat_events(prev.events) + pending_raw(prev.state, prev.buffer, x)).push(ch));
        y
    }
}

/// Text that is not math comes out unchanged: when a fresh scanner fed
/// `input` and then flushed emits no math event, the text events spell the
/// input, ANSI escapes, shell variables and unclosed math included. The one
/// exception is the text that end of stream does not give back (see
/// `flush_loses`).
pub proof fn lemma_text_passes_through(cfg: DelimiterConfig, input: Seq<char>)
    requires
        all_text(run(cfg, State::Normal, seq![], input).events),
        !flush_loses(
            input,
            run(cfg, State::Normal, seq![], input).state,
            run(cfg, State::Normal, seq![], input).buffer,
        ),
    ensures
        all_text(
            run(cfg, State::Normal, seq![], input).events + flush_events(
                run(cfg, State::Normal, seq![], input).state,
                run(cfg, State::Normal, seq![], input).buffer,
            ),
        ),
        concat_events(
            run(cfg, State::Normal, seq![], input).events + flush_events(
                run(cfg, State::Normal, seq![], input).state,
                run(cfg, State::Normal, seq![], input).buffer,
            ),
        ) == input,
{
    let r = run(cfg, State::Normal, seq![], input);
    let x = lemma_run_raw(cfg, input);
    let f = flush_events(r.state, r.buffer);
    let c = concat_events(r.events);
    lemma_concat_events_append(r.events, f);
    if r.buffer.len() > 0 {
        lemma_concat_single_text(f[0]->Text_0);
        assert(f =~= seq![EventView::Text(f[0]->Text_0)]);
    } else {
        assert(f =~= Seq::<EventView>::empty());
    }
    assert(all_text(f));
    lemma_all_text_join(r.events, f);
    if r.state is MathBlock {
        let k = input.len() - r.buffer.len() - 1;
        assert(input == c + block_opener(x) + r.buffer);
        assert(input[k] == (c + block_opener(x) + r.buffer)[k]);
        assert(input[k] == x);
        assert(x == '\n');
        assert(concat_events(f) =~= block_opener(x) + r.buffer);
    } else if r.buffer.len() > 0 {
        assert(concat_events(f) =~= pending_raw(r.state, r.buffer, x));
    } else {
        assert(concat_events(f) =~= pending_raw(r.state, r.buffer, x));
    }
    assert(c + concat_events(f) =~= input);
}

/// Feeding a scanner a list of chunks, one after another.
pub open spec fn run_chunks(
    cfg: DelimiterConfig,
    st: State,
    b: Seq<char>,
    chunks: Seq<Seq<char>>,
) -> StepOut
    decreases chunks.len(),
{
    if chunks.len() == 0 {
        keep(st, b)
    } else {
        let first = run(cfg, st, b, chunks[0]);
        let rest = run_chunks(cfg, first.state, first.buffer, chunks.drop_first());
        StepOut { state: rest.state, buffer: rest.buffer, events: first.events + rest.events }
    }
}

/// Feeding the chunks one after another is feeding their concatenation.
pub proof fn lemma_run_chunks_flatten(
    cfg: DelimiterConfig,
    st: State,
    b: Seq<char>,
    chunks: Seq<Seq<char>>,
)
    ensures
        run_chunks(cfg, st, b, chunks).state == run(cfg, st, b, chunks.flatten()).state,
        run_chunks(cfg, st, b, chunks).buffer == run(cfg, st, b, chunks.flatten()).buffer,
        run_chunks(cfg, st, b, chunks).events == run(cfg, st, b, chunks.flatten()).events,
    decreases chunks.len(),
{
    if chunks.len() == 0 {
        assert(run(cfg, st, b, chunks.flatten()).events =~= Seq::<EventView>::empty());
    } else {
        let first = run(cfg, st, b, chunks[0]);
        lemma_run_chunks_flatten(cfg, first.state, first.buffer, chunks.drop_first());
        lemma_run_chunks(cfg, st, b, chunks[0], chunks.drop_first().flatten());
        assert(chunks.flatten() == chunks[0] + chunks.drop_first().flatten());
    }
}

/// The pass-through law for input cut into any chunks: when a fresh scanner
/// fed the chunks one after another and then flushed emits no math event, the
/// text events spell the whole input, except where end of stream gives back
/// less (see `flush_loses`).
pub proof fn lemma_chunks_pass_through(cfg: DelimiterConfig, chunks: Seq<Seq<char>>)
    requires
        all_text(run_chunks(cfg, State::Normal, seq![], chunks).events),
        !flush_loses(
            chunks.flatten(),
            run_chunks(cfg, State::Normal, seq![], chunks).state,
            run_chunks(cfg, State::Normal, seq![], chunks).buffer,
        ),
    ensures
        concat_events(
            run_chunks(cfg, State::Normal, seq![], chunks).events + flush_events(
                run_chunks(cfg, State::Normal, seq![], chunks).state,
                run_chunks(cfg, State::Normal, seq![], chunks).buffer,
            ),
        ) == chunks.flatten(),
{
    lemma_run_chunks_flatten(cfg, State::Normal, seq![], chunks);
    lemma_text_passes_through(cfg, chunks.flatten());
}


/// A CSI escape sequence: ESC, `[`, parameter text `p`, and the final byte
/// `f`.
pub open spec fn csi_sequence(p: Seq<char>, f: char) -> Seq<char> {
    seq!['\u{1b}', '['] + p + seq![f]
}

/// While the parameters of a CSI sequence arrive, the scanner waits in
/// `AnsiEscape` with all of it pending and emits nothing.
proof fn lemma_csi_params_pending(cfg: DelimiterConfig, p: Seq<char>)
    requires
        forall|i: int| 0 <= i < p.len() ==> !('\u{40}' <= #[trigger] p[i] && p[i] <= '\u{7e}'),
    ensures
        run(cfg, State::Normal, seq![], seq!['\u{1b}', '['] + p).state == State::AnsiEscape,
        run(cfg, State::Normal, seq![], seq!['\u{1b}', '['] + p).buffer == seq!['\u{1b}', '['] + p,
        run(cfg, State::Normal, seq![], seq!['\u{1b}', '['] + p).events.len() == 0,
    decreases p.len(),
{
    let input = seq!['\u{1b}', '['] + p;
    if p.len() == 0 {
        assert(input =~= seq!['\u{1b}', '[']);
        assert(input.drop_last() =~= seq!['\u{1b}']);
        assert(input.drop_last().drop_last() =~= Seq::<char>::empty());
        let esc = seq!['\u{1b}'];
        assert(esc.drop_last() =~= Seq::<char>::empty());
        assert(esc.last() == '\u{1b}');
        assert(run(cfg, State::Normal, seq![], esc.drop_last()) == keep(State::Normal, seq![]));
        let r1 = run(cfg, State::Normal, seq![], esc);
        assert(r1 == step(cfg, State::Normal, seq![], '\u{1b}'));
        assert(Seq::<char>::empty().push('\u{1b}') =~= esc);
        assert(r1.state == State::AnsiEscape);
        assert(r1.buffer =~= seq!['\u{1b}']);
        assert(r1.events =~= Seq::<EventView>::empty());
        assert(seq!['\u{1b}'].push('[') =~= seq!['\u{1b}', '[']);
    } else {
        let front = p.drop_last();
        assert forall|i: int| 0 <= i < front.len() implies !('\u{40}' <= #[trigger] front[i]
            && front[i] <= '\u{7e}') by {
            assert(front[i] == p[i]);
        }
        lemma_csi_params_pending(cfg, front);
        assert(input.drop_last() =~= seq!['\u{1b}', '['] + front);
        assert(input.last() == p[p.len() - 1]);
        let b = seq!['\u{1b}', '['] + front;
        assert(b.push(input.last()) =~= input);
        assert(b.push(input.last())[1] == '[');
    }
}

/// A CSI escape (such as `ESC [ K`, `ESC [ 2 J` or `ESC [ 3 1 m`) ends at its
/// final byte, any of `0x40..=0x7E`: a fresh scanner passes it through as one
/// text event and is back in normal text with nothing pending, so what comes
/// after it is scanned as if the escape had not been there.
pub proof fn lemma_csi_ends_at_final_byte(
    cfg: DelimiterConfig,
    p: Seq<char>,
    f: char,
    rest: Seq<char>,
)
    requires
        forall|i: int| 0 <= i < p.len() ==> !('\u{40}' <= #[trigger] p[i] && p[i] <= '\u{7e}'),
        '\u{40}' <= f && f <= '\u{7e}',
    ensures
        run(cfg, State::Normal, seq![], csi_sequence(p, f)).events == seq![
            EventView::Text(csi_sequence(p, f)),
        ],
        run(cfg, State::Normal, seq![], csi_sequence(p, f)).state == State::Normal,
        run(cfg, State::Normal, seq![], csi_sequence(p, f)).buffer.len() == 0,
        run(cfg, State::Normal, seq![], csi_sequence(p, f) + rest).events == seq![
            EventView::Text(csi_sequence(p, f)),
        ] + run(cfg, State::Normal, seq![], rest).events,
        run(cfg, State::Normal, seq![], csi_sequence(p, f) + rest).state == run(
            cfg,
            State::Normal,
            seq![],
            rest,
        ).state,
        run(cfg, State::Normal, seq![], csi_sequence(p, f) + rest).buffer == run(
            cfg,
            State::Normal,
            seq![],
            rest,
        ).buffer,
{
    let csi = csi_sequence(p, f);
    lemma_csi_params_pending(cfg, p);
    let b = seq!['\u{1b}', '['] + p;
    assert(csi.drop_last() =~= b);
    assert(csi.last() == f);
    assert(b.push(f) =~= csi);
    assert(b.push(f)[1] == '[');
    let r = run(cfg, State::Normal, seq![], csi);
    assert(r.events =~= seq![EventView::Text(csi)]);
    lemma_run_chunks(cfg, State::Normal, seq![], csi, rest);
    assert(r.buffer =~= Seq::<char>::empty());
}

} // verus!
