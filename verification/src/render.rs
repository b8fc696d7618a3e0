//! From settings and scanner events to what is shown: the resolved rendering
//! configuration, and for each event the renderings to try, in order.
use vstd::prelude::*;
use crate::config::{opt_string, FileConfig};
use crate::converter::{
    cache_key_text,
    convert_inline,
    convert_to_image,
    inline_form,
    typst_document_text,
    ImagePlan,
};
use crate::stream_scanner::{Event, EventView};
use crate::terminal::{mode_capability, parse_mode, Capability};
use crate::text::{chars_of, equals_chars};

verus! {

/// The command-line settings, as plain values.
pub struct CliOptions {
    /// Rendering mode: auto, kitty, iterm2, unicode, inline or off.
    pub mode: String,
    /// Delimiters to detect: block, display, inline, all.
    pub delimiters: String,
    /// Max width for Unicode art.
    pub width: Option<usize>,
    /// Force dark background rendering.
    pub dark: bool,
    /// Force light background rendering.
    pub light: bool,
    /// Disable the image cache.
    pub no_cache: bool,
    /// Show debug info on stderr.
    pub verbose: bool,
}

/// Rendering configuration resolved from the settings and the terminal.
#[derive(Debug, Clone, Copy, PartialEq, Eq, Structural)]
pub struct RenderConfig {
    /// `None` is mode `off`.
    pub capability: Option<Capability>,
    pub dark_mode: bool,
    pub no_cache: bool,
    pub max_width: Option<usize>,
}

pub open spec fn word_auto() -> Seq<char> {
    seq!['a', 'u', 't', 'o']
}

pub open spec fn word_off() -> Seq<char> {
    seq!['o', 'f', 'f']
}

pub open spec fn default_delimiters() -> Seq<char> {
    seq!['b', 'l', 'o', 'c', 'k', ',', 'd', 'i', 's', 'p', 'l', 'a', 'y']
}

/// The mode in force: the command line's unless it is `auto`, then the
/// file's, then `auto`.
pub open spec fn chosen_mode(cli_mode: Seq<char>, file_mode: Option<Seq<char>>) -> Seq<char> {
    if cli_mode != word_auto() {
        cli_mode
    } else {
        match file_mode {
            Some(m) => m,
            None => cli_mode,
        }
    }
}

/// The configuration that the settings give, with `detected` the terminal's
/// own capability and `terminal_dark` its own background guess. Command-line
/// flags win over the file; `--dark` wins over `--light`.
pub open spec fn resolved_config(
    cli: &CliOptions,
    file: &FileConfig,
    detected: Capability,
    terminal_dark: bool,
) -> RenderConfig {
    let mode = chosen_mode(cli.mode@, opt_string(file.mode));
    RenderConfig {
        capability: if mode == word_off() {
            None
        } else {
            Some(
                match mode_capability(mode) {
                    Some(c) => c,
                    None => detected,
                },
            )
        },
        dark_mode: if cli.dark {
            true
        } else if cli.light {
            false
        } else if file.dark is Some {
            file.dark->0
        } else if file.light == Some(true) {
            false
        } else {
            terminal_dark
        },
        no_cache: cli.no_cache || file.no_cache == Some(true),
        max_width: if cli.width is Some {
            cli.width
        } else {
            file.width
        },
    }
}

/// Resolves the rendering configuration from the command line, the config
/// file, the detected terminal capability and the terminal's background.
pub fn resolve_render_config(
    cli: &CliOptions,
    file: &FileConfig,
    detected: Capability,
    terminal_dark: bool,
) -> (config: RenderConfig)
    ensures
        config == resolved_config(cli, file, detected, terminal_dark),
{
    let auto: [char; 4] = ['a', 'u', 't', 'o'];
    let off: [char; 3] = ['o', 'f', 'f'];
    assert(auto@ == word_auto());
    assert(off@ == word_off());
    let cli_mode = chars_of(cli.mode.as_str());
    let mode: &str = if !equals_chars(&cli_mode, &auto) {
        cli.mode.as_str()
    } else {
        match &file.mode {
            Some(m) => m.as_str(),
            None => cli.mode.as_str(),
        }
    };
    assert(mode@ == chosen_mode(cli.mode@, opt_string(file.mode)));
    let mode_chars = chars_of(mode);
    let capability = if equals_chars(&mode_chars, &off) {
        None
    } else {
        Some(
            match parse_mode(mode) {
                Some(c) => c,
                None => detected,
            },
        )
    };
    let dark_mode = if cli.dark {
        true
    } else if cli.light {
        false
    } else if let Some(dark) = file.dark {
        dark
    } else if let Some(true) = file.light {
        false
    } else {
        terminal_dark
    };
    let no_cache = cli.no_cache || match file.no_cache {
        Some(b) => b,
        None => false,
    };
    let max_width = match cli.width {
        Some(w) => Some(w),
        None => file.width,
    };
    RenderConfig { capability, dark_mode, no_cache, max_width }
}

/// The delimiter list in force: the command line's unless it is the default
/// `block,display`, then the file's, then the default.
pub open spec fn chosen_delimiters(cli: Seq<char>, file: Option<Seq<char>>) -> Seq<char> {
    if cli != default_delimiters() {
        cli
    } else {
        match file {
            Some(d) => d,
            None => cli,
        }
    }
}

/// Picks the delimiter list from the command line and the config file.
pub fn choose_delimiters(cli: &CliOptions, file: &FileConfig) -> (d: String)
    ensures
        d@ == chosen_delimiters(cli.delimiters@, opt_string(file.delimiters)),
{
    let default: [char; 13] = ['b', 'l', 'o', 'c', 'k', ',', 'd', 'i', 's', 'p', 'l', 'a', 'y'];
    assert(default@ == default_delimiters());
    let given = chars_of(cli.delimiters.as_str());
    if !equals_chars(&given, &default) {
        cli.delimiters.clone()
    } else {
        match &file.delimiters {
            Some(d) => d.clone(),
            None => cli.delimiters.clone(),
        }
    }
}

/// One way of showing something; the renderings for an event are tried in
/// order until one succeeds.
pub enum Attempt {
    /// Write the text as it is; this never fails.
    Write(String),
    /// Render an image (Kitty protocol or iTerm2's) as `plan` says.
    Image { kitty: bool, plan: ImagePlan },
    /// Render Unicode art with utftex.
    UnicodeArt { latex: String, max_width: Option<usize> },
}

/// `a` writes exactly `text`.
pub open spec fn writes(a: Attempt, text: Seq<char>) -> bool {
    a matches Attempt::Write(t) && t@ == text
}

/// `a` renders `latex` as an image under `config`.
pub open spec fn renders_image(a: Attempt, kitty: bool, latex: Seq<char>, config: RenderConfig) -> bool {
    &&& a matches Attempt::Image { kitty: k, plan }
    &&& a->kitty == kitty
    &&& a->plan.document@ == typst_document_text(latex, config.dark_mode)
    &&& config.no_cache ==> a->plan.cache_key is None
    &&& !config.no_cache ==> (a->plan.cache_key matches Some(key) && key@ == cache_key_text(
        latex,
        config.dark_mode,
    ))
}

/// `a` renders `latex` as Unicode art under `config`.
pub open spec fn renders_art(a: Attempt, latex: Seq<char>, config: RenderConfig) -> bool {
    a matches Attempt::UnicodeArt { latex: l, max_width: w } && l@ == latex && w
        == config.max_width
}

/// The renderings to try for `latex`: with mode `off` the math written back
/// between `$$`; images fall back to Unicode art, and Unicode art to inline
/// Unicode.
pub open spec fn is_math_plan(plan: Seq<Attempt>, latex: Seq<char>, config: RenderConfig) -> bool {
    match config.capability {
        None => plan.len() == 1 && writes(plan[0], "$$"@ + latex + "$$"@),
        Some(Capability::KittyGraphics) => plan.len() == 3 && renders_image(
            plan[0],
            true,
            latex,
            config,
        ) && renders_art(plan[1], latex, config) && writes(plan[2], inline_form(latex)),
        Some(Capability::ITerm2) => plan.len() == 3 && renders_image(plan[0], false, latex, config)
            && renders_art(plan[1], latex, config) && writes(plan[2], inline_form(latex)),
        Some(Capability::UnicodeArt) => plan.len() == 2 && renders_art(plan[0], latex, config)
            && writes(plan[1], inline_form(latex)),
        Some(Capability::InlineUnicode) => plan.len() == 1 && writes(plan[0], inline_form(latex)),
    }
}

/// The renderings to try for an event: text is written as it is.
pub open spec fn is_event_plan(plan: Seq<Attempt>, event: EventView, config: RenderConfig) -> bool {
    match event {
        EventView::Text(t) => plan.len() == 1 && writes(plan[0], t),
        EventView::Math(m) => is_math_plan(plan, m, config),
    }
}

fn image_attempt(latex: &str, kitty: bool, config: &RenderConfig) -> (a: Attempt)
    ensures
        renders_image(a, kitty, latex@, *config),
{
    Attempt::Image { kitty, plan: convert_to_image(latex, config.dark_mode, config.no_cache) }
}

fn art_attempt(latex: &str, config: &RenderConfig) -> (a: Attempt)
    ensures
        renders_art(a, latex@, *config),
{
    Attempt::UnicodeArt { latex: latex.to_owned(), max_width: config.max_width }
}

/// The renderings to try, in order, for the math `latex`.
pub fn render_math(latex: &str, config: &RenderConfig) -> (plan: Vec<Attempt>)
    ensures
        is_math_plan(plan@, latex@, *config),
{
    let mut plan: Vec<Attempt> = Vec::new();
    match config.capability {
        None => {
            let mut raw = String::new();
            raw.append("$$");
            raw.append(latex);
            raw.append("$$");
            plan.push(Attempt::Write(raw));
        },
        Some(Capability::KittyGraphics) => {
            plan.push(image_attempt(latex, true, config));
            plan.push(art_attempt(latex, config));
            plan.push(Attempt::Write(convert_inline(latex)));
        },
        Some(Capability::ITerm2) => {
            plan.push(image_attempt(latex, false, config));
            plan.push(art_attempt(latex, config));
            plan.push(Attempt::Write(convert_inline(latex)));
        },
        Some(Capability::UnicodeArt) => {
            plan.push(art_attempt(latex, config));
            plan.push(Attempt::Write(convert_inline(latex)));
        },
        Some(Capability::InlineUnicode) => {
            plan.push(Attempt::Write(convert_inline(latex)));
        },
    }
    plan
}

/// For each event, the renderings to try: text is written through, math is
/// rendered as `config` says.
pub fn process_events(events: &[Event], config: &RenderConfig) -> (plans: Vec<Vec<Attempt>>)
    ensures
        plans@.len() == events@.len(),
        forall|k: int|
            0 <= k < events@.len() ==> is_event_plan(#[trigger] plans@[k]@, events@[k]@, *config),
{
    let mut plans: Vec<Vec<Attempt>> = Vec::new();
    let mut i: usize = 0;
    while i < events.len()
        invariant
            i <= events@.len(),
            plans@.len() == i,
            forall|k: int|
                0 <= k < i ==> is_event_plan(#[trigger] plans@[k]@, events@[k]@, *config),
        decreases events@.len() - i,
    {
        let plan = match &events[i] {
            Event::Text(text) => {
                let mut p: Vec<Attempt> = Vec::new();
                p.push(Attempt::Write(text.clone()));
                p
            },
            Event::Math(latex) => render_math(latex.as_str(), config),
        };
        plans.push(plan);
        i = i + 1;
    }
    plans
}

/// Whatever the event and the configuration, the renderings to try are not
/// empty and end with a plain write, which cannot fail: something is always
/// shown, and a failed image or Unicode art falls back to text.
pub proof fn lemma_plan_ends_with_write(plan: Seq<Attempt>, event: EventView, config: RenderConfig)
    requires
        is_event_plan(plan, event, config),
    ensures
        plan.len() >= 1,
        plan.last() is Write,
{
}

/// Which background the math is drawn for: `--dark` wins over everything,
/// then `--light`; without either flag the file's `dark` setting decides,
/// then a file `light = true`, and only then the terminal's own guess.
pub proof fn lemma_background_priority(
    cli: &CliOptions,
    file: &FileConfig,
    detected: Capability,
    terminal_dark: bool,
)
    ensures
        cli.dark ==> resolved_config(cli, file, detected, terminal_dark).dark_mode,
        cli.light && !cli.dark ==> !resolved_config(cli, file, detected, terminal_dark).dark_mode,
        !cli.dark && !cli.light && file.dark == Some(true) ==> resolved_config(
            cli,
            file,
            detected,
            terminal_dark,
        ).dark_mode,
        !cli.dark && !cli.light && file.dark == Some(false) ==> !resolved_config(
            cli,
            file,
            detected,
            terminal_dark,
        ).dark_mode,
        !cli.dark && !cli.light && file.dark is None && file.light == Some(true) ==> !resolved_config(
            cli,
            file,
            detected,
            terminal_dark,
        ).dark_mode,
        !cli.dark && !cli.light && file.dark is None && file.light != Some(true) ==> resolved_config(
            cli,
            file,
            detected,
            terminal_dark,
        ).dark_mode == terminal_dark,
{
}

/// Both image protocols get the same three renderings, differing only in the
/// protocol: the image first, then, should it fail, utftex's Unicode art of
/// the same LaTeX at the configured width, then the inline Unicode form.
pub proof fn lemma_image_plan_falls_back(plan: Seq<Attempt>, latex: Seq<char>, config: RenderConfig)
    requires
        is_math_plan(plan, latex, config),
        config.capability == Some(Capability::KittyGraphics) || config.capability == Some(
            Capability::ITerm2,
        ),
    ensures
        plan.len() == 3,
        plan[0] matches Attempt::Image { kitty, plan: image } && kitty == (config.capability
            == Some(Capability::KittyGraphics)) && image.document@ == typst_document_text(
            latex,
            config.dark_mode,
        ),
        plan[1] matches Attempt::UnicodeArt { latex: l, max_width: w } && l@ == latex && w
            == config.max_width,
        plan[2] matches Attempt::Write(t) && t@ == inline_form(latex),
{
}

} // verus!
