use termula::config::FileConfig;
use termula::converter::{cache_key, convert_inline, typst_document};
use termula::render::{
    choose_delimiters, process_events, render_math, resolve_render_config, Attempt, CliOptions,
    RenderConfig,
};
use termula::scanner::DelimiterConfig;
use termula::stream_scanner::{Event, StreamScanner};
use termula::terminal::Capability;

fn cli(mode: &str) -> CliOptions {
    CliOptions {
        mode: mode.to_string(),
        delimiters: "block,display".to_string(),
        width: None,
        dark: false,
        light: false,
        no_cache: false,
        verbose: false,
    }
}

fn config(capability: Option<Capability>) -> RenderConfig {
    RenderConfig {
        capability,
        dark_mode: true,
        no_cache: false,
        max_width: Some(40),
    }
}

fn written(plan: &[Attempt]) -> Option<&str> {
    match plan.last() {
        Some(Attempt::Write(t)) => Some(t.as_str()),
        _ => None,
    }
}

#[test]
fn mode_off_writes_math_back() {
    let plan = render_math("x^2", &config(None));
    assert_eq!(plan.len(), 1);
    assert_eq!(written(&plan), Some("$$x^2$$"));
}

#[test]
fn mode_off_preserves_dollar_dollar_through_the_pipeline() {
    let mut scanner = StreamScanner::new(DelimiterConfig {
        block: true,
        display: true,
        inline: false,
    });
    let mut events = scanner.feed("before $$x^2$$ after\n");
    events.extend(scanner.flush());
    let out: String = process_events(&events, &config(None))
        .iter()
        .map(|p| written(p).unwrap().to_string())
        .collect();
    assert_eq!(out, "before $$x^2$$ after\n");
}

#[test]
fn image_modes_fall_back_to_art_then_inline() {
    let plan = render_math("\\alpha", &config(Some(Capability::KittyGraphics)));
    assert_eq!(plan.len(), 3);
    match &plan[0] {
        Attempt::Image { kitty, plan } => {
            assert!(*kitty);
            assert_eq!(plan.cache_key, Some(cache_key("\\alpha", true)));
            assert_eq!(plan.document, typst_document("\\alpha", true));
        }
        _ => panic!("expected an image first"),
    }
    match &plan[1] {
        Attempt::UnicodeArt { latex, max_width } => {
            assert_eq!(latex, "\\alpha");
            assert_eq!(*max_width, Some(40));
        }
        _ => panic!("expected unicode art second"),
    }
    assert_eq!(written(&plan), Some("α"));
    let plan = render_math("x", &config(Some(Capability::ITerm2)));
    assert!(matches!(&plan[0], Attempt::Image { kitty: false, .. }));
    let plan = render_math("x", &config(Some(Capability::UnicodeArt)));
    assert_eq!(plan.len(), 2);
    let plan = render_math("\\alpha + \\beta", &config(Some(Capability::InlineUnicode)));
    assert_eq!(plan.len(), 1);
    assert_eq!(written(&plan), Some(convert_inline("\\alpha + \\beta").as_str()));
}

#[test]
fn text_events_are_written_through() {
    let events = vec![Event::Text("a".to_string()), Event::Math("\\pi".to_string())];
    let plans = process_events(&events, &config(Some(Capability::InlineUnicode)));
    assert_eq!(plans.len(), 2);
    assert_eq!(written(&plans[0]), Some("a"));
    assert_eq!(written(&plans[1]), Some("π"));
}

#[test]
fn settings_precedence() {
    let file = FileConfig {
        mode: Some("inline".to_string()),
        delimiters: Some("all".to_string()),
        width: Some(50),
        dark: Some(false),
        light: None,
        no_cache: Some(true),
        verbose: None,
    };
    let c = resolve_render_config(&cli("auto"), &file, Capability::KittyGraphics, true);
    assert_eq!(c.capability, Some(Capability::InlineUnicode));
    assert!(!c.dark_mode);
    assert!(c.no_cache);
    assert_eq!(c.max_width, Some(50));

    let mut o = cli("unicode");
    o.dark = true;
    o.width = Some(10);
    let c = resolve_render_config(&o, &file, Capability::KittyGraphics, false);
    assert_eq!(c.capability, Some(Capability::UnicodeArt));
    assert!(c.dark_mode);
    assert_eq!(c.max_width, Some(10));

    let c = resolve_render_config(&cli("off"), &FileConfig::default(), Capability::ITerm2, false);
    assert_eq!(c.capability, None);
    assert!(!c.dark_mode);
    let c = resolve_render_config(&cli("auto"), &FileConfig::default(), Capability::ITerm2, true);
    assert_eq!(c.capability, Some(Capability::ITerm2));
    assert!(c.dark_mode);
    assert!(!c.no_cache);
    let c = resolve_render_config(&cli("bogus"), &FileConfig::default(), Capability::ITerm2, true);
    assert_eq!(c.capability, Some(Capability::ITerm2));

    assert_eq!(choose_delimiters(&cli("auto"), &file), "all");
    let mut o = cli("auto");
    o.delimiters = "inline".to_string();
    assert_eq!(choose_delimiters(&o, &file), "inline");
    assert_eq!(choose_delimiters(&cli("auto"), &FileConfig::default()), "block,display");
}

fn pipeline(input: &str, delimiters: &str, config: &RenderConfig) -> Vec<Vec<Attempt>> {
    let mut scanner = StreamScanner::new(termula::scanner::parse_delimiter_config(delimiters));
    let mut events = scanner.feed(input);
    events.extend(scanner.flush());
    process_events(&events, config)
}

#[test]
fn inline_mode_renders_symbols_through_the_pipeline() {
    let plans = pipeline(
        "$$\\alpha + \\beta$$",
        "block,display",
        &config(Some(Capability::InlineUnicode)),
    );
    let out: String = plans.iter().map(|p| written(p).unwrap()).collect();
    assert!(out.contains('α'), "should contain alpha symbol: {}", out);
    assert!(out.contains('β'), "should contain beta symbol: {}", out);
}

#[test]
fn math_blocks_are_consumed_by_the_pipeline() {
    let plans = pipeline(
        "before\n```math\nx^2\n```\nafter \\[y\\] and \\(z\\) $w$",
        "block,display",
        &config(Some(Capability::InlineUnicode)),
    );
    let out: String = plans.iter().map(|p| written(p).unwrap()).collect();
    assert_eq!(out, "before\nx²\nafter y and z $w$");
}

#[test]
fn every_plan_ends_with_a_write() {
    for cap in [
        None,
        Some(Capability::KittyGraphics),
        Some(Capability::ITerm2),
        Some(Capability::UnicodeArt),
        Some(Capability::InlineUnicode),
    ] {
        let plans = pipeline("a $$x$$ b", "all", &config(cap));
        assert_eq!(plans.len(), 3);
        for p in &plans {
            assert!(matches!(p.last(), Some(Attempt::Write(_))));
        }
    }
}
