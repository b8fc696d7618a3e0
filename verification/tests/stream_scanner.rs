use termula::scanner::DelimiterConfig;
use termula::stream_scanner::{strip_ansi, Event, StreamScanner};

fn all_config() -> DelimiterConfig {
    DelimiterConfig {
        block: true,
        display: true,
        inline: true,
    }
}

fn default_config() -> DelimiterConfig {
    DelimiterConfig {
        block: true,
        display: true,
        inline: false,
    }
}

#[test]
fn test_plain_text() {
    let mut scanner = StreamScanner::new(default_config());
    let events = scanner.feed("hello world");
    let events = [events, scanner.flush()].concat();
    assert_eq!(events, vec![Event::Text("hello world".to_string())]);
}

#[test]
fn test_dollar_dollar_math() {
    let mut scanner = StreamScanner::new(default_config());
    let events = scanner.feed("before $$\\frac{a}{b}$$ after");
    let mut all = events;
    all.extend(scanner.flush());
    assert_eq!(
        all,
        vec![
            Event::Text("before ".to_string()),
            Event::Math("\\frac{a}{b}".to_string()),
            Event::Text(" after".to_string()),
        ]
    );
}

#[test]
fn test_math_block() {
    let mut scanner = StreamScanner::new(default_config());
    let events = scanner.feed("before\n```math\n\\frac{1}{2}\n```\nafter");
    let mut all = events;
    all.extend(scanner.flush());
    assert_eq!(
        all,
        vec![
            Event::Text("before\n".to_string()),
            Event::Math("\\frac{1}{2}".to_string()),
            Event::Text("\nafter".to_string()),
        ]
    );
}

#[test]
fn test_ansi_passthrough() {
    let mut scanner = StreamScanner::new(default_config());
    let input = "hello \x1b[31mred\x1b[0m world";
    let events = scanner.feed(input);
    let mut all = events;
    all.extend(scanner.flush());
    let combined: String = all
        .iter()
        .map(|e| match e {
            Event::Text(t) => t.as_str(),
            Event::Math(_) => panic!("unexpected math"),
        })
        .collect();
    assert_eq!(combined, input);
}

#[test]
fn stream_scanner_test_bracket_math() {
    let mut scanner = StreamScanner::new(default_config());
    let events = scanner.feed("see \\[x^2\\] here");
    let mut all = events;
    all.extend(scanner.flush());
    assert_eq!(
        all,
        vec![
            Event::Text("see ".to_string()),
            Event::Math("x^2".to_string()),
            Event::Text(" here".to_string()),
        ]
    );
}

#[test]
fn test_inline_dollar_with_backslash() {
    let mut scanner = StreamScanner::new(all_config());
    let events = scanner.feed("val $\\alpha$ end");
    let mut all = events;
    all.extend(scanner.flush());
    assert_eq!(
        all,
        vec![
            Event::Text("val ".to_string()),
            Event::Math("\\alpha".to_string()),
            Event::Text(" end".to_string()),
        ]
    );
}

#[test]
fn test_shell_variable_skipped() {
    let mut scanner = StreamScanner::new(all_config());
    let events = scanner.feed("path is $HOME/bin");
    let mut all = events;
    all.extend(scanner.flush());
    let combined: String = all
        .iter()
        .map(|e| match e {
            Event::Text(t) => t.clone(),
            Event::Math(m) => format!("[MATH:{}]", m),
        })
        .collect();
    assert!(
        !combined.contains("[MATH:"),
        "should not detect shell var as math"
    );
}

#[test]
fn test_streaming_chunks() {
    let mut scanner = StreamScanner::new(default_config());
    let mut all = Vec::new();
    all.extend(scanner.feed("before $$\\frac"));
    all.extend(scanner.feed("{a}{b}$$ after"));
    all.extend(scanner.flush());
    assert_eq!(
        all,
        vec![
            Event::Text("before ".to_string()),
            Event::Math("\\frac{a}{b}".to_string()),
            Event::Text(" after".to_string()),
        ]
    );
}

#[test]
fn test_paren_math() {
    let mut scanner = StreamScanner::new(default_config());
    let events = scanner.feed("inline \\(x^2\\) here");
    let mut all = events;
    all.extend(scanner.flush());
    assert_eq!(
        all,
        vec![
            Event::Text("inline ".to_string()),
            Event::Math("x^2".to_string()),
            Event::Text(" here".to_string()),
        ]
    );
}

#[test]
fn test_ansi_stripped_from_math() {
    let mut scanner = StreamScanner::new(default_config());
    let input = "$$\x1b[31m\\frac{a}{b}\x1b[0m$$";
    let events = scanner.feed(input);
    let mut all = events;
    all.extend(scanner.flush());
    assert_eq!(all, vec![Event::Math("\\frac{a}{b}".to_string())]);
}

#[test]
fn test_strip_ansi_function() {
    assert_eq!(strip_ansi("hello"), "hello");
    assert_eq!(strip_ansi("\x1b[31mred\x1b[0m"), "red");
    assert_eq!(strip_ansi("\x1b[1;32mbold green\x1b[0m"), "bold green");
    assert_eq!(strip_ansi("no\x1b[Kansi"), "noansi");
    assert_eq!(strip_ansi("\x1b]0;title\x07text"), "text");
}

fn feed_all(config: DelimiterConfig, chunks: &[&str]) -> Vec<Event> {
    let mut scanner = StreamScanner::new(config);
    let mut all = Vec::new();
    for c in chunks {
        all.extend(scanner.feed(c));
    }
    all.extend(scanner.flush());
    all
}

fn concat(events: &[Event]) -> String {
    events
        .iter()
        .map(|e| match e {
            Event::Text(t) => t.clone(),
            Event::Math(m) => m.clone(),
        })
        .collect()
}

#[test]
fn chunking_does_not_change_events() {
    let input = "a $$x^2$$ b\n```math\n\\alpha\n```\nc \\[y\\] d \x1b[1mbold\x1b[0m $\\beta$ $5";
    let whole = feed_all(all_config(), &[input]);
    let chars: Vec<char> = input.chars().collect();
    for cut in 0..=chars.len() {
        let a: String = chars[..cut].iter().collect();
        let b: String = chars[cut..].iter().collect();
        assert_eq!(feed_all(all_config(), &[&a, &b]), whole, "cut at {}", cut);
    }
    let singles: Vec<String> = chars.iter().map(|c| c.to_string()).collect();
    let refs: Vec<&str> = singles.iter().map(|s| s.as_str()).collect();
    assert_eq!(feed_all(all_config(), &refs), whole);
}

#[test]
fn text_without_delimiters_passes_through() {
    let input = "plain \x1b]8;;http://x\x1b\\link\x1b]8;;\x1b\\ and \x1b[38;5;2mcolour\x1b[0m end";
    let events = feed_all(default_config(), &[input]);
    assert!(events.iter().all(|e| matches!(e, Event::Text(_))));
    assert_eq!(concat(&events), input);
}

#[test]
fn disabled_delimiters_pass_through() {
    let none = DelimiterConfig {
        block: false,
        display: false,
        inline: false,
    };
    let input = "$$x$$ \\[y\\] ```math\nz\n``` $w$";
    let events = feed_all(none, &[input]);
    assert_eq!(events, vec![Event::Text(input.to_string())]);
}

#[test]
fn math_content_is_cleaned() {
    let events = feed_all(default_config(), &["$$  \x1b[1m a+b \x1b[0m\t$$"]);
    assert_eq!(events, vec![Event::Math("a+b".to_string())]);
}

#[test]
fn unclosed_math_is_returned_as_text() {
    assert_eq!(
        feed_all(default_config(), &["x $$abc"]),
        vec![
            Event::Text("x ".to_string()),
            Event::Text("$$abc".to_string())
        ]
    );
    assert_eq!(
        feed_all(default_config(), &["\\[abc"]),
        vec![Event::Text("\\[abc".to_string())]
    );
    assert_eq!(
        feed_all(default_config(), &["\\(abc"]),
        vec![Event::Text("\\(abc".to_string())]
    );
    assert_eq!(
        feed_all(default_config(), &["```math\nabc"]),
        vec![Event::Text("```math\nabc".to_string())]
    );
    assert_eq!(
        feed_all(all_config(), &["$abc"]),
        vec![Event::Text("$abc".to_string())]
    );
}

#[test]
fn dollar_heuristics() {
    assert_eq!(
        feed_all(all_config(), &["costs $5 now"]),
        vec![
            Event::Text("costs ".to_string()),
            Event::Text("$5".to_string()),
            Event::Text(" now".to_string())
        ]
    );
    assert_eq!(
        feed_all(all_config(), &["a $x$ b"]),
        vec![
            Event::Text("a ".to_string()),
            Event::Text("$x$".to_string()),
            Event::Text(" b".to_string())
        ]
    );
    assert_eq!(
        feed_all(default_config(), &["a $x b"]),
        vec![
            Event::Text("a ".to_string()),
            Event::Text("$x".to_string()),
            Event::Text(" b".to_string())
        ]
    );
}

#[test]
fn backticks_that_are_not_a_math_block() {
    assert_eq!(
        feed_all(default_config(), &["a `code` b"]),
        vec![
            Event::Text("a ".to_string()),
            Event::Text("`c".to_string()),
            Event::Text("ode".to_string()),
            Event::Text("` ".to_string()),
            Event::Text("b".to_string())
        ]
    );
    assert_eq!(
        feed_all(default_config(), &["```rust\nx"]),
        vec![Event::Text("```r".to_string()), Event::Text("ust\nx".to_string())]
    );
    assert_eq!(
        feed_all(default_config(), &["```math\nx``y\n```"]),
        vec![Event::Math("x``y".to_string())]
    );
}

#[test]
fn check_timeout_at_emits_pending_dollar() {
    let mut scanner = StreamScanner::new(default_config());
    assert_eq!(scanner.feed("a $"), vec![Event::Text("a ".to_string())]);
    assert_eq!(scanner.check_timeout_at(10), vec![]);
    assert_eq!(
        scanner.check_timeout_at(50),
        vec![Event::Text("$".to_string())]
    );
    assert_eq!(scanner.check_timeout_at(100), vec![]);
    assert_eq!(scanner.flush(), vec![]);
}

#[test]
fn check_timeout_right_away_keeps_dollar() {
    let mut scanner = StreamScanner::new(default_config());
    scanner.feed("$");
    assert_eq!(scanner.check_timeout(), vec![]);
    assert_eq!(scanner.feed("$x$$"), vec![Event::Math("x".to_string())]);
}

#[test]
fn strip_ansi_edge_cases() {
    assert_eq!(strip_ansi("a\x1b"), "a");
    assert_eq!(strip_ansi("a\x1b[31"), "a");
    assert_eq!(strip_ansi("a\x1bMb"), "ab");
    assert_eq!(strip_ansi("\x1b]0;t\x1b\\x"), "x");
}

#[test]
fn check_timeout_after_the_wait_emits_dollar() {
    let mut scanner = StreamScanner::new(default_config());
    assert_eq!(scanner.feed("cost $"), vec![Event::Text("cost ".to_string())]);
    let start = std::time::Instant::now();
    while start.elapsed().as_millis() < 80 {}
    assert_eq!(scanner.check_timeout(), vec![Event::Text("$".to_string())]);
    assert_eq!(scanner.check_timeout(), vec![]);
    assert_eq!(scanner.feed("5"), vec![]);
    assert_eq!(scanner.flush(), vec![Event::Text("5".to_string())]);
}

fn text_of(events: &[Event]) -> Option<String> {
    let mut out = String::new();
    for e in events {
        match e {
            Event::Text(t) => out.push_str(t),
            Event::Math(_) => return None,
        }
    }
    Some(out)
}

#[test]
fn text_without_math_passes_through_in_any_chunks() {
    let cases: [&[&str]; 6] = [
        &["echo $HOME/bin"],
        &["a \\x b"],
        &["use `a` here"],
        &["unclosed $$x + y"],
        &["\x1b[31mred", "\x1b[0m $", "5 and \\(open"],
        &["``", "`mat", "h\nnever closed"],
    ];
    for chunks in cases.iter() {
        let mut scanner = StreamScanner::new(all_config());
        let mut events = Vec::new();
        for c in chunks.iter() {
            events.extend(scanner.feed(c));
        }
        events.extend(scanner.flush());
        assert_eq!(text_of(&events), Some(chunks.concat()), "{:?}", chunks);
    }
}

#[test]
fn text_lost_at_end_of_stream() {
    let mut scanner = StreamScanner::new(default_config());
    let mut events = scanner.feed("see $$");
    events.extend(scanner.flush());
    assert_eq!(text_of(&events), Some("see ".to_string()));
    let mut scanner = StreamScanner::new(default_config());
    let mut events = scanner.feed("```math\nx`");
    events.extend(scanner.flush());
    assert_eq!(text_of(&events), Some("x".to_string()));
}

#[test]
fn strip_ansi_laws_on_examples() {
    let input = "\x1b[1mbold\x1b[0m and \x1b]8;;u\x07link\x1b]8;;\x07";
    let once = strip_ansi(input);
    assert_eq!(once, "bold and link");
    assert_eq!(strip_ansi(&once), once);
    assert_eq!(strip_ansi("no escapes $x$"), "no escapes $x$");
    let mut rest = input.chars();
    for c in once.chars() {
        assert!(rest.any(|d| d == c));
    }
}
