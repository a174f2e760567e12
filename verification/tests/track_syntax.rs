use apex_road::track::{
    parse_kind, parse_script, split_lines, tokenize, Command, ParserState, RoadKind, RoadSetting,
    RoadShape,
};

fn chars(s: &str) -> Vec<char> {
    s.chars().collect()
}

fn tokens(line: &str) -> Result<Vec<String>, String> {
    tokenize(&chars(line)).map(|ts| ts.into_iter().map(|t| t.into_iter().collect()).collect())
}

fn syntax_error(text: &str) -> String {
    parse_script(text).error.expect("a syntax error")
}

#[test]
fn words_split_at_any_unicode_white_space() {
    assert_eq!(tokens("  straight\t40 \u{3000}rise 2 ").unwrap(), ["straight", "40", "rise", "2"]);
    assert_eq!(tokens("").unwrap(), Vec::<String>::new());
}

#[test]
fn comments_preserve_quoted_hash() {
    assert_eq!(tokens("name \"Route #1\" # comment").unwrap(), ["name", "Route #1"]);
    assert_eq!(tokens("# only a comment").unwrap(), Vec::<String>::new());
    assert_eq!(tokens("straight 40# tight").unwrap(), ["straight", "40"]);
}

#[test]
fn quotes_group_words_and_support_two_escapes() {
    assert_eq!(tokens("name \"A \\\"quoted\\\" \\\\ name\"").unwrap(), ["name", "A \"quoted\" \\ name"]);
    assert_eq!(tokens("description \"\"").unwrap(), ["description", ""]);
    assert_eq!(tokens("a\"b c\"d").unwrap(), ["ab cd"]);
    assert_eq!(tokens("back\\slash").unwrap(), ["back\\slash"]);
}

#[test]
fn tokenizer_errors() {
    assert_eq!(tokens("name \"Oops").unwrap_err(), "Unclosed quotation mark");
    assert_eq!(tokens("name \"Oops\\").unwrap_err(), "Unfinished escape in quoted text");
    assert_eq!(
        tokens("name \"a\\nb\"").unwrap_err(),
        "Only \\\\ and \\\" escapes are supported in quoted text"
    );
}

#[test]
fn lines_split_like_str_lines() {
    let text = "foo\r\nbar\n\nbaz\r";
    let lines: Vec<String> =
        split_lines(&chars(text)).into_iter().map(|l| l.into_iter().collect()).collect();
    assert_eq!(lines, ["foo", "bar", "", "baz\r"]);
    assert!(split_lines(&chars("")).is_empty());
    assert_eq!(split_lines(&chars("a\n")).len(), 1);
}

#[test]
fn syntax_errors_name_their_line() {
    for (input, expected) in [
        ("name \"Oops", "Line 1: Unclosed quotation mark"),
        ("straight 40\nfinish\nstraight 40", "Line 3: No commands are allowed after 'finish' or 'close'"),
        ("straight 40\nstart 0 0 0", "Line 2: 'start' must appear before the first road command"),
        ("\n\nhairpin 40", "Line 3: Unknown command 'hairpin'. Expected straight, left, right, bridge, tunnel, ramp, gap, width, kind, checkpoint, start, name, description, finish or close"),
        ("checkpoint now", "Line 1: 'checkpoint' expects 0 argument(s), received 1"),
        ("width", "Line 1: 'width' expects 1 argument(s), received 0"),
        ("kind lava", "Line 1: Unknown road kind 'lava'; use road, bridge, tunnel, ramp or gap"),
        ("name", "Line 1: 'name' requires text"),
        ("straight", "Line 1: 'straight' requires a length or turn angle"),
        ("left 90 40", "Line 1: Usage: left <angle_degrees> radius <metres> [rise <metres>] [bank <degrees>] [kind <type>]"),
        ("start 1 2", "Line 1: Usage: start <x> <y> <z> [heading_degrees]"),
    ] {
        assert_eq!(syntax_error(input), expected, "{input}");
    }
}

fn deferred_error(text: &str) -> String {
    match &parse_script(text).commands[0].command {
        Command::Road(road) => road.error.clone().expect("a deferred option error"),
        other => panic!("{other:?}"),
    }
}

#[test]
fn road_option_errors_are_reported_after_the_numbers_before_them() {
    assert_eq!(deferred_error("straight 40 rise 2 rise 4"), "Duplicate 'rise' option");
    assert_eq!(deferred_error("straight 40 bananas 2"), "Unknown road option 'bananas'");
    assert_eq!(
        deferred_error("left 90 radius 40 kind lava"),
        "Unknown road kind 'lava'; use road, bridge, tunnel, ramp or gap"
    );
}

#[test]
fn file_size_and_text_limits() {
    let big = "#".repeat(1_000_001);
    let script = parse_script(&big);
    assert_eq!(script.error.as_deref(), Some("Track file exceeds the 1 MB limit"));
    assert!(script.commands.is_empty());
    assert!(parse_script(&"#".repeat(1_000_000)).error.is_none());
    let long = format!("name {}", "é".repeat(251));
    assert_eq!(syntax_error(&long), "Line 1: 'name' text must be 500 bytes or fewer");
    let fits = format!("name {}", "é".repeat(250));
    assert!(parse_script(&fits).error.is_none());
}

#[test]
fn names_join_their_words() {
    let script = parse_script("name My   Mountain  \"Sprint #2\"\ndescription A short run");
    assert!(script.error.is_none());
    match &script.commands[0].command {
        Command::Name(name) => assert_eq!(name, "My Mountain Sprint #2"),
        other => panic!("{other:?}"),
    }
    match &script.commands[1].command {
        Command::Description(text) => assert_eq!(text, "A short run"),
        other => panic!("{other:?}"),
    }
}

#[test]
fn road_commands_keep_numbers_and_settings_in_order() {
    let script = parse_script("kind tunnel\nright 60 radius 110 bank -12 rise 10\nbridge 100 kind gap");
    assert!(script.error.is_none());
    assert_eq!(script.commands.len(), 3);
    assert_eq!(script.commands[1].line, 2);
    match &script.commands[1].command {
        Command::Road(road) => {
            assert_eq!(road.shape, RoadShape::Right);
            assert_eq!(road.amount, "60");
            assert_eq!(road.radius.as_deref(), Some("110"));
            assert_eq!(road.kind, RoadKind::Tunnel);
            assert!(road.error.is_none());
            assert!(matches!(&road.settings[..], [RoadSetting::Bank(b), RoadSetting::Rise(r)] if b == "-12" && r == "10"));
        }
        other => panic!("{other:?}"),
    }
    match &script.commands[2].command {
        Command::Road(road) => {
            assert_eq!(road.shape, RoadShape::Bridge);
            assert_eq!(road.kind, RoadKind::Gap);
            assert!(road.radius.is_none());
        }
        other => panic!("{other:?}"),
    }
}

#[test]
fn option_errors_wait_behind_earlier_numbers() {
    let script = parse_script("straight NaN rise 3 bananas 2 kind road");
    assert!(script.error.is_none());
    match &script.commands[0].command {
        Command::Road(road) => {
            assert_eq!(road.amount, "NaN");
            assert!(matches!(&road.settings[..], [RoadSetting::Rise(r)] if r == "3"));
            assert_eq!(road.error.as_deref(), Some("Unknown road option 'bananas'"));
        }
        other => panic!("{other:?}"),
    }
    match &parse_script("straight 40 rise").commands[0].command {
        Command::Road(road) => assert_eq!(
            road.error.as_deref(),
            Some("Road options must be pairs: rise <metres>, bank <degrees>, kind <type>")
        ),
        other => panic!("{other:?}"),
    }
}

#[test]
fn parser_state_tracks_end_start_and_kind() {
    let state = ParserState::new();
    let finish = state.command(&vec![chars("finish")]).unwrap();
    let ended = state.advance(&finish);
    assert!(ended.ended);
    assert!(ended.command(&vec![chars("straight"), chars("40")]).is_err());
    let kind = state.command(&vec![chars("kind"), chars("ramp")]).unwrap();
    assert_eq!(state.advance(&kind).default_kind, RoadKind::Ramp);
    assert_eq!(parse_kind(&chars("gap")).unwrap(), RoadKind::Gap);
}

#[test]
fn start_and_checkpoint_commands() {
    let script = parse_script("start 0 -100 0 90\ncheckpoint\nclose");
    assert!(script.error.is_none());
    match &script.commands[0].command {
        Command::Start { x, y, z, heading } => {
            assert_eq!((x.as_str(), y.as_str(), z.as_str()), ("0", "-100", "0"));
            assert_eq!(heading.as_deref(), Some("90"));
        }
        other => panic!("{other:?}"),
    }
    assert!(matches!(script.commands[1].command, Command::Checkpoint));
    assert!(matches!(script.commands[2].command, Command::Close));
}
