use apex_road::options::{
    finish_options, float_literal, options, parse_u64, Invocation, Options,
};

/// Whether the value of a distance text is finite and not below zero.
fn in_range(inv: &Invocation) -> bool {
    match inv {
        Invocation::Run(Options { at: Some(text), .. }) => {
            let v: f32 = text.parse().unwrap();
            !(!v.is_finite() || v < 0.)
        }
        _ => true,
    }
}

fn run(args: &[&str]) -> Result<Options, String> {
    let inv = options(&args.iter().map(|a| a.to_string()).collect())?;
    let verdict = in_range(&inv);
    match finish_options(inv, verdict)? {
        Invocation::Run(o) => Ok(o),
        Invocation::Help => panic!("unexpected help"),
    }
}

fn chars(s: &str) -> Vec<char> {
    s.chars().collect()
}

#[test]
fn defaults_select_the_alpine_course() {
    let o = run(&[]).unwrap();
    assert_eq!(o.path, "tracks/alpine.track");
    assert!(!o.validate && !o.autodrive && !o.demo);
    assert_eq!(o.frames, None);
    assert!(o.capture.is_none() && o.at.is_none());
}

#[test]
fn flags_and_paths() {
    let o = run(&["--track", "tracks/club.track", "--autodrive", "--frames", "+120", "--at", "600"]).unwrap();
    assert_eq!(o.path, "tracks/club.track");
    assert!(o.autodrive);
    assert_eq!(o.frames, Some(120));
    assert_eq!(o.at.as_deref(), Some("600"));
    let o = run(&["my.track"]).unwrap();
    assert_eq!(o.path, "my.track");
    let o = run(&["--validate", "tracks/ridgeway.track"]).unwrap();
    assert!(o.validate);
    assert_eq!(o.path, "tracks/ridgeway.track");
    let o = run(&["--validate"]).unwrap();
    assert!(o.validate);
    assert_eq!(o.path, "tracks/alpine.track");
}

#[test]
fn smoke_test_and_capture_defaults() {
    let o = run(&["--smoke-test"]).unwrap();
    assert_eq!(o.frames, Some(240));
    assert!(o.autodrive);
    let o = run(&["--capture", "shot.png"]).unwrap();
    assert_eq!(o.frames, Some(30));
    assert_eq!(o.capture.as_deref(), Some("shot.png"));
    let o = run(&["--capture", "shot.png", "--frames", "5"]).unwrap();
    assert_eq!(o.frames, Some(5));
}

#[test]
fn help_stops_reading() {
    assert!(matches!(options(&vec!["-h".into(), "--bogus".into()]), Ok(Invocation::Help)));
    assert!(matches!(options(&vec!["--help".into()]), Ok(Invocation::Help)));
    assert_eq!(
        options(&vec!["--bogus".into(), "--help".into()]).unwrap_err(),
        "Unknown option: --bogus. Use --help."
    );
}

#[test]
fn option_errors() {
    for (args, expected) in [
        (&["--track"][..], "--track needs a path"),
        (&["--frames"][..], "--frames needs a positive integer"),
        (&["--frames", "ten"][..], "invalid frame count"),
        (&["--frames", "18446744073709551616"][..], "invalid frame count"),
        (&["--frames", "0"][..], "--frames must be positive"),
        (&["--capture"][..], "--capture needs a PNG path"),
        (&["--at"][..], "--at needs a distance in meters"),
        (&["--at", "far"][..], "invalid distance"),
        (&["--at", "-1"][..], "--at must be finite and nonnegative"),
        (&["--at", "inf"][..], "--at must be finite and nonnegative"),
        (&["--at", "NaN"][..], "--at must be finite and nonnegative"),
        (&["--at", "1e39"][..], "--at must be finite and nonnegative"),
        (&["--frames", "0", "--at", "-1"][..], "--frames must be positive"),
        (&["--at", "-1", "--bogus"][..], "Unknown option: --bogus. Use --help."),
        (&["-x"][..], "Unknown option: -x. Use --help."),
        (&["-"][..], "Unknown option: -. Use --help."),
    ] {
        assert_eq!(run(args).unwrap_err(), expected, "{args:?}");
    }
}

#[test]
fn unsigned_numbers() {
    assert_eq!(parse_u64(&chars("18446744073709551615")), Some(u64::MAX));
    assert_eq!(parse_u64(&chars("007")), Some(7));
    assert_eq!(parse_u64(&chars("+")), None);
    assert_eq!(parse_u64(&chars("-0")), None);
    assert_eq!(parse_u64(&chars("")), None);
    assert_eq!(parse_u64(&chars(" 1")), None);
}

#[test]
fn float_literals_follow_the_parse_grammar() {
    for text in ["600", "-1", "+2.5", ".5", "5.", "1e3", "1E-3", "2.5e+7", "inf", "-Infinity", "NaN", "1e39"] {
        assert!(float_literal(&chars(text)), "{text}");
        assert!(text.parse::<f32>().is_ok(), "{text}");
    }
    for text in ["", ".", "e5", "1e", "1e+", "1.2.3", "infinit", " 1", "1 ", "0x10", "--1", "1f"] {
        assert!(!float_literal(&chars(text)), "{text}");
        assert!(text.parse::<f32>().is_err(), "{text}");
    }
}

#[test]
fn preview_distances_in_range_are_kept() {
    for text in ["0", "-0", "600", "1e-50", "-1e-50", "3.4e38"] {
        let o = run(&["--at", text]).unwrap();
        assert_eq!(o.at.as_deref(), Some(text));
    }
    let o = run(&["--at", "-1", "--at", "5"]).unwrap();
    assert_eq!(o.at.as_deref(), Some("5"));
    assert!(matches!(finish_options(Invocation::Help, false), Ok(Invocation::Help)));
}

#[test]
fn demo_drives_every_course() {
    let o = run(&["--demo"]).unwrap();
    assert!(o.demo && o.autodrive);
    assert_eq!(o.path, "tracks/alpine.track");
    let o = run(&["--demo", "--track", "my.track", "--frames", "600"]).unwrap();
    assert!(o.demo);
    assert_eq!(o.path, "my.track");
    assert_eq!(o.frames, Some(600));
}
