use stall::{
    ColorOption, ColorOptionParseError, CommandOptions, CommonOptions, InvalidFile, MissingFile,
};

fn common(color: ColorOption) -> CommonOptions {
    CommonOptions {
        config: None,
        prefs: Some("prefs.ron".to_string()),
        short_names: true,
        promote_warnings_to_errors: false,
        color,
        verbose: true,
        quiet: false,
        trace: false,
    }
}

fn all_commands(stall: Option<&str>) -> Vec<CommandOptions> {
    let stall = stall.map(|s| s.to_string());
    vec![
        CommandOptions::Init { common: common(ColorOption::Auto), stall: stall.clone(), dry_run: false },
        CommandOptions::Status { common: common(ColorOption::Always), stall: stall.clone() },
        CommandOptions::Add {
            common: common(ColorOption::Never),
            stall: stall.clone(),
            files: vec!["a".to_string()],
            rename: None,
            into: None,
            collect: false,
            dry_run: true,
        },
        CommandOptions::Remove {
            common: common(ColorOption::Auto),
            stall: stall.clone(),
            files: Vec::new(),
            delete: true,
            remote_naming: false,
            dry_run: false,
        },
        CommandOptions::Move {
            common: common(ColorOption::Always),
            stall: stall.clone(),
            from: "a".to_string(),
            to: "b".to_string(),
            move_file: false,
            force: false,
            dry_run: false,
        },
        CommandOptions::Collect {
            common: common(ColorOption::Never),
            stall: stall.clone(),
            files: Vec::new(),
            force: true,
            dry_run: false,
        },
        CommandOptions::Distribute {
            common: common(ColorOption::Auto),
            stall,
            files: Vec::new(),
            force: false,
            dry_run: false,
        },
    ]
}

#[test]
fn only_init_is_init() {
    let flags: Vec<bool> = all_commands(None).iter().map(|c| c.is_init()).collect();
    assert_eq!(flags, vec![true, false, false, false, false, false, false]);
}

#[test]
fn stall_path_of_every_subcommand() {
    for command in all_commands(Some("dir/stall")) {
        assert_eq!(command.stall(), Some("dir/stall"));
    }
    for command in all_commands(None) {
        assert_eq!(command.stall(), None);
    }
}

#[test]
fn common_options_of_every_subcommand() {
    let colors: Vec<ColorOption> = all_commands(None).iter().map(|c| c.common().color).collect();
    assert_eq!(
        colors,
        vec![
            ColorOption::Auto,
            ColorOption::Always,
            ColorOption::Never,
            ColorOption::Auto,
            ColorOption::Always,
            ColorOption::Never,
            ColorOption::Auto,
        ]
    );
    for command in all_commands(None) {
        let common = command.common();
        assert_eq!(common.prefs.as_deref(), Some("prefs.ron"));
        assert_eq!(common.config, None);
        assert!(common.short_names && common.verbose);
        assert!(!common.quiet && !common.trace && !common.promote_warnings_to_errors);
    }
}

#[test]
fn color_option_from_its_name() {
    assert_eq!(ColorOption::parse("auto"), Ok(ColorOption::Auto));
    assert_eq!(ColorOption::parse("always"), Ok(ColorOption::Always));
    assert_eq!(ColorOption::parse("never"), Ok(ColorOption::Never));
    assert_eq!(ColorOption::parse("AUTO"), Ok(ColorOption::Auto));
    assert_eq!(ColorOption::parse("AlWaYs"), Ok(ColorOption::Always));
    assert_eq!(ColorOption::parse("Never"), Ok(ColorOption::Never));
    assert_eq!("nEVER".parse::<ColorOption>(), Ok(ColorOption::Never));
}

#[test]
fn color_option_from_other_words_fails() {
    for word in ["", "aut", "autos", " auto", "auto ", "yes", "alway5", "n\u{e9}ver", "\u{212a}"] {
        assert_eq!(ColorOption::parse(word), Err(ColorOptionParseError), "word {word:?}");
        assert_eq!(word.parse::<ColorOption>(), Err(ColorOptionParseError));
    }
    assert_eq!(ColorOption::parse("`uto"), Err(ColorOptionParseError));
    assert_eq!(ColorOption::parse("[UTO"), Err(ColorOptionParseError));
}

#[test]
fn color_option_parse_agrees_with_eq_ignore_ascii_case() {
    let letters = ['a', 'A', 'u', 'U', 't', 'T', 'o', 'O', '!', '\u{1}', 'z'];
    for a in letters {
        for b in letters {
            for c in letters {
                for d in letters {
                    let word: String = [a, b, c, d].iter().collect();
                    let expected = word.eq_ignore_ascii_case("auto");
                    assert_eq!(ColorOption::parse(&word) == Ok(ColorOption::Auto), expected);
                }
            }
        }
    }
}

#[test]
fn always_and_never_do_not_ask_the_environment() {
    assert!(ColorOption::Always.enabled());
    assert!(!ColorOption::Never.enabled());
    let auto = ColorOption::Auto.enabled();
    assert_eq!(ColorOption::Auto.enabled(), auto);
}

#[test]
fn enabled_when_follows_the_option() {
    assert!(ColorOption::Auto.enabled_when(true));
    assert!(!ColorOption::Auto.enabled_when(false));
    assert!(ColorOption::Always.enabled_when(true));
    assert!(ColorOption::Always.enabled_when(false));
    assert!(!ColorOption::Never.enabled_when(true));
    assert!(!ColorOption::Never.enabled_when(false));
}

#[test]
fn errors_in_words() {
    assert_eq!(InvalidFile.message(), "Invalid file.");
    assert_eq!(MissingFile { path: "a/b.txt".to_string() }.message(), "missing file: a/b.txt.");
    assert_eq!(MissingFile { path: String::new() }.clone().message(), "missing file: .");
    assert_eq!(ColorOptionParseError.message(), "failure to parse ColorOption");
}
