use riggen_app::cli::{flags, help, help_with, parse, parse_args, version, version_of, CliError, ExportArgs, Format, Invocation, OpenArgs, USAGE, VERSION};
use riggen_app::example::Example;

fn args(list: &[&str]) -> Vec<String> {
    list.iter().map(|s| s.to_string()).collect()
}

#[test]
fn parse_recognises_the_export_form_and_leaves_files_alone() {
    assert_eq!(
        parse(&args(&["a.stl", "b.riggen"])).unwrap(),
        Invocation::Open(OpenArgs {
            files: vec!["a.stl".into(), "b.riggen".into()],
            example: None,
            timing: false,
        })
    );
    assert_eq!(parse(&args(&[])).unwrap(), Invocation::Open(OpenArgs::default()));
    let parsed = parse(&args(&["--export", "mjcf", "--out", "target/x", "r.riggen"])).unwrap();
    assert_eq!(
        parsed,
        Invocation::Export(ExportArgs {
            format: Format::MJCF,
            out: "target/x".into(),
            input: "r.riggen".into(),
            fk_samples: false,
        })
    );
    // Order does not matter.
    let Invocation::Export(parsed) =
        parse(&args(&["r.riggen", "--fk-samples", "--out", "o", "--export", "both"])).unwrap()
    else {
        panic!("export form")
    };
    assert_eq!(parsed.format, Format::BOTH);
    assert!(parsed.fk_samples);

    for (spelling, expected) in [
        ("mjcf", Format::MJCF),
        ("urdf", Format::URDF),
        ("sdf", Format::SDF),
        ("both", Format::BOTH),
        ("all", Format::ALL),
    ] {
        assert!(Format::NAMES.contains(&spelling));
        let Invocation::Export(parsed) = parse(&args(&["--export", spelling, "--out", "o", "r"])).unwrap()
        else {
            panic!("export form")
        };
        assert_eq!(parsed.format, expected, "--export {spelling}");
        // The set is named back with the same word.
        assert_eq!(expected.name(), spelling);
    }
    // The unknown one lists them all.
    let err = parse(&args(&["--export", "usd", "--out", "o", "r"])).unwrap_err();
    assert!(err.contains("mjcf, urdf, sdf, both, all"), "{err}");
}

#[test]
fn parse_accepts_every_flag_in_its_long_and_short_form() {
    assert_eq!(parse(&args(&["--help"])).unwrap(), Invocation::Help);
    assert_eq!(parse(&args(&["-h"])).unwrap(), Invocation::Help);
    assert_eq!(parse(&args(&["--version"])).unwrap(), Invocation::Version);
    assert_eq!(parse(&args(&["-V"])).unwrap(), Invocation::Version);
    // Help wins over everything else, wherever it is.
    assert_eq!(parse(&args(&["--export", "mjcf", "--help"])).unwrap(), Invocation::Help);
    assert_eq!(
        parse(&args(&["--example", "arm", "extra.stl"])).unwrap(),
        Invocation::Open(OpenArgs {
            files: vec!["extra.stl".into()],
            example: Some(Example::Arm),
            timing: false,
        })
    );
    assert_eq!(
        parse(&args(&["--timing"])).unwrap(),
        Invocation::Open(OpenArgs { files: vec![], example: None, timing: true })
    );
    for flag in flags() {
        let line: Vec<&str> = match (flag.long, flag.value) {
            ("--example", _) => vec!["--example", "arm"],
            ("--export", _) => vec!["--export", "mjcf", "--out", "o", "r"],
            ("--out", _) => vec!["--export", "urdf", "--out", "o", "r"],
            ("--fk-samples", _) => vec!["--export", "both", "--out", "o", "r", "--fk-samples"],
            (long, None) => vec![long],
            (long, Some(_)) => panic!("no test line for the new value flag {long}"),
        };
        parse(&args(&line)).unwrap_or_else(|e| panic!("{line:?}: {e}"));
        if let Some(short) = flag.short {
            parse(&args(&[short])).unwrap_or_else(|e| panic!("{short}: {e}"));
        }
    }
}

#[test]
fn help_lists_every_flag() {
    let help = help();
    for flag in flags() {
        assert!(help.contains(flag.long), "{} missing from:\n{help}", flag.long);
        if let Some(short) = flag.short {
            assert!(help.contains(short), "{short} missing from:\n{help}");
        }
        assert!(help.contains(flag.doc), "{:?} missing from:\n{help}", flag.doc);
    }
    assert!(help.starts_with("riggen "), "{help}");
    assert!(help.contains("usage:"), "{help}");
    for name in Example::NAMES {
        assert!(help.contains(name), "example {name} missing from:\n{help}");
    }
    let spelling = Format::NAMES.join("|");
    for text in [&help, &USAGE.to_owned()] {
        assert!(text.contains(&format!("--export {spelling}")), "{spelling:?} missing from:\n{text}");
    }
}

#[test]
fn version_has_the_crate_version_hash_and_date() {
    let v = version();
    assert!(v.starts_with(&format!("riggen {} (", VERSION)), "{v}");
    assert_eq!(VERSION, "0.1.0");
    assert!(v.ends_with(')'), "{v}");
    let inner = &v[v.find('(').unwrap() + 1..v.len() - 1];
    let (hash, date) = inner.split_once(' ').expect("hash and date");
    let hash_ok = hash == "unknown"
        || hash.trim_end_matches("-dirty").chars().all(|c| c.is_ascii_hexdigit());
    assert!(hash_ok, "{v}");
    assert!(date == "unknown" || date.len() == 10, "{v}");
}

#[test]
fn parse_reports_each_mistake_with_the_usage() {
    for bad in [
        vec!["--export"],
        vec!["--export", "usd", "--out", "o", "r"],
        vec!["--export", "mjcf", "r"],
        vec!["--export", "mjcf", "--out", "o"],
        vec!["--export", "mjcf", "--out", "o", "r", "s"],
        vec!["--export", "mjcf", "--out", "o", "r", "--bogus"],
        vec!["--out", "o", "r"],
        vec!["--fk-samples"],
        vec!["--example"],
        vec!["--example", "spaceship"],
        vec!["--example", "arm", "--export", "mjcf", "--out", "o", "r"],
        vec!["--timing", "--export", "mjcf", "--out", "o", "r"],
        vec!["-x"],
    ] {
        let err = parse(&args(&bad)).unwrap_err();
        assert!(err.contains("usage:"), "{bad:?}: {err}");
    }
    // A lone `-` is a file name, as everywhere.
    assert!(matches!(parse(&args(&["-"])).unwrap(), Invocation::Open(_)));
}

#[test]
fn each_refusal_names_its_mistake() {
    let cases: Vec<(Vec<&str>, CliError)> = vec![
        (vec!["--export"], CliError::ExportExpects(None)),
        (vec!["--export", "usd"], CliError::ExportExpects(Some("usd".into()))),
        (vec!["--out"], CliError::OutExpectsDirectory),
        (vec!["--example", "spaceship"], CliError::ExampleExpects(Some("spaceship".into()))),
        (vec!["--example"], CliError::ExampleExpects(None)),
        (vec!["--bogus"], CliError::UnknownFlag("--bogus".into())),
        (vec!["--out", "o", "r"], CliError::ExportFlagsWithoutExport),
        (vec!["--timing", "--export", "mjcf", "--out", "o", "r"], CliError::WindowFlagsWithExport),
        (vec!["--export", "mjcf", "--out", "o"], CliError::InputRequired),
        (vec!["--export", "mjcf", "--out", "o", "r", "s"], CliError::OneInputOnly),
        (vec!["--export", "mjcf", "r"], CliError::OutRequired),
    ];
    for (line, expected) in cases {
        assert_eq!(parse_args(&args(&line)).unwrap_err(), expected, "{line:?}");
    }
}

#[test]
fn refusal_messages_read_as_before() {
    let err = parse(&args(&["--export", "usd", "--out", "o", "r"])).unwrap_err();
    assert_eq!(
        err,
        format!("--export expects one of mjcf, urdf, sdf, both, all, got Some(\"usd\")\n{USAGE}")
    );
    let err = parse(&args(&["--export"])).unwrap_err();
    assert_eq!(err, format!("--export expects one of mjcf, urdf, sdf, both, all, got None\n{USAGE}"));
    let err = parse(&args(&["--example", "spaceship"])).unwrap_err();
    assert_eq!(err, format!("--example expects one of arm, got Some(\"spaceship\")\n{USAGE}"));
    let err = parse(&args(&["--bogus"])).unwrap_err();
    assert_eq!(err, format!("unknown flag --bogus\n{USAGE}"));
    assert!(err.starts_with("unknown flag --bogus"));
    assert_eq!(parse(&args(&["--out", "o", "r"])).unwrap_err(), format!("--out and --fk-samples need --export\n{USAGE}"));
    assert_eq!(parse(&args(&["--export", "mjcf", "--out", "o"])).unwrap_err(), format!("INPUT is required\n{USAGE}"));
    assert_eq!(parse(&args(&["--export", "mjcf", "r"])).unwrap_err(), format!("--out is required\n{USAGE}"));
}

#[test]
fn help_is_the_version_then_usage_then_one_line_per_flag() {
    let help = help();
    assert!(help.starts_with(&format!("{}\n", version())));
    assert!(help.contains(&format!("  {:<22}  print this help\n", "-h, --help")), "{help}");
    assert!(help.contains(&format!("  {:<22}  open a bundled example", "--example NAME")), "{help}");
    assert!(
        help.ends_with(&format!("  {:<22}  print the version and the git commit it was built from\n", "-V, --version")),
        "{help}"
    );
    assert_eq!(help.matches('\n').count(), 10 + flags().len());
}

#[test]
fn a_value_flag_takes_whatever_follows_it() {
    // `--out --help`: the directory is called `--help`, so no help.
    let parsed = parse(&args(&["--export", "sdf", "--out", "--help", "in.urdf"])).unwrap();
    assert_eq!(
        parsed,
        Invocation::Export(ExportArgs {
            format: Format::SDF,
            out: "--help".into(),
            input: "in.urdf".into(),
            fk_samples: false,
        })
    );
    assert_eq!(parse(&args(&["--export", "--help"])).unwrap_err(), format!("--export expects one of mjcf, urdf, sdf, both, all, got Some(\"--help\")\n{USAGE}"));
}

#[test]
fn help_and_version_win_wherever_they_stand() {
    assert_eq!(parse(&args(&["--bogus", "--help"])).unwrap(), Invocation::Help);
    assert_eq!(parse(&args(&["--export", "usd", "-h"])).unwrap(), Invocation::Help);
    assert_eq!(parse(&args(&["--example", "spaceship", "--version"])).unwrap(), Invocation::Version);
    assert_eq!(parse(&args(&["a.stl", "-V", "--help"])).unwrap(), Invocation::Version);
    assert_eq!(parse(&args(&["--out"])).unwrap_err(), format!("--out expects a directory\n{USAGE}"));
    // As a flag's value, `--help` is a name, not a question.
    assert_eq!(
        parse(&args(&["--example", "--help"])).unwrap_err(),
        format!("--example expects one of arm, got Some(\"--help\")\n{USAGE}")
    );
}

#[test]
fn the_order_of_flags_does_not_matter() {
    let expected = Invocation::Export(ExportArgs {
        format: Format::BOTH,
        out: "o".into(),
        input: "r.riggen".into(),
        fk_samples: true,
    });
    assert_eq!(parse(&args(&["r.riggen", "--fk-samples", "--out", "o", "--export", "both"])).unwrap(), expected);
    assert_eq!(parse(&args(&["--export", "both", "--out", "o", "--fk-samples", "r.riggen"])).unwrap(), expected);
    assert_eq!(parse(&args(&["--out", "o", "r.riggen", "--export", "both", "--fk-samples"])).unwrap(), expected);
}

#[test]
fn a_stamped_build_reports_its_hash_and_date() {
    let v = version_of("2b60ae4", "2026-08-29");
    assert_eq!(v, format!("riggen {VERSION} (2b60ae4 2026-08-29)"));
    assert_eq!(version(), version_of("unknown", "unknown"));
    assert!(help_with(&v).starts_with(&format!("{v}\n")));
    assert_eq!(help(), help_with(&version()));
}
