use focus::cli::{
    clone_spec, expand_tilde, filter_empty_strings, run_subcommand, CliError, CloneSpec, Command,
    CommaSeparatedStrings, Subcommand,
};
use focus::status::{describe_relative, relative_time, CommitTime};

fn s(x: &str) -> String {
    x.to_string()
}

#[test]
fn splits_on_commas() {
    assert_eq!(CommaSeparatedStrings::from_str("a,b,,c").0, vec![s("a"), s("b"), s(""), s("c")]);
    assert_eq!(CommaSeparatedStrings::from_str("").0, vec![s("")]);
    assert_eq!(CommaSeparatedStrings::from_str("x,").0, vec![s("x"), s("")]);
}

#[test]
fn filters_empty_strings() {
    assert_eq!(filter_empty_strings(vec![s(""), s("a"), s(""), s("b")]), vec![s("a"), s("b")]);
    assert!(filter_empty_strings(vec![s("")]).is_empty());
}

#[test]
fn expands_tilde() {
    let home = Some(s("/home/u"));
    assert_eq!(expand_tilde("~", home.clone()), Ok(s("/home/u")));
    assert_eq!(expand_tilde("~/src", home.clone()), Ok(s("/home/u/src")));
    assert_eq!(expand_tilde("~/src", Some(s("/home/u/"))), Ok(s("/home/u/src")));
    assert_eq!(expand_tilde("~/src", Some(s("/"))), Ok(s("/src")));
    assert_eq!(expand_tilde("/abs/~", home.clone()), Ok(s("/abs/~")));
    assert_eq!(expand_tilde("~other", home), Ok(s("~other")));
    assert_eq!(expand_tilde("~", None), Err(CliError::NoHomeDirectory));
    assert_eq!(expand_tilde("~/x", None), Err(CliError::TildeExpansionFailed));
}

#[test]
fn clone_needs_exactly_one_kind() {
    assert!(matches!(clone_spec(vec![s("")], vec![s("")]), Err(CliError::LayersOrCoordinates)));
    assert!(matches!(clone_spec(vec![s("a")], vec![s("b")]), Err(CliError::LayersOrCoordinates)));
    match clone_spec(vec![s(""), s("web")], vec![s("")]) {
        Ok(CloneSpec::Layers(v)) => assert_eq!(v, vec![s("web")]),
        other => panic!("unexpected {:?}", other),
    }
    match clone_spec(vec![], vec![s("//a:b")]) {
        Ok(CloneSpec::Coordinates(v)) => assert_eq!(v, vec![s("//a:b")]),
        other => panic!("unexpected {:?}", other),
    }
}

#[test]
fn prepares_subcommands() {
    let home = Some(s("/home/u"));
    match run_subcommand(Subcommand::Sync { sparse_repo: s("~/repo") }, home.clone()) {
        Ok(Command::Sync { sparse_repo }) => assert_eq!(sparse_repo, s("/home/u/repo")),
        other => panic!("unexpected {:?}", other),
    }
    let clone = Subcommand::Clone {
        dense_repo: s("~/dense"),
        sparse_repo: s("/tmp/sparse"),
        branch: s("main"),
        coordinates: CommaSeparatedStrings::from_str(""),
        layers: CommaSeparatedStrings::from_str("web,api"),
    };
    match run_subcommand(clone, home.clone()) {
        Ok(Command::Clone { dense_repo, sparse_repo, branch, spec: CloneSpec::Layers(l) }) => {
            assert_eq!(dense_repo, s("/home/u/dense"));
            assert_eq!(sparse_repo, s("/tmp/sparse"));
            assert_eq!(branch, s("main"));
            assert_eq!(l, vec![s("web"), s("api")]);
        }
        other => panic!("unexpected {:?}", other),
    }
    assert!(matches!(
        run_subcommand(Subcommand::PopLayer { repo: s("~"), count: 1 }, None),
        Err(CliError::NoHomeDirectory)
    ));
}

#[test]
fn relative_time_phrases() {
    let t = |secs: i64| CommitTime { seconds: secs, offset_minutes: 0 };
    assert_eq!(relative_time(t(1000), t(4600)), s("1h newer than"));
    assert_eq!(relative_time(t(1125), t(1000)), s("2m 5s older than"));
    assert_eq!(relative_time(t(1000), t(1000)), s("the same as"));
    assert_eq!(describe_relative(t(0), t(1), "1s"), s("1s newer than"));
}
