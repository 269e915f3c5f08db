use landingbench::cli::{default_config_path, usage, CliArgs, CliExit};
use landingbench::run::{first_stage, max_in_flight, next_stage, Event, Stage};

fn args(texts: &[&str]) -> Vec<String> {
    texts.iter().map(|t| t.to_string()).collect()
}

fn exit(texts: &[&str]) -> CliExit {
    CliArgs::parse(&args(texts)).err().unwrap()
}

fn path(texts: &[&str]) -> String {
    CliArgs::parse(&args(texts)).ok().unwrap().path().to_string()
}

#[test]
fn undisturbed_run_starts_every_round() {
    for rounds in 0..5usize {
        let mut stage = first_stage(rounds);
        let mut sent = 0;
        let mut steps = 0;
        let mut grace = 0;
        while stage != Stage::Stop {
            if matches!(stage, Stage::Send { .. }) {
                sent += 1;
            }
            if stage == Stage::Grace {
                grace += 1;
            }
            stage = next_stage(stage, Event::Done);
            steps += 1;
        }
        assert_eq!(sent, rounds);
        assert_eq!(grace, 1);
        assert_eq!(steps, 4 * rounds + 2);
    }
}

#[test]
fn shutdown_stops_the_run_without_grace() {
    assert_eq!(next_stage(Stage::Check { left: 3 }, Event::Shutdown), Stage::Stop);
    assert_eq!(next_stage(Stage::Check { left: 0 }, Event::Shutdown), Stage::Stop);
    assert_eq!(next_stage(Stage::Check { left: 0 }, Event::Done), Stage::Grace);
    assert_eq!(next_stage(Stage::Check { left: 3 }, Event::Done), Stage::Fetch { left: 2 });
}

#[test]
fn missing_nonce_ends_the_run() {
    assert_eq!(next_stage(Stage::Fetch { left: 2 }, Event::Failure), Stage::Abort);
    assert_eq!(next_stage(Stage::Fetch { left: 2 }, Event::Done), Stage::Send { left: 2 });
    assert_eq!(next_stage(Stage::Abort, Event::Done), Stage::Abort);
}

#[test]
fn all_sends_of_a_round_may_be_under_way() {
    assert_eq!(max_in_flight(0), 1);
    assert_eq!(max_in_flight(1), 1);
    assert_eq!(max_in_flight(7), 7);
}

#[test]
fn command_line_names_the_configuration() {
    assert_eq!(path(&[]), "config.toml");
    assert_eq!(default_config_path(), "config.toml");
    assert_eq!(path(&["--config", "a.toml"]), "a.toml");
    assert_eq!(path(&["--config", "a.toml", "--config", "b.toml"]), "b.toml");
    assert_eq!(path(&["--config", "--help"]), "--help");
}

#[test]
fn command_line_asks_for_help() {
    for texts in [&["--help"][..], &["-h"][..], &["--config", "x", "-h", "?"][..]] {
        let exit = exit(texts);
        assert!(matches!(exit, CliExit::Help));
        assert_eq!(exit.code(), 0);
        assert_eq!(exit.complaint(), None);
    }
    assert_eq!(usage(), "Usage: landingbench [--config <PATH>]");
}

#[test]
fn command_line_lacks_a_value() {
    let exit = exit(&["--config"]);
    assert_eq!(exit.code(), 1);
    assert_eq!(exit.complaint(), Some("Missing value for --config".to_string()));
}

#[test]
fn command_line_holds_something_unknown() {
    let exit = exit(&["--config", "x", "nonsense", "--help"]);
    assert_eq!(exit.code(), 1);
    assert_eq!(exit.complaint(), Some("Unknown argument: nonsense".to_string()));
}

#[test]
fn first_argument_that_starts_no_pair_decides() {
    assert!(matches!(exit(&["--config", "a", "--help", "--config"]), CliExit::Help));
    assert!(matches!(exit(&["--config", "a", "--config"]), CliExit::MissingValue));
    assert!(matches!(exit(&["x", "--help"]), CliExit::Unknown { .. }));
    assert_eq!(path(&["--config", "--config", "--config", "b"]), "b");
}
