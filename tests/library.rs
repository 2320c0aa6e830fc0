use llamaloganalyzer_mlx::cli::app::{CliArgs, CliCommand, OutputFormat};
use llamaloganalyzer_mlx::cli::tui::{DisplayMode, Key, TuiState};
use llamaloganalyzer_mlx::ml::{init, MlSupport};
use llamaloganalyzer_mlx::utils::time::{format_duration, time_difference, Timestamp};
use llamaloganalyzer_mlx::VERSION;

#[test]
fn test_version() {
    assert_eq!(VERSION, "2.0.0");
}

#[test]
fn durations_are_written_for_people() {
    assert_eq!(format_duration(45), "45 seconds");
    assert_eq!(format_duration(0), "0 seconds");
    assert_eq!(format_duration(-5), "-5 seconds");
    assert_eq!(format_duration(60), "1m 0s");
    assert_eq!(format_duration(150), "2m 30s");
    assert_eq!(format_duration(3725), "1h 2m 5s");
    assert_eq!(format_duration(90061), "25h 1m 1s");
}

#[test]
fn time_difference_between_instants() {
    let a = Timestamp { seconds: 1_000 };
    let b = Timestamp { seconds: 4_725 };
    assert_eq!(time_difference(a, b), "1h 2m 5s");
}

#[test]
fn ml_support_follows_the_probe() {
    assert_eq!(init(false, true), MlSupport::NoPython);
    assert_eq!(init(true, false), MlSupport::Fallback);
    assert_eq!(init(true, true), MlSupport::Accelerated);
}

#[test]
fn command_line_decisions() {
    let args = CliArgs { file: Some("app.log".to_string()), interactive: true, output: "csv".to_string() };
    match args.command() {
        CliCommand::Analyze { file, format } => {
            assert_eq!(file, "app.log");
            assert_eq!(format, OutputFormat::Csv);
        }
        _ => panic!("expected an analysis"),
    }
    let args = CliArgs { file: None, interactive: true, output: "text".to_string() };
    assert!(matches!(args.command(), CliCommand::Interactive));
    let args = CliArgs { file: None, interactive: false, output: "text".to_string() };
    assert!(matches!(args.command(), CliCommand::Usage));
    assert_eq!(OutputFormat::from_name(&"json".to_string()), OutputFormat::Json);
    assert_eq!(OutputFormat::from_name(&"JSON".to_string()), OutputFormat::Text);
}

#[test]
fn dashboard_keys() {
    let mut s = TuiState::new();
    s.handle_key(Key::Tab, 30);
    assert_eq!(s.mode, DisplayMode::LogViewer);
    for _ in 0..12 {
        s.handle_key(Key::Down, 30);
    }
    assert_eq!(s.selected_log_index, 12);
    assert_eq!(s.scroll_offset, 3);
    s.handle_key(Key::Up, 30);
    assert_eq!(s.selected_log_index, 11);
    for _ in 0..20 {
        s.handle_key(Key::Up, 30);
    }
    assert_eq!(s.selected_log_index, 0);
    assert_eq!(s.scroll_offset, 0);
    s.handle_key(Key::Char('3'), 30);
    assert_eq!(s.mode, DisplayMode::Analysis);
    s.handle_key(Key::Down, 30);
    assert_eq!(s.selected_log_index, 0);
    s.handle_key(Key::Char('q'), 30);
    assert!(!s.running);
}

#[test]
fn log_viewer_with_no_entries_stays_put() {
    let mut s = TuiState::new();
    s.handle_key(Key::Char('2'), 0);
    s.handle_key(Key::Down, 0);
    assert_eq!(s.selected_log_index, 0);
    s.handle_key(Key::Down, 1);
    assert_eq!(s.selected_log_index, 0);
}
