use asak::cli::{effective_buffer_size, wav_output_name, Cli, Commands, MonitorArgs, PlayArgs, RecArgs};
use asak::config::{wav_spec_from_config, SampleFormat, SessionState, StreamConfig};
use asak::playback::{file_duration_ms, playback_finished, preview_samples, progress_percent};

#[test]
fn buffer_size_defaults_to_1024() {
    assert_eq!(effective_buffer_size(None), 1024);
    assert_eq!(effective_buffer_size(Some(256)), 256);
}

#[test]
fn output_name_always_ends_in_wav_once() {
    let shape = |s: &str| {
        let out = wav_output_name(&s.as_bytes().to_vec());
        String::from_utf8(out).unwrap()
    };
    assert_eq!(shape("take1"), "take1.wav");
    assert_eq!(shape("take1.wav"), "take1.wav");
    assert_eq!(shape("a.wav.wav"), "a.wav");
    assert_eq!(shape(""), ".wav");
    assert_eq!(shape(".wav"), ".wav");
    assert_eq!(shape("x.wavy"), "xy.wav");
}

#[test]
fn wav_parameters_follow_the_configuration() {
    let cases = [
        (SampleFormat::Int8, 8, false),
        (SampleFormat::Int16, 16, false),
        (SampleFormat::Int24, 24, false),
        (SampleFormat::Int32, 32, false),
        (SampleFormat::Float32, 32, true),
    ];
    for (format, bits, float_format) in cases {
        let cfg = StreamConfig { channels: 2, sample_rate: 44_100, format };
        let spec = wav_spec_from_config(&cfg);
        assert_eq!(spec.channels, 2);
        assert_eq!(spec.sample_rate, 44_100);
        assert_eq!(spec.bits_per_sample, bits);
        assert_eq!(spec.float_format, float_format);
    }
}

#[test]
fn duration_and_termination() {
    assert_eq!(file_duration_ms(96_000, 48_000), 2_000);
    assert_eq!(file_duration_ms(0, 48_000), 0);
    assert_eq!(file_duration_ms(44_100, 44_100), 1_000);
    assert!(!playback_finished(1_999, 2_000));
    assert!(playback_finished(2_000, 2_000));
    assert!(playback_finished(2_001, 2_000));
}

#[test]
fn progress_saturates_at_one_hundred() {
    assert_eq!(progress_percent(0, 2_000), 0);
    assert_eq!(progress_percent(1_000, 2_000), 50);
    assert_eq!(progress_percent(2_000, 2_000), 100);
    assert_eq!(progress_percent(9_999, 2_000), 100);
}

#[test]
fn preview_picks_evenly_spaced_samples() {
    let channel: Vec<i64> = (0..100).collect();
    let picked = preview_samples(&channel, 10);
    assert_eq!(picked, vec![0, 10, 20, 30, 40, 50, 60, 70, 80, 90]);
    let short = vec![7i64];
    assert_eq!(preview_samples(&short, 4), vec![7, 7, 7, 7]);
}

#[test]
fn command_line_types_carry_their_arguments() {
    let cli = Cli {
        command: Commands::Rec(RecArgs { output: Some(String::from("take1")) }),
        device: Some(3),
        jack: false,
    };
    match &cli.command {
        Commands::Rec(args) => assert_eq!(args.output.as_deref(), Some("take1")),
        _ => panic!("wrong command"),
    }
    let play = Commands::Play(PlayArgs { input: None });
    assert!(matches!(play, Commands::Play(PlayArgs { input: None })));
    let monitor = Commands::Monitor(MonitorArgs { buffer_size: Some(64) });
    match monitor {
        Commands::Monitor(args) => assert_eq!(effective_buffer_size(args.buffer_size), 64),
        _ => panic!("wrong command"),
    }
    assert!(matches!(Commands::List, Commands::List));
}

#[test]
fn session_states_are_distinct() {
    let states = [
        SessionState::Starting,
        SessionState::Active,
        SessionState::Stopping,
        SessionState::Stopped,
    ];
    for (i, a) in states.iter().enumerate() {
        for (j, b) in states.iter().enumerate() {
            assert_eq!(a == b, i == j);
        }
    }
}
