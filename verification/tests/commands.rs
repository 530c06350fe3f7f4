use stt_pipeline::{
    calc_segments, complete_config, create_dir_vec, decimal_string, ffmpeg_selected, json_dir,
    order_by_start, pad6, segment_command, segment_output_file, split_audio_command, stt_args,
    stt_file_path, stt_steps, wav_segment_dir, waveform_args, waveform_path, waveform_step,
    youtube_dl_args, AppPaths, AppState, Args, Config, SttSteps, WaveformStep,
};

fn config() -> Config {
    let loaded = Config {
        files_dir: "./files".to_string(),
        model_path: "./models/m.tflite".to_string(),
        model_url: String::new(),
        scorer_path: "./models/s.scorer".to_string(),
        scorer_url: String::new(),
        output_dir: "./output".to_string(),
        s3_bucket: "bucket".to_string(),
        audio_src: "https://media.grc.com/sn/sn-904.mp3".to_string(),
        shortname: String::new(),
        local_file: String::new(),
        wavs_dir: String::new(),
        ep_output_dir: String::new(),
        wav_chunk_size: 600,
    };
    complete_config(&Args::default(), loaded)
}

fn strings(v: &[&str]) -> Vec<String> {
    v.iter().map(|s| s.to_string()).collect()
}

#[test]
fn decimal_matches_display() {
    for n in [0, 7, 10, 99, 600, 123456, 1000000, -1, -600, i32::MAX, i32::MIN] {
        assert_eq!(decimal_string(n), n.to_string());
        assert_eq!(pad6(n), format!("{:0>6}", n));
    }
    assert_eq!(pad6(600), "000600");
    assert_eq!(pad6(-5), "0000-5");
    assert_eq!(pad6(1234567), "1234567");
}

#[test]
fn padded_bounds_sort_like_numbers() {
    let values = [0, 5, 600, 1200, 9999, 10000, 99999, 100000, 999999];
    for a in values {
        for b in values {
            assert_eq!(pad6(a) < pad6(b), a < b);
        }
    }
}

#[test]
fn segments_cover_the_audio() {
    let s = calc_segments(4, 600);
    assert_eq!(s, vec![(0, 600), (600, 1200), (1200, 1800), (1800, 2400)]);
    assert_eq!(calc_segments(0, 600), vec![]);
    assert_eq!(calc_segments(-3, 600), vec![]);
    assert_eq!(calc_segments(2, -10), vec![(0, -10), (-10, -20)]);
    for w in s.windows(2) {
        assert_eq!(w[0].1, w[1].0);
    }
}

#[test]
fn segment_file_and_command() {
    let c = config();
    assert_eq!(segment_output_file(&c, 600, 1200), "./output/wav/000600-001200_sn-904.wav");
    assert_eq!(
        segment_command(&c, 600, 1200),
        "ffmpeg -i ./files/sn-904.mp3 -ss 600 -to 1200 -ar 16000 -ac 1 -acodec pcm_s16le -f wav ./output/wav/000600-001200_sn-904.wav"
    );
}

#[test]
fn split_command() {
    assert_eq!(
        split_audio_command("in.mp3", "out"),
        "ffmpeg -i in.mp3 -f segment -segment_time 600 -c copy out/%03d.wav"
    );
}

#[test]
fn output_paths() {
    let c = config();
    assert_eq!(stt_file_path(&c), "./output/json/sn-904.stt.json");
    assert_eq!(waveform_path(&c), "./output/json/sn-904.waveform.json");
    assert_eq!(json_dir(&c), "./output/json");
    assert_eq!(wav_segment_dir(&c), "./output/wav/sn-904");
    assert!(stt_file_path(&c).starts_with(&format!("{}/", json_dir(&c))));
}

#[test]
fn command_arguments() {
    let c = config();
    assert_eq!(
        stt_args(&c, "a.wav"),
        strings(&["--model", "./models/m.tflite", "--scorer", "./models/s.scorer", "--audio", "a.wav", "--json"])
    );
    assert_eq!(
        waveform_args(&c),
        strings(&["-i", "./files/sn-904.mp3", "-o", "./output/json/sn-904.waveform.json", "-b", "8"])
    );
}

fn args(only: &[&str], upload: &[&str]) -> Args {
    Args { src: None, only: strings(only), upload: strings(upload), out: String::new() }
}

#[test]
fn ffmpeg_selection() {
    assert!(ffmpeg_selected(&args(&[], &[])));
    assert!(ffmpeg_selected(&args(&["ffmpeg"], &[])));
    assert!(!ffmpeg_selected(&args(&["stt"], &[])));
    assert!(ffmpeg_selected(&args(&[], &["stt"])));
}

#[test]
fn stt_selection() {
    assert_eq!(stt_steps(&args(&[], &[])), SttSteps { transcribe: true, upload: true });
    assert_eq!(stt_steps(&args(&["stt"], &[])), SttSteps { transcribe: true, upload: false });
    assert_eq!(stt_steps(&args(&[], &["stt"])), SttSteps { transcribe: false, upload: true });
    assert_eq!(stt_steps(&args(&["stt"], &["stt"])), SttSteps { transcribe: false, upload: false });
    assert_eq!(stt_steps(&args(&["ffmpeg"], &[])), SttSteps { transcribe: false, upload: false });
}

#[test]
fn waveform_selection() {
    assert_eq!(waveform_step(&args(&[], &[])), WaveformStep::Generate);
    assert_eq!(waveform_step(&args(&["waveform"], &[])), WaveformStep::Generate);
    assert_eq!(waveform_step(&args(&[], &["waveform"])), WaveformStep::Upload);
    assert_eq!(waveform_step(&args(&["waveform"], &["waveform"])), WaveformStep::Skip);
    assert_eq!(waveform_step(&args(&["stt"], &[])), WaveformStep::Skip);
}

#[test]
fn stable_order_by_start() {
    let keys = vec![30, 10, 20, 10, 0, 30];
    assert_eq!(order_by_start(&keys), vec![4, 1, 3, 2, 0, 5]);
    assert_eq!(order_by_start(&vec![]), Vec::<usize>::new());
    assert_eq!(order_by_start(&vec![5, 5, 5]), vec![0, 1, 2]);
    assert_eq!(order_by_start(&vec![3, 2, 1]), vec![2, 1, 0]);
}

#[test]
fn app_state_paths() {
    let state = AppState::new("https://www.youtube.com/watch?v=xZIsuR6VVKE");
    assert_eq!(state.url, "https://www.youtube.com/watch?v=xZIsuR6VVKE");
    assert_eq!(state.paths.root_path, "files/audio");
    assert_eq!(state.paths.tmp_path, "files/audio/tmp");
    assert_eq!(state.paths.data_path, "files/audio/data");
}

#[test]
fn dir_names_are_json_literals_in_key_order() {
    let state = AppState::new("u");
    assert_eq!(
        create_dir_vec((*state).clone()),
        strings(&["\"files/audio/data\"", "\"files/audio\"", "\"files/audio/tmp\""])
    );
}

#[test]
fn dir_names_escape_special_characters() {
    let state = AppState {
        url: String::new(),
        paths: AppPaths {
            root_path: "a\"b\\c".to_string(),
            tmp_path: "t\n\t\u{1}\u{1f}\u{7f}é".to_string(),
            data_path: "d\u{8}\u{c}\r".to_string(),
        },
    };
    assert_eq!(
        create_dir_vec(state),
        strings(&["\"d\\b\\f\\r\"", "\"a\\\"b\\\\c\"", "\"t\\n\\t\\u0001\\u001f\u{7f}é\""])
    );
}

#[test]
fn youtube_arguments() {
    let state = AppState::new("https://www.youtube.com/watch?v=xZIsuR6VVKE");
    assert_eq!(
        youtube_dl_args(&state),
        strings(&[
            "yt-dlp",
            "-x",
            "--audio-format",
            "wav",
            "--restrict-filenames",
            "--sub-lang",
            "en",
            "--sub-format",
            "json3",
            "--output",
            "files/audio/tmp/%(title)s.%(ext)s",
            "--write-auto-sub",
            "https://www.youtube.com/watch?v=xZIsuR6VVKE",
        ])
    );
}
