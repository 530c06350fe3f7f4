use std::path::Path;

use stt_pipeline::{
    cleanup_files, complete_config, create_dest_path, file_stem_name, get_filename_from_url,
    get_shortname, get_src_to_use, Args, Config,
};

fn std_file_name(s: &str) -> Option<String> {
    Path::new(s).file_name().map(|f| f.to_str().unwrap().to_string())
}

fn std_shortname(s: &str) -> Option<String> {
    Path::new(s).with_extension("").file_name().map(|f| f.to_str().unwrap().to_string())
}

const SAMPLES: &[&str] = &[
    "",
    "/",
    "//",
    ".",
    "..",
    "./",
    "./.",
    "a",
    "a/",
    "a//",
    "a/.",
    "a/./",
    "a/..",
    "/a",
    "/a/b.mp3",
    "https://media.grc.com/sn/sn-904.mp3",
    "https://www.youtube.com/watch?v=xZIsuR6VVKE",
    "files/episodes/sn0904.mp3",
    "archive.tar.gz",
    ".bashrc",
    "dir/.bashrc",
    "name.",
    "...",
    "..x",
    "a/..x",
    "a/b/..x",
    ".x.y",
    "x.y/",
    "x.y/.",
    "é/ü.wav",
    "a.b.c/d",
    "a/..xy/",
    "x.yz/",
    "x.yz/.",
    "x.y//",
    "a.é/",
    "..x/",
    "d/..x/.",
];

#[test]
fn file_name_agrees_with_std_path() {
    for s in SAMPLES {
        assert_eq!(get_filename_from_url(s), std_file_name(s), "input {:?}", s);
    }
}

#[test]
fn stem_name_agrees_with_std_path() {
    for s in SAMPLES {
        assert_eq!(file_stem_name(s), std_shortname(s), "input {:?}", s);
    }
}

#[test]
fn filename_of_episode_url() {
    assert_eq!(
        get_filename_from_url("https://media.grc.com/sn/sn-904.mp3"),
        Some("sn-904.mp3".to_string())
    );
    assert_eq!(get_filename_from_url("a/.."), None);
    assert_eq!(get_filename_from_url(""), None);
    assert_eq!(get_filename_from_url("a/./"), Some("a".to_string()));
}

#[test]
fn shortname_drops_extension() {
    assert_eq!(get_shortname("https://media.grc.com/sn/sn-904.mp3"), "sn-904");
    assert_eq!(get_shortname("archive.tar.gz"), "archive.tar");
    assert_eq!(get_shortname(".bashrc"), ".bashrc");
    assert_eq!(get_shortname("name."), "name");
    assert_eq!(get_shortname("a/..xy/"), "a");
    assert_eq!(file_stem_name("a/..x"), None);
    assert_eq!(file_stem_name("..x"), None);
    assert_eq!(file_stem_name("..."), None);
}

fn sample_config() -> Config {
    Config {
        files_dir: "./files".to_string(),
        model_path: "./models/m.tflite".to_string(),
        model_url: "https://example.org/m.tflite".to_string(),
        scorer_path: "./models/s.scorer".to_string(),
        scorer_url: "https://example.org/s.scorer".to_string(),
        output_dir: "./output".to_string(),
        s3_bucket: "bucket".to_string(),
        audio_src: "https://media.grc.com/sn/sn-904.mp3".to_string(),
        shortname: String::new(),
        local_file: String::new(),
        wavs_dir: String::new(),
        ep_output_dir: String::new(),
        wav_chunk_size: 600,
    }
}

#[test]
fn src_to_use_prefers_argument() {
    let mut args = Args::default();
    assert_eq!(get_src_to_use(&args, "cfg.mp3"), "cfg.mp3");
    args.src = Some("arg.mp3".to_string());
    assert_eq!(get_src_to_use(&args, "cfg.mp3"), "arg.mp3");
    assert_eq!(get_src_to_use(&args, ""), "arg.mp3");
    args.src = Some(String::new());
    assert_eq!(get_src_to_use(&args, "cfg.mp3"), "");
}

#[test]
fn dest_path_joins_files_dir_and_file_name() {
    let config = sample_config();
    assert_eq!(create_dest_path(&config), "./files/sn-904.mp3");
    // the local copy keeps the file name of the source
    assert_eq!(
        get_filename_from_url(&create_dest_path(&config)),
        get_filename_from_url(&config.audio_src)
    );
}

#[test]
fn completed_config_derives_paths() {
    let args = Args::default();
    let c = complete_config(&args, sample_config());
    assert_eq!(c.audio_src, "https://media.grc.com/sn/sn-904.mp3");
    assert_eq!(c.shortname, "sn-904");
    assert_eq!(c.local_file, "./files/sn-904.mp3");
    assert_eq!(c.wavs_dir, "./output/wav");
    assert_eq!(c.ep_output_dir, "./output/sn-904");
    assert_eq!(c.output_dir, "./output");
    assert_eq!(c.wav_chunk_size, 600);
}

#[test]
fn completed_config_uses_argument_source_for_shortname_only() {
    let mut args = Args::default();
    args.src = Some("local/ep-1.wav".to_string());
    let c = complete_config(&args, sample_config());
    assert_eq!(c.audio_src, "local/ep-1.wav");
    assert_eq!(c.shortname, "ep-1");
    // the local file is still named after the configured source
    assert_eq!(c.local_file, "./files/sn-904.mp3");
    assert_eq!(c.ep_output_dir, "./output/ep-1");
}

#[test]
fn cleanup_lists_episode_then_wavs() {
    let c = complete_config(&Args::default(), sample_config());
    assert_eq!(cleanup_files(&c), vec!["./output/sn-904".to_string(), "./output/wav".to_string()]);
}
