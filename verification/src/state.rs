use vstd::prelude::*;
use vstd::string::StringExecFns;

use std::sync::Arc;

use crate::json::{json_string, json_string_of};
use crate::text::{concat2, views};

verus! {

/// The working directory under which the application keeps its files.
pub const WORKDIR: &'static str = "files/audio";

/// The directories the application works in.
#[derive(Clone, Debug)]
pub struct AppPaths {
    pub root_path: String,
    pub tmp_path: String,
    pub data_path: String,
}

/// The application state: the video URL to process and the directories.
#[derive(Clone, Debug)]
pub struct AppState {
    pub url: String,
    pub paths: AppPaths,
}

impl AppState {
    /// The state for `url`: the working directory as root, with `tmp` and
    /// `data` directories under it.
    pub fn new(url: &str) -> (r: Arc<AppState>)
        ensures
            r.url@ == url@,
            r.paths.root_path@ == WORKDIR@,
            r.paths.tmp_path@ == WORKDIR@ + "/tmp"@,
            r.paths.data_path@ == WORKDIR@ + "/data"@,
    {
        let state = AppState {
            url: url.to_owned(),
            paths: AppPaths {
                root_path: WORKDIR.to_owned(),
                tmp_path: concat2(WORKDIR, "/tmp"),
                data_path: concat2(WORKDIR, "/data"),
            },
        };
        Arc::new(state)
    }
}

/// The names of the directories to create for a state: each path written as
/// a JSON string literal, quotes included, in the order of the field names
/// (`data_path`, `root_path`, `tmp_path`).
pub fn create_dir_vec(state: AppState) -> (r: Vec<String>)
    ensures
        views(r@) == seq![
            json_string(state.paths.data_path@),
            json_string(state.paths.root_path@),
            json_string(state.paths.tmp_path@),
        ],
{
    let data = json_string_of(state.paths.data_path.as_str()).unwrap();
    let root = json_string_of(state.paths.root_path.as_str()).unwrap();
    let tmp = json_string_of(state.paths.tmp_path.as_str()).unwrap();
    let mut r: Vec<String> = Vec::new();
    r.push(data);
    r.push(root);
    r.push(tmp);
    assert(views(r@) =~= seq![
        json_string(state.paths.data_path@),
        json_string(state.paths.root_path@),
        json_string(state.paths.tmp_path@),
    ]);
    r
}

/// The arguments passed to the shell to download the audio of the state's
/// video as wav, with English automatic subtitles as json3, into the tmp
/// directory named by title and extension.
pub fn youtube_dl_args(state: &AppState) -> (r: Vec<String>)
    ensures
        views(r@) == seq![
            "yt-dlp"@,
            "-x"@,
            "--audio-format"@,
            "wav"@,
            "--restrict-filenames"@,
            "--sub-lang"@,
            "en"@,
            "--sub-format"@,
            "json3"@,
            "--output"@,
            state.paths.tmp_path@ + "/%(title)s.%(ext)s"@,
            "--write-auto-sub"@,
            state.url@,
        ],
{
    let output_name = concat2(state.paths.tmp_path.as_str(), "/%(title)s.%(ext)s");
    let mut r: Vec<String> = Vec::new();
    r.push("yt-dlp".to_owned());
    r.push("-x".to_owned());
    r.push("--audio-format".to_owned());
    r.push("wav".to_owned());
    r.push("--restrict-filenames".to_owned());
    r.push("--sub-lang".to_owned());
    r.push("en".to_owned());
    r.push("--sub-format".to_owned());
    r.push("json3".to_owned());
    r.push("--output".to_owned());
    r.push(output_name);
    r.push("--write-auto-sub".to_owned());
    r.push(state.url.clone());
    assert(views(r@) =~= seq![
        "yt-dlp"@,
        "-x"@,
        "--audio-format"@,
        "wav"@,
        "--restrict-filenames"@,
        "--sub-lang"@,
        "en"@,
        "--sub-format"@,
        "json3"@,
        "--output"@,
        state.paths.tmp_path@ + "/%(title)s.%(ext)s"@,
        "--write-auto-sub"@,
        state.url@,
    ]);
    r
}

} // verus!
