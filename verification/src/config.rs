use vstd::prelude::*;

use crate::paths::{file_name, get_filename_from_url, get_shortname, shortname};
use crate::text::{concat2, concat3, opt_view};

verus! {

/// Command-line arguments: an optional audio source, the steps to restrict
/// the run to (`only`), the steps whose results to upload (`upload`), and an
/// output name.
#[derive(Clone, Debug, Default)]
pub struct Args {
    pub src: Option<String>,
    pub only: Vec<String>,
    pub upload: Vec<String>,
    pub out: String,
}

/// Pipeline configuration: the fields loaded from the configuration file
/// and those derived from them.
#[derive(Clone, Debug, Default)]
pub struct Config {
    pub files_dir: String,
    pub model_path: String,
    pub model_url: String,
    pub scorer_path: String,
    pub scorer_url: String,
    pub output_dir: String,
    pub s3_bucket: String,
    pub audio_src: String,
    pub shortname: String,
    pub local_file: String,
    pub wavs_dir: String,
    pub ep_output_dir: String,
    pub wav_chunk_size: i32,
}

/// The audio source a run uses: the one given on the command line, else the
/// configured one.
pub open spec fn chosen_src(arg_src: Option<Seq<char>>, cfg_src: Seq<char>) -> Seq<char> {
    match arg_src {
        Some(s) => s,
        None => cfg_src,
    }
}

/// Whether a run has an audio source at all.
pub open spec fn has_src(arg_src: Option<Seq<char>>, cfg_src: Seq<char>) -> bool {
    arg_src is Some || cfg_src.len() > 0
}

/// The audio source to use: the command-line one when given, else the
/// configured one, which must then be non-empty.
pub fn get_src_to_use(args: &Args, cfg_src: &str) -> (r: String)
    requires
        has_src(opt_view(args.src), cfg_src@),
    ensures
        r@ == chosen_src(opt_view(args.src), cfg_src@),
{
    match &args.src {
        Some(s) => s.clone(),
        None => cfg_src.to_owned(),
    }
}

/// Where the audio file is stored locally: the files directory joined with
/// the file name of the configured audio source.
pub fn create_dest_path(config: &Config) -> (r: String)
    requires
        file_name(config.audio_src@) is Some,
    ensures
        r@ == config.files_dir@ + "/"@ + file_name(config.audio_src@)->0,
{
    let filename = get_filename_from_url(config.audio_src.as_str()).unwrap();
    concat3(config.files_dir.as_str(), "/", filename.as_str())
}

/// Whether a loaded configuration can be completed for these arguments:
/// the configured source has a file name, some source is given, and the
/// chosen source has a name once its extension is removed.
pub open spec fn completable(args: &Args, loaded: &Config) -> bool {
    &&& file_name(loaded.audio_src@) is Some
    &&& has_src(opt_view(args.src), loaded.audio_src@)
    &&& shortname(chosen_src(opt_view(args.src), loaded.audio_src@)) is Some
}

/// Completes a configuration read from the configuration file: the chosen
/// audio source, its short name, the local file path, the directory of wav
/// segments and the episode output directory. Every other field is kept.
pub fn complete_config(args: &Args, loaded: Config) -> (r: Config)
    requires
        completable(args, &loaded),
    ensures
        ({
            let src = chosen_src(opt_view(args.src), loaded.audio_src@);
            let short = shortname(src)->0;
            &&& r.audio_src@ == src
            &&& r.shortname@ == short
            &&& r.local_file@ == loaded.files_dir@ + "/"@ + file_name(loaded.audio_src@)->0
            &&& r.wavs_dir@ == loaded.output_dir@ + "/wav"@
            &&& r.ep_output_dir@ == loaded.output_dir@ + "/"@ + short
            &&& r.files_dir == loaded.files_dir
            &&& r.model_path == loaded.model_path
            &&& r.model_url == loaded.model_url
            &&& r.scorer_path == loaded.scorer_path
            &&& r.scorer_url == loaded.scorer_url
            &&& r.output_dir == loaded.output_dir
            &&& r.s3_bucket == loaded.s3_bucket
            &&& r.wav_chunk_size == loaded.wav_chunk_size
        }),
{
    let local_file = create_dest_path(&loaded);
    let src_to_use = get_src_to_use(args, loaded.audio_src.as_str());
    let shortname = get_shortname(src_to_use.as_str());
    let ep_output_dir = concat3(loaded.output_dir.as_str(), "/", shortname.as_str());
    let wavs_dir = concat2(loaded.output_dir.as_str(), "/wav");
    Config {
        shortname,
        local_file,
        audio_src: src_to_use,
        wavs_dir,
        ep_output_dir,
        ..loaded
    }
}

/// The directories that cleaning up removes, in order: the episode output
/// directory, then the directory of wav segments.
pub fn cleanup_files(config: &Config) -> (r: Vec<String>)
    ensures
        r@.len() == 2,
        r@[0]@ == config.ep_output_dir@,
        r@[1]@ == config.wavs_dir@,
{
    let mut r: Vec<String> = Vec::new();
    r.push(config.ep_output_dir.clone());
    r.push(config.wavs_dir.clone());
    r
}

/// A source given on the command line is always the one used, and always
/// counts as a source.
pub proof fn argument_source_wins(s: Seq<char>, cfg_src: Seq<char>)
    ensures
        chosen_src(Some(s), cfg_src) == s,
        has_src(Some(s), cfg_src),
{
}

/// Without a command-line source the configured one is used, and there is a
/// source exactly when it is non-empty.
pub proof fn configured_source_is_fallback(cfg_src: Seq<char>)
    ensures
        chosen_src(None, cfg_src) == cfg_src,
        has_src(None, cfg_src) <==> cfg_src.len() > 0,
{
}

} // verus!
