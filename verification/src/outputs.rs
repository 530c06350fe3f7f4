use vstd::prelude::*;
use vstd::string::StringExecFns;

use crate::config::Config;
use crate::text::{concat2, concat4, views};

verus! {

/// Where the transcript of an episode is written:
/// `<output_dir>/json/<shortname>.stt.json`.
pub fn stt_file_path(config: &Config) -> (r: String)
    ensures
        r@ == config.output_dir@ + "/json/"@ + config.shortname@ + ".stt.json"@,
{
    concat4(config.output_dir.as_str(), "/json/", config.shortname.as_str(), ".stt.json")
}

/// Where the waveform of an episode is written:
/// `<output_dir>/json/<shortname>.waveform.json`.
pub fn waveform_path(config: &Config) -> (r: String)
    ensures
        r@ == config.output_dir@ + "/json/"@ + config.shortname@ + ".waveform.json"@,
{
    concat4(config.output_dir.as_str(), "/json/", config.shortname.as_str(), ".waveform.json")
}

/// The directory that holds the transcripts and waveforms.
pub fn json_dir(config: &Config) -> (r: String)
    ensures
        r@ == config.output_dir@ + "/json"@,
{
    concat2(config.output_dir.as_str(), "/json")
}

/// The directory whose wav segments are transcribed:
/// `<output_dir>/wav/<shortname>`.
pub fn wav_segment_dir(config: &Config) -> (r: String)
    ensures
        r@ == config.output_dir@ + "/wav/"@ + config.shortname@,
{
    let mut r = config.output_dir.clone();
    r.append("/wav/");
    r.append(config.shortname.as_str());
    r
}

/// The arguments of the speech-to-text command for one wav file: model,
/// scorer, audio file and JSON output.
pub fn stt_args(config: &Config, wav_path: &str) -> (r: Vec<String>)
    ensures
        views(r@) == seq![
            "--model"@,
            config.model_path@,
            "--scorer"@,
            config.scorer_path@,
            "--audio"@,
            wav_path@,
            "--json"@,
        ],
{
    let mut r: Vec<String> = Vec::new();
    r.push("--model".to_owned());
    r.push(config.model_path.clone());
    r.push("--scorer".to_owned());
    r.push(config.scorer_path.clone());
    r.push("--audio".to_owned());
    r.push(wav_path.to_owned());
    r.push("--json".to_owned());
    assert(views(r@) =~= seq![
        "--model"@,
        config.model_path@,
        "--scorer"@,
        config.scorer_path@,
        "--audio"@,
        wav_path@,
        "--json"@,
    ]);
    r
}

/// The arguments of the waveform command: the local audio file in, the
/// waveform file out, at 8 bits.
pub fn waveform_args(config: &Config) -> (r: Vec<String>)
    ensures
        views(r@) == seq![
            "-i"@,
            config.local_file@,
            "-o"@,
            config.output_dir@ + "/json/"@ + config.shortname@ + ".waveform.json"@,
            "-b"@,
            "8"@,
        ],
{
    let output_file = waveform_path(config);
    let mut r: Vec<String> = Vec::new();
    r.push("-i".to_owned());
    r.push(config.local_file.clone());
    r.push("-o".to_owned());
    r.push(output_file);
    r.push("-b".to_owned());
    r.push("8".to_owned());
    assert(views(r@) =~= seq![
        "-i"@,
        config.local_file@,
        "-o"@,
        config.output_dir@ + "/json/"@ + config.shortname@ + ".waveform.json"@,
        "-b"@,
        "8"@,
    ]);
    r
}

/// The transcript and the waveform of an episode are written inside the
/// json directory.
pub proof fn outputs_in_json_dir(output_dir: Seq<char>, shortname: Seq<char>)
    ensures
        output_dir + "/json/"@ + shortname + ".stt.json"@ == (output_dir + "/json"@) + "/"@ + (
        shortname + ".stt.json"@),
        output_dir + "/json/"@ + shortname + ".waveform.json"@ == (output_dir + "/json"@) + "/"@
            + (shortname + ".waveform.json"@),
{
    reveal_strlit("/json/");
    reveal_strlit("/json");
    reveal_strlit("/");
    assert("/json/"@ =~= "/json"@ + "/"@);
    assert(output_dir + "/json/"@ + shortname + ".stt.json"@ =~= (output_dir + "/json"@) + "/"@ + (
    shortname + ".stt.json"@));
    assert(output_dir + "/json/"@ + shortname + ".waveform.json"@ =~= (output_dir + "/json"@)
        + "/"@ + (shortname + ".waveform.json"@));
}

} // verus!
