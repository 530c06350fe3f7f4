use vstd::prelude::*;

use crate::config::Args;
use crate::text::{contains_str, views};

verus! {

/// Whether a step runs: when no restriction is given at all, or when the
/// step is among `only` and not among `upload`.
pub open spec fn step_runs(only: Seq<Seq<char>>, upload: Seq<Seq<char>>, step: Seq<char>) -> bool {
    (only.len() == 0 && upload.len() == 0) || (!upload.contains(step) && only.contains(step))
}

/// Whether a step's result is uploaded: when no restriction is given at
/// all, or when the step is among `upload` and not among `only`.
pub open spec fn step_uploads(only: Seq<Seq<char>>, upload: Seq<Seq<char>>, step: Seq<char>) -> bool {
    (upload.len() == 0 && only.len() == 0) || (!only.contains(step) && upload.contains(step))
}

/// Whether the wav conversion runs: when `only` is empty or names `ffmpeg`.
pub fn ffmpeg_selected(args: &Args) -> (r: bool)
    ensures
        r == (args.only@.len() == 0 || views(args.only@).contains("ffmpeg"@)),
{
    let contains_only = contains_str(&args.only, "ffmpeg");
    let only_is_empty = args.only.len() == 0;
    only_is_empty || contains_only
}

/// What the speech-to-text stage does: transcribe, upload, both or neither.
#[derive(Clone, Copy, Debug, PartialEq, Eq, Structural)]
pub struct SttSteps {
    pub transcribe: bool,
    pub upload: bool,
}

/// The speech-to-text steps a run asks for.
pub fn stt_steps(args: &Args) -> (r: SttSteps)
    ensures
        r.transcribe == step_runs(views(args.only@), views(args.upload@), "stt"@),
        r.upload == step_uploads(views(args.only@), views(args.upload@), "stt"@),
{
    let contains_only = contains_str(&args.only, "stt");
    let contains_upload = contains_str(&args.upload, "stt");
    let only_is_empty = args.only.len() == 0;
    let upload_is_empty = args.upload.len() == 0;
    let transcribe = (only_is_empty && upload_is_empty) || (!contains_upload && contains_only);
    let upload = (upload_is_empty && only_is_empty) || (!contains_only && contains_upload);
    SttSteps { transcribe, upload }
}

/// What the waveform stage does: generate the waveform, upload it, or
/// nothing. Generating takes precedence: a run that generates does not
/// upload.
#[derive(Clone, Copy, Debug, PartialEq, Eq, Structural)]
pub enum WaveformStep {
    Generate,
    Upload,
    Skip,
}

/// The waveform step a run asks for.
pub fn waveform_step(args: &Args) -> (r: WaveformStep)
    ensures
        r == (if step_runs(views(args.only@), views(args.upload@), "waveform"@) {
            WaveformStep::Generate
        } else if step_uploads(views(args.only@), views(args.upload@), "waveform"@) {
            WaveformStep::Upload
        } else {
            WaveformStep::Skip
        }),
{
    let contains_only = contains_str(&args.only, "waveform");
    let contains_upload = contains_str(&args.upload, "waveform");
    let only_is_empty = args.only.len() == 0;
    let upload_is_empty = args.upload.len() == 0;
    if (only_is_empty && upload_is_empty) || (!contains_upload && contains_only) {
        return WaveformStep::Generate;
    }
    if (upload_is_empty && only_is_empty) || (!contains_only && contains_upload) {
        return WaveformStep::Upload;
    }
    WaveformStep::Skip
}

/// A step both runs and uploads exactly when no restriction is given.
pub proof fn runs_and_uploads_only_unrestricted(
    only: Seq<Seq<char>>,
    upload: Seq<Seq<char>>,
    step: Seq<char>,
)
    ensures
        step_runs(only, upload, step) && step_uploads(only, upload, step) <==> only.len() == 0
            && upload.len() == 0,
{
}

/// Naming a step in `only` alone runs it without uploading; naming it in
/// `upload` alone uploads it without running it.
pub proof fn restriction_selects_one(
    only: Seq<Seq<char>>,
    upload: Seq<Seq<char>>,
    step: Seq<char>,
)
    ensures
        only.contains(step) && !upload.contains(step) ==> step_runs(only, upload, step)
            && !step_uploads(only, upload, step),
        upload.contains(step) && !only.contains(step) ==> step_uploads(only, upload, step)
            && !step_runs(only, upload, step),
{
    if only.contains(step) {
        assert(only.len() > 0);
    }
    if upload.contains(step) {
        assert(upload.len() > 0);
    }
}

/// A step runs only when no restriction is given at all, or when it is
/// named in `only`.
pub proof fn running_needs_selection(
    only: Seq<Seq<char>>,
    upload: Seq<Seq<char>>,
    step: Seq<char>,
)
    ensures
        step_runs(only, upload, step) ==> (only.len() == 0 && upload.len() == 0) || only.contains(
            step,
        ),
{
}

/// A step's result is uploaded only when no restriction is given at all, or
/// when it is named in `upload`.
pub proof fn uploading_needs_selection(
    only: Seq<Seq<char>>,
    upload: Seq<Seq<char>>,
    step: Seq<char>,
)
    ensures
        step_uploads(only, upload, step) ==> (only.len() == 0 && upload.len() == 0)
            || upload.contains(step),
{
}

/// Without any restriction a step both runs and uploads; a step named in
/// both lists does neither; under a restriction that does not name it, a
/// step does neither.
pub proof fn selection_outcomes(only: Seq<Seq<char>>, upload: Seq<Seq<char>>, step: Seq<char>)
    ensures
        only.len() == 0 && upload.len() == 0 ==> step_runs(only, upload, step) && step_uploads(
            only,
            upload,
            step,
        ),
        only.contains(step) && upload.contains(step) ==> !step_runs(only, upload, step)
            && !step_uploads(only, upload, step),
        (only.len() > 0 || upload.len() > 0) && !only.contains(step) && !upload.contains(step)
            ==> !step_runs(only, upload, step) && !step_uploads(only, upload, step),
{
    if only.contains(step) {
        assert(only.len() > 0);
    }
}

} // verus!
