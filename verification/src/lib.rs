//! Planning logic for a speech-to-text pipeline: path and command
//! construction, segment planning, step selection and word ordering.

mod config;
mod json;
mod numbers;
mod order;
mod outputs;
mod paths;
mod segments;
mod state;
mod steps;
mod text;

pub use config::{
    argument_source_wins, chosen_src, cleanup_files, completable, complete_config,
    configured_source_is_fallback, create_dest_path, get_src_to_use, has_src, Args, Config,
};
pub use json::{
    hex_digit, json_escape, json_escape_all, json_escape_concat, json_escape_shape, json_plain_char,
    json_string, json_string_is_quoted, plain_strings_are_quoted,
};
pub use numbers::{
    decimal, decimal_string, decimal_text_laws, digit_char, digits, fixed_digits, lex_less, pad6,
    padded_numbers_sort_in_order, pow10, zero_pad, zero_pad_laws,
};
pub use order::{
    is_permutation, keeps_ties, order_by_start, sorted_by_key,
};
pub use outputs::{
    json_dir, outputs_in_json_dir, stt_args, stt_file_path, wav_segment_dir, waveform_args,
    waveform_path,
};
pub use paths::{
    cut_after_stem, drop_ext_chars, ext_len, file_name, file_name_ignores_trailing_separators,
    file_stem_name, get_filename_from_url, get_shortname, is_dir_prefix, is_normal_name, last_dot,
    lemma_file_name_is_normal, lemma_file_name_of_join, lemma_seg_start_bounds, lemma_span_bounds,
    local_file_keeps_file_name, name_span, no_file_name_no_shortname, normal_name_is_own_file_name,
    parent_component_has_no_file_name, seg_start, shortname, shortname_drops_last_extension,
    shortname_keeps_name_without_dot, shortname_of_bare_name, stem_len, without_extension,
};
pub use segments::{
    calc_segments, segment, segment_command, segment_output_file, segments_fit, segments_tile,
    split_audio_command,
};
pub use state::{
    create_dir_vec, youtube_dl_args, AppPaths, AppState, WORKDIR,
};
pub use steps::{
    ffmpeg_selected, restriction_selects_one, running_needs_selection,
    runs_and_uploads_only_unrestricted, selection_outcomes, step_runs, step_uploads, stt_steps,
    uploading_needs_selection, waveform_step, SttSteps, WaveformStep,
};
pub use text::{
    opt_view, views,
};
