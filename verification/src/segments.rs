use vstd::prelude::*;
use vstd::string::StringExecFns;

use crate::config::Config;
use crate::numbers::{decimal, decimal_string, pad6, zero_pad};

verus! {

/// The shell command that cuts `src` into ten-minute wav pieces numbered
/// `000.wav`, `001.wav`, ... inside `dest`.
pub fn split_audio_command(src: &str, dest: &str) -> (r: String)
    ensures
        r@ == "ffmpeg -i "@ + src@ + " -f segment -segment_time 600 -c copy "@ + dest@
            + "/%03d.wav"@,
{
    let mut r = "ffmpeg -i ".to_owned();
    r.append(src);
    r.append(" -f segment -segment_time 600 -c copy ");
    r.append(dest);
    r.append("/%03d.wav");
    r
}

/// Whether `num_segments` pieces of `segment_len` seconds have bounds that
/// fit in an `i32`.
pub open spec fn segments_fit(num_segments: int, segment_len: int) -> bool {
    num_segments <= 0 || i32::MIN <= num_segments * segment_len <= i32::MAX
}

/// The `i`-th piece: from `i * len` to `(i + 1) * len` seconds.
pub open spec fn segment(i: int, segment_len: int) -> (int, int) {
    (i * segment_len, (i + 1) * segment_len)
}

proof fn lemma_product_between(i: int, n: int, len: int)
    requires
        0 <= i <= n,
    ensures
        len >= 0 ==> 0 <= i * len <= n * len,
        len < 0 ==> n * len <= i * len <= 0,
{
    if len >= 0 {
        assert(0 <= i * len <= n * len) by (nonlinear_arith)
            requires
                0 <= i <= n,
                len >= 0,
        ;
    } else {
        assert(n * len <= i * len <= 0) by (nonlinear_arith)
            requires
                0 <= i <= n,
                len < 0,
        ;
    }
}

/// The pieces an audio file of `num_segments` pieces of `segment_len`
/// seconds is cut into, in order: piece `i` runs from `i * segment_len` to
/// `(i + 1) * segment_len`. None when `num_segments` is not positive.
pub fn calc_segments(num_segments: i32, segment_len: i32) -> (r: Vec<(i32, i32)>)
    requires
        segments_fit(num_segments as int, segment_len as int),
    ensures
        r@.len() == if num_segments > 0 { num_segments as int } else { 0 },
        forall|i: int|
            0 <= i < r@.len() ==> (r@[i].0 as int, r@[i].1 as int) == segment(i, segment_len as int),
{
    let mut r: Vec<(i32, i32)> = Vec::new();
    if num_segments <= 0 {
        return r;
    }
    let mut i: i32 = 0;
    while i < num_segments
        invariant
            0 <= i <= num_segments,
            segments_fit(num_segments as int, segment_len as int),
            r@.len() == i,
            forall|j: int|
                0 <= j < i ==> (r@[j].0 as int, r@[j].1 as int) == segment(j, segment_len as int),
        decreases num_segments - i,
    {
        proof {
            lemma_product_between(i as int, num_segments as int, segment_len as int);
            lemma_product_between(i + 1, num_segments as int, segment_len as int);
        }
        let start = i * segment_len;
        let end = (i + 1) * segment_len;
        r.push((start, end));
        i = i + 1;
    }
    r
}

/// Where the wav file of the piece from `start` to `end` is written: in the
/// wav directory, named by both bounds padded to six digits and the short
/// name, so that names sort in time order.
pub fn segment_output_file(config: &Config, start: i32, end: i32) -> (r: String)
    ensures
        r@ == config.wavs_dir@ + "/"@ + zero_pad(decimal(start as int), 6) + "-"@ + zero_pad(
            decimal(end as int),
            6,
        ) + "_"@ + config.shortname@ + ".wav"@,
{
    let start_pad = pad6(start);
    let end_pad = pad6(end);
    let mut r = config.wavs_dir.clone();
    r.append("/");
    r.append(start_pad.as_str());
    r.append("-");
    r.append(end_pad.as_str());
    r.append("_");
    r.append(config.shortname.as_str());
    r.append(".wav");
    r
}

/// The shell command that converts the piece from `start` to `end` seconds
/// of the local audio file to 16 kHz mono 16-bit wav, written to
/// `segment_output_file(config, start, end)`.
pub fn segment_command(config: &Config, start: i32, end: i32) -> (r: String)
    ensures
        r@ == "ffmpeg -i "@ + config.local_file@ + " -ss "@ + decimal(start as int) + " -to "@
            + decimal(end as int) + " -ar 16000 -ac 1 -acodec pcm_s16le -f wav "@ + (
        config.wavs_dir@ + "/"@ + zero_pad(decimal(start as int), 6) + "-"@ + zero_pad(
            decimal(end as int),
            6,
        ) + "_"@ + config.shortname@ + ".wav"@),
{
    let output_file = segment_output_file(config, start, end);
    let start_text = decimal_string(start);
    let end_text = decimal_string(end);
    let mut r = "ffmpeg -i ".to_owned();
    r.append(config.local_file.as_str());
    r.append(" -ss ");
    r.append(start_text.as_str());
    r.append(" -to ");
    r.append(end_text.as_str());
    r.append(" -ar 16000 -ac 1 -acodec pcm_s16le -f wav ");
    r.append(output_file.as_str());
    r
}

/// The pieces tile the audio: the first starts at 0, each piece is
/// `segment_len` long, and each ends where the next starts.
pub proof fn segments_tile(i: int, segment_len: int)
    ensures
        segment(0, segment_len).0 == 0,
        segment(i, segment_len).1 - segment(i, segment_len).0 == segment_len,
        segment(i, segment_len).1 == segment(i + 1, segment_len).0,
{
    assert((i + 1) * segment_len - i * segment_len == segment_len) by (nonlinear_arith);
}

} // verus!
