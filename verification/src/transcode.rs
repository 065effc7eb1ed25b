use crate::text::{append_decimal, contains_bytes, decimal, occurs_in};
use crate::uri::texts;
use vstd::prelude::*;
use vstd::utf8::encode_utf8;

verus! {

/// The hardware acceleration the transcoder can use.
#[derive(Clone, Copy, Debug, PartialEq, Eq, Structural)]
pub enum AccelType {
    Nvidia,
    Amd,
    Cpu,
}

/// The acceleration that an encoder listing allows: NVENC where the
/// listing names `h264_nvenc`, else AMF where it names `h264_amf`, else none.
pub open spec fn accel_of(listing: Seq<u8>) -> AccelType {
    if occurs_in(listing, encode_utf8("h264_nvenc"@)) {
        AccelType::Nvidia
    } else if occurs_in(listing, encode_utf8("h264_amf"@)) {
        AccelType::Amd
    } else {
        AccelType::Cpu
    }
}

/// Reads the available acceleration off the transcoder's encoder listing.
pub fn classify_encoders(listing: &[u8]) -> (a: AccelType)
    ensures
        a == accel_of(listing@),
{
    if contains_bytes(listing, "h264_nvenc".as_bytes()) {
        AccelType::Nvidia
    } else if contains_bytes(listing, "h264_amf".as_bytes()) {
        AccelType::Amd
    } else {
        AccelType::Cpu
    }
}

/// The arguments that choose decoder, input and encoders for an acceleration.
pub open spec fn accel_args(accel: AccelType, input: Seq<char>) -> Seq<Seq<char>> {
    match accel {
        AccelType::Nvidia => seq![
            "-hwaccel"@,
            "cuda"@,
            "-hwaccel_output_format"@,
            "cuda"@,
            "-c:v"@,
            "h264_cuvid"@,
            "-i"@,
            input,
            "-c:a"@,
            "aac"@,
            "-b:a"@,
            "320k"@,
            "-c:v"@,
            "h264_nvenc"@,
            "-preset"@,
            "p3"@,
            "-rc"@,
            "vbr"@,
        ],
        AccelType::Amd => seq![
            "-i"@,
            input,
            "-c:a"@,
            "aac"@,
            "-b:a"@,
            "320k"@,
            "-c:v"@,
            "h264_amf"@,
            "-rc"@,
            "vbr"@,
        ],
        AccelType::Cpu => seq![
            "-i"@,
            input,
            "-c:a"@,
            "aac"@,
            "-b:a"@,
            "256k"@,
            "-c:v"@,
            "libx264"@,
            "-preset"@,
            "medium"@,
        ],
    }
}

/// A bitrate in kilobits per second as the transcoder reads it.
pub open spec fn kbps_text(kbps: u32) -> Seq<char> {
    decimal(kbps as nat) + "k"@
}

/// The video bitrate arguments: none for 0, which leaves the choice to the
/// transcoder.
pub open spec fn video_args(kbps: u32) -> Seq<Seq<char>> {
    if kbps > 0 {
        seq!["-b:v"@, kbps_text(kbps)]
    } else {
        Seq::empty()
    }
}

/// The audio bitrate arguments: 256k for 0.
pub open spec fn audio_args(kbps: u32) -> Seq<Seq<char>> {
    if kbps > 0 {
        seq!["-b:a"@, kbps_text(kbps)]
    } else {
        seq!["-b:a"@, "256k"@]
    }
}

/// The transcoder's whole argument list.
pub open spec fn transcode_args_of(
    accel: AccelType,
    input: Seq<char>,
    video_kbps: u32,
    audio_kbps: u32,
    output: Seq<char>,
) -> Seq<Seq<char>> {
    seq!["-hide_banner"@, "-loglevel"@, "info"@] + accel_args(accel, input) + video_args(
        video_kbps,
    ) + audio_args(audio_kbps) + seq![output]
}

fn push_text(args: &mut Vec<String>, t: &str)
    ensures
        texts(final(args)@) == texts(old(args)@).push(t@),
{
    args.push(String::from_str(t));
    assert(texts(args@) =~= texts(old(args)@).push(t@));
}

fn push_kbps(args: &mut Vec<String>, kbps: u32)
    ensures
        texts(final(args)@) == texts(old(args)@).push(kbps_text(kbps)),
{
    let mut t = String::new();
    append_decimal(&mut t, kbps as u64, 0);
    t.append("k");
    assert(t@ =~= kbps_text(kbps));
    args.push(t);
    assert(texts(args@) =~= texts(old(args)@).push(kbps_text(kbps)));
}

/// Builds the argument list with which the transcoder turns the merged
/// stream at `input` into the container at `output`.
pub fn transcode_args(
    accel: AccelType,
    input: &str,
    video_kbps: u32,
    audio_kbps: u32,
    output: &str,
) -> (args: Vec<String>)
    ensures
        texts(args@) == transcode_args_of(accel, input@, video_kbps, audio_kbps, output@),
{
    let mut args: Vec<String> = Vec::new();
    assert(texts(args@) =~= Seq::empty());
    push_text(&mut args, "-hide_banner");
    push_text(&mut args, "-loglevel");
    push_text(&mut args, "info");
    let ghost head = texts(args@);
    assert(head =~= seq!["-hide_banner"@, "-loglevel"@, "info"@]);
    match accel {
        AccelType::Nvidia => {
            push_text(&mut args, "-hwaccel");
            push_text(&mut args, "cuda");
            push_text(&mut args, "-hwaccel_output_format");
            push_text(&mut args, "cuda");
            push_text(&mut args, "-c:v");
            push_text(&mut args, "h264_cuvid");
            push_text(&mut args, "-i");
            push_text(&mut args, input);
            push_text(&mut args, "-c:a");
            push_text(&mut args, "aac");
            push_text(&mut args, "-b:a");
            push_text(&mut args, "320k");
            push_text(&mut args, "-c:v");
            push_text(&mut args, "h264_nvenc");
            push_text(&mut args, "-preset");
            push_text(&mut args, "p3");
            push_text(&mut args, "-rc");
            push_text(&mut args, "vbr");
        },
        AccelType::Amd => {
            push_text(&mut args, "-i");
            push_text(&mut args, input);
            push_text(&mut args, "-c:a");
            push_text(&mut args, "aac");
            push_text(&mut args, "-b:a");
            push_text(&mut args, "320k");
            push_text(&mut args, "-c:v");
            push_text(&mut args, "h264_amf");
            push_text(&mut args, "-rc");
            push_text(&mut args, "vbr");
        },
        AccelType::Cpu => {
            push_text(&mut args, "-i");
            push_text(&mut args, input);
            push_text(&mut args, "-c:a");
            push_text(&mut args, "aac");
            push_text(&mut args, "-b:a");
            push_text(&mut args, "256k");
            push_text(&mut args, "-c:v");
            push_text(&mut args, "libx264");
            push_text(&mut args, "-preset");
            push_text(&mut args, "medium");
        },
    }
    let ghost with_accel = texts(args@);
    assert(with_accel =~= head + accel_args(accel, input@));
    if video_kbps > 0 {
        push_text(&mut args, "-b:v");
        push_kbps(&mut args, video_kbps);
    }
    let ghost with_video = texts(args@);
    assert(with_video =~= with_accel + video_args(video_kbps));
    push_text(&mut args, "-b:a");
    if audio_kbps > 0 {
        push_kbps(&mut args, audio_kbps);
    } else {
        push_text(&mut args, "256k");
    }
    let ghost with_audio = texts(args@);
    assert(with_audio =~= with_video + audio_args(audio_kbps));
    push_text(&mut args, output);
    assert(texts(args@) =~= with_audio + seq![output@]);
    args
}

} // verus!
