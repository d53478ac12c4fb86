//! Invocations of the external recorder: region and full-screen screen
//! grabs, thumbnails and duration probes. Each is an argument list; the
//! host spawns the process.

use vstd::prelude::*;
use crate::types::Region;
use crate::numfmt::{dec_seq, int_seq, u64_string, i64_string};
use crate::region::{clamp_region, clamped_dim};
use crate::plan::views_of;

verus! {

/// The capture invocation of a clamped region: grab the desktop at the
/// region's offset and size, draw the cursor, and encode to the output
/// file at the given frame rate.
pub open spec fn capture_args_seq(r: Region, framerate: u32, output: Seq<char>) -> Seq<Seq<char>> {
    seq![
        "-f"@,
        "gdigrab"@,
        "-framerate"@,
        dec_seq(framerate as int),
        "-offset_x"@,
        int_seq(r.x as int),
        "-offset_y"@,
        int_seq(r.y as int),
        "-video_size"@,
        dec_seq(r.width as int) + "x"@ + dec_seq(r.height as int),
        "-draw_mouse"@,
        "1"@,
        "-i"@,
        "desktop"@,
        "-c:v"@,
        "libx264"@,
        "-preset"@,
        "ultrafast"@,
        "-crf"@,
        "18"@,
        "-pix_fmt"@,
        "yuv420p"@,
        "-y"@,
        output,
    ]
}

/// Build the capture invocation of a region, clamped first so the
/// encoder accepts its geometry.
pub fn start_capture_args(region: &Region, output_path: &String, framerate: u32) -> (r: Vec<
    String,
>)
    ensures
        views_of(r@) == capture_args_seq(
            Region {
                x: if region.x < 0 {
                    0
                } else {
                    region.x
                },
                y: if region.y < 0 {
                    0
                } else {
                    region.y
                },
                width: clamped_dim(region.x as int, region.width as int) as u32,
                height: clamped_dim(region.y as int, region.height as int) as u32,
            },
            framerate,
            output_path@,
        ),
{
    let clamped = clamp_region(region);
    let mut args: Vec<String> = Vec::new();
    args.push("-f".to_owned());
    args.push("gdigrab".to_owned());
    args.push("-framerate".to_owned());
    args.push(u64_string(framerate as u64));
    args.push("-offset_x".to_owned());
    args.push(i64_string(clamped.x as i64));
    args.push("-offset_y".to_owned());
    args.push(i64_string(clamped.y as i64));
    args.push("-video_size".to_owned());
    args.push(
        u64_string(clamped.width as u64).concat("x").concat(
            u64_string(clamped.height as u64).as_str(),
        ),
    );
    args.push("-draw_mouse".to_owned());
    args.push("1".to_owned());
    args.push("-i".to_owned());
    args.push("desktop".to_owned());
    args.push("-c:v".to_owned());
    args.push("libx264".to_owned());
    args.push("-preset".to_owned());
    args.push("ultrafast".to_owned());
    args.push("-crf".to_owned());
    args.push("18".to_owned());
    args.push("-pix_fmt".to_owned());
    args.push("yuv420p".to_owned());
    args.push("-y".to_owned());
    args.push(output_path.clone());
    proof {
        assert(views_of(args@) =~= capture_args_seq(clamped, framerate, output_path@));
    }
    args
}

/// The capture invocation of the whole desktop.
pub open spec fn fullscreen_capture_args_seq(framerate: u32, output: Seq<char>) -> Seq<
    Seq<char>,
> {
    seq![
        "-f"@,
        "gdigrab"@,
        "-framerate"@,
        dec_seq(framerate as int),
        "-draw_mouse"@,
        "1"@,
        "-i"@,
        "desktop"@,
        "-c:v"@,
        "libx264"@,
        "-preset"@,
        "ultrafast"@,
        "-crf"@,
        "18"@,
        "-pix_fmt"@,
        "yuv420p"@,
        "-y"@,
        output,
    ]
}

/// Build the full-screen capture invocation.
pub fn start_fullscreen_capture_args(output_path: &String, framerate: u32) -> (r: Vec<String>)
    ensures
        views_of(r@) == fullscreen_capture_args_seq(framerate, output_path@),
{
    let mut args: Vec<String> = Vec::new();
    args.push("-f".to_owned());
    args.push("gdigrab".to_owned());
    args.push("-framerate".to_owned());
    args.push(u64_string(framerate as u64));
    args.push("-draw_mouse".to_owned());
    args.push("1".to_owned());
    args.push("-i".to_owned());
    args.push("desktop".to_owned());
    args.push("-c:v".to_owned());
    args.push("libx264".to_owned());
    args.push("-preset".to_owned());
    args.push("ultrafast".to_owned());
    args.push("-crf".to_owned());
    args.push("18".to_owned());
    args.push("-pix_fmt".to_owned());
    args.push("yuv420p".to_owned());
    args.push("-y".to_owned());
    args.push(output_path.clone());
    proof {
        assert(views_of(args@) =~= fullscreen_capture_args_seq(framerate, output_path@));
    }
    args
}

/// The thumbnail invocation: the first frame, scaled to 192 wide.
pub open spec fn thumbnail_args_seq(video: Seq<char>, thumbnail: Seq<char>) -> Seq<Seq<char>> {
    seq![
        "-i"@,
        video,
        "-vframes"@,
        "1"@,
        "-vf"@,
        "scale=192:-1"@,
        "-y"@,
        thumbnail,
    ]
}

/// Build the thumbnail invocation.
pub fn generate_thumbnail_args(video_path: &String, thumbnail_path: &String) -> (r: Vec<String>)
    ensures
        views_of(r@) == thumbnail_args_seq(video_path@, thumbnail_path@),
{
    let mut args: Vec<String> = Vec::new();
    args.push("-i".to_owned());
    args.push(video_path.clone());
    args.push("-vframes".to_owned());
    args.push("1".to_owned());
    args.push("-vf".to_owned());
    args.push("scale=192:-1".to_owned());
    args.push("-y".to_owned());
    args.push(thumbnail_path.clone());
    proof {
        assert(views_of(args@) =~= thumbnail_args_seq(video_path@, thumbnail_path@));
    }
    args
}

/// The probe invocation: print the container duration in seconds, bare.
pub open spec fn probe_args_seq(path: Seq<char>) -> Seq<Seq<char>> {
    seq![
        "-v"@,
        "error"@,
        "-show_entries"@,
        "format=duration"@,
        "-of"@,
        "default=noprint_wrappers=1:nokey=1"@,
        path,
    ]
}

/// Build the probe invocation.
pub fn probe_duration_args(path: &String) -> (r: Vec<String>)
    ensures
        views_of(r@) == probe_args_seq(path@),
{
    let mut args: Vec<String> = Vec::new();
    args.push("-v".to_owned());
    args.push("error".to_owned());
    args.push("-show_entries".to_owned());
    args.push("format=duration".to_owned());
    args.push("-of".to_owned());
    args.push("default=noprint_wrappers=1:nokey=1".to_owned());
    args.push(path.clone());
    proof {
        assert(views_of(args@) =~= probe_args_seq(path@));
    }
    args
}

} // verus!
