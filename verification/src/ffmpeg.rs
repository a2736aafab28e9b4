//! The final remux step's command line.
//!
//! The remux itself is an external tool run by the caller; what is verified
//! here is the exact argument list handed to it for a given input, metadata
//! and output.

use vstd::prelude::*;
use vstd::string::StringExecFns;

verus! {

/// Failure launching or waiting on the external remux tool.
#[derive(Debug)]
pub enum FfmpegError {
    IoError(String),
}

/// The metadata stamped onto the remuxed file.
#[derive(Debug, Clone)]
pub struct Metadata {
    pub title: Option<String>,
    pub description: Option<String>,
    /// Path of a cover image to attach, when one was downloaded.
    pub thumbnail: Option<String>,
    pub date: Option<String>,
    pub video_id: Option<String>,
    pub faststart: bool,
}

/// The exact argument list for one remux invocation: quiet overwrite flags,
/// the input, the optional attached thumbnail with its stream mapping, one
/// `-metadata` pair per present field, stream copy, the attached-picture
/// disposition when a thumbnail is present, the faststart flag when asked
/// for, and the output last.
pub open spec fn spec_mux_args(input: Seq<char>, m: Metadata, output: Seq<char>) -> Seq<Seq<char>> {
    let base = seq!["-hide_banner"@, "-loglevel"@, "error"@, "-y"@, "-i"@, input];
    let thumb = match m.thumbnail {
        Some(t) => seq!["-i"@, t@, "-map"@, "0"@, "-map"@, "1"@],
        None => Seq::<Seq<char>>::empty(),
    };
    let title = match m.title {
        Some(t) => seq!["-metadata"@, "title="@ + t@],
        None => Seq::<Seq<char>>::empty(),
    };
    let description = match m.description {
        Some(d) => seq!["-metadata"@, "description="@ + d@],
        None => Seq::<Seq<char>>::empty(),
    };
    let date = match m.date {
        Some(d) => seq!["-metadata"@, "date="@ + d@],
        None => Seq::<Seq<char>>::empty(),
    };
    let video_id = match m.video_id {
        Some(v) => seq!["-metadata"@, "episode_id="@ + v@],
        None => Seq::<Seq<char>>::empty(),
    };
    let copy = seq!["-c"@, "copy"@];
    let disposition = if m.thumbnail is Some {
        seq!["-disposition:v:1"@, "attached_pic"@]
    } else {
        Seq::<Seq<char>>::empty()
    };
    let faststart = if m.faststart {
        seq!["-movflags"@, "+faststart"@]
    } else {
        Seq::<Seq<char>>::empty()
    };
    base + thumb + title + description + date + video_id + copy + disposition + faststart + seq![
        output
    ]
}

/// Assembles the remux tool's argument list; the caller spawns the tool with
/// exactly these arguments.
#[verifier::rlimit(60)]
pub fn mux_args(input: &str, metadata: &Metadata, output: &str) -> (r: Vec<String>)
    ensures
        r@.map(|i: int, s: String| s@) == spec_mux_args(input@, *metadata, output@),
{
    let mut args: Vec<String> = Vec::new();
    args.push(String::from_str("-hide_banner"));
    args.push(String::from_str("-loglevel"));
    args.push(String::from_str("error"));
    args.push(String::from_str("-y"));
    args.push(String::from_str("-i"));
    args.push(String::from_str(input));
    match &metadata.thumbnail {
        Some(t) => {
            args.push(String::from_str("-i"));
            args.push(t.clone());
            args.push(String::from_str("-map"));
            args.push(String::from_str("0"));
            args.push(String::from_str("-map"));
            args.push(String::from_str("1"));
        },
        None => {},
    }
    match &metadata.title {
        Some(t) => {
            args.push(String::from_str("-metadata"));
            args.push(String::from_str("title=").concat(t.as_str()));
        },
        None => {},
    }
    match &metadata.description {
        Some(d) => {
            args.push(String::from_str("-metadata"));
            args.push(String::from_str("description=").concat(d.as_str()));
        },
        None => {},
    }
    match &metadata.date {
        Some(d) => {
            args.push(String::from_str("-metadata"));
            args.push(String::from_str("date=").concat(d.as_str()));
        },
        None => {},
    }
    match &metadata.video_id {
        Some(v) => {
            args.push(String::from_str("-metadata"));
            args.push(String::from_str("episode_id=").concat(v.as_str()));
        },
        None => {},
    }
    args.push(String::from_str("-c"));
    args.push(String::from_str("copy"));
    if metadata.thumbnail.is_some() {
        args.push(String::from_str("-disposition:v:1"));
        args.push(String::from_str("attached_pic"));
    }
    if metadata.faststart {
        args.push(String::from_str("-movflags"));
        args.push(String::from_str("+faststart"));
    }
    args.push(String::from_str(output));
    proof {
        assert(args@.map(|i: int, s: String| s@) =~= spec_mux_args(input@, *metadata, output@));
    }
    args
}

} // verus!
