//! The application controller: the state behind the user interface and
//! the rules for starting background work and applying its results.
//!
//! The controller never performs input or output itself.  A user action
//! becomes a `request_*` call, which either rejects the action with a
//! status message or hands back the data a background worker needs; the
//! worker's terminal outcome comes back through an `apply_*` call.  At
//! most one background task is outstanding at any time.

use vstd::prelude::*;
use vstd::string::StringExecFns;
use crate::format::Format;
use crate::format::FormatModel;
use crate::format::parse_formats;
use crate::format::spec_parse_formats;
use crate::text::str_eq;

verus! {

/// What kind of download the user asked for.
#[derive(Clone, Copy, Debug, PartialEq, Eq, Structural)]
pub enum DownloadType {
    /// A separately selected video and audio stream, merged into one
    /// MP4 container.
    VideoAudio,
    /// The audio track alone, extracted to MP3.
    AudioOnly,
}

/// The severity of the current status line.
#[derive(Clone, Copy, Debug, PartialEq, Eq, Structural)]
pub enum StatusLevel {
    Neutral,
    Busy,
    Success,
    Error,
}

/// What a clipboard read attempt produced.
pub enum ClipboardRead {
    /// The clipboard was read and held this text.
    Text(String),
    /// The clipboard exists but its contents could not be read as text.
    ReadFailed,
    /// The clipboard could not be opened at all.
    Unavailable,
}

/// Everything a download worker needs to build the external tool's
/// command line.
pub struct DownloadRequest {
    pub url: String,
    pub output_dir: String,
    pub mode: DownloadType,
    pub video_format_id: String,
    pub audio_format_id: String,
}

/// The application state.
pub struct Controller {
    pub url: String,
    pub output_dir: String,
    pub selected_video_format: String,
    pub selected_audio_format: String,
    pub available_video_formats: Vec<Format>,
    pub available_audio_formats: Vec<Format>,
    pub status_message: String,
    pub status_level: StatusLevel,
    pub is_processing: bool,
    /// A format-listing task is outstanding (its channel is alive).
    pub fetch_in_flight: bool,
    /// A download task is outstanding (its channel is alive).
    pub download_in_flight: bool,
    /// Download progress in percent; the tool reports no partial
    /// progress, so this is 0 while working and 100 on completion.
    pub download_progress: u8,
    pub download_type: DownloadType,
}

/// The video-qualifying records of a listing, in order.
pub open spec fn video_records(s: Seq<FormatModel>) -> Seq<FormatModel> {
    s.filter(|f: FormatModel| f.is_video)
}

/// The audio-qualifying records of a listing, in order.
pub open spec fn audio_records(s: Seq<FormatModel>) -> Seq<FormatModel> {
    s.filter(|f: FormatModel| f.is_audio)
}

/// Some record of `list` carries the id `id`.
pub open spec fn has_id(list: Seq<Format>, id: Seq<char>) -> bool {
    exists|i: int| 0 <= i < list.len() && (#[trigger] list[i]).id@ == id
}

impl Controller {
    /// The controller's invariant: at most one background task is
    /// outstanding, a task implies the busy flag, and each selected
    /// format id refers to a record of the corresponding list (and is
    /// empty while the list is empty).
    pub open spec fn inv(self) -> bool {
        &&& !(self.fetch_in_flight && self.download_in_flight)
        &&& (self.fetch_in_flight || self.download_in_flight) ==> self.is_processing
        &&& self.available_video_formats@.len() == 0 ==> self.selected_video_format@.len() == 0
        &&& self.available_audio_formats@.len() == 0 ==> self.selected_audio_format@.len() == 0
        &&& self.selected_video_format@.len() > 0 ==> has_id(
            self.available_video_formats@,
            self.selected_video_format@,
        )
        &&& self.selected_audio_format@.len() > 0 ==> has_id(
            self.available_audio_formats@,
            self.selected_audio_format@,
        )
    }

    /// `post` differs from `pre` at most in the status line.
    pub open spec fn only_status_changed(pre: Controller, post: Controller) -> bool {
        post == (Controller {
            status_message: post.status_message,
            status_level: post.status_level,
            ..pre
        })
    }

    /// A fresh controller: everything empty, ready, nothing running.
    pub fn new(output_dir: String) -> (c: Controller)
        ensures
            c.inv(),
            c.url@.len() == 0,
            c.output_dir == output_dir,
            c.selected_video_format@.len() == 0,
            c.selected_audio_format@.len() == 0,
            c.available_video_formats@.len() == 0,
            c.available_audio_formats@.len() == 0,
            c.status_message@ == "Ready"@,
            c.status_level == StatusLevel::Neutral,
            !c.is_processing,
            !c.fetch_in_flight,
            !c.download_in_flight,
            c.download_progress == 0,
            c.download_type == DownloadType::VideoAudio,
    {
        Controller {
            url: String::new(),
            output_dir,
            selected_video_format: String::new(),
            selected_audio_format: String::new(),
            available_video_formats: Vec::new(),
            available_audio_formats: Vec::new(),
            status_message: String::from_str("Ready"),
            status_level: StatusLevel::Neutral,
            is_processing: false,
            fetch_in_flight: false,
            download_in_flight: false,
            download_progress: 0,
            download_type: DownloadType::VideoAudio,
        }
    }

    /// `post` is `pre` with a listing task just started.
    pub open spec fn fetch_started(pre: Controller, post: Controller) -> bool {
        &&& post == (Controller {
            status_message: post.status_message,
            status_level: post.status_level,
            is_processing: true,
            fetch_in_flight: true,
            ..pre
        })
        &&& post.status_message@ == "Fetching available formats..."@
        &&& post.status_level == StatusLevel::Busy
    }

    /// `post` is `pre` with a download task just started.
    pub open spec fn download_started(pre: Controller, post: Controller) -> bool {
        &&& post == (Controller {
            status_message: post.status_message,
            status_level: post.status_level,
            is_processing: true,
            download_in_flight: true,
            download_progress: 0,
            ..pre
        })
        &&& post.status_message@ == "Downloading..."@
        &&& post.status_level == StatusLevel::Busy
    }

    /// The preconditions of a download: a URL and an output directory,
    /// and for combined mode a fetched listing with both formats
    /// selected.
    pub open spec fn can_download(c: Controller) -> bool {
        &&& c.url@.len() > 0
        &&& c.output_dir@.len() > 0
        &&& (c.download_type == DownloadType::AudioOnly || (c.selected_video_format@.len() > 0
            && c.selected_audio_format@.len() > 0 && c.available_video_formats@.len() > 0
            && c.available_audio_formats@.len() > 0))
    }

    /// `post` is `pre` with a listing result consumed: only the format
    /// lists, the selections and the status may change, and no task is
    /// outstanding any more.
    pub open spec fn listing_consumed(pre: Controller, post: Controller) -> bool {
        post == (Controller {
            available_video_formats: post.available_video_formats,
            available_audio_formats: post.available_audio_formats,
            selected_video_format: post.selected_video_format,
            selected_audio_format: post.selected_audio_format,
            status_message: post.status_message,
            status_level: post.status_level,
            is_processing: false,
            fetch_in_flight: false,
            ..pre
        })
    }

    /// `post` is `pre` with a download result consumed: only the
    /// progress and the status may change, and no task is outstanding
    /// any more.
    pub open spec fn download_consumed(pre: Controller, post: Controller) -> bool {
        post == (Controller {
            status_message: post.status_message,
            status_level: post.status_level,
            download_progress: post.download_progress,
            is_processing: false,
            download_in_flight: false,
            ..pre
        })
    }

    /// A user asked to fetch the format listing.  Rejected while a task
    /// is outstanding (no second worker may be spawned) and without a
    /// URL; otherwise the state moves to running and the caller gets
    /// the URL to list formats for.
    pub fn request_fetch(&mut self) -> (job: Option<String>)
        requires
            old(self).inv(),
        ensures
            final(self).inv(),
            old(self).is_processing ==> job is None && *final(self) == *old(self),
            !old(self).is_processing && old(self).url@.len() == 0 ==> job is None
                && Self::only_status_changed(*old(self), *final(self)) && final(self).status_message@ == "Please enter a URL first"@ && final(self).status_level
                == StatusLevel::Error,
            !old(self).is_processing && old(self).url@.len() > 0 ==> (job matches Some(u) && u@
                == old(self).url@) && Self::fetch_started(*old(self), *final(self)),
    {
        if self.is_processing {
            return None;
        }
        if self.url.as_str().is_empty() {
            self.status_message = String::from_str("Please enter a URL first");
            self.status_level = StatusLevel::Error;
            return None;
        }
        self.status_message = String::from_str("Fetching available formats...");
        self.status_level = StatusLevel::Busy;
        self.is_processing = true;
        self.fetch_in_flight = true;
        Some(self.url.clone())
    }

    /// A user asked to download.  Rejected while a task is outstanding
    /// or while a precondition is missing, with the matching status
    /// message; otherwise the state moves to running and the caller
    /// gets the request a download worker needs.
    pub fn request_download(&mut self) -> (job: Option<DownloadRequest>)
        requires
            old(self).inv(),
        ensures
            final(self).inv(),
            old(self).is_processing ==> job is None && *final(self) == *old(self),
            !old(self).is_processing && old(self).url@.len() == 0 ==> job is None
                && Self::only_status_changed(*old(self), *final(self)) && final(self).status_message@ == "Please enter a URL first"@ && final(self).status_level
                == StatusLevel::Error,
            !old(self).is_processing && old(self).url@.len() > 0 && old(self).output_dir@.len()
                == 0 ==> job is None && Self::only_status_changed(*old(self), *final(self))
                && final(self).status_message@ == "Please select an output directory"@ && final(self).status_level == StatusLevel::Error,
            !old(self).is_processing && old(self).url@.len() > 0 && old(self).output_dir@.len() > 0
                && !Self::can_download(*old(self)) ==> job is None && Self::only_status_changed(
                *old(self),
                *final(self),
            ) && final(self).status_message@
                == "Please fetch and select both video and audio formats"@ && final(self).status_level == StatusLevel::Error,
            !old(self).is_processing && Self::can_download(*old(self)) ==> (job matches Some(req)
                && req.url@ == old(self).url@ && req.output_dir@ == old(self).output_dir@
                && req.mode == old(self).download_type && req.video_format_id@ == old(self).selected_video_format@ && req.audio_format_id@ == old(self).selected_audio_format@)
                && Self::download_started(*old(self), *final(self)),
    {
        if self.is_processing {
            return None;
        }
        if self.url.as_str().is_empty() {
            self.status_message = String::from_str("Please enter a URL first");
            self.status_level = StatusLevel::Error;
            return None;
        }
        if self.output_dir.as_str().is_empty() {
            self.status_message = String::from_str("Please select an output directory");
            self.status_level = StatusLevel::Error;
            return None;
        }
        if self.download_type == DownloadType::VideoAudio && (
        self.selected_video_format.as_str().is_empty()
            || self.selected_audio_format.as_str().is_empty()
            || self.available_video_formats.len() == 0 || self.available_audio_formats.len()
            == 0) {
            self.status_message = String::from_str(
                "Please fetch and select both video and audio formats",
            );
            self.status_level = StatusLevel::Error;
            return None;
        }
        self.status_message = String::from_str("Downloading...");
        self.status_level = StatusLevel::Busy;
        self.is_processing = true;
        self.download_in_flight = true;
        self.download_progress = 0;
        Some(
            DownloadRequest {
                url: self.url.clone(),
                output_dir: self.output_dir.clone(),
                mode: self.download_type,
                video_format_id: self.selected_video_format.clone(),
                audio_format_id: self.selected_audio_format.clone(),
            },
        )
    }

    /// The listing worker's terminal outcome arrives.  On success the
    /// format lists are replaced wholesale, the first entry of each
    /// non-empty list becomes the default selection (an empty list
    /// clears its selection), and the status reports whether anything
    /// usable was found; on failure the message is shown verbatim.
    pub fn apply_fetch_result(&mut self, result: Result<(Vec<Format>, Vec<Format>), String>)
        requires
            old(self).inv(),
            old(self).fetch_in_flight,
        ensures
            final(self).inv(),
            !final(self).is_processing && !final(self).fetch_in_flight,
            Self::listing_consumed(*old(self), *final(self)),
            (result matches Ok(p) ==> {
                &&& final(self).available_video_formats == p.0
                &&& final(self).available_audio_formats == p.1
                &&& p.0@.len() > 0 ==> final(self).selected_video_format@ == p.0@[0].id@
                &&& p.0@.len() == 0 ==> final(self).selected_video_format@.len() == 0
                &&& p.1@.len() > 0 ==> final(self).selected_audio_format@ == p.1@[0].id@
                &&& p.1@.len() == 0 ==> final(self).selected_audio_format@.len() == 0
                &&& (p.0@.len() > 0 && p.1@.len() > 0) ==> final(self).status_message@
                    == "Formats fetched successfully"@ && final(self).status_level
                    == StatusLevel::Success
                &&& !(p.0@.len() > 0 && p.1@.len() > 0) ==> final(self).status_message@
                    == "No formats available or could not distinguish audio/video formats"@
                    && final(self).status_level == StatusLevel::Error
            }),
            (result matches Err(e) ==> final(self).status_message@ == e@ && final(self).status_level == StatusLevel::Error && final(self).available_video_formats == old(self).available_video_formats && final(self).available_audio_formats == old(self).available_audio_formats && final(self).selected_video_format == old(self).selected_video_format && final(self).selected_audio_format == old(self).selected_audio_format),
    {
        match result {
            Ok((videos, audios)) => {
                if videos.len() > 0 {
                    self.selected_video_format = videos[0].id.clone();
                } else {
                    self.selected_video_format = String::new();
                }
                if audios.len() > 0 {
                    self.selected_audio_format = audios[0].id.clone();
                } else {
                    self.selected_audio_format = String::new();
                }
                let usable = videos.len() > 0 && audios.len() > 0;
                self.available_video_formats = videos;
                self.available_audio_formats = audios;
                if usable {
                    self.status_message = String::from_str("Formats fetched successfully");
                    self.status_level = StatusLevel::Success;
                } else {
                    self.status_message = String::from_str(
                        "No formats available or could not distinguish audio/video formats",
                    );
                    self.status_level = StatusLevel::Error;
                }
            },
            Err(e) => {
                self.status_message = e;
                self.status_level = StatusLevel::Error;
            },
        }
        self.is_processing = false;
        self.fetch_in_flight = false;
    }

    /// The download worker's terminal outcome arrives.  Success marks
    /// the progress complete; failure shows the worker's message
    /// verbatim and leaves the progress as it was.
    pub fn apply_download_result(&mut self, result: Result<(), String>)
        requires
            old(self).inv(),
            old(self).download_in_flight,
        ensures
            final(self).inv(),
            !final(self).is_processing && !final(self).download_in_flight,
            Self::download_consumed(*old(self), *final(self)),
            result is Ok ==> final(self).status_message@ == "Download completed successfully"@
                && final(self).status_level == StatusLevel::Success && final(self).download_progress == 100,
            (result matches Err(e) ==> final(self).status_message@ == e@ && final(self).status_level == StatusLevel::Error && final(self).download_progress == old(self).download_progress),
    {
        match result {
            Ok(()) => {
                self.status_message = String::from_str("Download completed successfully");
                self.status_level = StatusLevel::Success;
                self.download_progress = 100;
            },
            Err(e) => {
                self.status_message = e;
                self.status_level = StatusLevel::Error;
            },
        }
        self.is_processing = false;
        self.download_in_flight = false;
    }

    /// A clipboard read finished: its text replaces the URL, and a
    /// failure is reported on the status line.
    pub fn apply_clipboard(&mut self, read: ClipboardRead)
        requires
            old(self).inv(),
        ensures
            final(self).inv(),
            (read matches ClipboardRead::Text(t) ==> *final(self) == (Controller {
                url: final(self).url,
                ..*old(self)
            }) && final(self).url == t),
            read is ReadFailed ==> Self::only_status_changed(*old(self), *final(self)) && final(self).status_message@ == "Failed to paste from clipboard"@ && final(self).status_level
                == StatusLevel::Error,
            read is Unavailable ==> Self::only_status_changed(*old(self), *final(self)) && final(self).status_message@ == "Clipboard access failed"@ && final(self).status_level
                == StatusLevel::Error,
    {
        match read {
            ClipboardRead::Text(t) => {
                self.url = t;
            },
            ClipboardRead::ReadFailed => {
                self.status_message = String::from_str("Failed to paste from clipboard");
                self.status_level = StatusLevel::Error;
            },
            ClipboardRead::Unavailable => {
                self.status_message = String::from_str("Clipboard access failed");
                self.status_level = StatusLevel::Error;
            },
        }
    }

    /// A user picked a video format: accepted exactly when the id names
    /// a record of the current video list.
    pub fn select_video_format(&mut self, id: String) -> (accepted: bool)
        requires
            old(self).inv(),
        ensures
            final(self).inv(),
            accepted == has_id(old(self).available_video_formats@, id@),
            accepted ==> *final(self) == (Controller {
                selected_video_format: final(self).selected_video_format,
                ..*old(self)
            }) && final(self).selected_video_format == id,
            !accepted ==> *final(self) == *old(self),
    {
        let mut i: usize = 0;
        while i < self.available_video_formats.len()
            invariant
                old(self).inv(),
                *self == *old(self),
                0 <= i <= self.available_video_formats@.len(),
                forall|k: int|
                    0 <= k < i ==> (#[trigger] self.available_video_formats@[k]).id@ != id@,
            decreases self.available_video_formats@.len() - i,
        {
            if str_eq(self.available_video_formats[i].id.as_str(), id.as_str()) {
                self.selected_video_format = id;
                proof {
                    assert((self.available_video_formats@[i as int]).id@
                        == self.selected_video_format@);
                }
                return true;
            }
            i = i + 1;
        }
        false
    }

    /// A user picked an audio format: accepted exactly when the id
    /// names a record of the current audio list.
    pub fn select_audio_format(&mut self, id: String) -> (accepted: bool)
        requires
            old(self).inv(),
        ensures
            final(self).inv(),
            accepted == has_id(old(self).available_audio_formats@, id@),
            accepted ==> *final(self) == (Controller {
                selected_audio_format: final(self).selected_audio_format,
                ..*old(self)
            }) && final(self).selected_audio_format == id,
            !accepted ==> *final(self) == *old(self),
    {
        let mut i: usize = 0;
        while i < self.available_audio_formats.len()
            invariant
                old(self).inv(),
                *self == *old(self),
                0 <= i <= self.available_audio_formats@.len(),
                forall|k: int|
                    0 <= k < i ==> (#[trigger] self.available_audio_formats@[k]).id@ != id@,
            decreases self.available_audio_formats@.len() - i,
        {
            if str_eq(self.available_audio_formats[i].id.as_str(), id.as_str()) {
                self.selected_audio_format = id;
                proof {
                    assert((self.available_audio_formats@[i as int]).id@
                        == self.selected_audio_format@);
                }
                return true;
            }
            i = i + 1;
        }
        false
    }

    /// Replaces the status line.
    pub fn set_status(&mut self, message: String, level: StatusLevel)
        requires
            old(self).inv(),
        ensures
            final(self).inv(),
            Self::only_status_changed(*old(self), *final(self)),
            final(self).status_message == message,
            final(self).status_level == level,
    {
        self.status_message = message;
        self.status_level = level;
    }
}

/// Splits parsed records into the video-qualifying and the
/// audio-qualifying subsequences; a record may appear in both.
pub fn partition_formats(formats: &Vec<Format>) -> (r: (Vec<Format>, Vec<Format>))
    ensures
        r.0.deep_view() == video_records(formats.deep_view()),
        r.1.deep_view() == audio_records(formats.deep_view()),
{
    let ghost all = formats.deep_view();
    let mut videos: Vec<Format> = Vec::new();
    let mut audios: Vec<Format> = Vec::new();
    let mut i: usize = 0;
    proof {
        reveal(Seq::filter);
        assert(all.subrange(0, 0) =~= Seq::<FormatModel>::empty());
        assert(videos.deep_view() =~= video_records(all.subrange(0, 0)));
        assert(audios.deep_view() =~= audio_records(all.subrange(0, 0)));
    }
    while i < formats.len()
        invariant
            all == formats.deep_view(),
            0 <= i <= all.len(),
            videos.deep_view() == video_records(all.subrange(0, i as int)),
            audios.deep_view() == audio_records(all.subrange(0, i as int)),
        decreases all.len() - i,
    {
        proof {
            reveal(Seq::filter);
            let pre = all.subrange(0, i as int);
            assert(pre.push(all[i as int]) =~= all.subrange(0, i as int + 1));
            assert(pre.push(all[i as int]).drop_last() =~= pre);
            assert(all[i as int] == formats@[i as int].deep_view());
        }
        let f = &formats[i];
        if f.is_video {
            let ghost old_v = videos.deep_view();
            videos.push(f.clone());
            proof {
                assert(videos.deep_view() =~= old_v.push(formats@[i as int].deep_view()));
            }
        }
        if f.is_audio {
            let ghost old_a = audios.deep_view();
            audios.push(f.clone());
            proof {
                assert(audios.deep_view() =~= old_a.push(formats@[i as int].deep_view()));
            }
        }
        i = i + 1;
    }
    proof {
        assert(all.subrange(0, all.len() as int) =~= all);
    }
    (videos, audios)
}

/// What the listing worker reports once the external tool has run: the
/// tool's error text verbatim on a non-zero exit, otherwise the parsed
/// and partitioned records of its standard output.
pub fn list_formats_outcome(exit_ok: bool, stdout: &str, stderr: String) -> (r: Result<
    (Vec<Format>, Vec<Format>),
    String,
>)
    ensures
        !exit_ok ==> (r matches Err(e) && e == stderr),
        exit_ok ==> (r matches Ok(p) && p.0.deep_view() == video_records(
            spec_parse_formats(stdout@),
        ) && p.1.deep_view() == audio_records(spec_parse_formats(stdout@))),
{
    if !exit_ok {
        return Err(stderr);
    }
    let formats = parse_formats(stdout);
    let (videos, audios) = partition_formats(&formats);
    Ok((videos, audios))
}

/// What the download worker reports once the external tool has run:
/// nothing on success, the tool's error text verbatim otherwise.
pub fn download_outcome(exit_ok: bool, stderr: String) -> (r: Result<(), String>)
    ensures
        exit_ok ==> r is Ok,
        !exit_ok ==> (r matches Err(e) && e == stderr),
{
    if exit_ok {
        Ok(())
    } else {
        Err(stderr)
    }
}

/// The argument list of a list-formats invocation of the external tool.
pub fn list_formats_args(url: &String) -> (args: Vec<String>)
    ensures
        args.deep_view() == seq!["--list-formats"@, url@],
{
    let mut args: Vec<String> = Vec::new();
    args.push(String::from_str("--list-formats"));
    args.push(url.clone());
    proof {
        assert(args.deep_view() =~= seq!["--list-formats"@, url@]);
    }
    args
}

/// The argument list of a download invocation of the external tool:
/// for combined mode a `video+audio` format selector and a forced MP4
/// container, for audio-only mode MP3 extraction; both write to the
/// tool's title-based path template under the output directory.
pub fn download_args(req: &DownloadRequest) -> (args: Vec<String>)
    ensures
        req.mode == DownloadType::VideoAudio ==> args.deep_view() == seq![
            "-f"@,
            req.video_format_id@ + "+"@ + req.audio_format_id@,
            "-o"@,
            req.output_dir@ + "/%(title)s.%(ext)s"@,
            "--merge-output-format"@,
            "mp4"@,
            req.url@,
        ],
        req.mode == DownloadType::AudioOnly ==> args.deep_view() == seq![
            "-x"@,
            "--audio-format"@,
            "mp3"@,
            "-o"@,
            req.output_dir@ + "/%(title)s.%(ext)s"@,
            req.url@,
        ],
{
    let mut template = req.output_dir.clone();
    template.append("/%(title)s.%(ext)s");
    let mut args: Vec<String> = Vec::new();
    if req.mode == DownloadType::VideoAudio {
        let mut selector = req.video_format_id.clone();
        selector.append("+");
        selector.append(req.audio_format_id.as_str());
        args.push(String::from_str("-f"));
        args.push(selector);
        args.push(String::from_str("-o"));
        args.push(template);
        args.push(String::from_str("--merge-output-format"));
        args.push(String::from_str("mp4"));
        args.push(req.url.clone());
        proof {
            assert(args.deep_view() =~= seq![
                "-f"@,
                req.video_format_id@ + "+"@ + req.audio_format_id@,
                "-o"@,
                req.output_dir@ + "/%(title)s.%(ext)s"@,
                "--merge-output-format"@,
                "mp4"@,
                req.url@,
            ]);
        }
    } else {
        args.push(String::from_str("-x"));
        args.push(String::from_str("--audio-format"));
        args.push(String::from_str("mp3"));
        args.push(String::from_str("-o"));
        args.push(template);
        args.push(req.url.clone());
        proof {
            assert(args.deep_view() =~= seq![
                "-x"@,
                "--audio-format"@,
                "mp3"@,
                "-o"@,
                req.output_dir@ + "/%(title)s.%(ext)s"@,
                req.url@,
            ]);
        }
    }
    args
}

} // verus!
