//! The course of a play request, from looking on disk to a stream that runs: each stage is work
//! done outside, and its outcome decides the next stage or ends the request.
use vstd::prelude::*;

use crate::playback::{
    file_url, heavy, is_chromecast, master_url, plan_delivery, stream_begun, unknown_codecs,
    Delivery, PlayError, PlayRequest, StreamFacts,
};
use crate::state::AppState;
use crate::text::{dec, same, starts_with};
use crate::time::{Millis, Timestamp};
use crate::transcode::CodecInfo;

verus! {

/// How long a torrent may take to show any life, in seconds.
pub const LIFE_TIMEOUT_SECS: u64 = 12;

/// How long a download that comes first may take, in seconds.
pub const DOWNLOAD_TIMEOUT_SECS: u64 = 14_400;

/// The work that is to be done next.
#[derive(Debug, Clone, Copy, PartialEq, Eq, Structural)]
pub enum Stage {
    /// Look for the title on disk.
    LookOnDisk,
    /// End the stream before.
    StopPrevious,
    /// See whether the disk has room.
    CheckSpace,
    /// Start the torrent.
    StartTorrent,
    /// See whether it fetches anything.
    AwaitLife,
    /// Wait until it has all been fetched.
    AwaitDownload,
    /// Look on disk for what has been fetched.
    LookForDownload,
    /// Get the subtitles.
    FetchSubtitles,
    /// Find out the codecs.
    Probe,
    /// Start the transcode.
    Transcode,
    /// Wait until the transcode is complete.
    AwaitComplete,
    /// Wait for its first segments.
    Prebuffer,
    /// Load it on the receiver.
    Cast,
    /// Tell the receiver to seek.
    SeekReceiver,
    /// Remember the stream: it runs.
    Remember,
    /// It was given up.
    Failed,
}

/// What came of the work.
#[derive(Debug)]
pub enum Outcome {
    /// It is done, and there is nothing to tell.
    Done,
    /// It could not be done, for this reason.
    Failed(String),
    /// A file was found, or none.
    Found(Option<String>),
    /// The torrent has this id, and its file this address.
    Started(u32, String),
    /// Yes or no.
    Answer(bool),
    /// These are the codecs.
    Codecs(CodecInfo),
    /// Nothing came in so many seconds.
    Nothing(u64),
    /// The task itself broke down.
    Broken(String),
}

/// What has to be undone when a request ends.
#[derive(Debug, Clone, Copy, PartialEq, Eq, Structural)]
pub enum Undo {
    Nothing,
    /// Stop the torrent and throw its files away.
    DropTorrent(u32),
    /// Stop the torrent and keep its files.
    StopTorrent(u32),
    /// End everything that runs.
    Everything,
}

/// How a request ends that plays nothing.
#[derive(Debug)]
pub struct Failure {
    pub error: PlayError,
    pub undo: Undo,
}

/// A play request on its course.
#[derive(Debug)]
pub struct PlayRun {
    pub stage: Stage,
    pub target: String,
    pub smooth: bool,
    pub wants_subtitles: bool,
    pub has_intro: bool,
    pub seeks: bool,
    pub is_local: bool,
    /// Where the source is read from.
    pub source_url: String,
    /// The torrent that serves it; 0 for a local file.
    pub pid: u32,
    pub has_subtitles: bool,
    pub codecs: CodecInfo,
    pub delivery: Option<Delivery>,
    pub is_transcoded: bool,
}

/// The stage behind the source: subtitles where they are wanted, else the codecs.
pub open spec fn after_source(run: PlayRun) -> Stage {
    if run.wants_subtitles {
        Stage::FetchSubtitles
    } else {
        Stage::Probe
    }
}

/// The stage behind the delivery: a Chromecast is loaded, other targets fetch by themselves.
pub open spec fn after_delivery(run: PlayRun) -> Stage {
    if is_chromecast(run.target@) {
        Stage::Cast
    } else {
        Stage::Remember
    }
}

/// `after` is `before` with a local file for its source.
pub open spec fn made_local(before: PlayRun, after: PlayRun, path: String, stage: Stage) -> bool {
    &&& after == (PlayRun { is_local: true, source_url: after.source_url, stage, ..before })
    &&& after.source_url@ == "file://"@ + path@
}

/// A request that ended.
pub open spec fn gave_up(
    before: PlayRun,
    after: PlayRun,
    r: Result<(), Failure>,
    error: PlayError,
    undo: Undo,
) -> bool {
    &&& after == (PlayRun { stage: Stage::Failed, ..before })
    &&& r == Err::<(), Failure>(Failure { error, undo })
}

/// A request that went on to a stage, with nothing else changed.
pub open spec fn went_on(before: PlayRun, after: PlayRun, r: Result<(), Failure>, stage: Stage) -> bool {
    &&& r is Ok
    &&& after == (PlayRun { stage, ..before })
}

/// An outcome that a stage does not have.
pub open spec fn is_out_of_place(stage: Stage, outcome: Outcome) -> bool {
    match stage {
        Stage::LookOnDisk => !(outcome is Found),
        Stage::StopPrevious => !(outcome is Done),
        Stage::CheckSpace => !(outcome is Done || outcome is Failed),
        Stage::StartTorrent => !(outcome is Started || outcome is Failed),
        Stage::AwaitLife => !(outcome is Answer),
        Stage::AwaitDownload => !(outcome is Done || outcome is Failed),
        Stage::LookForDownload => !(outcome is Found),
        Stage::FetchSubtitles => !(outcome is Answer),
        Stage::Probe => !(outcome is Codecs || outcome is Failed),
        Stage::Transcode => !(outcome is Done || outcome is Failed),
        Stage::AwaitComplete => !(outcome is Done || outcome is Failed),
        Stage::Prebuffer => !(outcome is Done || outcome is Nothing),
        Stage::Cast => !(outcome is Done || outcome is Failed || outcome is Broken),
        Stage::SeekReceiver => !(outcome is Done),
        Stage::Remember => true,
        Stage::Failed => true,
    }
}

/// What is known of a source that could not be probed.
pub open spec fn is_unknown(c: CodecInfo) -> bool {
    &&& c.video_codec is None
    &&& c.audio_codec is None
    &&& c.duration is None
    &&& c.audio_stream@ == "0:a:0"@
    &&& c.audio_index == 0
}

/// `d` is how a source of these codecs is delivered.
pub open spec fn is_delivery(d: Delivery, run: PlayRun, codecs: CodecInfo) -> bool {
    let cc = is_chromecast(run.target@);
    &&& d.audio_transcode == heavy(codecs.audio_codec, false)
    &&& d.video_transcode == (cc || heavy(codecs.video_codec, true))
    &&& d.use_hls == (cc || d.audio_transcode || d.video_transcode || run.has_intro
        || run.has_subtitles || run.is_local)
    &&& d.prepared == (cc && run.is_local)
}

/// What an outcome does to a request.
pub open spec fn advanced(
    before: PlayRun,
    outcome: Outcome,
    after: PlayRun,
    r: Result<(), Failure>,
) -> bool {
    let cc = is_chromecast(before.target@);
    if is_out_of_place(before.stage, outcome) {
        r is Ok && after == before
    } else {
        match (before.stage, outcome) {
            (Stage::LookOnDisk, Outcome::Found(Some(path))) => r is Ok && made_local(
                before,
                after,
                path,
                Stage::StopPrevious,
            ),
            (Stage::LookOnDisk, _) => went_on(before, after, r, Stage::StopPrevious),
            (Stage::StopPrevious, _) => went_on(
                before,
                after,
                r,
                if before.is_local {
                    after_source(before)
                } else {
                    Stage::CheckSpace
                },
            ),
            (Stage::CheckSpace, Outcome::Failed(e)) => gave_up(
                before,
                after,
                r,
                PlayError::Other(e),
                Undo::Nothing,
            ),
            (Stage::CheckSpace, _) => went_on(before, after, r, Stage::StartTorrent),
            (Stage::StartTorrent, Outcome::Started(pid, url)) => r is Ok && after == (PlayRun {
                pid,
                source_url: url,
                stage: Stage::AwaitLife,
                ..before
            }),
            (Stage::StartTorrent, Outcome::Failed(e)) => gave_up(
                before,
                after,
                r,
                PlayError::Other(e),
                Undo::Nothing,
            ),
            (Stage::AwaitLife, Outcome::Answer(alive)) => if !alive {
                gave_up(before, after, r, PlayError::NoSeeds, Undo::DropTorrent(before.pid))
            } else if before.smooth && cc {
                went_on(before, after, r, Stage::AwaitDownload)
            } else {
                went_on(before, after, r, after_source(before))
            },
            (Stage::AwaitDownload, Outcome::Failed(e)) => gave_up(
                before,
                after,
                r,
                PlayError::SmoothGate(e),
                Undo::StopTorrent(before.pid),
            ),
            (Stage::AwaitDownload, _) => went_on(before, after, r, Stage::LookForDownload),
            (Stage::LookForDownload, Outcome::Found(Some(path))) => r is Ok && made_local(
                before,
                after,
                path,
                after_source(before),
            ),
            (Stage::LookForDownload, _) => gave_up(
                before,
                after,
                r,
                PlayError::SmoothNoFile,
                Undo::Nothing,
            ),
            (Stage::FetchSubtitles, Outcome::Answer(got)) => r is Ok && after == (PlayRun {
                has_subtitles: got,
                stage: Stage::Probe,
                ..before
            }),
            (Stage::Probe, _) => {
                &&& r is Ok
                &&& after == (PlayRun {
                    codecs: after.codecs,
                    delivery: after.delivery,
                    stage: after.stage,
                    ..before
                })
                &&& match outcome {
                    Outcome::Codecs(c) => after.codecs == c,
                    _ => is_unknown(after.codecs),
                }
                &&& after.delivery is Some
                &&& is_delivery(after.delivery->0, before, after.codecs)
                &&& after.stage == if (after.delivery->0).use_hls {
                    Stage::Transcode
                } else {
                    after_delivery(before)
                }
            },
            (Stage::Transcode, Outcome::Failed(e)) => if cc {
                gave_up(before, after, r, PlayError::HlsRequired(e), Undo::Nothing)
            } else {
                went_on(before, after, r, Stage::Remember)
            },
            (Stage::Transcode, _) => went_on(
                before,
                after,
                r,
                if cc && before.is_local {
                    Stage::AwaitComplete
                } else {
                    Stage::Prebuffer
                },
            ),
            (Stage::AwaitComplete, Outcome::Failed(e)) => gave_up(
                before,
                after,
                r,
                PlayError::CompletionGate(e),
                Undo::Everything,
            ),
            (Stage::Prebuffer, Outcome::Nothing(secs)) => gave_up(
                before,
                after,
                r,
                PlayError::FailFast(secs),
                Undo::Everything,
            ),
            (Stage::AwaitComplete, _) | (Stage::Prebuffer, _) => r is Ok && after == (PlayRun {
                is_transcoded: true,
                stage: after_delivery(before),
                ..before
            }),
            (Stage::Cast, Outcome::Failed(e)) => gave_up(
                before,
                after,
                r,
                PlayError::CastFailed(e),
                Undo::Everything,
            ),
            (Stage::Cast, Outcome::Broken(e)) => gave_up(
                before,
                after,
                r,
                PlayError::CastTaskFailed(e),
                Undo::Everything,
            ),
            (Stage::Cast, _) => went_on(
                before,
                after,
                r,
                if !before.is_transcoded && before.seeks {
                    Stage::SeekReceiver
                } else {
                    Stage::Remember
                },
            ),
            (Stage::SeekReceiver, _) => went_on(before, after, r, Stage::Remember),
            _ => false,
        }
    }
}

/// The address that a request plays from: the master playlist of its transcode, or the source
/// itself.
pub open spec fn url_of(run: PlayRun, stream_host: Seq<char>, port: u16) -> Seq<char> {
    if run.is_transcoded {
        "http://"@ + stream_host + ":"@ + dec(port as nat) + "/hls/master.m3u8"@
    } else {
        run.source_url@
    }
}

/// `f` tells what has come of a request.
pub open spec fn is_facts_of(f: StreamFacts, run: PlayRun, stream_host: Seq<char>, port: u16) -> bool {
    &&& f.target@ == run.target@
    &&& f.url@ == url_of(run, stream_host, port)
    &&& f.pid == run.pid
    &&& f.has_subtitles == run.has_subtitles
    &&& f.duration == run.codecs.duration
    &&& f.is_transcoded == run.is_transcoded
    &&& f.is_local == run.is_local
    &&& f.has_intro == run.has_intro
}

/// `run` is a request at its start.
pub open spec fn is_new_run(
    run: PlayRun,
    target: String,
    titled: bool,
    smooth: bool,
    wants_subtitles: bool,
    has_intro: bool,
    seeks: bool,
) -> bool {
    &&& run.stage == if titled {
        Stage::LookOnDisk
    } else {
        Stage::StopPrevious
    }
    &&& run.target == target
    &&& run.smooth == smooth
    &&& run.wants_subtitles == wants_subtitles
    &&& run.has_intro == has_intro
    &&& run.seeks == seeks
    &&& !run.is_local
    &&& run.source_url@.len() == 0
    &&& run.pid == 0
    &&& !run.has_subtitles
    &&& is_unknown(run.codecs)
    &&& run.delivery is None
    &&& !run.is_transcoded
}

impl PlayRun {
    /// A request at its start: a title is looked for on disk first.
    pub fn new(
        target: String,
        titled: bool,
        smooth: bool,
        wants_subtitles: bool,
        has_intro: bool,
        seeks: bool,
    ) -> (r: PlayRun)
        ensures
            is_new_run(r, target, titled, smooth, wants_subtitles, has_intro, seeks),
            in_order(r),
    {
        PlayRun {
            stage: if titled {
                Stage::LookOnDisk
            } else {
                Stage::StopPrevious
            },
            target,
            smooth,
            wants_subtitles,
            has_intro,
            seeks,
            is_local: false,
            source_url: String::new(),
            pid: 0,
            has_subtitles: false,
            codecs: unknown_codecs(),
            delivery: None,
            is_transcoded: false,
        }
    }

    /// Takes in whether the stream is to begin at a position that was asked for or remembered.
    pub fn note_seek(&mut self, seeks: bool)
        ensures
            *final(self) == (PlayRun { seeks, ..*old(self) }),
    {
        self.seeks = seeks;
    }

    /// The address that the request plays from.
    pub fn url(&self, stream_host: &str, port: u16) -> (r: String)
        ensures
            r@ == url_of(*self, stream_host@, port),
    {
        if self.is_transcoded {
            master_url(stream_host, port)
        } else {
            self.source_url.clone()
        }
    }

    /// Tells what has come of the request, with what was decided beside it.
    pub fn facts(
        &self,
        magnet: String,
        cast_name: String,
        subtitle_lang: String,
        seek_to: Option<Millis>,
        cache_enabled: bool,
        stream_host: &str,
        port: u16,
    ) -> (r: StreamFacts)
        ensures
            is_facts_of(r, *self, stream_host@, port),
            r.magnet == magnet,
            r.cast_name == cast_name,
            r.subtitle_lang == subtitle_lang,
            r.seek_to == seek_to,
            r.cache_enabled == cache_enabled,
    {
        StreamFacts {
            magnet,
            target: self.target.clone(),
            cast_name,
            url: self.url(stream_host, port),
            pid: self.pid,
            has_subtitles: self.has_subtitles,
            subtitle_lang,
            duration: self.codecs.duration,
            is_transcoded: self.is_transcoded,
            is_local: self.is_local,
            has_intro: self.has_intro,
            seek_to,
            cache_enabled,
        }
    }

    fn chromecast(&self) -> (r: bool)
        ensures
            r == is_chromecast(self.target@),
    {
        same(self.target.as_str(), "chromecast")
    }

    fn source_stage(&self) -> (r: Stage)
        ensures
            r == after_source(*self),
    {
        if self.wants_subtitles {
            Stage::FetchSubtitles
        } else {
            Stage::Probe
        }
    }

    fn delivered_stage(&self) -> (r: Stage)
        ensures
            r == after_delivery(*self),
    {
        if self.chromecast() {
            Stage::Cast
        } else {
            Stage::Remember
        }
    }

    fn give_up(&mut self, error: PlayError, undo: Undo) -> (r: Result<(), Failure>)
        ensures
            gave_up(*old(self), *final(self), r, error, undo),
    {
        self.stage = Stage::Failed;
        Err(Failure { error, undo })
    }

    fn settle_delivery(&mut self, codecs: CodecInfo)
        ensures
            *final(self) == (PlayRun {
                codecs,
                delivery: final(self).delivery,
                stage: final(self).stage,
                ..*old(self)
            }),
            final(self).delivery is Some,
            is_delivery(final(self).delivery->0, *old(self), codecs),
            final(self).stage == if (final(self).delivery->0).use_hls {
                Stage::Transcode
            } else {
                after_delivery(*old(self))
            },
    {
        let d = plan_delivery(
            self.target.as_str(),
            &codecs,
            self.has_intro,
            self.has_subtitles,
            self.is_local,
        );
        let next = if d.use_hls {
            Stage::Transcode
        } else {
            self.delivered_stage()
        };
        self.codecs = codecs;
        self.delivery = Some(d);
        self.stage = next;
    }

    /// Takes in what came of the work of the present stage, and goes on to the next one or ends.
    /// An outcome that the stage does not have changes nothing.
    pub fn advance(&mut self, outcome: Outcome) -> (r: Result<(), Failure>)
        ensures
            advanced(*old(self), outcome, *final(self), r),
    {
        match (self.stage, outcome) {
            (Stage::LookOnDisk, Outcome::Found(found)) => {
                if let Some(path) = found {
                    self.is_local = true;
                    self.source_url = file_url(path.as_str());
                }
                self.stage = Stage::StopPrevious;
                Ok(())
            },
            (Stage::StopPrevious, Outcome::Done) => {
                let next = if self.is_local {
                    self.source_stage()
                } else {
                    Stage::CheckSpace
                };
                self.stage = next;
                Ok(())
            },
            (Stage::CheckSpace, Outcome::Failed(e)) => self.give_up(
                PlayError::Other(e),
                Undo::Nothing,
            ),
            (Stage::CheckSpace, Outcome::Done) => {
                self.stage = Stage::StartTorrent;
                Ok(())
            },
            (Stage::StartTorrent, Outcome::Started(pid, url)) => {
                self.pid = pid;
                self.source_url = url;
                self.stage = Stage::AwaitLife;
                Ok(())
            },
            (Stage::StartTorrent, Outcome::Failed(e)) => self.give_up(
                PlayError::Other(e),
                Undo::Nothing,
            ),
            (Stage::AwaitLife, Outcome::Answer(alive)) => {
                if !alive {
                    let pid = self.pid;
                    return self.give_up(PlayError::NoSeeds, Undo::DropTorrent(pid));
                }
                let next = if self.smooth && self.chromecast() {
                    Stage::AwaitDownload
                } else {
                    self.source_stage()
                };
                self.stage = next;
                Ok(())
            },
            (Stage::AwaitDownload, Outcome::Failed(e)) => {
                let pid = self.pid;
                self.give_up(PlayError::SmoothGate(e), Undo::StopTorrent(pid))
            },
            (Stage::AwaitDownload, Outcome::Done) => {
                self.stage = Stage::LookForDownload;
                Ok(())
            },
            (Stage::LookForDownload, Outcome::Found(found)) => match found {
                Some(path) => {
                    let next = self.source_stage();
                    self.is_local = true;
                    self.source_url = file_url(path.as_str());
                    self.stage = next;
                    Ok(())
                },
                None => self.give_up(PlayError::SmoothNoFile, Undo::Nothing),
            },
            (Stage::FetchSubtitles, Outcome::Answer(got)) => {
                self.has_subtitles = got;
                self.stage = Stage::Probe;
                Ok(())
            },
            (Stage::Probe, Outcome::Codecs(codecs)) => {
                self.settle_delivery(codecs);
                Ok(())
            },
            (Stage::Probe, Outcome::Failed(_)) => {
                self.settle_delivery(unknown_codecs());
                Ok(())
            },
            (Stage::Transcode, Outcome::Failed(e)) => {
                if self.chromecast() {
                    return self.give_up(PlayError::HlsRequired(e), Undo::Nothing);
                }
                self.stage = Stage::Remember;
                Ok(())
            },
            (Stage::Transcode, Outcome::Done) => {
                let next = if self.chromecast() && self.is_local {
                    Stage::AwaitComplete
                } else {
                    Stage::Prebuffer
                };
                self.stage = next;
                Ok(())
            },
            (Stage::AwaitComplete, Outcome::Failed(e)) => self.give_up(
                PlayError::CompletionGate(e),
                Undo::Everything,
            ),
            (Stage::AwaitComplete, Outcome::Done) => {
                let next = self.delivered_stage();
                self.is_transcoded = true;
                self.stage = next;
                Ok(())
            },
            (Stage::Prebuffer, Outcome::Nothing(secs)) => self.give_up(
                PlayError::FailFast(secs),
                Undo::Everything,
            ),
            (Stage::Prebuffer, Outcome::Done) => {
                let next = self.delivered_stage();
                self.is_transcoded = true;
                self.stage = next;
                Ok(())
            },
            (Stage::Cast, Outcome::Failed(e)) => self.give_up(
                PlayError::CastFailed(e),
                Undo::Everything,
            ),
            (Stage::Cast, Outcome::Broken(e)) => self.give_up(
                PlayError::CastTaskFailed(e),
                Undo::Everything,
            ),
            (Stage::Cast, Outcome::Done) => {
                let next = if !self.is_transcoded && self.seeks {
                    Stage::SeekReceiver
                } else {
                    Stage::Remember
                };
                self.stage = next;
                Ok(())
            },
            (Stage::SeekReceiver, Outcome::Done) => {
                self.stage = Stage::Remember;
                Ok(())
            },
            _ => Ok(()),
        }
    }
}

// ----------------------------------------------------------------------- laws
/// What holds of a request at every stage.
pub open spec fn in_order(run: PlayRun) -> bool {
    let cc = is_chromecast(run.target@);
    // A Chromecast is loaded, and a stream to it runs, only from a transcode.
    &&& (run.stage is Cast || run.stage is SeekReceiver) ==> cc
    &&& cc && (run.stage is Cast || run.stage is SeekReceiver || run.stage is Remember)
        ==> run.is_transcoded
    // A local source is a file.
    &&& run.is_local ==> starts_with(run.source_url@, "file://"@)
    // The ways of a local source and of a torrent part before the torrent is started.
    &&& (run.stage is CheckSpace || run.stage is StartTorrent || run.stage is AwaitLife
        || run.stage is AwaitDownload || run.stage is LookForDownload) ==> !run.is_local
}

/// A request stays in order whatever comes of its work: a Chromecast is never given anything but
/// a transcode.
pub proof fn requests_stay_in_order(
    before: PlayRun,
    outcome: Outcome,
    after: PlayRun,
    r: Result<(), Failure>,
)
    requires
        in_order(before),
        advanced(before, outcome, after, r),
    ensures
        in_order(after),
{
    reveal_strlit("file://");
    if before.stage is LookOnDisk && outcome matches Outcome::Found(Some(path)) {
        let p = "file://"@;
        assert(after.source_url@.subrange(0, p.len() as int) =~= p);
    }
    if before.stage is LookForDownload && outcome matches Outcome::Found(Some(path)) {
        let p = "file://"@;
        assert(after.source_url@.subrange(0, p.len() as int) =~= p);
    }
}

/// A Chromecast is loaded from the master playlist, and that is what is remembered of its stream:
/// never a torrent's address, nor a file's.
pub proof fn a_chromecast_plays_the_master_playlist(
    run: PlayRun,
    req: PlayRequest,
    f: StreamFacts,
    before: AppState,
    after: AppState,
    now: Timestamp,
    stream_host: Seq<char>,
    port: u16,
)
    requires
        in_order(run),
        is_chromecast(run.target@),
        run.stage is Cast || run.stage is SeekReceiver || run.stage is Remember,
        is_facts_of(f, run, stream_host, port),
        stream_begun(before, after, req, f, now),
    ensures
        url_of(run, stream_host, port) == "http://"@ + stream_host + ":"@ + dec(port as nat)
            + "/hls/master.m3u8"@,
        after.current->0.url@ == "http://"@ + stream_host + ":"@ + dec(port as nat)
            + "/hls/master.m3u8"@,
        after.current->0.target@ == "chromecast"@ + ":"@ + f.cast_name@,
{
}

/// A request that ends once its transcode runs undoes everything; one that ends before leaves no
/// torrent that is known to be dead.
pub proof fn failures_are_undone(
    before: PlayRun,
    outcome: Outcome,
    after: PlayRun,
    r: Result<(), Failure>,
)
    requires
        advanced(before, outcome, after, r),
        r is Err,
    ensures
        after.stage is Failed,
        before.stage is AwaitComplete || before.stage is Prebuffer || before.stage is Cast
            ==> (r->Err_0).undo is Everything,
        before.stage is AwaitLife ==> (r->Err_0).undo == Undo::DropTorrent(before.pid),
{
}

/// How far a stage lies from the end.
pub open spec fn distance_to_end(stage: Stage) -> nat {
    match stage {
        Stage::LookOnDisk => 14,
        Stage::StopPrevious => 13,
        Stage::CheckSpace => 12,
        Stage::StartTorrent => 11,
        Stage::AwaitLife => 10,
        Stage::AwaitDownload => 9,
        Stage::LookForDownload => 8,
        Stage::FetchSubtitles => 7,
        Stage::Probe => 6,
        Stage::Transcode => 5,
        Stage::AwaitComplete => 4,
        Stage::Prebuffer => 3,
        Stage::Cast => 2,
        Stage::SeekReceiver => 1,
        Stage::Remember => 0,
        Stage::Failed => 0,
    }
}

/// Every outcome that fits its stage brings a request nearer to its end: none goes round in
/// circles.
pub proof fn requests_come_to_an_end(
    before: PlayRun,
    outcome: Outcome,
    after: PlayRun,
    r: Result<(), Failure>,
)
    requires
        advanced(before, outcome, after, r),
        !is_out_of_place(before.stage, outcome),
    ensures
        distance_to_end(after.stage) < distance_to_end(before.stage),
{
}

} // verus!
