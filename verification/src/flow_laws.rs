//! How a request comes to play, stage by stage: what each outcome leaves known, and where it leads.
use vstd::prelude::*;

use crate::play_flow::{
    advanced, is_delivery, is_facts_of, is_new_run, url_of, Failure, Outcome, PlayRun, Stage, Undo,
};
use crate::playback::{PlayError, StreamFacts};
use crate::text::dec;

verus! {

/// The stage at which a source that is known is looked at: its subtitles are fetched first where
/// they are wanted.
pub open spec fn looks_at_source(run: PlayRun, stage: Stage) -> bool {
    if run.wants_subtitles {
        stage is FetchSubtitles
    } else {
        stage is Probe
    }
}

/// The stage at which a stream that is ready goes out: a Chromecast is loaded, and nothing else is.
pub open spec fn goes_out(run: PlayRun, stage: Stage) -> bool {
    if run.target@ == "chromecast"@ {
        stage is Cast
    } else {
        stage is Remember
    }
}

/// A request begins with a look on disk where it has a title, and with an end to what plays where
/// it has none; nothing is known of its source yet.
pub proof fn requests_begin_with_what_is_here(
    run: PlayRun,
    target: String,
    titled: bool,
    smooth: bool,
    wants_subtitles: bool,
    has_intro: bool,
    seeks: bool,
)
    requires
        is_new_run(run, target, titled, smooth, wants_subtitles, has_intro, seeks),
    ensures
        titled ==> run.stage is LookOnDisk,
        !titled ==> run.stage is StopPrevious,
        run.target == target,
        run.smooth == smooth,
        run.wants_subtitles == wants_subtitles,
        run.has_intro == has_intro,
        run.seeks == seeks,
        !run.is_local,
        !run.has_subtitles,
        !run.is_transcoded,
        run.pid == 0,
        run.source_url@.len() == 0,
        run.delivery is None,
        run.codecs.video_codec is None && run.codecs.audio_codec is None && run.codecs.duration
            is None,
        run.codecs.audio_stream@ == "0:a:0"@ && run.codecs.audio_index == 0,
{
}

/// What an outcome tells is known behind it: the file that was found, the torrent and its address,
/// whether there are subtitles, and what the source is made of. What was asked for never changes.
pub proof fn outcomes_are_taken_in(
    before: PlayRun,
    outcome: Outcome,
    after: PlayRun,
    r: Result<(), Failure>,
)
    requires
        advanced(before, outcome, after, r),
    ensures
        after.target == before.target,
        after.smooth == before.smooth,
        after.wants_subtitles == before.wants_subtitles,
        after.has_intro == before.has_intro,
        after.seeks == before.seeks,
        (before.stage is LookOnDisk || before.stage is LookForDownload) && outcome is Found
            && outcome->Found_0 is Some ==> after.is_local && after.source_url@ == "file://"@ + (
        outcome->Found_0->0)@,
        before.stage is LookOnDisk && outcome is Found && outcome->Found_0 is None
            ==> after.is_local == before.is_local && after.source_url == before.source_url,
        before.stage is StartTorrent && outcome is Started ==> after.pid == outcome->Started_0
            && after.source_url == outcome->Started_1,
        before.stage is FetchSubtitles && outcome is Answer ==> after.has_subtitles
            == outcome->Answer_0,
        before.stage is Probe && outcome is Codecs ==> after.codecs == outcome->Codecs_0,
        before.stage is Probe && outcome is Failed ==> after.codecs.video_codec is None
            && after.codecs.audio_codec is None && after.codecs.duration is None
            && after.codecs.audio_index == 0 && after.codecs.audio_stream@ == "0:a:0"@,
        (before.stage is AwaitComplete || before.stage is Prebuffer) && outcome is Done
            ==> after.is_transcoded,
        !(before.stage is AwaitComplete || before.stage is Prebuffer) ==> after.is_transcoded
            == before.is_transcoded,
        !(before.stage is StartTorrent) ==> after.pid == before.pid,
        !(before.stage is FetchSubtitles) ==> after.has_subtitles == before.has_subtitles,
        !(before.stage is LookOnDisk || before.stage is LookForDownload) ==> after.is_local
            == before.is_local,
{
}

/// How a source is come by: what is on disk is played from there; else a torrent is started where
/// the disk has room, and goes on where it shows life. One for a Chromecast that is to play smoothly
/// is fetched in full and played from disk.
pub proof fn sources_are_come_by(
    before: PlayRun,
    outcome: Outcome,
    after: PlayRun,
    r: Result<(), Failure>,
)
    requires
        advanced(before, outcome, after, r),
    ensures
        before.stage is LookOnDisk && outcome is Found ==> r is Ok && after.stage is StopPrevious,
        before.stage is StopPrevious && outcome is Done && before.is_local ==> r is Ok
            && looks_at_source(before, after.stage),
        before.stage is StopPrevious && outcome is Done && !before.is_local ==> r is Ok
            && after.stage is CheckSpace,
        before.stage is CheckSpace && outcome is Done ==> r is Ok && after.stage is StartTorrent,
        before.stage is StartTorrent && outcome is Started ==> r is Ok && after.stage is AwaitLife,
        before.stage is AwaitLife && outcome is Answer && outcome->Answer_0 && before.smooth
            && before.target@ == "chromecast"@ ==> r is Ok && after.stage is AwaitDownload,
        before.stage is AwaitLife && outcome is Answer && outcome->Answer_0 && !(before.smooth
            && before.target@ == "chromecast"@) ==> r is Ok && looks_at_source(
            before,
            after.stage,
        ),
        before.stage is AwaitDownload && outcome is Done ==> r is Ok && after.stage
            is LookForDownload,
        before.stage is LookForDownload && outcome is Found && outcome->Found_0 is Some ==> r is Ok
            && looks_at_source(before, after.stage),
        before.stage is FetchSubtitles && outcome is Answer ==> r is Ok && after.stage is Probe,
{
}

/// How a source that is known goes out: through a transcode where it needs one, complete first
/// where it is a file for a Chromecast; and a Chromecast that is given no transcode is told where
/// to begin. A target that takes the source itself is left with it where the transcode fails.
pub proof fn streams_go_out(
    before: PlayRun,
    outcome: Outcome,
    after: PlayRun,
    r: Result<(), Failure>,
)
    requires
        advanced(before, outcome, after, r),
    ensures
        before.stage is Probe && (outcome is Codecs || outcome is Failed) ==> r is Ok
            && after.delivery is Some && is_delivery(after.delivery->0, before, after.codecs) && (
        if (after.delivery->0).use_hls {
            after.stage is Transcode
        } else {
            goes_out(before, after.stage)
        }),
        before.stage is Transcode && outcome is Done && before.target@ == "chromecast"@
            && before.is_local ==> r is Ok && after.stage is AwaitComplete,
        before.stage is Transcode && outcome is Done && !(before.target@ == "chromecast"@
            && before.is_local) ==> r is Ok && after.stage is Prebuffer,
        before.stage is Transcode && outcome is Failed && before.target@ != "chromecast"@ ==> r is Ok
            && after.stage is Remember && after.source_url == before.source_url,
        (before.stage is AwaitComplete || before.stage is Prebuffer) && outcome is Done ==> r is Ok
            && goes_out(before, after.stage),
        before.stage is Cast && outcome is Done && before.seeks && !before.is_transcoded ==> r is Ok
            && after.stage is SeekReceiver,
        before.stage is Cast && outcome is Done && !(before.seeks && !before.is_transcoded) ==> r
            is Ok && after.stage is Remember,
        before.stage is SeekReceiver && outcome is Done ==> r is Ok && after.stage is Remember,
{
}

/// A request that cannot go on says why, and what is to be undone: a dead torrent is dropped with
/// its files, one that was to be fetched first is stopped and keeps them, and once a transcode runs
/// everything ends.
pub proof fn failures_say_why(
    before: PlayRun,
    outcome: Outcome,
    after: PlayRun,
    r: Result<(), Failure>,
)
    requires
        advanced(before, outcome, after, r),
    ensures
        r is Err ==> after.stage is Failed,
        (before.stage is CheckSpace || before.stage is StartTorrent) && outcome is Failed ==> r
            is Err && (r->Err_0).error == PlayError::Other(outcome->Failed_0) && (r->Err_0).undo
            is Nothing,
        before.stage is AwaitLife && outcome is Answer && !outcome->Answer_0 ==> r is Err && (
        r->Err_0).error is NoSeeds && (r->Err_0).undo == Undo::DropTorrent(before.pid),
        before.stage is AwaitDownload && outcome is Failed ==> r is Err && (r->Err_0).error
            == PlayError::SmoothGate(outcome->Failed_0) && (r->Err_0).undo == Undo::StopTorrent(
            before.pid,
        ),
        before.stage is LookForDownload && outcome is Found && outcome->Found_0 is None ==> r is Err
            && (r->Err_0).error is SmoothNoFile,
        before.stage is Transcode && outcome is Failed && before.target@ == "chromecast"@ ==> r
            is Err && (r->Err_0).error == PlayError::HlsRequired(outcome->Failed_0),
        before.stage is AwaitComplete && outcome is Failed ==> r is Err && (r->Err_0).error
            == PlayError::CompletionGate(outcome->Failed_0) && (r->Err_0).undo is Everything,
        before.stage is Prebuffer && outcome is Nothing ==> r is Err && (r->Err_0).error
            == PlayError::FailFast(outcome->Nothing_0) && (r->Err_0).undo is Everything,
        before.stage is Cast && outcome is Failed ==> r is Err && (r->Err_0).error
            == PlayError::CastFailed(outcome->Failed_0) && (r->Err_0).undo is Everything,
        before.stage is Cast && outcome is Broken ==> r is Err && (r->Err_0).error
            == PlayError::CastTaskFailed(outcome->Broken_0) && (r->Err_0).undo is Everything,
{
}

/// What is told of a request that plays is what came of it, and its address is that of its
/// transcode where it has one and of its source where it has none.
pub proof fn requests_tell_what_came_of_them(
    f: StreamFacts,
    run: PlayRun,
    stream_host: Seq<char>,
    port: u16,
)
    requires
        is_facts_of(f, run, stream_host, port),
    ensures
        run.is_transcoded ==> f.url@ == "http://"@ + stream_host + ":"@ + dec(port as nat)
            + "/hls/master.m3u8"@,
        !run.is_transcoded ==> f.url@ == run.source_url@,
        f.url@ == url_of(run, stream_host, port),
        f.target@ == run.target@,
        f.pid == run.pid,
        f.has_subtitles == run.has_subtitles,
        f.duration == run.codecs.duration,
        f.is_transcoded == run.is_transcoded,
        f.is_local == run.is_local,
        f.has_intro == run.has_intro,
{
}

/// A request that is over stays as it is, whatever else is heard of it; so does one that hears what
/// it did not ask for.
pub proof fn what_is_over_stays_over(
    before: PlayRun,
    outcome: Outcome,
    after: PlayRun,
    r: Result<(), Failure>,
)
    requires
        advanced(before, outcome, after, r),
    ensures
        before.stage is Failed || before.stage is Remember ==> r is Ok && after == before,
        before.stage is LookOnDisk && !(outcome is Found) ==> r is Ok && after == before,
        before.stage is StartTorrent && !(outcome is Started || outcome is Failed) ==> r is Ok
            && after == before,
        before.stage is Probe && !(outcome is Codecs || outcome is Failed) ==> r is Ok && after
            == before,
        before.stage is Cast && !(outcome is Done || outcome is Failed || outcome is Broken) ==> r
            is Ok && after == before,
{
}

} // verus!
