//! The decisions of a download: whether the server's answer is accepted,
//! and how far the transfer has come.
//!
//! The caller talks to the server and writes the file. It tells the
//! `Download` what happened, and is told what to do next.

use vstd::prelude::*;
use crate::error::InstallError;

verus! {

/// How far a download has come.
#[derive(Debug, Clone, Copy, PartialEq, Eq)]
pub enum Download {
    /// The request is sent; no answer has come.
    Waiting,
    /// The body is being received: `downloaded` bytes of `total` are
    /// written. A `total` of zero says that the size is not known.
    Receiving { total: u64, downloaded: u64 },
    /// The whole body is written.
    Complete,
    /// The server refused.
    Failed,
}

/// What happened on the connection.
#[derive(Debug, Clone, Copy, PartialEq, Eq)]
pub enum DownloadEvent {
    /// The server answered with this status and, if it said so, this
    /// length of the body.
    Response { status: u16, content_length: Option<u64> },
    /// This many bytes of the body were read; none at its end.
    Read(usize),
}

/// What the caller is to do next.
#[derive(Debug, Clone, Copy, PartialEq, Eq)]
pub enum DownloadAction {
    /// Create the file and show progress towards `total` bytes.
    CreateFile { total: u64 },
    /// Write the bytes that were read and show that `position` bytes are
    /// written.
    Write { position: u64 },
    /// Close the file: the download is complete.
    Finish,
    /// Give up: the server answered with this status.
    Fail { status: u16 },
    /// Nothing: the event does not belong here.
    Nothing,
}

/// Whether `status` says that the request succeeded.
pub open spec fn is_success(status: u16) -> bool {
    200 <= status < 300
}

/// `downloaded` and `read` together, held at the largest number.
pub open spec fn advanced(downloaded: u64, read: usize) -> u64 {
    if downloaded + read > u64::MAX {
        u64::MAX
    } else {
        (downloaded + read) as u64
    }
}

/// The state after `event` and what the caller is to do. An answer that is
/// no success fails the download before any file is made. An accepted
/// answer has the file made. Bytes that were read are written and counted.
/// A read of nothing ends the body. An event that does not belong to the
/// state changes nothing.
pub open spec fn next(state: Download, event: DownloadEvent) -> (Download, DownloadAction) {
    match (state, event) {
        (Download::Waiting, DownloadEvent::Response { status, content_length }) => {
            if is_success(status) {
                let total = match content_length {
                    Some(length) => length,
                    None => 0,
                };
                (Download::Receiving { total, downloaded: 0 }, DownloadAction::CreateFile { total })
            } else {
                (Download::Failed, DownloadAction::Fail { status })
            }
        },
        (Download::Receiving { total, downloaded }, DownloadEvent::Read(read)) => {
            if read == 0 {
                (Download::Complete, DownloadAction::Finish)
            } else {
                (
                    Download::Receiving { total, downloaded: advanced(downloaded, read) },
                    DownloadAction::Write { position: advanced(downloaded, read) },
                )
            }
        },
        _ => (state, DownloadAction::Nothing),
    }
}

/// The state after all of `events`.
pub open spec fn state_after(state: Download, events: Seq<DownloadEvent>) -> Download
    decreases events.len(),
{
    if events.len() == 0 {
        state
    } else {
        next(state_after(state, events.drop_last()), events.last()).0
    }
}

/// What the caller is told to do on the last of `events`.
pub open spec fn last_action(state: Download, events: Seq<DownloadEvent>) -> DownloadAction
    recommends
        events.len() > 0,
{
    next(state_after(state, events.drop_last()), events.last()).1
}

/// Once a download has failed it stays failed, and the caller is told to
/// do nothing more.
pub proof fn lemma_failed_stays(events: Seq<DownloadEvent>)
    ensures
        state_after(Download::Failed, events) == Download::Failed,
        events.len() > 0 ==> last_action(Download::Failed, events) == DownloadAction::Nothing,
    decreases events.len(),
{
    if events.len() > 0 {
        lemma_failed_stays(events.drop_last());
    }
}

/// The states after the first event and then the rest are the states
/// after all of them.
pub proof fn lemma_state_after_first(
    state: Download,
    first: DownloadEvent,
    rest: Seq<DownloadEvent>,
)
    ensures
        state_after(state, seq![first] + rest) == state_after(next(state, first).0, rest),
    decreases rest.len(),
{
    let all = seq![first] + rest;
    if rest.len() == 0 {
        assert(state_after(state, all.drop_last()) == state);
    } else {
        lemma_state_after_first(state, first, rest.drop_last());
        assert(all.drop_last() =~= seq![first] + rest.drop_last());
    }
}

/// A download whose answer is no success fails, and whatever happens
/// afterwards the caller is never told to create the file or to write to
/// it: no file is made, and none is left behind.
pub proof fn lemma_refused_download_writes_nothing(
    status: u16,
    content_length: Option<u64>,
    later: Seq<DownloadEvent>,
)
    requires
        !is_success(status),
    ensures
        next(Download::Waiting, DownloadEvent::Response { status, content_length }) == (
            Download::Failed,
            DownloadAction::Fail { status },
        ),
        state_after(
            Download::Waiting,
            seq![DownloadEvent::Response { status, content_length }] + later,
        ) == Download::Failed,
        later.len() > 0 ==> last_action(
            Download::Waiting,
            seq![DownloadEvent::Response { status, content_length }] + later,
        ) == DownloadAction::Nothing,
{
    let first = DownloadEvent::Response { status, content_length };
    lemma_state_after_first(Download::Waiting, first, later);
    lemma_failed_stays(later);
    if later.len() > 0 {
        let all = seq![first] + later;
        assert(all.drop_last() =~= seq![first] + later.drop_last());
        lemma_state_after_first(Download::Waiting, first, later.drop_last());
        lemma_failed_stays(later.drop_last());
    }
}

/// Whether `status` says that the request succeeded.
pub fn status_is_success(status: u16) -> (success: bool)
    ensures
        success == is_success(status),
{
    200 <= status && status < 300
}

/// Accepts a status that says success, and refuses any other.
pub fn check_status(status: u16) -> (result: Result<(), InstallError>)
    ensures
        is_success(status) ==> result is Ok,
        !is_success(status) ==> result == Err::<(), _>(InstallError::HttpStatus(status)),
{
    if status_is_success(status) {
        Ok(())
    } else {
        Err(InstallError::HttpStatus(status))
    }
}

impl Download {
    /// A download whose request is sent.
    pub fn new() -> (download: Download)
        ensures
            download == Download::Waiting,
    {
        Download::Waiting
    }

    /// Takes `event` and says what the caller is to do.
    pub fn step(&mut self, event: DownloadEvent) -> (action: DownloadAction)
        ensures
            (*final(self), action) == next(*old(self), event),
    {
        match (*self, event) {
            (Download::Waiting, DownloadEvent::Response { status, content_length }) => {
                if status_is_success(status) {
                    let total: u64 = match content_length {
                        Some(length) => length,
                        None => 0,
                    };
                    *self = Download::Receiving { total, downloaded: 0 };
                    DownloadAction::CreateFile { total }
                } else {
                    *self = Download::Failed;
                    DownloadAction::Fail { status }
                }
            },
            (Download::Receiving { total, downloaded }, DownloadEvent::Read(read)) => {
                if read == 0 {
                    *self = Download::Complete;
                    DownloadAction::Finish
                } else {
                    let position: u64 = if read as u64 > u64::MAX - downloaded {
                        u64::MAX
                    } else {
                        downloaded + read as u64
                    };
                    *self = Download::Receiving { total, downloaded: position };
                    DownloadAction::Write { position }
                }
            },
            _ => DownloadAction::Nothing,
        }
    }
}

} // verus!
