//! Messages between the presentation and the presenter console, and the
//! console's end of the socket.
use vstd::prelude::*;
use std::path::PathBuf;
use std::time::{Duration, SystemTime, SystemTimeError};
use crate::slide::{Slide, opt_str};

verus! {

#[verifier::external_type_specification]
#[verifier::external_body]
pub struct ExPathBuf(PathBuf);

#[verifier::external_type_specification]
#[verifier::external_body]
pub struct ExSystemTime(SystemTime);

#[verifier::external_type_specification]
#[verifier::external_body]
pub struct ExSystemTimeError(SystemTimeError);

/// Calls `SystemTime::now`. Nothing is stated of the time: it is the clock's.
#[verifier::external_body]
fn system_now() -> SystemTime {
    SystemTime::now()
}

/// Calls `SystemTime::duration_since` with `UNIX_EPOCH`: the time since the
/// epoch, or an error for a time before it. Nothing is stated of either.
#[verifier::external_body]
fn since_epoch(t: &SystemTime) -> Result<Duration, SystemTimeError> {
    t.duration_since(SystemTime::UNIX_EPOCH)
}

/// What the presentation broadcasts to presenter consoles.
pub struct PresenterMessage {
    pub current_slide: usize,
    pub total_slides: usize,
    pub notes: Option<String>,
    pub title: Option<String>,
    pub timestamp: u64,
}

/// Whole seconds since the Unix epoch, 0 for a clock set before it.
fn unix_seconds() -> u64 {
    let now = system_now();
    match since_epoch(&now) {
        Ok(d) => crate::session::duration_secs(&d),
        Err(_) => 0,
    }
}

/// The message for a slide of a deck of `total` slides, stamped with
/// `timestamp` seconds since the Unix epoch.
pub fn presenter_message(slide: &Slide, total: usize, timestamp: u64) -> (r: PresenterMessage)
    ensures
        r.current_slide == slide@.index,
        r.total_slides == total,
        opt_str(r.notes) == slide@.notes,
        opt_str(r.title) == slide@.title,
        r.timestamp == timestamp,
{
    PresenterMessage {
        current_slide: slide.index,
        total_slides: total,
        notes: slide.notes.clone(),
        title: slide.title.clone(),
        timestamp,
    }
}

/// The message for a slide of a deck of `total` slides, stamped with the
/// current time.
pub fn create_presenter_message(slide: &Slide, total: usize) -> (r: PresenterMessage)
    ensures
        r.current_slide == slide@.index,
        r.total_slides == total,
        opt_str(r.notes) == slide@.notes,
        opt_str(r.title) == slide@.title,
{
    presenter_message(slide, total, unix_seconds())
}

/// The presenter console's end: where to connect.
pub struct IpcClient {
    pub socket_path: PathBuf,
}

impl IpcClient {
    pub fn new(socket_path: PathBuf) -> (r: Self)
        ensures
            r.socket_path == socket_path,
    {
        Self { socket_path }
    }
}

} // verus!
