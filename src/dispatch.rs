//! What to do with each line: echo it, and notify on a matching code.
//!
//! The dispatcher runs `Idle -> Reading -> Closed`. It decides; the caller
//! echoes, notifies and reports back whether the notification went through.
//! A failed notification changes nothing about the lines that follow.
use vstd::prelude::*;
use crate::detect::{detected, detect_status};
use crate::filter::FilterConfig;

verus! {

/// The code of a line, where the line mentions one that the filter lets
/// through.
pub open spec fn classify(config: FilterConfig, line: Seq<u8>) -> Option<u16> {
    match detected(line) {
        Some(c) => if config.notifies(c) {
            Some(c)
        } else {
            None
        },
        None => None,
    }
}

/// Detects the status code of `line` and applies the filter to it.
pub fn classify_line(line: &[u8], config: &FilterConfig) -> (r: Option<u16>)
    ensures
        r == classify(*config, line@),
{
    match detect_status(line) {
        Some(c) => if config.should_notify(c) {
            Some(c)
        } else {
            None
        },
        None => None,
    }
}

#[derive(PartialEq, Eq, Structural, Clone, Copy, Debug)]
pub enum Phase {
    Idle,
    Reading,
    Closed,
}

#[derive(PartialEq, Eq, Structural, Clone, Copy, Debug)]
pub struct Notification {
    pub code: u16,
    /// Whether an image is to be fetched and shown for the code.
    pub fetch_image: bool,
}

/// The work for one line: echo `echo` verbatim, then notify if asked.
pub struct LineAction {
    pub echo: Vec<u8>,
    pub notify: Option<Notification>,
}

/// The notification owed for `line`, if any.
pub open spec fn notification_for(config: FilterConfig, images: bool, line: Seq<u8>) -> Option<
    Notification,
> {
    match classify(config, line) {
        Some(c) => Some(Notification { code: c, fetch_image: images }),
        None => None,
    }
}

/// The failure count after a notification outcome.
pub open spec fn failures_after(failures: nat, delivered: bool) -> nat {
    if delivered || failures >= u64::MAX {
        failures
    } else {
        failures + 1
    }
}

/// The dispatcher's own state: its phase and its count of failed
/// notifications.
pub struct DispatchState {
    pub phase: Phase,
    pub failures: nat,
}

/// What a line does: the next state, and the echo and notification owed.
pub open spec fn step_line(st: DispatchState, config: FilterConfig, images: bool, line: Seq<u8>) -> (
    DispatchState,
    Option<(Seq<u8>, Option<Notification>)>,
) {
    if st.phase == Phase::Closed {
        (st, None)
    } else {
        (
            DispatchState { phase: Phase::Reading, failures: st.failures },
            Some((line, notification_for(config, images, line))),
        )
    }
}

/// What a notification outcome does to the state.
pub open spec fn step_notification(st: DispatchState, delivered: bool) -> DispatchState {
    DispatchState { phase: st.phase, failures: failures_after(st.failures, delivered) }
}

/// A failed notification does not stop what follows: the next line is
/// echoed and classified exactly as it would have been had the notification
/// gone through, or had there been none.
pub proof fn lemma_failed_notification_isolated(
    st: DispatchState,
    config: FilterConfig,
    images: bool,
    line: Seq<u8>,
)
    requires
        st.phase != Phase::Closed,
    ensures
        step_line(step_notification(st, false), config, images, line).1 == Some(
            (line, notification_for(config, images, line)),
        ),
        step_line(step_notification(st, false), config, images, line).1 == step_line(
            step_notification(st, true),
            config,
            images,
            line,
        ).1,
        step_line(step_notification(st, false), config, images, line).1 == step_line(
            st,
            config,
            images,
            line,
        ).1,
        step_line(step_notification(st, false), config, images, line).0.phase == Phase::Reading,
{
}

pub struct Dispatcher {
    config: FilterConfig,
    images: bool,
    phase: Phase,
    failures: u64,
}

impl Dispatcher {
    pub open spec fn state(&self) -> DispatchState {
        DispatchState { phase: self.phase_view(), failures: self.failures_view() }
    }

    pub closed spec fn config_view(&self) -> FilterConfig {
        self.config
    }

    /// Whether notifications ask for an image.
    pub closed spec fn images_view(&self) -> bool {
        self.images
    }

    pub closed spec fn phase_view(&self) -> Phase {
        self.phase
    }

    /// Notifications reported as failed, saturating at `u64::MAX`.
    pub closed spec fn failures_view(&self) -> nat {
        self.failures as nat
    }

    pub fn new(config: FilterConfig, images: bool) -> (r: Self)
        ensures
            r.config_view() == config,
            r.images_view() == images,
            r.phase_view() == Phase::Idle,
            r.failures_view() == 0,
    {
        Dispatcher { config, images, phase: Phase::Idle, failures: 0 }
    }

    pub fn config(&self) -> (r: &FilterConfig)
        ensures
            *r == self.config_view(),
    {
        &self.config
    }

    pub fn phase(&self) -> (r: Phase)
        ensures
            r == self.phase_view(),
    {
        self.phase
    }

    pub fn failed_notifications(&self) -> (r: u64)
        ensures
            r == self.failures_view(),
    {
        self.failures
    }

    /// The source is open: reading begins, unless already closed.
    pub fn start(&mut self)
        ensures
            final(self).config_view() == old(self).config_view(),
            final(self).images_view() == old(self).images_view(),
            final(self).failures_view() == old(self).failures_view(),
            old(self).phase_view() == Phase::Closed ==> final(self).phase_view() == Phase::Closed,
            old(self).phase_view() != Phase::Closed ==> final(self).phase_view() == Phase::Reading,
    {
        if self.phase != Phase::Closed {
            self.phase = Phase::Reading;
        }
    }

    /// A line has arrived. Once closed, nothing is done; otherwise the line
    /// is echoed unchanged, and a notification is owed exactly when it
    /// mentions a code that the filter lets through.
    pub fn on_line(&mut self, line: Vec<u8>) -> (r: Option<LineAction>)
        ensures
            final(self).config_view() == old(self).config_view(),
            final(self).images_view() == old(self).images_view(),
            final(self).state() == step_line(
                old(self).state(),
                old(self).config_view(),
                old(self).images_view(),
                line@,
            ).0,
            old(self).phase_view() == Phase::Closed ==> r is None,
            old(self).phase_view() != Phase::Closed ==> r is Some && r->0.echo@ == line@
                && r->0.notify == notification_for(old(self).config_view(), old(self).images_view(), line@),
    {
        if self.phase == Phase::Closed {
            return None;
        }
        self.phase = Phase::Reading;
        let notify = match classify_line(line.as_slice(), &self.config) {
            Some(c) => Some(Notification { code: c, fetch_image: self.images }),
            None => None,
        };
        Some(LineAction { echo: line, notify })
    }

    /// The outcome of a notification. A failure is counted and otherwise
    /// ignored: reading goes on.
    pub fn on_notification(&mut self, delivered: bool)
        ensures
            final(self).config_view() == old(self).config_view(),
            final(self).images_view() == old(self).images_view(),
            final(self).state() == step_notification(old(self).state(), delivered),
    {
        if !delivered && self.failures < u64::MAX {
            self.failures = self.failures + 1;
        }
    }

    /// The source is exhausted or reading was cancelled.
    pub fn close(&mut self)
        ensures
            final(self).config_view() == old(self).config_view(),
            final(self).images_view() == old(self).images_view(),
            final(self).failures_view() == old(self).failures_view(),
            final(self).phase_view() == Phase::Closed,
    {
        self.phase = Phase::Closed;
    }
}

} // verus!
