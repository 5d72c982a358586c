//! Throttled progress reporting.
//!
//! Reporting every chunk of a large transfer would be wasteful. A reporter emits
//! an event only when enough bytes have come together since the last one, or
//! enough time has passed. Every event carries the cumulative count, so a lost
//! event loses nothing.

use crate::model::{Cookie, Extent, Span};
use vstd::prelude::*;

verus! {

/// One progress sample.
#[derive(Clone, Copy, Debug, PartialEq, Eq, Structural)]
pub struct ProgressEvent {
    /// Cookie of the in-flight action.
    pub cookie: Cookie,
    /// Bytes transferred so far, in all.
    pub bytes_advanced: u64,
    /// Extent of the action.
    pub extent: Extent,
}

/// When a reporter emits.
#[derive(Clone, Copy, Debug, PartialEq, Eq, Structural)]
pub struct ProgressConfig {
    /// Bytes since the last event that force one.
    pub bytes_threshold: u64,
    /// Time since the last event that forces one.
    pub time_threshold: Span,
}

impl ProgressConfig {
    /// 64 MiB or 5 s, whichever comes first.
    pub fn defaults() -> (r: ProgressConfig)
        ensures
            r.bytes_threshold == 64 * 1024 * 1024,
            r.time_threshold.nanos == 5_000_000_000,
    {
        ProgressConfig { bytes_threshold: 64 * 1024 * 1024, time_threshold: Span::from_secs(5) }
    }
}

impl Default for ProgressConfig {
    fn default() -> (r: ProgressConfig)
        ensures
            r.bytes_threshold == 64 * 1024 * 1024,
            r.time_threshold.nanos == 5_000_000_000,
    {
        ProgressConfig::defaults()
    }
}

/// Progress of one action. Points in time are readings of a monotonic clock.
#[derive(Debug)]
pub struct ProgressReporter {
    cookie: Cookie,
    extent: Extent,
    config: ProgressConfig,
    pending: u64,
    total: u64,
    last_emit: Span,
}

/// Model of [`ProgressReporter`].
#[verifier::ext_equal]
pub struct ReporterView {
    pub cookie: Cookie,
    pub extent: Extent,
    pub config: ProgressConfig,
    /// Bytes since the last event.
    pub pending: u64,
    /// Bytes in all.
    pub total: u64,
    /// When the last event was emitted, or the reporter made.
    pub last_emit: Span,
}

impl View for ProgressReporter {
    type V = ReporterView;

    closed spec fn view(&self) -> ReporterView {
        ReporterView {
            cookie: self.cookie,
            extent: self.extent,
            config: self.config,
            pending: self.pending,
            total: self.total,
            last_emit: self.last_emit,
        }
    }
}

impl ReporterView {
    /// What is unreported is part of the whole.
    pub open spec fn wf(self) -> bool {
        self.pending <= self.total
    }

    /// After `bytes` more, before anything is emitted.
    pub open spec fn counted(self, bytes: u64) -> ReporterView {
        ReporterView {
            pending: (self.pending + bytes) as u64,
            total: (self.total + bytes) as u64,
            ..self
        }
    }

    /// An event is due at `now`. A clock that went backwards counts as standing
    /// still.
    pub open spec fn due(self, now: Span) -> bool {
        ||| self.pending >= self.config.bytes_threshold
        ||| (if now.nanos >= self.last_emit.nanos {
            now.nanos - self.last_emit.nanos
        } else {
            0
        }) >= self.config.time_threshold.nanos
    }

    /// After an event was emitted at `now`.
    pub open spec fn emitted(self, now: Span) -> ReporterView {
        ReporterView { pending: 0, last_emit: now, ..self }
    }

    /// The event for the present count.
    pub open spec fn event(self) -> ProgressEvent {
        ProgressEvent {
            cookie: self.cookie,
            bytes_advanced: self.total,
            extent: self.extent,
        }
    }

    /// After an advance.
    pub open spec fn advanced(self, bytes: u64, now: Span) -> ReporterView {
        if self.counted(bytes).due(now) {
            self.counted(bytes).emitted(now)
        } else {
            self.counted(bytes)
        }
    }
}

impl ProgressReporter {
    /// A reporter made at `now`.
    pub fn new(cookie: Cookie, extent: Extent, config: ProgressConfig, now: Span) -> (r:
        ProgressReporter)
        ensures
            r@ == (ReporterView { cookie, extent, config, pending: 0, total: 0, last_emit: now }),
            r@.wf(),
    {
        ProgressReporter { cookie, extent, config, pending: 0, total: 0, last_emit: now }
    }

    /// A reporter with the default thresholds, made at `now`.
    pub fn with_defaults(cookie: Cookie, extent: Extent, now: Span) -> (r: ProgressReporter)
        ensures
            r@.cookie == cookie,
            r@.extent == extent,
            r@.config.bytes_threshold == 64 * 1024 * 1024,
            r@.config.time_threshold.nanos == 5_000_000_000,
            r@.pending == 0,
            r@.total == 0,
            r@.last_emit == now,
            r@.wf(),
    {
        ProgressReporter::new(cookie, extent, ProgressConfig::defaults(), now)
    }

    /// Cookie this reporter is bound to.
    pub fn cookie(&self) -> (r: Cookie)
        ensures
            r == self@.cookie,
    {
        self.cookie
    }

    /// Bytes advanced so far, in all.
    pub fn total_advanced(&self) -> (r: u64)
        ensures
            r == self@.total,
    {
        self.total
    }

    /// `bytes` more bytes have been transferred. Returns the event to emit, if
    /// one is due. The count in all must fit.
    pub fn advance(&mut self, bytes: u64, now: Span) -> (r: Option<ProgressEvent>)
        requires
            old(self)@.wf(),
            old(self)@.total + bytes <= u64::MAX,
        ensures
            final(self)@ == old(self)@.advanced(bytes, now),
            final(self)@.wf(),
            r == (if old(self)@.counted(bytes).due(now) {
                Some(old(self)@.counted(bytes).event())
            } else {
                None
            }),
    {
        self.pending = self.pending + bytes;
        self.total = self.total + bytes;
        let elapsed: Span = now.saturating_sub(self.last_emit);
        if self.pending >= self.config.bytes_threshold || elapsed.nanos
            >= self.config.time_threshold.nanos {
            self.pending = 0;
            self.last_emit = now;
            Some(
                ProgressEvent {
                    cookie: self.cookie,
                    bytes_advanced: self.total,
                    extent: self.extent,
                },
            )
        } else {
            None
        }
    }

    /// The final event, whatever the thresholds say.
    pub fn flush(&mut self, now: Span) -> (r: ProgressEvent)
        ensures
            final(self)@ == old(self)@.emitted(now),
            old(self)@.wf() ==> final(self)@.wf(),
            r == old(self)@.event(),
    {
        self.pending = 0;
        self.last_emit = now;
        ProgressEvent { cookie: self.cookie, bytes_advanced: self.total, extent: self.extent }
    }
}

/// The sum of a list of byte counts.
pub open spec fn sum(chunks: Seq<(u64, Span)>) -> nat
    decreases chunks.len(),
{
    if chunks.len() == 0 {
        0
    } else {
        chunks[0].0 as nat + sum(chunks.drop_first())
    }
}

/// A reporter after a list of advances.
pub open spec fn after(r: ReporterView, chunks: Seq<(u64, Span)>) -> ReporterView
    decreases chunks.len(),
{
    if chunks.len() == 0 {
        r
    } else {
        after(r.advanced(chunks[0].0, chunks[0].1), chunks.drop_first())
    }
}

/// However the chunks fall on events, the count in all is the sum of the chunks;
/// so an event never reports less than one before it, and the event of a final
/// flush reports everything. Unreported bytes stay below the threshold.
pub proof fn lemma_progress_is_cumulative(r: ReporterView, chunks: Seq<(u64, Span)>)
    requires
        r.wf(),
        r.total + sum(chunks) <= u64::MAX,
        r.config.bytes_threshold > 0,
        r.pending < r.config.bytes_threshold,
    ensures
        after(r, chunks).wf(),
        after(r, chunks).cookie == r.cookie,
        after(r, chunks).config == r.config,
        after(r, chunks).total == r.total + sum(chunks),
        after(r, chunks).event().bytes_advanced >= r.event().bytes_advanced,
        after(r, chunks).pending < r.config.bytes_threshold,
    decreases chunks.len(),
{
    if chunks.len() > 0 {
        lemma_progress_is_cumulative(
            r.advanced(chunks[0].0, chunks[0].1),
            chunks.drop_first(),
        );
    }
}

} // verus!
