use vstd::prelude::*;

use crate::models::opt_str;

verus! {

/// How long the clipboard watcher ignores changes after the application wrote the clipboard,
/// in milliseconds.
pub const SUPPRESS_WINDOW_MS: u64 = 2000;

/// Clipboard changes closer together than this play the copy sound once, in milliseconds.
pub const COPY_SOUND_DEBOUNCE_MS: u64 = 650;

/// What the clipboard watcher remembers between changes; times are milliseconds on a
/// monotonic clock.
pub struct MonitorState {
    pub last_seen_hash: Option<String>,
    pub suppress_hash: Option<String>,
    pub suppress_until: Option<u64>,
    pub last_sound_event_at: Option<u64>,
}

/// What the watcher does with a captured clipboard content.
#[derive(PartialEq, Eq, Structural, Debug, Clone, Copy)]
pub enum CaptureDecision {
    /// The same content was seen last: nothing happens.
    Unchanged,
    /// The application wrote this content itself: it is remembered, not stored.
    Suppressed,
    /// New content from another application: it is stored in the history.
    Store,
}

impl MonitorState {
    /// A watcher that has seen nothing.
    pub fn new() -> (r: MonitorState)
        ensures
            r.last_seen_hash is None,
            r.suppress_hash is None,
            r.suppress_until is None,
            r.last_sound_event_at is None,
    {
        MonitorState {
            last_seen_hash: None,
            suppress_hash: None,
            suppress_until: None,
            last_sound_event_at: None,
        }
    }

    /// Ignores the clipboard changes of the next two seconds, and the content with this hash.
    pub fn mark_clipboard_suppressed(&mut self, hash: String, now: u64)
        requires
            now <= u64::MAX - SUPPRESS_WINDOW_MS,
        ensures
            opt_str(final(self).suppress_hash) == Some(hash@),
            final(self).suppress_until == Some((now + SUPPRESS_WINDOW_MS) as u64),
            opt_str(final(self).last_seen_hash) == opt_str(old(self).last_seen_hash),
            final(self).last_sound_event_at == old(self).last_sound_event_at,
    {
        self.suppress_hash = Some(hash);
        self.suppress_until = Some(now + SUPPRESS_WINDOW_MS);
    }

    /// How long the suppression still lasts: the time up to its end, when it has not passed.
    pub fn clipboard_suppression_remaining(&self, now: u64) -> (r: Option<u64>)
        ensures
            r == match self.suppress_until {
                Some(until) => if until >= now {
                    Some((until - now) as u64)
                } else {
                    None
                },
                None => None,
            },
    {
        match self.suppress_until {
            Some(until) => if until >= now {
                Some(until - now)
            } else {
                None
            },
            None => None,
        }
    }

    /// Forgets everything seen, so that the same content is captured again.
    pub fn reset_clipboard_observation(&mut self)
        ensures
            final(self).last_seen_hash is None,
            final(self).suppress_hash is None,
            final(self).suppress_until is None,
            final(self).last_sound_event_at is None,
    {
        self.last_seen_hash = None;
        self.suppress_hash = None;
        self.suppress_until = None;
        self.last_sound_event_at = None;
    }

    /// Whether a change event may play the copy sound: only when the event may play it at all
    /// and no sound was played in the last 650 ms; a played sound is remembered.
    pub fn allow_sound_for_event(&mut self, now: u64, allow_initial_sound: bool) -> (r: bool)
        ensures
            r == (allow_initial_sound && !(old(self).last_sound_event_at matches Some(last) && last
                <= now && now - last < COPY_SOUND_DEBOUNCE_MS)),
            r ==> final(self).last_sound_event_at == Some(now),
            !r ==> final(self).last_sound_event_at == old(self).last_sound_event_at,
            opt_str(final(self).last_seen_hash) == opt_str(old(self).last_seen_hash),
            opt_str(final(self).suppress_hash) == opt_str(old(self).suppress_hash),
            final(self).suppress_until == old(self).suppress_until,
    {
        if !allow_initial_sound {
            return false;
        }
        let duplicate = match self.last_sound_event_at {
            Some(last) => last <= now && now - last < COPY_SOUND_DEBOUNCE_MS,
            None => false,
        };
        if duplicate {
            false
        } else {
            self.last_sound_event_at = Some(now);
            true
        }
    }

    /// What the watcher decides for content with this hash, seen at `now`.
    pub open spec fn spec_decide(&self, hash: Seq<char>, now: u64) -> CaptureDecision {
        let last_matches = opt_str(self.last_seen_hash) == Some(hash);
        let suppress_active = match self.suppress_until {
            Some(until) => until > now,
            None => false,
        };
        let suppress_matches = opt_str(self.suppress_hash) == Some(hash);
        if last_matches {
            CaptureDecision::Unchanged
        } else if (suppress_active && (self.suppress_hash is None || suppress_matches))
            || suppress_matches {
            CaptureDecision::Suppressed
        } else {
            CaptureDecision::Store
        }
    }

    /// Decides what to do with captured content and remembers it as the last seen content;
    /// a suppression that it met ends.
    pub fn observe_capture(&mut self, hash: &String, now: u64) -> (r: CaptureDecision)
        ensures
            r == old(self).spec_decide(hash@, now),
            r is Unchanged ==> opt_str(final(self).last_seen_hash) == opt_str(
                old(self).last_seen_hash,
            ) && opt_str(final(self).suppress_hash) == opt_str(old(self).suppress_hash)
                && final(self).suppress_until == old(self).suppress_until,
            !(r is Unchanged) ==> opt_str(final(self).last_seen_hash) == Some(hash@),
            r is Suppressed ==> final(self).suppress_hash is None && final(self).suppress_until is None,
            r is Store ==> opt_str(final(self).suppress_hash) == opt_str(old(self).suppress_hash)
                && final(self).suppress_until == old(self).suppress_until,
            final(self).last_sound_event_at == old(self).last_sound_event_at,
    {
        let last_matches = match &self.last_seen_hash {
            Some(h) => crate::text::str_equal(h.as_str(), hash.as_str()),
            None => false,
        };
        if last_matches {
            return CaptureDecision::Unchanged;
        }
        let suppress_active = match self.suppress_until {
            Some(until) => until > now,
            None => false,
        };
        let suppress_matches = match &self.suppress_hash {
            Some(h) => crate::text::str_equal(h.as_str(), hash.as_str()),
            None => false,
        };
        if (suppress_active && (self.suppress_hash.is_none() || suppress_matches))
            || suppress_matches {
            self.last_seen_hash = Some(hash.clone());
            self.suppress_hash = None;
            self.suppress_until = None;
            return CaptureDecision::Suppressed;
        }
        self.last_seen_hash = Some(hash.clone());
        CaptureDecision::Store
    }
}

/// Content that the application wrote itself is never stored: once it is marked, seeing it
/// gives no new entry, and seeing it again after that changes nothing.
pub proof fn law_own_writes_are_not_captured(m: MonitorState, hash: Seq<char>, now: u64)
    requires
        opt_str(m.suppress_hash) == Some(hash),
    ensures
        !(m.spec_decide(hash, now) is Store),
{
}

/// Content seen last is not stored again until other content is seen.
pub proof fn law_repeated_content_is_unchanged(m: MonitorState, hash: Seq<char>, now: u64)
    requires
        opt_str(m.last_seen_hash) == Some(hash),
    ensures
        m.spec_decide(hash, now) is Unchanged,
{
}

/// While a suppression without a hash runs, no content is stored.
pub proof fn law_suppression_window_blocks_capture(m: MonitorState, hash: Seq<char>, now: u64)
    requires
        m.suppress_hash is None,
        m.suppress_until matches Some(until) && now < until,
    ensures
        !(m.spec_decide(hash, now) is Store),
{
}

} // verus!
