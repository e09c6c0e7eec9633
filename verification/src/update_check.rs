//! The decisions of the update check: how many times to try, what to tell
//! the user, and whether the latest release is newer than this one.
use vstd::prelude::*;

use crate::text::{decimal, owned, u16_to_string};

verus! {

/// How many times the update check tries to reach the release server.
pub const UPDATE_ATTEMPTS: u8 = 5;

/// The longest error detail that the update check shows.
pub const MAX_ERROR_LENGTH: usize = 120;

/// The first index at or after `i` where `p` occurs in `s`.
pub open spec fn find_from(s: Seq<char>, p: Seq<char>, i: int) -> Option<int>
    decreases s.len() + 1 - i,
{
    if i < 0 || i + p.len() > s.len() {
        None
    } else if s.subrange(i, i + p.len() as int) == p {
        Some(i)
    } else {
        find_from(s, p, i + 1)
    }
}

/// An error message without the request URL: the text before the first
/// ` for url (`, or all of it where there is none.
pub open spec fn tidied(error: Seq<char>) -> Seq<char> {
    match find_from(error, " for url ("@, 0) {
        Some(i) => error.take(i),
        None => error,
    }
}

fn occurs_at(s: &str, n: usize, p: &str, m: usize, i: usize) -> (b: bool)
    requires
        n == s@.len(),
        m == p@.len(),
        i + m <= n,
    ensures
        b == (s@.subrange(i as int, i + m) == p@),
{
    let mut j: usize = 0;
    while j < m
        invariant
            n == s@.len(),
            m == p@.len(),
            i + m <= n,
            j <= m,
            s@.subrange(i as int, i + j) == p@.take(j as int),
        decreases m - j,
    {
        if s.get_char(i + j) != p.get_char(j) {
            assert(s@.subrange(i as int, i + m)[j as int] != p@[j as int]);
            return false;
        }
        assert(s@.subrange(i as int, i + j + 1) == s@.subrange(i as int, i + j).push(
            s@[i + j],
        ));
        assert(p@.take(j + 1) == p@.take(j as int).push(p@[j as int]));
        j = j + 1;
    }
    assert(p@.take(m as int) == p@);
    true
}

/// Takes the request URL out of an error message of the HTTP client.
pub fn tidy_error(error: &str) -> (r: &str)
    ensures
        r@ == tidied(error@),
{
    let pattern = " for url (";
    proof {
        reveal_strlit(" for url (");
    }
    let n = error.unicode_len();
    let m = pattern.unicode_len();
    let mut i: usize = 0;
    while m <= n && i <= n - m
        invariant
            i <= n + 1,
            n == error@.len(),
            m == pattern@.len(),
            m == 10,
            pattern@ == " for url ("@,
            find_from(error@, pattern@, 0) == find_from(error@, pattern@, i as int),
        decreases n + 1 - i,
    {
        if occurs_at(error, n, pattern, m, i) {
            return error.substring_char(0, i);
        }
        i = i + 1;
    }
    error
}

/// The version that a release tag names: the tag without a leading `v`.
pub open spec fn tag_version(tag: Seq<char>) -> Seq<char> {
    if tag.len() > 0 && tag[0] == 'v' {
        tag.subrange(1, tag.len() as int)
    } else {
        tag
    }
}

pub fn latest_version(tag_name: &str) -> (r: &str)
    ensures
        r@ == tag_version(tag_name@),
{
    let n = tag_name.unicode_len();
    if n > 0 && tag_name.get_char(0) == 'v' {
        tag_name.substring_char(1, n)
    } else {
        tag_name
    }
}

/// Whether the release with this tag is another version than the running one.
pub fn update_available(tag_name: &str, current: &str) -> (b: bool)
    ensures
        b == (tag_version(tag_name@) != current@),
{
    let latest = owned(latest_version(tag_name));
    let current = owned(current);
    !(latest == current)
}

/// What a try to fetch the latest release gave.
pub enum FetchOutcome {
    Release { tag_name: String, html_url: String },
    NoRelease,
    Failed { error: String },
}

/// What the update check does after a try.
pub enum UpdateStep {
    /// Stop the spinner with the message, report the release if there is
    /// one, and end the check.
    Done { spinner_message: String, release: Option<FetchOutcome> },
    /// Stop the spinner with the message and ask whether to keep trying.
    AskToContinue { spinner_message: String },
    /// Stop the spinner with the message and try again.
    Retry { spinner_message: String },
    /// Stop the spinner with the message and give up.
    GiveUp { spinner_message: String },
}

impl UpdateStep {
    /// The message that the spinner stops with.
    pub open spec fn message(self) -> Seq<char> {
        match self {
            UpdateStep::Done { spinner_message, .. } => spinner_message@,
            UpdateStep::AskToContinue { spinner_message } => spinner_message@,
            UpdateStep::Retry { spinner_message } => spinner_message@,
            UpdateStep::GiveUp { spinner_message } => spinner_message@,
        }
    }
}

pub open spec fn attempt_message(attempt: u8) -> Seq<char> {
    "Couldn't reach GitHub (attempt "@ + decimal(attempt as nat) + " of "@ + decimal(
        UPDATE_ATTEMPTS as nat,
    ) + ")"@
}

/// The update check between tries: the number of the try under way and
/// the error of the last failed try.
pub struct UpdateCheck {
    pub attempt: u8,
    pub last_error: String,
}

impl UpdateCheck {
    pub open spec fn wf(&self) -> bool {
        1 <= self.attempt <= UPDATE_ATTEMPTS
    }

    pub fn new() -> (c: UpdateCheck)
        ensures
            c.attempt == 1,
            c.last_error@ == Seq::<char>::empty(),
            c.wf(),
    {
        UpdateCheck { attempt: 1, last_error: String::new() }
    }

    /// Every try but the first waits before it fetches.
    pub fn waits_before_fetch(&self) -> (b: bool)
        ensures
            b == (self.attempt > 1),
    {
        self.attempt > 1
    }

    fn failure_spinner_message(&self) -> (s: String)
        ensures
            s@ == attempt_message(self.attempt),
    {
        let mut s = owned("Couldn't reach GitHub (attempt ");
        s.append(u16_to_string(self.attempt as u16).as_str());
        s.append(" of ");
        s.append(u16_to_string(UPDATE_ATTEMPTS as u16).as_str());
        s.append(")");
        s
    }

    /// Takes in what a try gave: a release or none ends the check; a failure
    /// is remembered and leads to the question after the first try, to
    /// another try while tries are left, and else to giving up.
    pub fn record(&mut self, outcome: FetchOutcome) -> (step: UpdateStep)
        requires
            old(self).wf(),
        ensures
            final(self).wf(),
            match outcome {
                FetchOutcome::Release { .. } => {
                    &&& *final(self) == *old(self)
                    &&& step is Done
                    &&& step.message() == Seq::<char>::empty()
                    &&& step->release == Some(outcome)
                },
                FetchOutcome::NoRelease => {
                    &&& *final(self) == *old(self)
                    &&& step is Done
                    &&& step.message() == "No releases published yet"@
                    &&& step->release is None
                },
                FetchOutcome::Failed { error } => {
                    &&& final(self).last_error == error
                    &&& step.message() == attempt_message(old(self).attempt)
                    &&& if old(self).attempt == 1 {
                        final(self).attempt == 1 && step is AskToContinue
                    } else if old(self).attempt < UPDATE_ATTEMPTS {
                        final(self).attempt == old(self).attempt + 1 && step is Retry
                    } else {
                        final(self).attempt == old(self).attempt && step is GiveUp
                    }
                },
            },
    {
        match outcome {
            FetchOutcome::Release { tag_name, html_url } => {
                UpdateStep::Done {
                    spinner_message: String::new(),
                    release: Some(FetchOutcome::Release { tag_name, html_url }),
                }
            },
            FetchOutcome::NoRelease => {
                UpdateStep::Done {
                    spinner_message: owned("No releases published yet"),
                    release: None,
                }
            },
            FetchOutcome::Failed { error } => {
                self.last_error = error;
                let spinner_message = self.failure_spinner_message();
                if self.attempt == 1 {
                    UpdateStep::AskToContinue { spinner_message }
                } else if self.attempt < UPDATE_ATTEMPTS {
                    self.attempt = self.attempt + 1;
                    UpdateStep::Retry { spinner_message }
                } else {
                    UpdateStep::GiveUp { spinner_message }
                }
            },
        }
    }

    /// Takes in the answer to the question after a failed first try: to keep
    /// trying is to go on to the second try.
    pub fn keep_trying(&mut self, keep: bool) -> (again: bool)
        requires
            old(self).wf(),
        ensures
            final(self).wf(),
            again == keep,
            final(self).last_error == old(self).last_error,
            final(self).attempt == (if keep && old(self).attempt < UPDATE_ATTEMPTS {
                (old(self).attempt + 1) as u8
            } else {
                old(self).attempt
            }),
    {
        if keep && self.attempt < UPDATE_ATTEMPTS {
            self.attempt = self.attempt + 1;
        }
        keep
    }

    /// The detail shown after the check gave up: the last error without its
    /// URL, where that is not empty and at most 120 bytes long.
    pub fn failure_detail(&self) -> (r: Option<&str>)
        ensures
            match r {
                Some(m) => m@ == tidied(self.last_error@) && m@.len() > 0 && m.len()
                    <= MAX_ERROR_LENGTH,
                None => !(tidied(self.last_error@).len() > 0 && tidy_error_len(
                    self.last_error@,
                ) <= MAX_ERROR_LENGTH),
            },
    {
        let message = tidy_error(self.last_error.as_str());
        if !message.is_empty() && message.len() <= MAX_ERROR_LENGTH {
            Some(message)
        } else {
            None
        }
    }
}

/// The length in bytes of the tidied error.
pub open spec fn tidy_error_len(error: Seq<char>) -> usize {
    vstd::utf8::encode_utf8(tidied(error)).len() as usize
}

} // verus!
