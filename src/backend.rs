//! The backend: its configuration, its target filter and its rendering.
use vstd::prelude::*;
use vstd::string::{StrSliceExecFns, StringExecFns};
use std::time::{Duration, Instant};
use crate::format::{colored_line, line_of, millis_from_nanos, millis_of, plain_line};
use crate::level::{Level, color_from, color_of, setting_view};

verus! {

#[verifier::external_type_specification]
#[verifier::external_body]
pub struct ExInstant(Instant);

/// Relies on `Instant::now`: a reading of the monotonic clock. Nothing is
/// known of its value.
pub assume_specification[ Instant::now ]() -> Instant;

/// Relies on `Instant::elapsed`: the time since the instant, which saturates
/// at zero rather than panicking.
pub assume_specification[ Instant::elapsed ](i: &Instant) -> Duration;

/// Relies on `Duration::as_nanos`: the whole nanoseconds of a duration.
pub assume_specification[ Duration::as_nanos ](d: &Duration) -> u128;

/// The part of a target before its first colon: the whole target if it has
/// none, and empty if it is empty.
pub open spec fn first_segment(t: Seq<char>) -> Seq<char>
    decreases t.len(),
{
    if t.len() == 0 || t[0] == ':' {
        Seq::empty()
    } else {
        seq![t[0]] + first_segment(t.drop_first())
    }
}

/// `k` is where the first segment of `t` ends.
pub open spec fn ends_first_segment(t: Seq<char>, k: int) -> bool {
    &&& 0 <= k <= t.len()
    &&& (k == t.len() || t[k] == ':')
    &&& forall|j: int| 0 <= j < k ==> t[j] != ':'
}

proof fn lemma_first_segment_take(t: Seq<char>, k: int)
    requires
        ends_first_segment(t, k),
    ensures
        first_segment(t) == t.take(k),
    decreases k,
{
    if k == 0 {
        assert(t.take(0) =~= Seq::<char>::empty());
    } else {
        assert(t[0] != ':');
        let rest = t.drop_first();
        assert(ends_first_segment(rest, k - 1)) by {
            assert forall|j: int| 0 <= j < k - 1 implies rest[j] != ':' by {
                assert(rest[j] == t[j + 1]);
            }
        }
        lemma_first_segment_take(rest, k - 1);
        assert(t.take(k) =~= seq![t[0]] + rest.take(k - 1));
    }
}

/// Whether a target passes a list of excluded first segments.
pub open spec fn passes(excluded: Seq<Seq<char>>, target: Seq<char>) -> bool {
    !excluded.contains(first_segment(target))
}

/// Asking a backend twice whether it accepts a target gives the same answer
/// both times: the answer depends on the target and the exclusion list alone.
pub proof fn lemma_enabled_repeatable(m: &Morgan, target: Seq<char>, first: bool, second: bool)
    requires
        first == m.allows(target),
        second == m.allows(target),
    ensures
        first == second,
        first == passes(m.excluded(), target),
{
}

/// The logging backend: when it started, whether it colors its output, and
/// the first target segments whose records it suppresses.
pub struct Morgan {
    time: Instant,
    color: bool,
    exclude: Vec<String>,
}

impl Morgan {
    /// Whether this backend colors its output.
    pub closed spec fn color_enabled(&self) -> bool {
        self.color
    }

    /// The excluded first segments, in the order given.
    pub closed spec fn excluded(&self) -> Seq<Seq<char>> {
        self.exclude@.map_values(|s: String| s@)
    }

    /// Whether a record with this target is accepted.
    pub open spec fn allows(&self, target: Seq<char>) -> bool {
        passes(self.excluded(), target)
    }

    /// The line rendered for a record `ms` milliseconds after start.
    pub open spec fn line(&self, ms: nat, level: Level, message: Seq<char>) -> Seq<char> {
        line_of(self.color_enabled(), ms, level, message)
    }

    /// Creates a backend that starts its clock now, suppresses the given
    /// first segments, and colors its output unless the color setting parses
    /// as `false` (`None` when the setting is absent).
    pub fn new(exclude: Vec<String>, color_setting: Option<&str>) -> (r: Morgan)
        ensures
            r.color_enabled() == color_of(setting_view(color_setting)),
            r.excluded() == exclude@.map_values(|s: String| s@),
    {
        Morgan { time: Instant::now(), color: color_from(color_setting), exclude }
    }

    /// Whether this backend colors its output.
    pub fn color(&self) -> (r: bool)
        ensures
            r == self.color_enabled(),
    {
        self.color
    }

    /// Whether a record for `target` is accepted: it is refused exactly when
    /// the target's first segment is one of the excluded ones.
    pub fn enabled(&self, target: &str) -> (r: bool)
        ensures
            r == self.allows(target@),
    {
        let n = target.unicode_len();
        let mut k: usize = 0;
        while k < n && target.get_char(k) != ':'
            invariant
                n == target@.len(),
                k <= n,
                forall|j: int| 0 <= j < k ==> target@[j] != ':',
            decreases n - k,
        {
            k = k + 1;
        }
        proof {
            lemma_first_segment_take(target@, k as int);
        }
        let base = String::from_str(target.substring_char(0, k));
        let mut i: usize = 0;
        while i < self.exclude.len()
            invariant
                i <= self.exclude.len(),
                base@ == first_segment(target@),
                forall|j: int| 0 <= j < i ==> self.excluded()[j] != base@,
            decreases self.exclude.len() - i,
        {
            if self.exclude[i] == base {
                assert(self.excluded()[i as int] == base@);
                return false;
            }
            i = i + 1;
        }
        true
    }

    /// The line for a record rendered `nanos` nanoseconds after start, or
    /// `None` when its target is excluded.
    pub fn render_at(&self, nanos: u128, level: Level, target: &str, message: &str) -> (r: Option<
        String,
    >)
        ensures
            match r {
                Some(line) => self.allows(target@) && line@ == self.line(
                    millis_of(nanos as nat),
                    level,
                    message@,
                ),
                None => !self.allows(target@),
            },
    {
        if !self.enabled(target) {
            return None;
        }
        let ms = millis_from_nanos(nanos);
        if self.color {
            Some(colored_line(ms, level, message))
        } else {
            Some(plain_line(ms, level, message))
        }
    }

    /// The line for a record rendered now, or `None` when its target is
    /// excluded. The stamp is whatever time the clock reports.
    pub fn render(&self, level: Level, target: &str, message: &str) -> (r: Option<String>)
        ensures
            match r {
                Some(line) => self.allows(target@) && exists|ms: nat|
                    line@ == #[trigger] self.line(ms, level, message@),
                None => !self.allows(target@),
            },
    {
        let nanos = self.time.elapsed().as_nanos();
        let r = self.render_at(nanos, level, target, message);
        proof {
            if r is Some {
                assert(r->0@ == self.line(millis_of(nanos as nat), level, message@));
            }
        }
        r
    }

    /// Nothing is buffered, so there is nothing to flush.
    pub fn flush(&self) {
    }
}

} // verus!
