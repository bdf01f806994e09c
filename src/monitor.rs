//! Folder-monitor decisions: which folders are watched, which names are
//! transient, and when a freshly detected file has stopped changing.

use vstd::prelude::*;
use crate::config::AppConfig;
use crate::models::Timestamp;
use crate::text::{contains, contains_seq, ends_with, has_prefix, has_suffix, starts_with};

verus! {

/// Size and modification time of a file, sampled to tell whether it still changes.
#[derive(Clone, Copy, Debug, PartialEq, Eq, Structural)]
pub struct FileSnapshot {
    pub size: u64,
    pub modified: Timestamp,
}

/// What one stability round saw.
#[derive(Clone, Copy, Debug, PartialEq, Eq, Structural)]
pub enum Observation {
    /// The file could not be opened for exclusive access.
    Locked,
    /// The file's size and modification time.
    Sampled(FileSnapshot),
    /// The file's metadata could not be read.
    Unreadable,
}

/// Where a stability check stands.
#[derive(Clone, Copy, Debug, PartialEq, Eq, Structural)]
pub enum Stability {
    /// More rounds are needed: pause, observe again, record.
    Sampling,
    /// Enough consecutive identical samples: hand the file on.
    Stable,
    /// The round budget ran out first: drop the file.
    TimedOut,
    /// The metadata could not be read: drop the file.
    Unreadable,
}

/// The most recent sample among the observations.
pub open spec fn last_sample(h: Seq<Observation>) -> Option<FileSnapshot>
    decreases h.len(),
{
    if h.len() == 0 {
        None
    } else {
        match h.last() {
            Observation::Sampled(s) => Some(s),
            _ => last_sample(h.drop_last()),
        }
    }
}

/// How many samples in a row, ending with the latest observation, repeated
/// the sample before them; a lock, an unreadable file or a change resets it.
pub open spec fn run_length(h: Seq<Observation>) -> nat
    decreases h.len(),
{
    if h.len() == 0 {
        0
    } else {
        match h.last() {
            Observation::Sampled(s) => if last_sample(h.drop_last()) == Some(s) {
                run_length(h.drop_last()) + 1
            } else {
                0
            },
            _ => 0,
        }
    }
}

/// Where a check requiring `required` identical samples within `2 * required`
/// rounds stands after observations `h`.
pub open spec fn stability_after(required: nat, h: Seq<Observation>) -> Stability {
    if h.len() > 0 && h.last() == Observation::Unreadable {
        Stability::Unreadable
    } else if h.len() > 0 && run_length(h) >= required {
        Stability::Stable
    } else if h.len() >= 2 * required {
        Stability::TimedOut
    } else {
        Stability::Sampling
    }
}

/// Per-file state of a stability check.
pub struct StabilityTracker {
    required_checks: u32,
    round: u64,
    stable_count: u32,
    last: Option<FileSnapshot>,
    state: Stability,
    history: Ghost<Seq<Observation>>,
}

impl StabilityTracker {
    /// The observations recorded so far, oldest first.
    pub closed spec fn history(&self) -> Seq<Observation> {
        self.history@
    }

    pub closed spec fn required(&self) -> nat {
        self.required_checks as nat
    }

    pub closed spec fn phase(&self) -> Stability {
        self.state
    }

    pub closed spec fn wf(&self) -> bool {
        &&& self.round == self.history@.len()
        &&& self.stable_count == run_length(self.history@)
        &&& self.last == last_sample(self.history@)
        &&& self.state == stability_after(self.required_checks as nat, self.history@)
        &&& self.round <= 2 * (self.required_checks as int)
        &&& forall|i: int|
            0 <= i < self.history@.len() - 1 ==> stability_after(
                self.required_checks as nat,
                #[trigger] self.history@.subrange(0, i + 1),
            ) == Stability::Sampling
    }

    /// A check that needs `required_checks` consecutive identical samples
    /// within `2 * required_checks` rounds (so none at all times out at once).
    pub fn new(required_checks: u32) -> (r: Self)
        ensures
            r.wf(),
            r.required() == required_checks,
            r.history() == Seq::<Observation>::empty(),
            r.phase() == stability_after(required_checks as nat, Seq::empty()),
    {
        let state = if required_checks == 0 {
            Stability::TimedOut
        } else {
            Stability::Sampling
        };
        StabilityTracker {
            required_checks,
            round: 0,
            stable_count: 0,
            last: None,
            state,
            history: Ghost(Seq::empty()),
        }
    }

    pub fn state(&self) -> (r: Stability)
        ensures
            r == self.phase(),
    {
        self.state
    }

    /// Records one round's observation.
    pub fn record(&mut self, obs: Observation)
        requires
            old(self).wf(),
            old(self).phase() == Stability::Sampling,
        ensures
            final(self).wf(),
            final(self).required() == old(self).required(),
            final(self).history() == old(self).history().push(obs),
            final(self).phase() == stability_after(final(self).required(), final(self).history()),
    {
        let ghost h0 = self.history@;
        let ghost h1 = h0.push(obs);
        assert(h1.drop_last() =~= h0);
        self.round = self.round + 1;
        self.history = Ghost(h1);
        match obs {
            Observation::Locked => {
                self.stable_count = 0;
            },
            Observation::Unreadable => {
                self.stable_count = 0;
            },
            Observation::Sampled(s) => {
                let same = match self.last {
                    Some(p) => p == s,
                    None => false,
                };
                if same {
                    self.stable_count = self.stable_count + 1;
                } else {
                    self.stable_count = 0;
                }
                self.last = Some(s);
            },
        }
        self.state = match obs {
            Observation::Unreadable => Stability::Unreadable,
            _ => if self.stable_count >= self.required_checks {
                Stability::Stable
            } else if self.round >= 2 * (self.required_checks as u64) {
                Stability::TimedOut
            } else {
                Stability::Sampling
            },
        };
        proof {
            assert forall|i: int|
                0 <= i < h1.len() - 1 implies stability_after(
                self.required_checks as nat,
                #[trigger] h1.subrange(0, i + 1),
            ) == Stability::Sampling by {
                if i < h0.len() - 1 {
                    assert(h1.subrange(0, i + 1) =~= h0.subrange(0, i + 1));
                } else {
                    assert(h1.subrange(0, i + 1) =~= h0);
                }
            }
        }
    }
}

/// The last `k` observations are samples, each identical to the sample taken
/// before it (so no lock and no change among them).
pub open spec fn ends_with_repeats(h: Seq<Observation>, k: nat) -> bool {
    &&& k <= h.len()
    &&& forall|j: int|
        1 <= j <= k ==> match #[trigger] h[h.len() - j] {
            Observation::Sampled(s) => last_sample(h.subrange(0, h.len() - j)) == Some(s),
            _ => false,
        }
}

/// A run of `k` identical samples is exactly that many repeated samples at
/// the end of the history.
pub proof fn lemma_run_is_repeats(h: Seq<Observation>, k: nat)
    requires
        run_length(h) >= k,
    ensures
        ends_with_repeats(h, k),
    decreases k,
{
    if k > 0 {
        let d = h.drop_last();
        lemma_run_is_repeats(d, (k - 1) as nat);
        assert forall|j: int| 1 <= j <= k implies match #[trigger] h[h.len() - j] {
            Observation::Sampled(s) => last_sample(h.subrange(0, h.len() - j)) == Some(s),
            _ => false,
        } by {
            if j == 1 {
                assert(h.subrange(0, h.len() - 1) =~= d);
            } else {
                let j2 = j - 1;
                assert(d[d.len() - j2] == h[h.len() - j]);
                assert(d.subrange(0, d.len() - j2) =~= h.subrange(0, h.len() - j));
            }
        }
    }
}

/// A check that has become stable saw `required` samples in a row that each
/// repeated the sample before: nothing still changing is handed on.
pub proof fn lemma_stable_needs_repeated_samples(t: StabilityTracker)
    requires
        t.wf(),
        t.phase() == Stability::Stable,
    ensures
        run_length(t.history()) >= t.required(),
        t.history().len() > 0,
        ends_with_repeats(t.history(), t.required()),
{
    lemma_run_is_repeats(t.history(), t.required());
}

/// When the latest sample differs in size from the sample before it, the
/// run of identical samples restarts, and a check that needs at least one
/// is not stable; nor was it stable at any earlier round.
pub proof fn lemma_changed_size_is_not_stable(t: StabilityTracker)
    requires
        t.wf(),
        t.required() >= 1,
        t.history().len() > 0,
        t.history().last() matches Observation::Sampled(s) && last_sample(
            t.history().drop_last(),
        ) matches Some(p) && p.size != s.size,
    ensures
        run_length(t.history()) == 0,
        t.phase() != Stability::Stable,
        forall|i: int|
            0 <= i < t.history().len() - 1 ==> stability_after(
                t.required(),
                #[trigger] t.history().subrange(0, i + 1),
            ) != Stability::Stable,
{
}

/// A check that is still sampling needs at least one identical sample and
/// has rounds left in its budget.
pub proof fn lemma_sampling_needs_checks(t: StabilityTracker)
    requires
        t.wf(),
        t.phase() == Stability::Sampling,
    ensures
        t.required() >= 1,
        t.history().len() < 2 * t.required(),
{
}

/// Every sample differs in size from the sample taken before it.
pub open spec fn sizes_keep_changing(h: Seq<Observation>) -> bool {
    forall|i: int|
        0 <= i < h.len() ==> match #[trigger] h[i] {
            Observation::Sampled(s) => match last_sample(h.subrange(0, i)) {
                Some(p) => p.size != s.size,
                None => true,
            },
            _ => true,
        }
}

/// A file whose size changes between every two samples never becomes
/// stable, at any round, whatever the locks in between.
pub proof fn lemma_changing_file_never_stable(t: StabilityTracker)
    requires
        t.wf(),
        t.required() >= 1,
        sizes_keep_changing(t.history()),
    ensures
        t.phase() != Stability::Stable,
        forall|i: int|
            0 <= i <= t.history().len() ==> stability_after(
                t.required(),
                #[trigger] t.history().subrange(0, i),
            ) != Stability::Stable,
{
    let h = t.history();
    assert forall|i: int| 0 <= i <= h.len() implies stability_after(
        t.required(),
        #[trigger] h.subrange(0, i),
    ) != Stability::Stable by {
        let p = h.subrange(0, i);
        if i > 0 {
            assert(p.last() == h[i - 1]);
            assert(p.drop_last() =~= h.subrange(0, i - 1));
            assert(run_length(p) == 0);
        }
    }
    assert(h.subrange(0, h.len() as int) =~= h);
}

/// Names of transient files: Office lock files ("~$", "~RF"), temporary and
/// partial downloads, editor backups ("~").
pub open spec fn transient_name(n: Seq<char>) -> bool {
    let marked = |p: Seq<char>| has_prefix(n, p) || has_suffix(n, p);
    marked("~$"@) || marked(".tmp"@) || marked(".temp"@) || marked(".TMP"@) || marked(".TEMP"@)
        || marked(".crdownload"@) || marked(".download"@) || marked(".part"@) || marked("~"@)
        || contains_seq(n, ".tmp"@) || contains_seq(n, ".TMP"@) || contains_seq(n, "~RF"@)
}

fn marked(n: &str, p: &str) -> (r: bool)
    ensures
        r == (has_prefix(n@, p@) || has_suffix(n@, p@)),
{
    starts_with(n, p) || ends_with(n, p)
}

/// Whether a file of this name is transient and so never processed.
pub fn is_temporary_file(name: &str) -> (r: bool)
    ensures
        r == transient_name(name@),
{
    marked(name, "~$") || marked(name, ".tmp") || marked(name, ".temp") || marked(name, ".TMP")
        || marked(name, ".TEMP") || marked(name, ".crdownload") || marked(name, ".download")
        || marked(name, ".part") || marked(name, "~") || contains(name, ".tmp") || contains(
        name,
        ".TMP",
    ) || contains(name, "~RF")
}

/// A partial Chrome download is transient whatever precedes the suffix.
pub proof fn lemma_partial_download_is_transient(name: Seq<char>)
    requires
        has_suffix(name, ".crdownload"@),
    ensures
        transient_name(name),
{
}

/// Why monitoring cannot start.
#[derive(Clone, Copy, Debug, PartialEq, Eq, Structural)]
pub enum MonitorError {
    /// No folder of the configuration is enabled.
    NoEnabledFolder,
}

/// The enabled folders, in order; an error when there is none.
pub fn monitored_folders(config: &AppConfig) -> (r: Result<Vec<usize>, MonitorError>)
    ensures
        match r {
            Ok(v) => v@.len() > 0 && (forall|j: int|
                0 <= j < v@.len() ==> (#[trigger] v@[j]) < config.folders@.len()
                    && config.folders@[v@[j] as int].enabled) && (forall|j: int, k: int|
                0 <= j < k < v@.len() ==> #[trigger] v@[j] < #[trigger] v@[k]) && (forall|i: int|
                0 <= i < config.folders@.len() && (#[trigger] config.folders@[i]).enabled
                    ==> v@.contains(i as usize)),
            Err(e) => e == MonitorError::NoEnabledFolder && forall|i: int|
                0 <= i < config.folders@.len() ==> !(#[trigger] config.folders@[i]).enabled,
        },
{
    let mut out: Vec<usize> = Vec::new();
    let mut i: usize = 0;
    while i < config.folders.len()
        invariant
            i <= config.folders@.len(),
            forall|j: int| 0 <= j < out@.len() ==> (#[trigger] out@[j]) < i
                && config.folders@[out@[j] as int].enabled,
            forall|j: int, k: int| 0 <= j < k < out@.len() ==> #[trigger] out@[j] < #[trigger] out@[k],
            forall|m: int| 0 <= m < i && (#[trigger] config.folders@[m]).enabled ==> out@.contains(
                m as usize,
            ),
        decreases config.folders@.len() - i,
    {
        if config.folders[i].enabled {
            let ghost before = out@;
            out.push(i);
            proof {
                assert forall|m: int| 0 <= m < i + 1 && (#[trigger] config.folders@[m]).enabled
                    implies out@.contains(m as usize) by {
                    if m < i {
                        let w = choose|w: int| 0 <= w < before.len() && before[w] == m as usize;
                        assert(out@[w] == m as usize);
                    } else {
                        assert(out@[before.len() as int] == i);
                    }
                }
            }
        }
        i = i + 1;
    }
    if out.len() == 0 {
        assert forall|m: int| 0 <= m < config.folders@.len() implies !(
        #[trigger] config.folders@[m]).enabled by {
            if config.folders@[m].enabled {
                assert(out@.contains(m as usize));
            }
        }
        return Err(MonitorError::NoEnabledFolder);
    }
    Ok(out)
}

} // verus!
