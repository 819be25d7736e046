use vstd::prelude::*;

verus! {

/// A file modification time: whole seconds relative to the Unix epoch
/// (negative before it) plus the nanoseconds past that second.
#[derive(Clone, Copy, Debug)]
pub struct Timestamp {
    pub secs: i64,
    pub nanos: u32,
}

impl Timestamp {
    /// The instant as a number of nanoseconds since the epoch.
    pub open spec fn as_nanos(self) -> int {
        self.secs as int * 1_000_000_000 + self.nanos as int
    }

    /// Whether `self` is strictly later than `other`.
    pub fn is_after(&self, other: &Timestamp) -> (r: bool)
        ensures
            r == (self.as_nanos() > other.as_nanos()),
    {
        let a: i128 = self.secs as i128 * 1_000_000_000i128 + self.nanos as i128;
        let b: i128 = other.secs as i128 * 1_000_000_000i128 + other.nanos as i128;
        a > b
    }
}

/// What to do with one (source, destination) file pair.
#[derive(Clone, Copy, Debug, PartialEq, Eq, Structural)]
pub enum Verdict {
    Copy,
    Skip,
}

/// The staleness rule: copy when the destination is missing, when either
/// modification time could not be read, or when the source is strictly newer.
pub open spec fn spec_verdict(
    destination_exists: bool,
    source_modified: Option<Timestamp>,
    destination_modified: Option<Timestamp>,
) -> Verdict {
    if !destination_exists {
        Verdict::Copy
    } else {
        match (source_modified, destination_modified) {
            (Some(s), Some(d)) => if s.as_nanos() > d.as_nanos() {
                Verdict::Copy
            } else {
                Verdict::Skip
            },
            _ => Verdict::Copy,
        }
    }
}

/// Decides whether a file must be copied. A modification time that could not
/// be read is passed as `None`; the decision then fails open, to `Copy`.
pub fn should_copy_file(
    destination_exists: bool,
    source_modified: Option<Timestamp>,
    destination_modified: Option<Timestamp>,
) -> (v: Verdict)
    ensures
        v == spec_verdict(destination_exists, source_modified, destination_modified),
{
    if !destination_exists {
        return Verdict::Copy;
    }
    match (source_modified, destination_modified) {
        (Some(s), Some(d)) => {
            if s.is_after(&d) {
                Verdict::Copy
            } else {
                Verdict::Skip
            }
        },
        _ => Verdict::Copy,
    }
}

/// Staleness is monotone: with both times readable, an existing destination
/// is refreshed exactly when the source was modified strictly after it, and
/// left alone when the source is as old or older.
pub proof fn lemma_staleness_monotone(source_modified: Timestamp, destination_modified: Timestamp)
    ensures
        source_modified.as_nanos() > destination_modified.as_nanos() ==> spec_verdict(
            true,
            Some(source_modified),
            Some(destination_modified),
        ) == Verdict::Copy,
        source_modified.as_nanos() <= destination_modified.as_nanos() ==> spec_verdict(
            true,
            Some(source_modified),
            Some(destination_modified),
        ) == Verdict::Skip,
{
}

/// A second pass over an unchanged file copies nothing: once the destination
/// carries a modification time no earlier than the source's, the verdict is
/// `Skip`, and it stays `Skip` however often it is asked again.
pub proof fn lemma_unchanged_file_is_skipped(
    source_modified: Timestamp,
    destination_modified: Timestamp,
)
    requires
        destination_modified.as_nanos() >= source_modified.as_nanos(),
    ensures
        spec_verdict(true, Some(source_modified), Some(destination_modified)) == Verdict::Skip,
{
}

} // verus!
