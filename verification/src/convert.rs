//! The upload-conversion pipeline as a state machine.
//!
//! One job turns one uploaded source file into the kernel-native solid
//! published under its content hash.  The decisions live here, fully
//! specified: what each outside event does to the job, which action the
//! runner performs next, and that the persisted progress record sequence is
//! non-decreasing and ends at exactly one hundred on success or above it on
//! failure — never both.  The runner performs the store reads and writes and
//! the kernel call, and hands each outcome back as an event; a job is never
//! retried automatically, and no record is written after a terminal one.

use vstd::prelude::*;

use crate::canon::{canon_string, int_text, lit, push_int_i64, push_json_string, push_lit};
use crate::hashing::{content_hash, hex_chars, sha256_of};

verus! {

use vstd::string::StringExecFns;

/// Where a job stands.
#[derive(Clone, Copy, PartialEq, Eq, Structural)]
pub enum JobPhase {
    Created,
    Downloading,
    Converting,
    Uploading,
    Done,
    Failed,
}

/// One persisted progress record.
#[derive(Clone)]
pub struct ProgressRecord {
    pub timestamp: i64,
    pub progress: u32,
    pub message: String,
}

/// What the runner does next.
pub enum JobAction {
    /// Read the uploaded source bytes from the temporary bucket.
    FetchSource(String),
    /// Write the source to scratch and run the kernel's native-format
    /// reader, with the heartbeat racing it.
    StartConvert,
    /// Serialize the kernel's solid to its binary form.
    WriteSolid,
    /// Publish source and solid under this content hash.
    PublishArtifacts(String),
    /// The job is terminal; do nothing further.
    Halt,
}

/// The progress percentage a heartbeat reports after a number of ticks:
/// climbing from the reading milestone, capped below the next real one.
pub open spec fn heartbeat_progress(ticks: int) -> int {
    if 20 + ticks < 69 {
        20 + ticks
    } else {
        69
    }
}

/// The ephemeral state of one conversion job.
pub struct ConversionJob {
    /// The caller-chosen opaque id the source was uploaded under.
    pub id: String,
    /// The content hash the caller declared up front, if any; a mismatch
    /// with the downloaded bytes fails the job before any kernel call.
    pub expected_hash: Option<String>,
    pub phase: JobPhase,
    /// How many synthetic heartbeat updates have been emitted.
    pub heartbeat_ticks: u32,
    /// The computed content hash, once the source bytes are known.
    pub content_hash: Option<String>,
    /// Every persisted progress record, in order.
    pub history: Vec<ProgressRecord>,
}

impl ConversionJob {
    /// The most recent progress percentage, or zero before any record.
    pub open spec fn last_progress(&self) -> int {
        if self.history@.len() == 0 {
            0
        } else {
            self.history@.last().progress as int
        }
    }

    /// The job's invariant: progress never decreases, and the phase pins
    /// the latest record down — empty before execution, one while
    /// downloading, between the reading milestone and the heartbeat cap
    /// while converting, between the serialization and upload milestones
    /// while uploading, exactly one hundred when done, and above it when
    /// failed.  From the conversion on, the content hash is known.
    pub open spec fn wf(&self) -> bool {
        &&& forall|i: int, j: int|
            #![trigger self.history@[i], self.history@[j]]
            0 <= i < j < self.history@.len() ==> self.history@[i].progress
                <= self.history@[j].progress
        &&& (self.phase is Created ==> self.history@.len() == 0)
        &&& (self.phase is Downloading ==> self.last_progress() == 1)
        &&& (self.phase is Converting ==> 20 <= self.last_progress() <= heartbeat_progress(
            self.heartbeat_ticks as int,
        ))
        &&& (self.phase is Uploading ==> 70 <= self.last_progress() <= 90)
        &&& (self.phase is Done ==> self.history@.len() > 0 && self.last_progress() == 100)
        &&& (self.phase is Failed ==> self.history@.len() > 0 && self.last_progress() >= 101)
        &&& ((self.phase is Converting || self.phase is Uploading || self.phase is Done)
            ==> self.content_hash is Some)
    }

    /// Whether the job has ended, one way or the other.
    pub open spec fn is_terminal(&self) -> bool {
        self.phase is Done || self.phase is Failed
    }

    /// A fresh job for an uploaded source.
    pub fn new(id: String, expected_hash: Option<String>) -> (r: ConversionJob)
        ensures
            r.wf(),
            r.phase is Created,
            r.id == id,
            r.expected_hash == expected_hash,
            r.content_hash is None,
            r.history@.len() == 0,
    {
        ConversionJob {
            id,
            expected_hash,
            phase: JobPhase::Created,
            heartbeat_ticks: 0,
            content_hash: None,
            history: Vec::new(),
        }
    }

    /// Appends a record, which may not lower the progress.
    fn push_record(&mut self, timestamp: i64, progress: u32, message: String)
        requires
            old(self).wf(),
            progress >= old(self).last_progress(),
        ensures
            final(self).history@ == old(self).history@.push(
                ProgressRecord { timestamp, progress, message },
            ),
            final(self).history@.drop_last() == old(self).history@,
            final(self).last_progress() == progress,
            forall|i: int, j: int|
                #![trigger final(self).history@[i], final(self).history@[j]]
                0 <= i < j < final(self).history@.len() ==> final(self).history@[i].progress
                    <= final(self).history@[j].progress,
            final(self).phase == old(self).phase,
            final(self).id == old(self).id,
            final(self).expected_hash == old(self).expected_hash,
            final(self).heartbeat_ticks == old(self).heartbeat_ticks,
            final(self).content_hash == old(self).content_hash,
    {
        let ghost pre = self.history@;
        self.history.push(ProgressRecord { timestamp, progress, message });
        proof {
            assert(self.history@.drop_last() =~= pre);
            assert forall|i: int, j: int|
                #![trigger self.history@[i], self.history@[j]]
                0 <= i < j < self.history@.len() implies self.history@[i].progress
                <= self.history@[j].progress by {
                if j < pre.len() {
                    assert(pre[i].progress <= pre[j].progress);
                } else if pre.len() > 0 {
                    assert(pre[i].progress <= pre[pre.len() - 1].progress);
                }
            }
        }
    }

    /// Begins execution: records the download milestone and asks the runner
    /// to fetch the uploaded source.
    pub fn start_execute(&mut self, now: i64) -> (r: JobAction)
        requires
            old(self).wf(),
            old(self).phase is Created,
        ensures
            final(self).wf(),
            final(self).phase is Downloading,
            final(self).id == old(self).id,
            final(self).expected_hash == old(self).expected_hash,
            final(self).content_hash == old(self).content_hash,
            final(self).history@.drop_last() == old(self).history@,
            final(self).history@.len() == 1,
            final(self).history@.last().progress == 1,
            r matches JobAction::FetchSource(k) && k@ == source_key_view(old(self).id@),
    {
        let mut m = String::new();
        m.append("downloading source");
        self.push_record(now, 1, m);
        self.phase = JobPhase::Downloading;
        JobAction::FetchSource(source_key(&self.id))
    }

    /// Takes the downloaded source bytes.  If a content hash was declared
    /// up front and the bytes hash differently, the job fails at once —
    /// an integrity violation, never retried — and no conversion is
    /// started; otherwise the computed hash becomes the publication key,
    /// the reading milestone is recorded and the kernel conversion begins.
    pub fn on_downloaded(&mut self, now: i64, data: &Vec<u8>) -> (r: JobAction)
        requires
            old(self).wf(),
            old(self).phase is Downloading,
        ensures
            final(self).wf(),
            final(self).id == old(self).id,
            final(self).expected_hash == old(self).expected_hash,
            final(self).history@.drop_last() == old(self).history@,
            match old(self).expected_hash {
                Some(e) => {
                    if e@ != hex_chars(sha256_of(data@)) {
                        &&& final(self).phase is Failed
                        &&& final(self).content_hash == old(self).content_hash
                        &&& final(self).last_progress() == 101
                        &&& r is Halt
                    } else {
                        &&& final(self).phase is Converting
                        &&& (final(self).content_hash matches Some(h) && h@ == hex_chars(
                            sha256_of(data@),
                        ))
                        &&& final(self).last_progress() == 20
                        &&& r is StartConvert
                    }
                },
                None => {
                    &&& final(self).phase is Converting
                    &&& (final(self).content_hash matches Some(h) && h@ == hex_chars(
                        sha256_of(data@),
                    ))
                    &&& final(self).last_progress() == 20
                    &&& r is StartConvert
                },
            },
    {
        let hash = content_hash(data.as_slice());
        let mismatch: bool = match &self.expected_hash {
            Some(e) => !e.eq(&hash),
            None => false,
        };
        if mismatch {
            let mut m = String::new();
            m.append("content hash mismatch");
            self.push_record(now, 101, m);
            self.phase = JobPhase::Failed;
            JobAction::Halt
        } else {
            let mut m = String::new();
            m.append("reading source file");
            self.push_record(now, 20, m);
            self.phase = JobPhase::Converting;
            self.heartbeat_ticks = 0;
            self.content_hash = Some(hash);
            JobAction::StartConvert
        }
    }

    /// One synthetic heartbeat while the kernel reader runs: progress
    /// climbs by one per tick and stays capped below the next real
    /// milestone.  The heartbeat is cancelled by the runner the instant the
    /// real result is known, so none follows a terminal record.
    pub fn on_heartbeat(&mut self, now: i64) -> (r: u32)
        requires
            old(self).wf(),
            old(self).phase is Converting,
        ensures
            final(self).wf(),
            final(self).phase is Converting,
            final(self).id == old(self).id,
            final(self).expected_hash == old(self).expected_hash,
            final(self).content_hash == old(self).content_hash,
            final(self).history@.drop_last() == old(self).history@,
            r as int == heartbeat_progress(old(self).heartbeat_ticks + 1),
            final(self).last_progress() == r as int,
    {
        let ticks: u32 = if self.heartbeat_ticks < 49 {
            self.heartbeat_ticks + 1
        } else {
            self.heartbeat_ticks
        };
        let p: u32 = if ticks < 49 {
            20 + ticks
        } else {
            69
        };
        let mut m = String::new();
        m.append("reading source file");
        self.push_record(now, p, m);
        self.heartbeat_ticks = ticks;
        p
    }

    /// The kernel reader finished: record the serialization milestone and
    /// have the runner write the solid's binary form.
    pub fn on_converted(&mut self, now: i64) -> (r: JobAction)
        requires
            old(self).wf(),
            old(self).phase is Converting,
        ensures
            final(self).wf(),
            final(self).phase is Uploading,
            final(self).id == old(self).id,
            final(self).expected_hash == old(self).expected_hash,
            final(self).content_hash == old(self).content_hash,
            final(self).history@.drop_last() == old(self).history@,
            final(self).last_progress() == 70,
            r is WriteSolid,
    {
        let mut m = String::new();
        m.append("writing solid binary");
        self.push_record(now, 70, m);
        self.phase = JobPhase::Uploading;
        JobAction::WriteSolid
    }

    /// The binary form is on scratch: record the upload milestone and have
    /// the runner publish source and solid under the content hash.
    pub fn on_written(&mut self, now: i64) -> (r: JobAction)
        requires
            old(self).wf(),
            old(self).phase is Uploading,
        ensures
            final(self).wf(),
            final(self).phase is Uploading,
            final(self).id == old(self).id,
            final(self).expected_hash == old(self).expected_hash,
            final(self).content_hash == old(self).content_hash,
            final(self).history@.drop_last() == old(self).history@,
            final(self).last_progress() == 90,
            r matches JobAction::PublishArtifacts(h) && Some(h) == old(self).content_hash,
    {
        let mut m = String::new();
        m.append("uploading artifacts");
        self.push_record(now, 90, m);
        let hash = match &self.content_hash {
            Some(h) => h.clone(),
            None => {
                proof {
                    assert(old(self).content_hash is Some);
                    assert(false);
                }
                String::new()
            },
        };
        JobAction::PublishArtifacts(hash)
    }

    /// Both artifacts are durable: the job is done, at exactly one hundred.
    pub fn on_published(&mut self, now: i64)
        requires
            old(self).wf(),
            old(self).phase is Uploading,
        ensures
            final(self).wf(),
            final(self).phase is Done,
            final(self).id == old(self).id,
            final(self).expected_hash == old(self).expected_hash,
            final(self).content_hash == old(self).content_hash,
            final(self).history@.drop_last() == old(self).history@,
            final(self).last_progress() == 100,
    {
        let mut m = String::new();
        m.append("done");
        self.push_record(now, 100, m);
        self.phase = JobPhase::Done;
    }

    /// Any step failed: the job halts with a record above one hundred and
    /// the given diagnostic, and is never retried automatically.
    pub fn on_step_failed(&mut self, now: i64, message: String)
        requires
            old(self).wf(),
            !old(self).is_terminal(),
        ensures
            final(self).wf(),
            final(self).phase is Failed,
            final(self).id == old(self).id,
            final(self).expected_hash == old(self).expected_hash,
            final(self).content_hash == old(self).content_hash,
            final(self).history@.drop_last() == old(self).history@,
            final(self).last_progress() == 101,
            final(self).history@.last().message == message,
    {
        self.push_record(now, 101, message);
        self.phase = JobPhase::Failed;
    }

    /// A copy of the latest persisted record, for a status query on any
    /// later connection.
    pub fn latest_record(&self) -> (r: Option<ProgressRecord>)
        ensures
            match r {
                Some(rec) => self.history@.len() > 0 && rec.timestamp
                    == self.history@.last().timestamp && rec.progress
                    == self.history@.last().progress && rec.message@
                    == self.history@.last().message@,
                None => self.history@.len() == 0,
            },
    {
        if self.history.len() == 0 {
            None
        } else {
            let rec = &self.history[self.history.len() - 1];
            Some(
                ProgressRecord {
                    timestamp: rec.timestamp,
                    progress: rec.progress,
                    message: rec.message.clone(),
                },
            )
        }
    }
}

/// Progress monotonicity: for a completed or failed job the persisted
/// percentages never decrease, and the sequence ends at exactly one hundred
/// on success or at one hundred one or more on failure — the two cannot be
/// confused.
pub proof fn lemma_progress_monotone(job: ConversionJob)
    requires
        job.wf(),
        job.is_terminal(),
    ensures
        forall|i: int, j: int|
            #![trigger job.history@[i], job.history@[j]]
            0 <= i < j < job.history@.len() ==> job.history@[i].progress
                <= job.history@[j].progress,
        job.history@.len() > 0,
        job.phase is Done ==> job.history@.last().progress == 100,
        job.phase is Failed ==> job.history@.last().progress >= 101,
        !(job.phase is Done && job.phase is Failed),
{
}

/// The temporary-bucket key the source of job `id` was uploaded under.
pub open spec fn source_key_view(id: Seq<char>) -> Seq<char> {
    "_/"@ + id + ".step"@
}

/// The temporary-bucket key of job `id`'s persisted progress records.
pub open spec fn log_key_view(id: Seq<char>) -> Seq<char> {
    "_/"@ + id + ".log"@
}

/// The temporary-bucket key of the uploaded source of job `id`.
pub fn source_key(id: &String) -> (r: String)
    ensures
        r@ == source_key_view(id@),
{
    let mut r = String::new();
    r.append("_/");
    r.append(id.as_str());
    r.append(".step");
    r
}

/// The temporary-bucket key of the progress log of job `id`.
pub fn log_key(id: &String) -> (r: String)
    ensures
        r@ == log_key_view(id@),
{
    let mut r = String::new();
    r.append("_/");
    r.append(id.as_str());
    r.append(".log");
    r
}

/// The JSON rendering of one progress record, as persisted.
pub open spec fn status_json_bytes(timestamp: int, progress: int, message: Seq<char>) -> Seq<
    u8,
> {
    lit("{\"timestamp\":") + int_text(timestamp) + lit(",\"progress\":") + int_text(progress)
        + lit(",\"message\":") + canon_string(message) + lit("}")
}

/// Renders one progress record as the JSON document a status query reads.
pub fn status_json(rec: &ProgressRecord) -> (r: Vec<u8>)
    ensures
        r@ == status_json_bytes(rec.timestamp as int, rec.progress as int, rec.message@),
{
    let mut out: Vec<u8> = Vec::new();
    push_lit(&mut out, "{\"timestamp\":");
    push_int_i64(&mut out, rec.timestamp);
    push_lit(&mut out, ",\"progress\":");
    push_int_i64(&mut out, rec.progress as i64);
    push_lit(&mut out, ",\"message\":");
    push_json_string(&mut out, rec.message.as_str());
    push_lit(&mut out, "}");
    proof {
        assert(out@ =~= status_json_bytes(rec.timestamp as int, rec.progress as int, rec.message@));
    }
    out
}

} // verus!
