//! Placing the sequences of a project one after another on the timeline, and
//! deciding whether an export can start.

use vstd::prelude::*;
use crate::ids::new_uuid_string;

verus! {

broadcast use vstd::string::to_string_from_display_ensures_for_str;

/// The kind of track a timeline entry sits on.
#[derive(Clone, Copy, Debug, PartialEq, Eq, Structural)]
pub enum TrackType {
    Audio,
    Video,
}

/// What the timeline needs of a sequence: its id, name and length.
pub struct SequenceTiming {
    pub id: String,
    pub name: String,
    pub duration_ms: i32,
}

/// One sequence placed on the timeline.
pub struct TimelineSequence {
    pub id: String,
    pub sequence_id: String,
    pub start_time_ms: i32,
    pub track_type: TrackType,
}

/// The saved timeline of a project.
pub struct SavedTimelineStateConfig {
    pub timeline_sequences: Vec<TimelineSequence>,
}

/// Total length of the first `n` sequences.
pub open spec fn prefix_duration(s: Seq<SequenceTiming>, n: int) -> int
    decreases n,
{
    if n <= 0 {
        0
    } else {
        prefix_duration(s, n - 1) + s[n - 1].duration_ms
    }
}

/// Whether every running total of the lengths, the full one included, fits
/// in an `i32` (the start times are `i32`).
pub open spec fn running_totals_fit(s: Seq<SequenceTiming>) -> bool {
    forall|n: int| 0 <= n <= s.len() ==> i32::MIN <= #[trigger] prefix_duration(s, n) <= i32::MAX
}

/// The sequence a new project starts with: "Sequence 1", 20 seconds long.
pub fn first_sequence(id: String) -> (s: SequenceTiming)
    ensures
        s.id == id,
        s.name@ == "Sequence 1"@,
        s.duration_ms == 20000,
{
    SequenceTiming { id, name: "Sequence 1".to_string(), duration_ms: 20000 }
}

/// Whether `t` places `s` in series: one video entry per sequence, in order,
/// each starting where the ones before it end.
pub open spec fn is_series_of(t: Seq<TimelineSequence>, s: Seq<SequenceTiming>) -> bool {
    &&& t.len() == s.len()
    &&& forall|i: int|
        0 <= i < t.len() ==> {
            &&& (#[trigger] t[i]).sequence_id@ == s[i].id@
            &&& t[i].start_time_ms == prefix_duration(s, i)
            &&& t[i].track_type == TrackType::Video
        }
}

/// Places the sequences one after another on the video track, the first at
/// 0 ms; each entry gets a fresh id. The sequences are left as they were.
pub fn arrange_sequences_in_series(sequences: &mut Vec<SequenceTiming>) -> (config: SavedTimelineStateConfig)
    requires
        running_totals_fit(old(sequences)@),
    ensures
        final(sequences)@ == old(sequences)@,
        is_series_of(config.timeline_sequences@, old(sequences)@),
{
    let mut timeline_sequences: Vec<TimelineSequence> = Vec::new();
    let mut current_start_time: i32 = 0;
    let mut i: usize = 0;
    while i < sequences.len()
        invariant
            i <= sequences@.len(),
            sequences@ == old(sequences)@,
            running_totals_fit(sequences@),
            current_start_time == prefix_duration(sequences@, i as int),
            timeline_sequences@.len() == i,
            forall|k: int|
                0 <= k < i ==> {
                    &&& (#[trigger] timeline_sequences@[k]).sequence_id@ == sequences@[k].id@
                    &&& timeline_sequences@[k].start_time_ms == prefix_duration(sequences@, k)
                    &&& timeline_sequences@[k].track_type == TrackType::Video
                },
        decreases sequences@.len() - i,
    {
        let sequence = &sequences[i];
        timeline_sequences.push(
            TimelineSequence {
                id: new_uuid_string(),
                sequence_id: sequence.id.clone(),
                start_time_ms: current_start_time,
                track_type: TrackType::Video,
            },
        );
        assert(i32::MIN <= prefix_duration(sequences@, i as int + 1) <= i32::MAX);
        current_start_time = current_start_time + sequence.duration_ms;
        i = i + 1;
    }
    SavedTimelineStateConfig { timeline_sequences }
}

/// The outcome of an export request.
pub enum ExportPlan {
    /// An export is already running; nothing changes.
    AlreadyExporting,
    /// There is no saved state or it holds no sequence.
    NoSequences,
    /// The sequences add up to no time at all, or less.
    InvalidDuration,
    /// The export can start with this timeline and total length.
    Ready { timeline: SavedTimelineStateConfig, total_duration_ms: i32 },
}

/// Decides an export request: refused while one runs, when there are no
/// sequences, or when their total length is not positive; otherwise the
/// sequences are placed in series for the exporter.
pub fn plan_export(is_exporting: bool, sequences: Option<&Vec<SequenceTiming>>) -> (plan: ExportPlan)
    requires
        !is_exporting && sequences is Some && sequences->0@.len() > 0 ==> running_totals_fit(
            sequences->0@,
        ),
    ensures
        is_exporting ==> plan is AlreadyExporting,
        !is_exporting && (sequences is None || sequences->0@.len() == 0) ==> plan is NoSequences,
        !is_exporting && sequences is Some && sequences->0@.len() > 0 ==> {
            let s = sequences->0@;
            if prefix_duration(s, s.len() as int) <= 0 {
                plan is InvalidDuration
            } else {
                &&& plan is Ready
                &&& is_series_of(plan->timeline.timeline_sequences@, s)
                &&& plan->total_duration_ms == prefix_duration(s, s.len() as int)
            }
        },
{
    if is_exporting {
        return ExportPlan::AlreadyExporting;
    }
    match sequences {
        None => ExportPlan::NoSequences,
        Some(seqs) => {
            if seqs.len() == 0 {
                return ExportPlan::NoSequences;
            }
            let mut timing_copy: Vec<SequenceTiming> = Vec::new();
            let mut i: usize = 0;
            while i < seqs.len()
                invariant
                    i <= seqs@.len(),
                    timing_copy@.len() == i,
                    forall|k: int|
                        0 <= k < i ==> (#[trigger] timing_copy@[k]).id@ == seqs@[k].id@
                            && timing_copy@[k].duration_ms == seqs@[k].duration_ms,
                decreases seqs@.len() - i,
            {
                timing_copy.push(
                    SequenceTiming {
                        id: seqs[i].id.clone(),
                        name: seqs[i].name.clone(),
                        duration_ms: seqs[i].duration_ms,
                    },
                );
                i = i + 1;
            }
            proof {
                lemma_prefix_same_lengths(timing_copy@, seqs@);
            }
            let timeline = arrange_sequences_in_series(&mut timing_copy);
            let total = total_duration(seqs);
            if total <= 0 {
                ExportPlan::InvalidDuration
            } else {
                ExportPlan::Ready { timeline, total_duration_ms: total }
            }
        },
    }
}

proof fn lemma_prefix_same_lengths(a: Seq<SequenceTiming>, b: Seq<SequenceTiming>)
    requires
        a.len() == b.len(),
        forall|k: int| 0 <= k < a.len() ==> (#[trigger] a[k]).duration_ms == b[k].duration_ms,
    ensures
        forall|n: int| 0 <= n <= a.len() ==> #[trigger] prefix_duration(a, n) == prefix_duration(b, n),
{
    assert forall|n: int| 0 <= n <= a.len() implies #[trigger] prefix_duration(a, n) == prefix_duration(b, n) by {
        lemma_prefix_same_upto(a, b, n);
    }
}

proof fn lemma_prefix_same_upto(a: Seq<SequenceTiming>, b: Seq<SequenceTiming>, n: int)
    requires
        0 <= n <= a.len(),
        a.len() == b.len(),
        forall|k: int| 0 <= k < a.len() ==> (#[trigger] a[k]).duration_ms == b[k].duration_ms,
    ensures
        prefix_duration(a, n) == prefix_duration(b, n),
    decreases n,
{
    if n > 0 {
        lemma_prefix_same_upto(a, b, n - 1);
    }
}

/// The total length of the sequences.
pub fn total_duration(sequences: &Vec<SequenceTiming>) -> (total: i32)
    requires
        running_totals_fit(sequences@),
    ensures
        total == prefix_duration(sequences@, sequences@.len() as int),
{
    let mut total: i32 = 0;
    let mut i: usize = 0;
    while i < sequences.len()
        invariant
            i <= sequences@.len(),
            running_totals_fit(sequences@),
            total == prefix_duration(sequences@, i as int),
        decreases sequences@.len() - i,
    {
        assert(i32::MIN <= prefix_duration(sequences@, i as int + 1) <= i32::MAX);
        total = total + sequences[i].duration_ms;
        i = i + 1;
    }
    total
}

/// In a series, each sequence starts where the previous one ends, and the
/// first starts at 0 ms.
pub proof fn lemma_series_is_contiguous(t: Seq<TimelineSequence>, s: Seq<SequenceTiming>)
    requires
        is_series_of(t, s),
    ensures
        t.len() > 0 ==> t[0].start_time_ms == 0,
        forall|i: int|
            0 <= i < t.len() - 1 ==> #[trigger] t[i + 1].start_time_ms == t[i].start_time_ms
                + s[i].duration_ms,
{
    assert forall|i: int| 0 <= i < t.len() - 1 implies #[trigger] t[i + 1].start_time_ms
        == t[i].start_time_ms + s[i].duration_ms by {
        assert(t[i + 1].start_time_ms == prefix_duration(s, i + 1));
        assert(t[i].start_time_ms == prefix_duration(s, i));
    }
    if t.len() > 0 {
        assert(t[0].start_time_ms == prefix_duration(s, 0));
    }
}

} // verus!
