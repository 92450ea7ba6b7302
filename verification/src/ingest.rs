//! The parsing pass of a cycle: from the tracker and the text of the selected
//! file to the new readings, with the tracker moved past them.
use crate::clock::capture_timestamp;
use crate::record::{is_blank, record_from_row, row_columns, WeatherData};
use crate::text::{line_spans, lines_of, spans_mark, to_chars, trim_span, Span};
use crate::tracker::{FileTracker, TrackerState, PREAMBLE_LINES};
use vstd::prelude::*;

verus! {

/// Lines at or beyond this index are never read, however long the file is.
pub const LINE_CAP: usize = 2000;

/// The index at which a pass over a file of `line_count` lines stops.
pub open spec fn scan_end(line_count: int) -> int {
    if line_count < LINE_CAP {
        line_count
    } else {
        LINE_CAP as int
    }
}

/// The indices, in ascending order, of the lines in `start..end` that are not
/// blank.
pub open spec fn consumed(lines: Seq<Seq<char>>, start: int, end: int) -> Seq<int>
    decreases end - start,
{
    if end <= start {
        Seq::empty()
    } else if is_blank(lines[end - 1]) {
        consumed(lines, start, end - 1)
    } else {
        consumed(lines, start, end - 1).push(end - 1)
    }
}

/// The indices of the lines that a cycle on `file_name` turns into readings,
/// in the order in which it emits them.
pub open spec fn cycle_lines(
    tracker: TrackerState,
    file_name: Seq<char>,
    lines: Seq<Seq<char>>,
) -> Seq<int> {
    consumed(lines, tracker.start_for(file_name) as int, scan_end(lines.len() as int))
}

/// The tracker after a cycle on `file_name`: on that file, and on the last
/// line that became a reading, or where turning to the file left it if no
/// line did.
pub open spec fn after_cycle(
    tracker: TrackerState,
    file_name: Seq<char>,
    lines: Seq<Seq<char>>,
) -> TrackerState {
    let emitted = cycle_lines(tracker, file_name, lines);
    if emitted.len() > 0 {
        TrackerState { active_file: Some(file_name), last_consumed_offset: emitted.last() as nat }
    } else {
        tracker.turned_to(file_name)
    }
}

/// Whether `records` are, one for one and in order, the readings of the lines
/// with the given indices. Timestamps are left open.
pub open spec fn records_match(
    records: Seq<WeatherData>,
    lines: Seq<Seq<char>>,
    indices: Seq<int>,
) -> bool {
    &&& records.len() == indices.len()
    &&& forall|j: int|
        0 <= j < records.len() ==> (#[trigger] records[j])@.columns == row_columns(
            lines[indices[j]],
        )
}

/// Reads the lines of `content` that are new since the tracker's last visit
/// to `file_name` and returns their readings in line order. Blank lines are
/// passed over. The tracker ends on the last line that became a reading.
pub fn collect_new_records(
    tracker: &mut FileTracker,
    file_name: &str,
    content: &str,
) -> (records: Vec<WeatherData>)
    ensures
        records_match(
            records@,
            lines_of(content@),
            cycle_lines(old(tracker)@, file_name@, lines_of(content@)),
        ),
        final(tracker)@ == after_cycle(old(tracker)@, file_name@, lines_of(content@)),
{
    let buffer = to_chars(content);
    let lines = line_spans(buffer.as_slice());
    let start: usize = tracker.resolve_start(file_name);
    let end: usize = if lines.len() < LINE_CAP {
        lines.len()
    } else {
        LINE_CAP
    };
    let ghost all_lines = lines_of(content@);
    let ghost turned = tracker@;
    let mut records: Vec<WeatherData> = Vec::new();
    let mut row_index: usize = start;
    while row_index < end
        invariant
            start <= row_index,
            row_index <= end || row_index == start,
            end <= LINE_CAP,
            end <= lines@.len(),
            spans_mark(lines@, buffer@, all_lines),
            turned.active_file == Some(file_name@),
            turned.last_consumed_offset == start - 1,
            records_match(records@, all_lines, consumed(all_lines, start as int, row_index as int)),
            tracker@ == (if records@.len() > 0 {
                TrackerState {
                    active_file: Some(file_name@),
                    last_consumed_offset: consumed(
                        all_lines,
                        start as int,
                        row_index as int,
                    ).last() as nat,
                }
            } else {
                turned
            }),
            records@.len() > 0 ==> start <= consumed(
                all_lines,
                start as int,
                row_index as int,
            ).last() < row_index,
        decreases end - row_index,
    {
        let row: Span = trim_span(buffer.as_slice(), lines[row_index]);
        if row.start != row.end {
            let record = record_from_row(buffer.as_slice(), row, capture_timestamp());
            records.push(record);
            tracker.update_last_line(row_index);
        }
        row_index += 1;
    }
    records
}

/// `consumed` holds exactly the lines of `start..end` that are not blank,
/// each once and in ascending order. In particular a blank line hides none of
/// the lines after it.
pub proof fn lemma_consumed_exact(lines: Seq<Seq<char>>, start: int, end: int)
    requires
        0 <= start,
        end <= lines.len(),
    ensures
        forall|j: int|
            0 <= j < consumed(lines, start, end).len() ==> {
                let i = #[trigger] consumed(lines, start, end)[j];
                start <= i < end && !is_blank(lines[i])
            },
        forall|j: int, k: int|
            0 <= j < k < consumed(lines, start, end).len() ==> consumed(lines, start, end)[j]
                < consumed(lines, start, end)[k],
        forall|i: int|
            start <= i < end && !is_blank(lines[i]) ==> consumed(lines, start, end).contains(i),
    decreases end - start,
{
    if start < end {
        lemma_consumed_exact(lines, start, end - 1);
        let before = consumed(lines, start, end - 1);
        let all = consumed(lines, start, end);
        assert forall|i: int| start <= i < end && !is_blank(lines[i]) implies all.contains(i) by {
            if i < end - 1 {
                assert(before.contains(i));
                let j = choose|j: int| 0 <= j < before.len() && before[j] == i;
                assert(all[j] == i);
            } else {
                assert(all[before.len() as int] == i);
            }
        }
    }
}

/// Where every line from `start` on is a data line, `consumed` is the whole
/// range.
pub proof fn lemma_consumed_all(lines: Seq<Seq<char>>, start: int, end: int)
    requires
        0 <= start,
        end <= lines.len(),
        forall|i: int| start <= i < end ==> !is_blank(#[trigger] lines[i]),
    ensures
        consumed(lines, start, end) == Seq::new(
            (if start <= end {
                end - start
            } else {
                0
            }) as nat,
            |j: int| start + j,
        ),
    decreases end - start,
{
    if start < end {
        lemma_consumed_all(lines, start, end - 1);
    }
}

/// A cycle over a file that is not longer than [`LINE_CAP`] lines, and whose
/// lines from the starting offset on are all data lines, emits one reading
/// for each of them, in file order, with the measurements of that line. On a
/// file that the tracker was not consuming before, these are all the lines
/// after the preamble.
pub proof fn lemma_every_data_line_is_emitted(
    tracker: TrackerState,
    file_name: Seq<char>,
    lines: Seq<Seq<char>>,
    records: Seq<WeatherData>,
)
    requires
        lines.len() <= LINE_CAP,
        tracker.start_for(file_name) <= lines.len(),
        forall|i: int|
            tracker.start_for(file_name) <= i < lines.len() ==> !is_blank(#[trigger] lines[i]),
        records_match(records, lines, cycle_lines(tracker, file_name, lines)),
    ensures
        records.len() == lines.len() - tracker.start_for(file_name),
        forall|j: int|
            0 <= j < records.len() ==> (#[trigger] records[j])@.columns == row_columns(
                lines[tracker.start_for(file_name) + j],
            ),
        !tracker.is_tracking(file_name) ==> records.len() == lines.len() - PREAMBLE_LINES,
        after_cycle(tracker, file_name, lines).last_consumed_offset == lines.len() - 1,
{
    lemma_consumed_all(lines, tracker.start_for(file_name) as int, lines.len() as int);
}

/// Resuming: after a cycle has left the tracker on line `k` of a file, the
/// next cycle on that file starts at line `k + 1`. Every line that the first
/// cycle emitted lies at or before `k`, every line that the next one emits
/// lies after it, so no line is emitted twice, whatever the file holds by
/// then.
pub proof fn lemma_resume_never_re_emits(
    tracker: TrackerState,
    file_name: Seq<char>,
    first: Seq<Seq<char>>,
    second: Seq<Seq<char>>,
)
    ensures
        ({
            let resumed = after_cycle(tracker, file_name, first);
            let k = resumed.last_consumed_offset;
            &&& resumed.is_tracking(file_name)
            &&& resumed.start_for(file_name) == k + 1
            &&& forall|j: int|
                0 <= j < cycle_lines(tracker, file_name, first).len() ==> #[trigger] cycle_lines(
                    tracker,
                    file_name,
                    first,
                )[j] <= k
            &&& forall|j: int|
                0 <= j < cycle_lines(resumed, file_name, second).len() ==> #[trigger] cycle_lines(
                    resumed,
                    file_name,
                    second,
                )[j] > k
        }),
{
    let resumed = after_cycle(tracker, file_name, first);
    lemma_consumed_exact(first, tracker.start_for(file_name) as int, scan_end(first.len() as int));
    lemma_consumed_exact(
        second,
        resumed.start_for(file_name) as int,
        scan_end(second.len() as int),
    );
}

/// Rollover: a cycle on a file other than the one being consumed starts at
/// the first data line, whatever offset the tracker held.
pub proof fn lemma_rollover_restarts(tracker: TrackerState, file_name: Seq<char>)
    requires
        !tracker.is_tracking(file_name),
    ensures
        tracker.start_for(file_name) == PREAMBLE_LINES,
        tracker.turned_to(file_name).is_tracking(file_name),
{
}

/// Nothing new: a cycle whose starting offset lies at or beyond the end of
/// the file emits no reading and leaves the tracker where turning to the file
/// put it.
pub proof fn lemma_nothing_new(
    tracker: TrackerState,
    file_name: Seq<char>,
    lines: Seq<Seq<char>>,
)
    requires
        tracker.start_for(file_name) >= lines.len(),
    ensures
        cycle_lines(tracker, file_name, lines).len() == 0,
        after_cycle(tracker, file_name, lines) == tracker.turned_to(file_name),
{
}

} // verus!
