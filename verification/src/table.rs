//! The state table: one telemetry record per registered device, refreshed
//! by the polling sweep and read by the publisher.
//!
//! A sweep visits every device in registry order and issues three
//! transactions — speed, turn count, angle. The transport work happens
//! outside the library; the outcomes of one device's three sub-reads come
//! back as a [`SubReads`] and the table takes them in. A sub-read that
//! failed or stayed silent leaves its field at the last known value, so one
//! flaky device never halts telemetry for the rest. Each row is replaced
//! as a single unit, computed from that device's own responses alone.

use vstd::prelude::*;

use crate::registry::{DeviceRegistry, ReadOutcome};
use crate::telemetry::{
    TelemetryRecord, angle_of_response, turn_count_of_response, speed_of_response, wire_record,
    serialize_record, decode_angle, decode_turn_count, decode_speed,
};

verus! {

/// The outcomes of the three sub-reads of one device within one sweep.
pub struct SubReads {
    /// Outcome of the two-register speed read.
    pub speed: ReadOutcome,
    /// Outcome of the turn-count read.
    pub turn_count: ReadOutcome,
    /// Outcome of the angle read.
    pub angle: ReadOutcome,
}

/// The row that replaces `prev` after one device's three sub-reads: each
/// field takes the decoded response when its sub-read yielded a window
/// long enough to decode, and keeps its last known value otherwise. The
/// address never changes.
pub open spec fn updated_record(prev: TelemetryRecord, subs: SubReads) -> TelemetryRecord {
    TelemetryRecord {
        address: prev.address,
        angle_raw: match subs.angle {
            ReadOutcome::Data(b) => if b@.len() >= 5 {
                angle_of_response(b@)
            } else {
                prev.angle_raw
            },
            _ => prev.angle_raw,
        },
        turn_count: match subs.turn_count {
            ReadOutcome::Data(b) => if b@.len() >= 5 {
                turn_count_of_response(b@)
            } else {
                prev.turn_count
            },
            _ => prev.turn_count,
        },
        speed_raw: match subs.speed {
            ReadOutcome::Data(b) => if b@.len() >= 7 {
                speed_of_response(b@)
            } else {
                prev.speed_raw
            },
            _ => prev.speed_raw,
        },
    }
}

/// Builds the whole replacement row for one device from its three
/// sub-read outcomes.
pub fn refreshed_record(prev: &TelemetryRecord, subs: &SubReads) -> (r: TelemetryRecord)
    ensures
        r == updated_record(*prev, *subs),
{
    let mut rec = *prev;
    match &subs.angle {
        ReadOutcome::Data(b) => {
            if b.len() >= 5 {
                rec.angle_raw = decode_angle(b.as_slice());
            }
        },
        _ => {},
    }
    match &subs.turn_count {
        ReadOutcome::Data(b) => {
            if b.len() >= 5 {
                rec.turn_count = decode_turn_count(b.as_slice());
            }
        },
        _ => {},
    }
    match &subs.speed {
        ReadOutcome::Data(b) => {
            if b.len() >= 7 {
                rec.speed_raw = decode_speed(b.as_slice());
            }
        },
        _ => {},
    }
    rec
}

/// The rows of a table after one full sweep: row `i` is computed from the
/// old row `i` and device `i`'s own sub-reads, nothing else.
pub open spec fn swept_rows(rows: Seq<TelemetryRecord>, sweep: Seq<SubReads>) -> Seq<TelemetryRecord>
    recommends
        rows.len() == sweep.len(),
{
    Seq::new(rows.len(), |i: int| updated_record(rows[i], sweep[i]))
}

/// Last-known telemetry of every registered device, indexed by the same
/// ordinal positions as the registry.
pub struct StateTable {
    records: Vec<TelemetryRecord>,
}

impl View for StateTable {
    type V = Seq<TelemetryRecord>;

    closed spec fn view(&self) -> Seq<TelemetryRecord> {
        self.records@
    }
}

impl StateTable {
    /// Creates the table of a freshly discovered registry: one zeroed
    /// record per device, carrying that device's address.
    pub fn new(registry: &DeviceRegistry) -> (r: StateTable)
        ensures
            r@.len() == registry@.len(),
            forall|i: int|
                0 <= i < registry@.len() ==> r@[i] == TelemetryRecord::initial_spec(
                    registry@[i],
                ),
    {
        let n = registry.len();
        let mut records: Vec<TelemetryRecord> = Vec::new();
        let mut i: usize = 0;
        while i < n
            invariant
                i <= n,
                n == registry@.len(),
                records@.len() == i,
                forall|k: int|
                    0 <= k < i ==> records@[k] == TelemetryRecord::initial_spec(registry@[k]),
            decreases n - i,
        {
            records.push(TelemetryRecord::initial(registry.address_at(i)));
            i = i + 1;
        }
        StateTable { records }
    }

    /// Number of rows; equals the registry length for the table's lifetime.
    pub fn len(&self) -> (r: usize)
        ensures
            r == self@.len(),
    {
        self.records.len()
    }

    /// The whole record at ordinal position `i`, read as one unit.
    pub fn record_at(&self, i: usize) -> (r: TelemetryRecord)
        requires
            i < self@.len(),
        ensures
            r == self@[i as int],
    {
        self.records[i]
    }

    /// Takes in one device's sub-read outcomes: row `i` is replaced as a
    /// single unit; no other row changes.
    pub fn record_sweep_result(&mut self, i: usize, subs: &SubReads)
        requires
            i < old(self)@.len(),
        ensures
            final(self)@ == old(self)@.update(i as int, updated_record(old(self)@[i as int], *subs)),
    {
        let updated = refreshed_record(&self.records[i], subs);
        self.records[i] = updated;
    }

    /// Takes in a whole sweep, device by device in registry order.
    pub fn apply_sweep(&mut self, sweep: &Vec<SubReads>)
        requires
            sweep@.len() == old(self)@.len(),
        ensures
            final(self)@ == swept_rows(old(self)@, sweep@),
    {
        let n = self.records.len();
        let mut i: usize = 0;
        while i < n
            invariant
                i <= n,
                n == self@.len(),
                self@.len() == old(self)@.len(),
                sweep@.len() == old(self)@.len(),
                forall|k: int|
                    0 <= k < i ==> self@[k] == updated_record(old(self)@[k], sweep@[k]),
                forall|k: int| i <= k < n ==> self@[k] == old(self)@[k],
            decreases n - i,
        {
            self.record_sweep_result(i, &sweep[i]);
            i = i + 1;
        }
        assert(self@ =~= swept_rows(old(self)@, sweep@));
    }

    /// The eight-byte wire record of the row the display index points at,
    /// as the publisher emits it on every tick.
    pub fn publish_payload(&self, display_index: usize) -> (r: Vec<u8>)
        requires
            display_index < self@.len(),
        ensures
            r@ == wire_record(self@[display_index as int]),
            r@.len() == 8,
    {
        let rec = self.records[display_index];
        serialize_record(&rec)
    }
}

/// Law: sweep results are isolated row by row. A row after a sweep is the
/// whole-unit replacement computed from its own previous value and its own
/// device's sub-reads; two sweeps whose sub-reads for device `i` agree
/// leave row `i` equal, whatever every other device returned. A reader
/// that takes a whole row therefore never sees fields of one device drawn
/// from two different sweeps' responses.
pub proof fn lemma_sweep_row_isolation(
    rows: Seq<TelemetryRecord>,
    first: Seq<SubReads>,
    second: Seq<SubReads>,
    i: int,
)
    requires
        first.len() == rows.len(),
        second.len() == rows.len(),
        0 <= i < rows.len(),
        first[i] == second[i],
    ensures
        swept_rows(rows, first)[i] == updated_record(rows[i], first[i]),
        swept_rows(rows, first)[i] == swept_rows(rows, second)[i],
{
}

/// All three sub-reads of a device answered with a window long enough to
/// decode: the poll of this device succeeded in full.
pub open spec fn sub_reads_complete(subs: SubReads) -> bool {
    &&& match subs.speed {
        ReadOutcome::Data(b) => b@.len() >= 7,
        _ => false,
    }
    &&& match subs.turn_count {
        ReadOutcome::Data(b) => b@.len() >= 5,
        _ => false,
    }
    &&& match subs.angle {
        ReadOutcome::Data(b) => b@.len() >= 5,
        _ => false,
    }
}

/// Law: after a fully successful poll the row carries only that poll's
/// values — nothing of any earlier generation survives but the address.
/// Whatever two rows held before, the same complete sub-reads replace
/// both with the same record.
pub proof fn lemma_complete_poll_replaces_whole_row(
    before: TelemetryRecord,
    other: TelemetryRecord,
    subs: SubReads,
)
    requires
        before.address == other.address,
        sub_reads_complete(subs),
    ensures
        updated_record(before, subs) == updated_record(other, subs),
{
}

/// Law: a sweep never moves a record between devices — the address of
/// every row survives every sweep.
pub proof fn lemma_sweep_preserves_addresses(rows: Seq<TelemetryRecord>, sweep: Seq<SubReads>)
    requires
        sweep.len() == rows.len(),
    ensures
        forall|i: int|
            0 <= i < rows.len() ==> #[trigger] swept_rows(rows, sweep)[i].address
                == rows[i].address,
{
}

} // verus!
