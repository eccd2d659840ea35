//! Kernel log: the bounded ring of log records with stable sequence ids, the
//! iterator over it, the short text form of a record and the frame in which a
//! serialised record travels over the serial line.

use vstd::prelude::*;
use vstd::string::*;
use crate::text::{decimal, push_decimal};

verus! {

/// Number of records the kernel log keeps.
pub const LOG_CAPACITY: usize = 5000;

/// Level of records that belong to the host protocol rather than to the user.
pub open spec fn is_system_level(level: Seq<char>) -> bool {
    level == seq!['s']
}

/// One log record.
#[derive(Clone, Debug, PartialEq, Eq)]
pub struct OsLog {
    pub level: String,
    pub by: String,
    pub tag: String,
    pub data: String,
    pub file: String,
    pub time: u64,
    pub line: u32,
    pub column: u32,
    pub cpu_acpi_id: u32,
}

/// Short text form: `(cpu) [level] tag: data`.
pub open spec fn short_string(log: OsLog) -> Seq<char> {
    seq!['('] + decimal(log.cpu_acpi_id as nat) + seq![')', ' ', '['] + log.level@ + seq![
        ']',
        ' ',
    ] + log.tag@ + seq![':', ' '] + log.data@
}

impl OsLog {
    /// Whether the record belongs to the host protocol (level `s`).
    pub fn is_system(&self) -> (r: bool)
        ensures
            r == is_system_level(self.level@),
    {
        let s = self.level.as_str();
        if s.unicode_len() != 1 {
            return false;
        }
        let c = s.get_char(0);
        assert(c == 's' ==> s@ =~= seq!['s']);
        c == 's'
    }

    /// `(cpu) [level] tag: data`.
    pub fn to_short_string(&self) -> (r: String)
        ensures
            r@ == short_string(*self),
    {
        let mut r = String::from_str("(");
        push_decimal(&mut r, self.cpu_acpi_id);
        r.append(") [");
        r.append(self.level.as_str());
        r.append("] ");
        r.append(self.tag.as_str());
        r.append(": ");
        r.append(self.data.as_str());
        proof {
            reveal_strlit("(");
            reveal_strlit(") [");
            reveal_strlit("] ");
            reveal_strlit(": ");
        }
        assert(r@ =~= short_string(*self));
        r
    }
}

/// What reading id `id` gives, for a log whose oldest kept record has id
/// `head` and whose kept records are `entries`.
pub open spec fn log_read(head: nat, entries: Seq<OsLog>, id: nat) -> Option<OsLog> {
    if head <= id < head + entries.len() {
        Some(entries[id - head])
    } else {
        None
    }
}

/// Records kept after adding `log` to a log holding `entries` with room for
/// `capacity`: when full, the oldest record leaves first.
pub open spec fn log_added_entries(entries: Seq<OsLog>, capacity: nat, log: OsLog) -> Seq<OsLog> {
    if entries.len() >= capacity {
        entries.drop_first().push(log)
    } else {
        entries.push(log)
    }
}

/// Id of the oldest kept record after adding one record.
pub open spec fn log_added_head(head: nat, entries: Seq<OsLog>, capacity: nat) -> nat {
    if entries.len() >= capacity {
        head + 1
    } else {
        head
    }
}

/// Adding a record to a log that keeps at most `capacity` records: the new
/// record reads back under the next id, the next id moves up by exactly one,
/// every record still kept reads as before, no more than `capacity` records
/// are kept, and when the log was full the oldest id no longer reads.
pub proof fn lemma_log_add(head: nat, entries: Seq<OsLog>, capacity: nat, log: OsLog)
    requires
        capacity > 0,
        entries.len() <= capacity,
    ensures
        ({
            let e2 = log_added_entries(entries, capacity, log);
            let h2 = log_added_head(head, entries, capacity);
            &&& log_read(h2, e2, head + entries.len()) == Some(log)
            &&& h2 + e2.len() == head + entries.len() + 1
            &&& e2.len() <= capacity
            &&& forall|id: nat|
                h2 <= id < head + entries.len() ==> #[trigger] log_read(h2, e2, id) == log_read(
                    head,
                    entries,
                    id,
                )
            &&& entries.len() == capacity ==> log_read(h2, e2, head) is None
        }),
{
}

/// Id of the oldest kept record and the kept records after adding the
/// records `logs`, in order, one `add_log` each.
pub open spec fn log_adds(head: nat, entries: Seq<OsLog>, capacity: nat, logs: Seq<OsLog>) -> (nat, Seq<OsLog>)
    decreases logs.len(),
{
    if logs.len() == 0 {
        (head, entries)
    } else {
        let (h1, e1) = log_adds(head, entries, capacity, logs.drop_last());
        (log_added_head(h1, e1, capacity), log_added_entries(e1, capacity, logs.last()))
    }
}

/// Smaller of two numbers.
pub open spec fn min_nat(a: nat, b: nat) -> nat {
    if a <= b {
        a
    } else {
        b
    }
}

/// Adding records one by one to a log with room for `capacity`: the log keeps
/// the newest `min(total, capacity)` of all records so far, in order, the
/// oldest kept id grows by exactly the number of records dropped (never more
/// than the number added), every kept record reads back under its running
/// number, and every id below the oldest kept one reads nothing.
pub proof fn lemma_log_adds(head: nat, entries: Seq<OsLog>, capacity: nat, logs: Seq<OsLog>)
    requires
        capacity > 0,
        entries.len() <= capacity,
    ensures
        ({
            let (h2, e2) = log_adds(head, entries, capacity, logs);
            let all = entries + logs;
            let total = all.len();
            let keep = min_nat(total, capacity);
            &&& e2 == all.subrange(total - keep, total as int)
            &&& h2 == head + total - keep
            &&& head <= h2 <= head + logs.len()
            &&& forall|id: nat| h2 <= id < head + total ==> #[trigger] log_read(h2, e2, id) == Some(all[id - head])
            &&& forall|id: nat| id < h2 ==> #[trigger] log_read(h2, e2, id) is None
        }),
    decreases logs.len(),
{
    let all = entries + logs;
    let total = all.len();
    let keep = min_nat(total, capacity);
    if logs.len() == 0 {
        assert(all =~= entries);
        assert(all.subrange(0, total as int) =~= entries);
    } else {
        let l0 = logs.drop_last();
        let x = logs.last();
        lemma_log_adds(head, entries, capacity, l0);
        let (h1, e1) = log_adds(head, entries, capacity, l0);
        let all0 = entries + l0;
        let total0 = all0.len();
        let keep0 = min_nat(total0, capacity);
        assert(all =~= all0.push(x));
        assert(e1 == all0.subrange(total0 - keep0, total0 as int));
        let (h2, e2) = log_adds(head, entries, capacity, logs);
        if e1.len() >= capacity {
            assert(e2 =~= all.subrange(total - keep, total as int));
        } else {
            assert(e2 =~= all.subrange(total - keep, total as int));
        }
        assert forall|id: nat| h2 <= id < head + total implies #[trigger] log_read(h2, e2, id) == Some(all[id - head]) by {
            assert(e2[id - h2] == all[(total - keep) + (id - h2)]);
        }
    }
}

/// From an empty log with ids starting at 0, after adding `logs` one by one:
/// the log holds the last `min(n, capacity)` of them in order, the oldest kept
/// id is `n - min(n, capacity)`, and id `i` reads the `i`-th record added for
/// every kept `i`.
pub proof fn lemma_log_adds_from_empty(capacity: nat, logs: Seq<OsLog>)
    requires
        capacity > 0,
    ensures
        ({
            let (h2, e2) = log_adds(0, Seq::<OsLog>::empty(), capacity, logs);
            let n = logs.len();
            let k = min_nat(n, capacity);
            &&& e2.len() == k
            &&& h2 == n - k
            &&& e2 == logs.subrange(n - k, n as int)
            &&& forall|i: nat| n - k <= i < n ==> #[trigger] log_read(h2, e2, i) == Some(logs[i as int])
            &&& forall|i: nat| i < n - k ==> #[trigger] log_read(h2, e2, i) is None
        }),
{
    lemma_log_adds(0, Seq::<OsLog>::empty(), capacity, logs);
    assert(Seq::<OsLog>::empty() + logs =~= logs);
}

/// The bounded kernel log. Records get consecutive ids from 0; when the log
/// is full the oldest record is dropped and the id of the oldest kept record
/// moves up by one.
pub struct LogBuffer {
    logs: Vec<OsLog>,
    head_id: usize,
    capacity: usize,
}

impl LogBuffer {
    /// Id of the oldest kept record.
    pub closed spec fn head(&self) -> nat {
        self.head_id as nat
    }

    /// Kept records, oldest first.
    pub closed spec fn entries(&self) -> Seq<OsLog> {
        self.logs@
    }

    /// Number of records the log keeps at most.
    pub closed spec fn capacity(&self) -> nat {
        self.capacity as nat
    }

    /// At least one record fits, no more records are kept than fit, and every
    /// id in use fits in a `usize`.
    pub open spec fn wf(&self) -> bool {
        &&& self.capacity() > 0
        &&& self.entries().len() <= self.capacity()
        &&& self.head() + self.entries().len() <= usize::MAX
    }

    /// An empty log with room for `LOG_CAPACITY` records.
    pub fn new() -> (r: LogBuffer)
        ensures
            r.wf(),
            r.head() == 0,
            r.entries() == Seq::<OsLog>::empty(),
            r.capacity() == LOG_CAPACITY,
    {
        LogBuffer { logs: Vec::new(), head_id: 0, capacity: LOG_CAPACITY }
    }

    /// An empty log with room for `capacity` records.
    pub fn with_capacity(capacity: usize) -> (r: LogBuffer)
        requires
            capacity > 0,
        ensures
            r.wf(),
            r.head() == 0,
            r.entries() == Seq::<OsLog>::empty(),
            r.capacity() == capacity,
    {
        LogBuffer { logs: Vec::new(), head_id: 0, capacity }
    }

    /// Number of kept records.
    pub fn len(&self) -> (r: usize)
        ensures
            r == self.entries().len(),
    {
        self.logs.len()
    }

    /// Id of the oldest kept record.
    pub fn get_log_min_id(&self) -> (r: usize)
        ensures
            r == self.head(),
    {
        self.head_id
    }

    /// Appends a record, dropping the oldest one when the log is full.
    pub fn add_log(&mut self, data: OsLog)
        requires
            old(self).wf(),
            old(self).head() + old(self).entries().len() < usize::MAX,
        ensures
            final(self).wf(),
            final(self).capacity() == old(self).capacity(),
            final(self).entries() == log_added_entries(old(self).entries(), old(self).capacity(), data),
            final(self).head() == log_added_head(old(self).head(), old(self).entries(), old(self).capacity()),
            (final(self).head(), final(self).entries()) == log_adds(
                old(self).head(),
                old(self).entries(),
                old(self).capacity(),
                seq![data],
            ),
    {
        if self.logs.len() >= self.capacity {
            self.logs.remove(0);
            self.head_id = self.head_id + 1;
        }
        self.logs.push(data);
        assert(self.logs@ =~= log_added_entries(old(self).entries(), old(self).capacity(), data));
        proof {
            let one = seq![data];
            assert(one.drop_last() =~= Seq::<OsLog>::empty());
            assert(one.last() == data);
            assert(log_adds(old(self).head(), old(self).entries(), old(self).capacity(), one.drop_last())
                == (old(self).head(), old(self).entries()));
        }
    }

    /// The record with id `target_id`, if it is still kept.
    pub fn read_log(&self, target_id: usize) -> (r: Option<&OsLog>)
        requires
            self.wf(),
        ensures
            r is Some <==> log_read(self.head(), self.entries(), target_id as nat) is Some,
            r matches Some(l) ==> log_read(self.head(), self.entries(), target_id as nat) == Some(*l),
    {
        let head = self.head_id;
        let current_len = self.logs.len();
        if target_id < head {
            return None;
        }
        if target_id >= head + current_len {
            return None;
        }
        let index = target_id - head;
        Some(&self.logs[index])
    }
}

/// Reads through the log from a given id, yielding either only the host
/// protocol records or only the others.
pub struct LogIterator {
    pub next_id: usize,
    pub include_system: bool,
}

impl LogIterator {
    pub fn new(start_id: usize, include_system: bool) -> (r: LogIterator)
        ensures
            r.next_id == start_id,
            r.include_system == include_system,
    {
        LogIterator { next_id: start_id, include_system }
    }

    /// Next record at or after `next_id` whose kind matches. Ids before the
    /// oldest kept record end the iteration at once; otherwise every id read
    /// is consumed, and the iteration ends after the newest record.
    pub fn next<'a>(&mut self, buf: &'a LogBuffer) -> (r: Option<&'a OsLog>)
        requires
            buf.wf(),
        ensures
            final(self).include_system == old(self).include_system,
            old(self).next_id < buf.head() ==> r is None && final(self).next_id == old(self).next_id,
            old(self).next_id >= buf.head() ==> match r {
                Some(log) => {
                    &&& old(self).next_id < final(self).next_id <= buf.head() + buf.entries().len()
                    &&& *log == buf.entries()[final(self).next_id - 1 - buf.head()]
                    &&& is_system_level(log.level@) == old(self).include_system
                    &&& forall|id: int|
                        old(self).next_id <= id < final(self).next_id - 1 ==> is_system_level(
                            #[trigger] buf.entries()[id - buf.head()].level@,
                        ) != old(self).include_system
                },
                None => {
                    &&& final(self).next_id == if old(self).next_id < buf.head() + buf.entries().len() {
                        buf.head() + buf.entries().len()
                    } else {
                        old(self).next_id as nat
                    }
                    &&& forall|id: int|
                        old(self).next_id <= id < buf.head() + buf.entries().len() ==> is_system_level(
                            #[trigger] buf.entries()[id - buf.head()].level@,
                        ) != old(self).include_system
                },
            },
    {
        let ghost start = self.next_id;
        loop
            invariant
                buf.wf(),
                self.include_system == old(self).include_system,
                start == old(self).next_id,
                start >= buf.head() ==> start <= self.next_id,
                start < buf.head() ==> self.next_id == start,
                start >= buf.head() ==> self.next_id <= buf.head() + buf.entries().len()
                    || self.next_id == start,
                forall|id: int|
                    start <= id < self.next_id ==> is_system_level(
                        #[trigger] buf.entries()[id - buf.head()].level@,
                    ) != self.include_system,
            decreases buf.head() + buf.entries().len() - self.next_id,
        {
            let log = match buf.read_log(self.next_id) {
                Some(l) => l,
                None => {
                    return None;
                },
            };
            self.next_id += 1;
            let is_system = log.is_system();
            if self.include_system == is_system {
                return Some(log);
            }
        }
    }
}

/// Bytes that open every serial log frame.
pub open spec fn frame_magic() -> Seq<u8> {
    seq![0xAAu8, 0xBBu8, 0xCCu8, 0xEEu8]
}

/// Little-endian bytes of a 32-bit value.
pub open spec fn le32(n: u32) -> Seq<u8> {
    seq![(n % 256) as u8, ((n / 256) % 256) as u8, ((n / 65536) % 256) as u8, ((n / 16777216) % 256) as u8]
}

/// A serial log frame: the magic bytes, the payload length as a 32-bit
/// little-endian number (truncated to 32 bits), then the payload.
pub open spec fn log_frame_bytes(payload: Seq<u8>) -> Seq<u8> {
    frame_magic() + le32((payload.len() as int % 0x1_0000_0000int) as u32) + payload
}

/// Frames a serialised log record for the serial line.
pub fn log_frame(payload: &Vec<u8>) -> (r: Vec<u8>)
    ensures
        r@ == log_frame_bytes(payload@),
{
    let mut out: Vec<u8> = Vec::new();
    out.push(0xAA);
    out.push(0xBB);
    out.push(0xCC);
    out.push(0xEE);
    let plen = payload.len() as u64;
    let len = plen as u32;
    assert(len == (plen % 0x1_0000_0000) as u32) by (bit_vector)
        requires
            len == plen as u32,
    ;
    let b0 = (len & 0xFF) as u8;
    let b1 = ((len >> 8u32) & 0xFF) as u8;
    let b2 = ((len >> 16u32) & 0xFF) as u8;
    let b3 = ((len >> 24u32) & 0xFF) as u8;
    assert(b0 == (len % 256) as u8 && b1 == ((len / 256) % 256) as u8 && b2 == ((len / 65536) % 256) as u8
        && b3 == ((len / 16777216) % 256) as u8) by (bit_vector)
        requires
            b0 == (len & 0xFF) as u8,
            b1 == ((len >> 8u32) & 0xFF) as u8,
            b2 == ((len >> 16u32) & 0xFF) as u8,
            b3 == ((len >> 24u32) & 0xFF) as u8,
    ;
    out.push(b0);
    out.push(b1);
    out.push(b2);
    out.push(b3);
    let mut i: usize = 0;
    while i < payload.len()
        invariant
            i <= payload.len(),
            out@ == frame_magic() + le32(len) + payload@.take(i as int),
        decreases payload.len() - i,
    {
        out.push(payload[i]);
        i += 1;
        assert(out@ =~= frame_magic() + le32(len) + payload@.take(i as int));
    }
    assert(payload@.take(payload.len() as int) =~= payload@);
    out
}

} // verus!
