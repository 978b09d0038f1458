use vstd::prelude::*;
use crate::logfmt::LogTag;

verus! {

/// One record of the durable log.
pub struct LogRecord {
    pub ts: u128,
    pub tag: LogTag,
    pub line: String,
}

/// The durable, append-only log as one writer observes it: the records in
/// the order they were appended.
pub struct LogSink {
    pub records: Vec<LogRecord>,
}

impl LogSink {
    /// An empty log.
    pub fn new() -> (s: LogSink)
        ensures
            s.records@ == Seq::<LogRecord>::empty(),
    {
        let v: Vec<LogRecord> = Vec::new();
        proof {
            assert(v@ =~= Seq::<LogRecord>::empty());
        }
        LogSink { records: v }
    }

    /// Appends one record; nothing already written changes.
    pub fn append(&mut self, ts: u128, tag: LogTag, line: String)
        ensures
            final(self).records@ == old(self).records@.push((LogRecord { ts, tag, line })),
    {
        self.records.push(LogRecord { ts, tag, line });
    }

    /// One pump step: a decoded line is appended under the channel's tag; a
    /// failed decode is dropped silently and the log stays unchanged.
    pub fn append_decoded(&mut self, ts: u128, tag: LogTag, decoded: Option<String>)
        ensures
            match decoded {
                Some(line) => final(self).records@ == old(self).records@.push(
                    (LogRecord { ts, tag, line }),
                ),
                None => final(self).records@ == old(self).records@,
            },
    {
        match decoded {
            Some(line) => self.append(ts, tag, line),
            None => {},
        }
    }
}

/// The records one channel contributes to the log: every decoded line in
/// emission order, under the channel's tag, with its timestamp.
pub open spec fn spec_channel_records(tag: LogTag, lines: Seq<String>, stamps: Seq<u128>)
    -> Seq<LogRecord> {
    Seq::new(lines.len(), |i: int| LogRecord { ts: stamps[i], tag, line: lines[i] })
}

/// Pumps one channel to completion: every line is appended in order under
/// one tag, stamped with the matching timestamp.
pub fn pump_channel(sink: &mut LogSink, tag: LogTag, lines: &Vec<String>, stamps: &Vec<u128>)
    requires
        stamps@.len() == lines@.len(),
    ensures
        final(sink).records@ == old(sink).records@ + spec_channel_records(tag, lines@, stamps@),
{
    let ghost contributed = spec_channel_records(tag, lines@, stamps@);
    let mut i: usize = 0;
    while i < lines.len()
        invariant
            stamps@.len() == lines@.len(),
            i <= lines@.len(),
            contributed == spec_channel_records(tag, lines@, stamps@),
            sink.records@ == old(sink).records@ + contributed.take(i as int),
        decreases lines@.len() - i,
    {
        sink.append(stamps[i], tag, lines[i].clone());
        proof {
            assert(contributed.take(i + 1) =~= contributed.take(i as int).push(
                contributed[i as int],
            ));
            assert((old(sink).records@ + contributed.take(i as int)).push(contributed[i as int])
                =~= old(sink).records@ + contributed.take(i + 1));
        }
        i += 1;
    }
    proof {
        assert(contributed.take(lines@.len() as int) =~= contributed);
    }
}

/// The records of `m` carrying tag `t`, in order.
pub open spec fn spec_tagged(m: Seq<LogRecord>, t: LogTag) -> Seq<LogRecord> {
    m.filter(|r: LogRecord| r.tag == t)
}

/// `m` is an interleaving of `a` and `b`: a merge of the two sequences that
/// keeps the internal order of each.
pub open spec fn spec_is_interleaving(
    a: Seq<LogRecord>,
    b: Seq<LogRecord>,
    m: Seq<LogRecord>,
) -> bool
    decreases m.len(),
{
    if m.len() == 0 {
        a.len() == 0 && b.len() == 0
    } else {
        ||| (a.len() > 0 && a.last() == m.last() && spec_is_interleaving(
            a.drop_last(),
            b,
            m.drop_last(),
        ))
        ||| (b.len() > 0 && b.last() == m.last() && spec_is_interleaving(
            a,
            b.drop_last(),
            m.drop_last(),
        ))
    }
}

/// Appending one channel's records after the other's is one interleaving of
/// the two — the degenerate schedule where a whole channel drains first.
pub proof fn lemma_concat_is_interleaving(a: Seq<LogRecord>, b: Seq<LogRecord>)
    ensures
        spec_is_interleaving(a, b, a + b),
    decreases a.len() + b.len(),
{
    if b.len() > 0 {
        assert((a + b).last() == b.last());
        assert((a + b).drop_last() =~= a + b.drop_last());
        lemma_concat_is_interleaving(a, b.drop_last());
    } else if a.len() > 0 {
        assert(a + b =~= a);
        assert((a + b).drop_last() =~= a.drop_last() + b);
        lemma_concat_is_interleaving(a.drop_last(), b);
    } else {
        assert((a + b).len() == 0);
    }
}

/// Two channels with distinct tags never disturb each other: however their
/// appends interleave in the log, filtering the log by one tag returns that
/// channel's records exactly — complete, untruncated, and in emission order.
pub proof fn lemma_channel_isolation(
    a: Seq<LogRecord>,
    b: Seq<LogRecord>,
    m: Seq<LogRecord>,
    ta: LogTag,
    tb: LogTag,
)
    requires
        spec_is_interleaving(a, b, m),
        forall|i: int| 0 <= i < a.len() ==> (#[trigger] a[i]).tag == ta,
        forall|i: int| 0 <= i < b.len() ==> (#[trigger] b[i]).tag == tb,
        ta != tb,
    ensures
        spec_tagged(m, ta) == a,
        spec_tagged(m, tb) == b,
        m.len() == a.len() + b.len(),
    decreases m.len(),
{
    reveal(Seq::filter);
    if m.len() == 0 {
        assert(spec_tagged(m, ta) =~= a);
        assert(spec_tagged(m, tb) =~= b);
    } else if a.len() > 0 && a.last() == m.last() && spec_is_interleaving(
        a.drop_last(),
        b,
        m.drop_last(),
    ) {
        lemma_channel_isolation(a.drop_last(), b, m.drop_last(), ta, tb);
        assert(a[a.len() - 1].tag == ta);
        assert(spec_tagged(m, ta) == spec_tagged(m.drop_last(), ta).push(m.last()));
        assert(a.drop_last().push(a.last()) =~= a);
        assert(spec_tagged(m, tb) == spec_tagged(m.drop_last(), tb));
    } else {
        lemma_channel_isolation(a, b.drop_last(), m.drop_last(), ta, tb);
        assert(b[b.len() - 1].tag == tb);
        assert(spec_tagged(m, tb) == spec_tagged(m.drop_last(), tb).push(m.last()));
        assert(b.drop_last().push(b.last()) =~= b);
        assert(spec_tagged(m, ta) == spec_tagged(m.drop_last(), ta));
    }
}

/// For a worker emitting its primary channel's lines and its diagnostic
/// channel's lines concurrently, any interleaved log holds exactly one
/// record per line of each channel, with the full line text, and the tags
/// tell the channels apart.
pub proof fn lemma_log_counts(
    tag_a: LogTag,
    lines_a: Seq<String>,
    stamps_a: Seq<u128>,
    tag_b: LogTag,
    lines_b: Seq<String>,
    stamps_b: Seq<u128>,
    m: Seq<LogRecord>,
)
    requires
        stamps_a.len() == lines_a.len(),
        stamps_b.len() == lines_b.len(),
        tag_a != tag_b,
        spec_is_interleaving(
            spec_channel_records(tag_a, lines_a, stamps_a),
            spec_channel_records(tag_b, lines_b, stamps_b),
            m,
        ),
    ensures
        spec_tagged(m, tag_a).len() == lines_a.len(),
        spec_tagged(m, tag_b).len() == lines_b.len(),
        forall|i: int| 0 <= i < lines_a.len() ==> (#[trigger] spec_tagged(m, tag_a)[i]).line
            == lines_a[i],
        forall|i: int| 0 <= i < lines_b.len() ==> (#[trigger] spec_tagged(m, tag_b)[i]).line
            == lines_b[i],
        m.len() == lines_a.len() + lines_b.len(),
{
    let ra = spec_channel_records(tag_a, lines_a, stamps_a);
    let rb = spec_channel_records(tag_b, lines_b, stamps_b);
    lemma_channel_isolation(ra, rb, m, tag_a, tag_b);
}

} // verus!
