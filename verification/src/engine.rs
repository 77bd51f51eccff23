//! The execution engine's streaming state machine.
//!
//! A session owns an append-only set of result rows and folds the
//! tracing tool's two line streams into it: stdout lines carry
//! line-delimited events, stderr lines are fatal diagnostics.  Normal
//! events become rows `[id] ++ values-in-header-order`, a `map` dump or
//! stdout end-of-input appends a completion marker, an error replaces the
//! whole accumulated set with a single error row.  Every stdout line's
//! effect is pinned to the line's text through the named parse outcome
//! `json_event_of` and the classification `classify_model`.  The driving
//! I/O loop lives outside; it feeds lines in and publishes a full
//! snapshot whenever a step says so.

use vstd::prelude::*;
use crate::jsonio::{
    classify_model, facts_of, json_event_of, EntryFacts, EventModel, ParsedLine, RawEntry,
};
use crate::textutil::{dec_rep, lemma_vec_push_deep_view, str_eq, u64_to_dec};

verus! {

/// One observation of the session's two line streams.
pub enum StreamLine {
    /// A line on the error stream.
    StderrLine(String),
    /// A line on the output stream.
    StdoutLine(String),
    /// End of input on the output stream.
    StdoutEof,
}

/// The session's lifecycle phase.
#[derive(Clone, Copy, Debug, PartialEq, Eq, Structural)]
pub enum Phase {
    /// Lines are still being consumed.
    Streaming,
    /// Completed normally; a completion marker has been appended.
    Done,
    /// A fatal error replaced the accumulated rows; terminal.
    Errored,
}

/// The accumulated result set of one execution session.
pub struct EngineState {
    /// The output-column schema the rows follow.
    pub headers: Vec<String>,
    /// The accumulated rows; each normal row is `[id] ++ values` in
    /// header order, markers are single-cell rows.
    pub rows: Vec<Vec<String>>,
    /// The lifecycle phase.
    pub phase: Phase,
}

/// The staged column values after a prefix of a normal event's entries:
/// each in-range positional entry (a number-shaped key) stores its value
/// text under the header name at its index, later entries winning.
pub open spec fn stage_entries(headers: Seq<Seq<char>>, entries: Seq<EntryFacts>) -> Map<
    Seq<char>,
    Seq<char>,
>
    decreases entries.len(),
{
    if entries.len() == 0 {
        Map::empty()
    } else {
        let m = stage_entries(headers, entries.drop_last());
        let e = entries.last();
        if e.key_is_number && e.key_u64 is Some && e.key_u64->0 < headers.len() {
            m.insert(headers[e.key_u64->0 as int], e.value_text)
        } else {
            m
        }
    }
}

/// Every entry of a normal event is acceptable: a number-shaped key is an
/// unsigned integer within the header range, and a string-shaped key (the
/// reserved id entry) carries an unsigned-integer value.
pub open spec fn entries_ok(headers: Seq<Seq<char>>, entries: Seq<EntryFacts>) -> bool {
    forall|i: int|
        0 <= i < entries.len() ==> (((#[trigger] entries[i]).key_is_number ==> entries[i].key_u64
            is Some && entries[i].key_u64->0 < headers.len()) && ((!entries[i].key_is_number
            && entries[i].key_is_string) ==> entries[i].value_u64 is Some))
}

/// The firing's id: the value of the last id entry, `0` when none.
pub open spec fn last_id(entries: Seq<EntryFacts>) -> u64
    decreases entries.len(),
{
    if entries.len() == 0 {
        0
    } else {
        let e = entries.last();
        if !e.key_is_number && e.key_is_string && e.value_u64 is Some {
            e.value_u64->0
        } else {
            last_id(entries.drop_last())
        }
    }
}

/// Every header name received a value.
pub open spec fn all_headers_staged(headers: Seq<Seq<char>>, entries: Seq<EntryFacts>) -> bool {
    forall|i: int|
        0 <= i < headers.len() ==> stage_entries(headers, entries).dom().contains(headers[i])
}

/// The reconstructed row of a normal event: the id rendered in decimal,
/// then one value per header, in header order, regardless of the order
/// the entries arrived in.  `None` exactly when an entry is unacceptable
/// or a header received no value.
pub open spec fn row_spec(headers: Seq<Seq<char>>, entries: Seq<EntryFacts>) -> Option<
    Seq<Seq<char>>,
> {
    if entries_ok(headers, entries) && all_headers_staged(headers, entries) {
        Option::Some(
            seq![dec_rep(last_id(entries) as nat)] + Seq::new(
                headers.len(),
                |i: int| stage_entries(headers, entries)[headers[i]],
            ),
        )
    } else {
        Option::None
    }
}

/// Reconstructs the row of a normal event, or reports that the event
/// violates the protocol.
pub fn build_row(headers: &Vec<String>, entries: &Vec<RawEntry>) -> (r: Option<Vec<String>>)
    ensures
        match r {
            Option::Some(row) => row_spec(headers.deep_view(), facts_of(entries@))
                == Option::Some(row.deep_view()),
            Option::None => row_spec(headers.deep_view(), facts_of(entries@)) is None,
        },
{
    let ghost hv = headers.deep_view();
    let ghost ef = facts_of(entries@);
    proof {
        assert(ef.len() == entries@.len());
    }
    let mut staged: Vec<Option<String>> = Vec::new();
    let mut k: usize = 0;
    while k < headers.len()
        invariant
            k <= headers.len(),
            staged@.len() == k,
            forall|j: int| 0 <= j < k ==> staged@[j] is None,
        decreases headers.len() - k,
    {
        staged.push(Option::None);
        k = k + 1;
    }
    let mut cur_id: u64 = 0;
    let mut i: usize = 0;
    proof {
        assert(ef.take(0) =~= Seq::<EntryFacts>::empty());
    }
    while i < entries.len()
        invariant
            i <= entries.len(),
            hv == headers.deep_view(),
            ef == facts_of(entries@),
            ef.len() == entries@.len(),
            staged@.len() == hv.len(),
            entries_ok(hv, ef.take(i as int)),
            cur_id == last_id(ef.take(i as int)),
            forall|j: int|
                0 <= j < hv.len() ==> match #[trigger] staged@[j] {
                    Option::Some(s) => stage_entries(hv, ef.take(i as int)).dom().contains(hv[j])
                        && stage_entries(hv, ef.take(i as int))[hv[j]] == s@,
                    Option::None => !stage_entries(hv, ef.take(i as int)).dom().contains(hv[j]),
                },
        decreases entries.len() - i,
    {
        proof {
            assert(ef[i as int] == entries@[i as int].facts());
            assert(ef.take(i + 1 as int).drop_last() =~= ef.take(i as int));
            assert(ef.take(i + 1 as int).last() == ef[i as int]);
        }
        let e = &entries[i];
        if e.key_is_number {
            let ix: u64 = match e.key_u64 {
                Option::Some(ix) => ix,
                Option::None => {
                    proof {
                        assert(!entries_ok(hv, ef.take(i + 1 as int)));
                        lemma_entries_not_ok_persists(hv, ef, i + 1 as int);
                    }
                    return Option::None;
                },
            };
            if ix >= headers.len() as u64 {
                proof {
                    assert(!entries_ok(hv, ef.take(i + 1 as int)));
                    lemma_entries_not_ok_persists(hv, ef, i + 1 as int);
                }
                return Option::None;
            }
            let ghost name = hv[ix as int];
            let mut j: usize = 0;
            while j < headers.len()
                invariant
                    j <= headers.len(),
                    i < entries@.len(),
                    hv == headers.deep_view(),
                    ef == facts_of(entries@),
                    staged@.len() == hv.len(),
                    ix < headers@.len(),
                    name == hv[ix as int],
                    ef[i as int].key_is_number,
                    ef[i as int].key_u64 == Option::Some(ix),
                    ef[i as int].value_text == entries@[i as int].value_text@,
                    forall|j2: int|
                        0 <= j2 < j ==> match #[trigger] staged@[j2] {
                            Option::Some(s) => (if hv[j2] == name {
                                s@ == ef[i as int].value_text
                            } else {
                                stage_entries(hv, ef.take(i as int)).dom().contains(hv[j2])
                                    && stage_entries(hv, ef.take(i as int))[hv[j2]] == s@
                            }),
                            Option::None => hv[j2] != name && !stage_entries(
                                hv,
                                ef.take(i as int),
                            ).dom().contains(hv[j2]),
                        },
                    forall|j2: int|
                        j <= j2 < hv.len() ==> match #[trigger] staged@[j2] {
                            Option::Some(s) => stage_entries(hv, ef.take(i as int)).dom().contains(
                                hv[j2],
                            ) && stage_entries(hv, ef.take(i as int))[hv[j2]] == s@,
                            Option::None => !stage_entries(hv, ef.take(i as int)).dom().contains(
                                hv[j2],
                            ),
                        },
                decreases headers.len() - j,
            {
                proof {
                    assert(hv[j as int] == headers@[j as int]@);
                    assert(hv[ix as int] == headers@[ix as int]@);
                }
                if str_eq(headers[j].as_str(), headers[ix as usize].as_str()) {
                    staged.set(j, Option::Some(entries[i].value_text.clone()));
                }
                j = j + 1;
            }
            proof {
                let m_next = stage_entries(hv, ef.take(i + 1 as int));
                assert(m_next == stage_entries(hv, ef.take(i as int)).insert(
                    name,
                    ef[i as int].value_text,
                ));
            }
        } else if e.key_is_string {
            match e.value_u64 {
                Option::Some(v) => {
                    cur_id = v;
                },
                Option::None => {
                    proof {
                        assert(!entries_ok(hv, ef.take(i + 1 as int)));
                        lemma_entries_not_ok_persists(hv, ef, i + 1 as int);
                    }
                    return Option::None;
                },
            }
        }
        i = i + 1;
    }
    proof {
        assert(ef.take(ef.len() as int) =~= ef);
    }
    let mut row: Vec<String> = Vec::new();
    row.push(u64_to_dec(cur_id));
    let ghost m = stage_entries(hv, ef);
    let mut j: usize = 0;
    while j < headers.len()
        invariant
            j <= headers.len(),
            hv == headers.deep_view(),
            ef == facts_of(entries@),
            staged@.len() == hv.len(),
            entries_ok(hv, ef),
            cur_id == last_id(ef),
            m == stage_entries(hv, ef),
            forall|j2: int|
                0 <= j2 < hv.len() ==> match #[trigger] staged@[j2] {
                    Option::Some(s) => m.dom().contains(hv[j2]) && m[hv[j2]] == s@,
                    Option::None => !m.dom().contains(hv[j2]),
                },
            row@.len() == j + 1,
            row.deep_view()[0] == dec_rep(cur_id as nat),
            forall|j2: int| 0 <= j2 < j ==> staged@[j2] is Some,
            forall|j2: int| 0 <= j2 < j ==> row.deep_view()[j2 + 1] == m[hv[j2]],
        decreases headers.len() - j,
    {
        let ghost row_old = row;
        match &staged[j] {
            Option::Some(s) => {
                let c = s.clone();
                let ghost cg = c;
                row.push(c);
                proof {
                    lemma_vec_push_deep_view(row_old, row, cg);
                }
            },
            Option::None => {
                proof {
                    assert(staged@[j as int] is None);
                    assert(!stage_entries(hv, ef).dom().contains(hv[j as int]));
                    assert(!all_headers_staged(hv, ef));
                }
                return Option::None;
            },
        }
        j = j + 1;
    }
    proof {
        assert forall|i2: int| 0 <= i2 < hv.len() implies stage_entries(hv, ef).dom().contains(
            hv[i2],
        ) by {
            assert(staged@[i2] is Some);
        }
        assert(all_headers_staged(hv, ef));
        let expected = seq![dec_rep(last_id(ef) as nat)] + Seq::new(
            hv.len(),
            |i2: int| m[hv[i2]],
        );
        assert(row.deep_view() =~= expected);
    }
    Option::Some(row)
}

/// An unacceptable prefix keeps the whole entry list unacceptable.
proof fn lemma_entries_not_ok_persists(headers: Seq<Seq<char>>, entries: Seq<EntryFacts>, i: int)
    requires
        0 <= i <= entries.len(),
        !entries_ok(headers, entries.take(i)),
    ensures
        !entries_ok(headers, entries),
{
    let pre = entries.take(i);
    let bad = choose|b: int|
        0 <= b < pre.len() && !((((#[trigger] pre[b]).key_is_number ==> pre[b].key_u64 is Some
            && pre[b].key_u64->0 < headers.len()) && ((!pre[b].key_is_number
            && pre[b].key_is_string) ==> pre[b].value_u64 is Some)));
    assert(pre[bad] == entries[bad]);
}

/// The accumulated rows as sequences of cell texts.
pub open spec fn rows_view(s: EngineState) -> Seq<Seq<Seq<char>>> {
    s.rows.deep_view()
}

/// The completion marker appended after a `map` aggregation dump.
pub open spec fn done_row() -> Seq<Seq<char>> {
    seq!["DONE"@]
}

/// The completion marker appended at output end-of-input.
pub open spec fn done_eof_row() -> Seq<Seq<char>> {
    seq!["Done"@]
}

/// The error row replacing the set after an unparseable event line.
pub open spec fn protocol_error_row() -> Seq<Seq<char>> {
    seq!["protocol error"@]
}

/// The error row carrying one error-stream line.
pub open spec fn error_row(msg: Seq<char>) -> Seq<Seq<char>> {
    seq![msg]
}

/// Shape invariant of a session: while streaming every row is
/// `[id] ++ values` (one cell more than there are headers); when done the
/// trailing completion marker is a single cell; after an error exactly one
/// single-cell row remains.
pub open spec fn wf(s: EngineState) -> bool {
    match s.phase {
        Phase::Streaming => forall|i: int|
            0 <= i < rows_view(s).len() ==> (#[trigger] rows_view(s)[i]).len()
                == s.headers.deep_view().len() + 1,
        Phase::Done => rows_view(s).len() >= 1 && rows_view(s).last().len() == 1 && forall|i: int|
            0 <= i < rows_view(s).len() - 1 ==> (#[trigger] rows_view(s)[i]).len()
                == s.headers.deep_view().len() + 1,
        Phase::Errored => rows_view(s).len() == 1 && rows_view(s)[0].len() == 1,
    }
}

/// What one classified stdout event does to a streaming session, stated
/// over the event's facts.
pub open spec fn step_event_post(
    pre: EngineState,
    post: EngineState,
    em: EventModel,
    publish: bool,
) -> bool {
    &&& post.headers == pre.headers
    &&& if !(pre.phase is Streaming) {
        post == pre && !publish
    } else {
        match em {
            EventModel::Informational => post == pre && !publish,
            EventModel::MapDump => post.phase is Done && rows_view(post) == rows_view(pre).push(
                done_row(),
            ) && publish,
            EventModel::Malformed => post.phase is Errored && rows_view(post) == seq![
                protocol_error_row(),
            ] && publish,
            EventModel::Event(ents) => match row_spec(pre.headers.deep_view(), ents) {
                Option::Some(row) => post.phase is Streaming && rows_view(post) == rows_view(
                    pre,
                ).push(row) && publish,
                Option::None => post.phase is Errored && rows_view(post) == seq![
                    protocol_error_row(),
                ] && publish,
            },
        }
    }
}

/// What one observed line does to a session.  A non-empty output line
/// acts as the classification of what that exact text parses to.
pub open spec fn step_line_post(
    pre: EngineState,
    post: EngineState,
    line: StreamLine,
    publish: bool,
) -> bool {
    &&& post.headers == pre.headers
    &&& if !(pre.phase is Streaming) {
        post == pre && !publish
    } else {
        match line {
            StreamLine::StderrLine(s) => post.phase is Errored && rows_view(post) == seq![
                error_row(s@),
            ] && publish,
            StreamLine::StdoutEof => post.phase is Done && rows_view(post) == rows_view(pre).push(
                done_eof_row(),
            ) && publish,
            StreamLine::StdoutLine(s) => if s@.len() == 0 {
                post == pre && !publish
            } else {
                step_event_post(
                    pre,
                    post,
                    classify_model(json_event_of(s@, "type"@, "data"@)),
                    publish,
                )
            },
        }
    }
}

impl EngineState {
    /// A fresh session over the given column schema: no rows, streaming.
    pub fn new(headers: Vec<String>) -> (s: Self)
        ensures
            s.headers == headers,
            rows_view(s) == Seq::<Seq<Seq<char>>>::empty(),
            s.phase is Streaming,
            wf(s),
    {
        let s = EngineState { headers, rows: Vec::new(), phase: Phase::Streaming };
        proof {
            assert(rows_view(s) =~= Seq::<Seq<Seq<char>>>::empty());
        }
        s
    }

    /// Applies one classified stdout event; the result says whether the
    /// accumulated set must be republished.
    pub fn step_event(&mut self, ev: &ParsedLine) -> (publish: bool)
        ensures
            step_event_post(*old(self), *final(self), ev.model(), publish),
            wf(*old(self)) ==> wf(*final(self)),
    {
        match self.phase {
            Phase::Streaming => {},
            _ => {
                return false;
            },
        }
        match ev {
            ParsedLine::Informational => false,
            ParsedLine::MapDump => {
                let mut marker: Vec<String> = Vec::new();
                marker.push("DONE".to_owned());
                proof {
                    assert(marker.deep_view() =~= done_row());
                }
                self.append_row(marker);
                self.phase = Phase::Done;
                true
            },
            ParsedLine::Malformed => {
                self.replace_with_protocol_error();
                true
            },
            ParsedLine::Event(entries) => {
                match build_row(&self.headers, entries) {
                    Option::Some(row) => {
                        proof {
                            let hv = old(self).headers.deep_view();
                            assert(row.deep_view().len() == hv.len() + 1) by {
                                assert(row_spec(hv, facts_of(entries@)) == Option::Some(
                                    row.deep_view(),
                                ));
                            };
                        }
                        self.append_row(row);
                        true
                    },
                    Option::None => {
                        self.replace_with_protocol_error();
                        true
                    },
                }
            },
        }
    }

    fn append_row(&mut self, row: Vec<String>)
        ensures
            final(self).headers == old(self).headers,
            final(self).phase == old(self).phase,
            rows_view(*final(self)) == rows_view(*old(self)).push(row.deep_view()),
    {
        let ghost rows_old = self.rows;
        let ghost row_g = row;
        self.rows.push(row);
        proof {
            lemma_vec_push_deep_view(rows_old, self.rows, row_g);
        }
    }

    fn replace_with_protocol_error(&mut self)
        ensures
            final(self).headers == old(self).headers,
            final(self).phase is Errored,
            rows_view(*final(self)) == seq![protocol_error_row()],
    {
        let mut row: Vec<String> = Vec::new();
        row.push("protocol error".to_owned());
        proof {
            assert(row.deep_view() =~= protocol_error_row());
        }
        let mut rows: Vec<Vec<String>> = Vec::new();
        let ghost rows_empty = rows;
        let ghost row_g = row;
        rows.push(row);
        proof {
            lemma_vec_push_deep_view(rows_empty, rows, row_g);
            assert(rows.deep_view() =~= seq![protocol_error_row()]);
        }
        self.rows = rows;
        self.phase = Phase::Errored;
    }

    /// Applies one observed line of either stream: an error-stream line
    /// replaces everything with a single error row and ends the session;
    /// output end-of-input appends a completion marker; an empty output
    /// line is ignored; any other output line acts as exactly the
    /// classification of what its text parses to.
    pub fn step_line(&mut self, line: &StreamLine) -> (publish: bool)
        ensures
            step_line_post(*old(self), *final(self), *line, publish),
            wf(*old(self)) ==> wf(*final(self)),
    {
        match self.phase {
            Phase::Streaming => {},
            _ => {
                return false;
            },
        }
        match line {
            StreamLine::StderrLine(s) => {
                let mut row: Vec<String> = Vec::new();
                row.push(s.clone());
                proof {
                    assert(row.deep_view() =~= error_row(s@));
                }
                let mut rows: Vec<Vec<String>> = Vec::new();
                let ghost rows_empty = rows;
                let ghost row_g = row;
                rows.push(row);
                proof {
                    lemma_vec_push_deep_view(rows_empty, rows, row_g);
                    assert(rows.deep_view() =~= seq![error_row(s@)]);
                }
                self.rows = rows;
                self.phase = Phase::Errored;
                true
            },
            StreamLine::StdoutEof => {
                let mut marker: Vec<String> = Vec::new();
                marker.push("Done".to_owned());
                proof {
                    assert(marker.deep_view() =~= done_eof_row());
                }
                self.append_row(marker);
                self.phase = Phase::Done;
                true
            },
            StreamLine::StdoutLine(s) => {
                if s.as_str().unicode_len() == 0 {
                    return false;
                }
                let ev = crate::jsonio::classify_line(s.as_str());
                let publish = self.step_event(&ev);
                publish
            },
        }
    }
}

/// Law: monotonic growth.  Any event step that leaves the session
/// un-errored only appends: the previous snapshot is a prefix of the new
/// one; no row is ever removed or reordered.
pub proof fn lemma_snapshot_monotonic(
    pre: EngineState,
    post: EngineState,
    em: EventModel,
    publish: bool,
)
    requires
        step_event_post(pre, post, em, publish),
        !(post.phase is Errored),
    ensures
        rows_view(pre).is_prefix_of(rows_view(post)),
{
    if !(pre.phase is Streaming) {
        assert(rows_view(pre) =~= rows_view(post).take(rows_view(pre).len() as int));
    } else {
        match em {
            EventModel::Informational => {
                assert(rows_view(pre) =~= rows_view(post).take(rows_view(pre).len() as int));
            },
            EventModel::MapDump => {
                assert(rows_view(pre) =~= rows_view(post).take(rows_view(pre).len() as int));
            },
            EventModel::Malformed => {
                assert(false);
            },
            EventModel::Event(ents) => {
                match row_spec(pre.headers.deep_view(), ents) {
                    Option::Some(row) => {
                        assert(rows_view(pre) =~= rows_view(post).take(
                            rows_view(pre).len() as int,
                        ));
                    },
                    Option::None => {
                        assert(false);
                    },
                }
            },
        }
    }
}

/// Law: monotonic growth at line level.  Any observed line that leaves
/// the session un-errored only appends to the published snapshot.
pub proof fn lemma_line_snapshot_monotonic(
    pre: EngineState,
    post: EngineState,
    line: StreamLine,
    publish: bool,
)
    requires
        step_line_post(pre, post, line, publish),
        !(post.phase is Errored),
    ensures
        rows_view(pre).is_prefix_of(rows_view(post)),
{
    if !(pre.phase is Streaming) {
        assert(rows_view(pre) =~= rows_view(post).take(rows_view(pre).len() as int));
    } else {
        match line {
            StreamLine::StderrLine(s) => {
                assert(false);
            },
            StreamLine::StdoutEof => {
                assert(rows_view(pre) =~= rows_view(post).take(rows_view(pre).len() as int));
            },
            StreamLine::StdoutLine(s) => {
                if s@.len() == 0 {
                    assert(rows_view(pre) =~= rows_view(post).take(rows_view(pre).len() as int));
                } else {
                    lemma_snapshot_monotonic(
                        pre,
                        post,
                        classify_model(json_event_of(s@, "type"@, "data"@)),
                        publish,
                    );
                }
            },
        }
    }
}

/// Law: an error-stream line, whenever it arrives, replaces the whole
/// accumulated set with exactly one single-cell row carrying that line's
/// text, and moves the session to its terminal errored phase.
pub proof fn lemma_error_replaces(
    pre: EngineState,
    post: EngineState,
    line: StreamLine,
    publish: bool,
)
    requires
        pre.phase is Streaming,
        line is StderrLine,
        step_line_post(pre, post, line, publish),
    ensures
        match line {
            StreamLine::StderrLine(s) => post.phase is Errored && rows_view(post) == seq![
                seq![s@],
            ] && publish,
            _ => true,
        },
{
}

/// Law: a terminal session absorbs everything.  Once the phase is errored
/// or done, no step changes the state and nothing is published again, so
/// no further rows ever reach a subscriber within that session.
pub proof fn lemma_terminal_absorbs(
    pre: EngineState,
    post: EngineState,
    em: EventModel,
    publish: bool,
)
    requires
        !(pre.phase is Streaming),
        step_event_post(pre, post, em, publish),
    ensures
        post == pre,
        !publish,
{
}

} // verus!
