use vstd::prelude::*;
use vstd::string::*;

use crate::clock::now_seconds;
use crate::text::{contains_text, opt_str, same_text, strip_all_prefixes, strip_prefixes, strs};

verus! {

/// Prefix of the download path that a record without one gets from its id.
pub const DOWNLOAD_PREFIX: &'static str = "/download/";

/// One uploaded file and how far its processing has come.
#[derive(Debug)]
pub struct HistoryRecord {
    pub id: String,
    pub filename: String,
    pub file_path: String,
    /// Upload time, in seconds since the Unix epoch (UTC).
    pub timestamp: i64,
    pub stt_done: bool,
    pub summarize_done: bool,
    pub embed_done: bool,
    pub stt_path: Option<String>,
    pub summary_path: Option<String>,
    pub one_line_summary: Option<String>,
    pub tags: Vec<String>,
    pub deleted: bool,
}

/// A record as plain values.
pub struct RecordView {
    pub id: Seq<char>,
    pub filename: Seq<char>,
    pub file_path: Seq<char>,
    pub timestamp: i64,
    pub stt_done: bool,
    pub summarize_done: bool,
    pub embed_done: bool,
    pub stt_path: Option<Seq<char>>,
    pub summary_path: Option<Seq<char>>,
    pub one_line_summary: Option<Seq<char>>,
    pub tags: Seq<Seq<char>>,
    pub deleted: bool,
}

impl View for HistoryRecord {
    type V = RecordView;

    open spec fn view(&self) -> RecordView {
        RecordView {
            id: self.id@,
            filename: self.filename@,
            file_path: self.file_path@,
            timestamp: self.timestamp,
            stt_done: self.stt_done,
            summarize_done: self.summarize_done,
            embed_done: self.embed_done,
            stt_path: opt_str(self.stt_path),
            summary_path: opt_str(self.summary_path),
            one_line_summary: opt_str(self.one_line_summary),
            tags: strs(self.tags@),
            deleted: self.deleted,
        }
    }
}

/// The download path of the file with id `id`.
pub open spec fn default_file_path(id: Seq<char>) -> Seq<char> {
    DOWNLOAD_PREFIX@ + id
}

pub fn copy_opt(o: &Option<String>) -> (r: Option<String>)
    ensures
        opt_str(r) == opt_str(*o),
{
    match o {
        Some(s) => Some(s.clone()),
        None => None,
    }
}

pub fn copy_strings(v: &Vec<String>) -> (r: Vec<String>)
    ensures
        strs(r@) == strs(v@),
{
    let mut out: Vec<String> = Vec::new();
    let mut i: usize = 0;
    while i < v.len()
        invariant
            i <= v@.len(),
            out@.len() == i,
            forall|k: int| 0 <= k < i ==> (#[trigger] out@[k])@ == v@[k]@,
        decreases v@.len() - i,
    {
        out.push(v[i].clone());
        i = i + 1;
    }
    assert(strs(out@) =~= strs(v@));
    out
}

impl HistoryRecord {
    /// A record for a file just uploaded, at time `timestamp`: nothing done yet, download
    /// path derived from the id.
    pub fn with_timestamp(id: String, filename: String, timestamp: i64) -> (r: HistoryRecord)
        ensures
            r@ == (RecordView {
                id: id@,
                filename: filename@,
                file_path: default_file_path(id@),
                timestamp,
                stt_done: false,
                summarize_done: false,
                embed_done: false,
                stt_path: None,
                summary_path: None,
                one_line_summary: None,
                tags: seq![],
                deleted: false,
            }),
    {
        let mut file_path = DOWNLOAD_PREFIX.to_owned();
        file_path.append(id.as_str());
        let r = HistoryRecord {
            id,
            filename,
            file_path,
            timestamp,
            stt_done: false,
            summarize_done: false,
            embed_done: false,
            stt_path: None,
            summary_path: None,
            one_line_summary: None,
            tags: Vec::new(),
            deleted: false,
        };
        assert(strs(r.tags@) =~= seq![]);
        r
    }

    /// A record for a file uploaded now.
    pub fn new(id: String, filename: String) -> (r: HistoryRecord)
        ensures
            r@.id == id@,
            r@.filename == filename@,
            r@.file_path == default_file_path(id@),
            !r@.stt_done && !r@.summarize_done && !r@.embed_done && !r@.deleted,
            r@.stt_path is None && r@.summary_path is None && r@.one_line_summary is None,
            r@.tags.len() == 0,
    {
        let now = now_seconds();
        HistoryRecord::with_timestamp(id, filename, now)
    }

    /// A field-by-field copy.
    pub fn duplicate(&self) -> (r: HistoryRecord)
        ensures
            r@ == self@,
    {
        HistoryRecord {
            id: self.id.clone(),
            filename: self.filename.clone(),
            file_path: self.file_path.clone(),
            timestamp: self.timestamp,
            stt_done: self.stt_done,
            summarize_done: self.summarize_done,
            embed_done: self.embed_done,
            stt_path: copy_opt(&self.stt_path),
            summary_path: copy_opt(&self.summary_path),
            one_line_summary: copy_opt(&self.one_line_summary),
            tags: copy_strings(&self.tags),
            deleted: self.deleted,
        }
    }
}

fn reset_copy(rec: HistoryRecord, stt: bool, summary: bool, embedding: bool) -> (r: HistoryRecord)
    ensures
        r@ == undone(rec@, stt, summary, embedding),
{
    let mut rec = rec;
    if stt {
        rec.stt_done = false;
        rec.stt_path = None;
    }
    if summary {
        rec.summarize_done = false;
        rec.summary_path = None;
        rec.one_line_summary = None;
    }
    if embedding {
        rec.embed_done = false;
    }
    rec
}

/// The record id in a download path: the path without every leading download prefix.
pub fn record_id_of_path(path: &str) -> (r: String)
    ensures
        r@ == strip_prefixes(path@, DOWNLOAD_PREFIX@),
{
    strip_all_prefixes(path, DOWNLOAD_PREFIX)
}

/// Index of the first record from `i` on whose id is `id`, or -1.
pub open spec fn first_from(rs: Seq<RecordView>, id: Seq<char>, i: int) -> int
    decreases rs.len() - i,
{
    if i < 0 || i >= rs.len() {
        -1
    } else if rs[i].id == id {
        i
    } else {
        first_from(rs, id, i + 1)
    }
}

proof fn lemma_first_same_ids(a: Seq<RecordView>, b: Seq<RecordView>, id: Seq<char>, i: int)
    requires
        a.len() == b.len(),
        forall|j: int| 0 <= j < a.len() ==> (#[trigger] a[j]).id == b[j].id,
    ensures
        first_from(a, id, i) == first_from(b, id, i),
    decreases a.len() - i,
{
    if 0 <= i < a.len() {
        lemma_first_same_ids(a, b, id, i + 1);
    }
}

proof fn lemma_first_is_match(rs: Seq<RecordView>, id: Seq<char>, i: int)
    requires
        0 <= i,
    ensures
        first_from(rs, id, i) == -1 || (i <= first_from(rs, id, i) < rs.len() && rs[first_from(
            rs,
            id,
            i,
        )].id == id && forall|j: int| i <= j < first_from(rs, id, i) ==> (#[trigger] rs[j]).id
            != id),
    decreases rs.len() - i,
{
    if i < rs.len() {
        lemma_first_is_match(rs, id, i + 1);
    }
}

proof fn lemma_no_match(rs: Seq<RecordView>, id: Seq<char>, i: int, j: int)
    requires
        0 <= i <= j < rs.len(),
        first_from(rs, id, i) == -1,
    ensures
        rs[j].id != id,
    decreases j - i,
{
    if i < j {
        lemma_no_match(rs, id, i + 1, j);
    }
}

/// Index of the first record whose id is `id`, or -1.
pub open spec fn first_index(rs: Seq<RecordView>, id: Seq<char>) -> int {
    first_from(rs, id, 0)
}

/// Index of the first record whose id is `id` and which is not deleted, or -1.
pub open spec fn first_live_from(rs: Seq<RecordView>, id: Seq<char>, i: int) -> int
    decreases rs.len() - i,
{
    if i < 0 || i >= rs.len() {
        -1
    } else if rs[i].id == id && !rs[i].deleted {
        i
    } else {
        first_live_from(rs, id, i + 1)
    }
}

/// The records that are not deleted, in order.
pub open spec fn active(rs: Seq<RecordView>) -> Seq<RecordView>
    decreases rs.len(),
{
    if rs.len() == 0 {
        seq![]
    } else if rs.last().deleted {
        active(rs.drop_last())
    } else {
        active(rs.drop_last()).push(rs.last())
    }
}

/// `r` after a load: a record with no download path gets the one derived from its id.
pub open spec fn migrated(r: RecordView) -> RecordView {
    if r.file_path.len() == 0 {
        RecordView { file_path: default_file_path(r.id), ..r }
    } else {
        r
    }
}

/// Record `j` is marked deleted by deleting `ids`: its id is listed.
pub open spec fn marked_by(rs: Seq<RecordView>, ids: Seq<Seq<char>>, j: int) -> bool {
    ids.contains(rs[j].id)
}

/// The records after deleting `ids`.
pub open spec fn after_delete(rs: Seq<RecordView>, ids: Seq<Seq<char>>) -> Seq<RecordView> {
    Seq::new(
        rs.len(),
        |j: int|
            if marked_by(rs, ids, j) {
                RecordView { deleted: true, ..rs[j] }
            } else {
                rs[j]
            },
    )
}

/// `rs` with record `i`, if it is one, replaced by `f(rs[i])`.
pub open spec fn with_first(rs: Seq<RecordView>, i: int, r: RecordView) -> Seq<RecordView> {
    if 0 <= i < rs.len() {
        rs.update(i, r)
    } else {
        rs
    }
}

/// The records after the transcript of `id` was written to `path`.
pub open spec fn after_transcript(rs: Seq<RecordView>, id: Seq<char>, path: Seq<char>) -> Seq<RecordView> {
    let i = first_index(rs, id);
    with_first(rs, i, RecordView { stt_done: true, stt_path: Some(path), ..rs[i] })
}

/// The records after the summary of `id` was written to `path`, with digest `line`.
pub open spec fn after_summary(
    rs: Seq<RecordView>,
    id: Seq<char>,
    path: Seq<char>,
    line: Seq<char>,
) -> Seq<RecordView> {
    let i = first_index(rs, id);
    with_first(
        rs,
        i,
        RecordView {
            summarize_done: true,
            summary_path: Some(path),
            one_line_summary: Some(line),
            ..rs[i]
        },
    )
}

/// The records after `id` was embedded.
pub open spec fn after_embedding(rs: Seq<RecordView>, id: Seq<char>) -> Seq<RecordView> {
    let i = first_index(rs, id);
    with_first(rs, i, RecordView { embed_done: true, ..rs[i] })
}

/// `r` with the phases chosen by the flags undone: the transcript (flag and path), the
/// summary (flag, path and digest), the embedding (flag).
pub open spec fn undone(r: RecordView, stt: bool, summary: bool, embedding: bool) -> RecordView {
    RecordView {
        stt_done: if stt {
            false
        } else {
            r.stt_done
        },
        stt_path: if stt {
            None
        } else {
            r.stt_path
        },
        summarize_done: if summary {
            false
        } else {
            r.summarize_done
        },
        summary_path: if summary {
            None
        } else {
            r.summary_path
        },
        one_line_summary: if summary {
            None
        } else {
            r.one_line_summary
        },
        embed_done: if embedding {
            false
        } else {
            r.embed_done
        },
        ..r
    }
}

/// The records after the phases chosen by the flags were undone for `id`.
pub open spec fn after_reset(
    rs: Seq<RecordView>,
    id: Seq<char>,
    stt: bool,
    summary: bool,
    embedding: bool,
) -> Seq<RecordView> {
    let i = first_index(rs, id);
    with_first(rs, i, undone(rs[i], stt, summary, embedding))
}

/// The records after `id` was renamed `filename`.
pub open spec fn after_rename(rs: Seq<RecordView>, id: Seq<char>, filename: Seq<char>) -> Seq<RecordView> {
    let i = first_index(rs, id);
    with_first(rs, i, RecordView { filename, ..rs[i] })
}

/// Some record with id `id` is not deleted.
pub open spec fn has_live(rs: Seq<RecordView>, id: Seq<char>) -> bool {
    exists|k: int| 0 <= k < rs.len() && !(#[trigger] rs[k]).deleted && rs[k].id == id
}

/// Record `j` is reset when resetting all tasks: it is the first record with its id, and
/// some record with that id is not deleted.
pub open spec fn reset_target(rs: Seq<RecordView>, j: int) -> bool {
    first_index(rs, rs[j].id) == j && has_live(rs, rs[j].id)
}

/// The records after the chosen phases were undone for every active record.
pub open spec fn after_reset_all(rs: Seq<RecordView>, stt: bool, summary: bool, embedding: bool) -> Seq<
    RecordView,
> {
    Seq::new(
        rs.len(),
        |j: int|
            if reset_target(rs, j) {
                undone(rs[j], stt, summary, embedding)
            } else {
                rs[j]
            },
    )
}

/// The active records that are transcribed and not embedded, in order.
pub open spec fn pending_embedding(rs: Seq<RecordView>) -> Seq<RecordView>
    decreases rs.len(),
{
    if rs.len() == 0 {
        seq![]
    } else {
        let rest = pending_embedding(rs.drop_last());
        let r = rs.last();
        if !r.deleted && r.stt_done && !r.embed_done {
            rest.push(r)
        } else {
            rest
        }
    }
}

/// Journal of uploaded files. Records are never removed: deleting one sets its flag.
pub struct HistoryManager {
    records: Vec<HistoryRecord>,
}

pub open spec fn record_views(v: Seq<HistoryRecord>) -> Seq<RecordView> {
    v.map_values(|r: HistoryRecord| r@)
}

impl View for HistoryManager {
    type V = Seq<RecordView>;

    closed spec fn view(&self) -> Seq<RecordView> {
        record_views(self.records@)
    }
}

fn find_first(records: &Vec<HistoryRecord>, id: &str) -> (r: Option<usize>)
    ensures
        match r {
            Some(i) => i < records@.len() && i as int == first_index(record_views(records@), id@),
            None => first_index(record_views(records@), id@) == -1,
        },
{
    let ghost rs = record_views(records@);
    let mut i: usize = 0;
    while i < records.len()
        invariant
            i <= records@.len(),
            rs == record_views(records@),
            first_index(rs, id@) == first_from(rs, id@, i as int),
        decreases records@.len() - i,
    {
        if same_text(records[i].id.as_str(), id) {
            return Some(i);
        }
        i = i + 1;
    }
    None
}

impl HistoryManager {
    /// An empty journal.
    pub fn new() -> (r: HistoryManager)
        ensures
            r@ == Seq::<RecordView>::empty(),
    {
        let r = HistoryManager { records: Vec::new() };
        assert(r@ =~= Seq::<RecordView>::empty());
        r
    }

    /// The journal made of records just read: each record without a download path gets
    /// the one derived from its id.
    pub fn load(records: Vec<HistoryRecord>) -> (r: HistoryManager)
        ensures
            r@ == record_views(records@).map_values(|x: RecordView| migrated(x)),
    {
        let mut records = records;
        let ghost orig = record_views(records@);
        let mut i: usize = 0;
        while i < records.len()
            invariant
                i <= records@.len(),
                orig.len() == records@.len(),
                forall|k: int|
                    0 <= k < i ==> (#[trigger] records@[k])@ == migrated(orig[k]),
                forall|k: int| i <= k < records@.len() ==> (#[trigger] records@[k])@ == orig[k],
            decreases records@.len() - i,
        {
            if records[i].file_path.as_str().unicode_len() == 0 {
                let mut rec = records.remove(i);
                let mut path = DOWNLOAD_PREFIX.to_owned();
                path.append(rec.id.as_str());
                rec.file_path = path;
                records.insert(i, rec);
            }
            i = i + 1;
        }
        let r = HistoryManager { records };
        assert(r@ =~= orig.map_values(|x: RecordView| migrated(x)));
        r
    }

    /// Appends `record`.
    pub fn add_record(&mut self, record: HistoryRecord)
        ensures
            final(self)@ == old(self)@.push(record@),
    {
        self.records.push(record);
        assert(self@ =~= old(self)@.push(record@));
    }

    /// Applies `update_fn` to the first record whose id is `id`; with no such record,
    /// changes nothing. Returns whether a record was found.
    pub fn update_record<F: FnOnce(HistoryRecord) -> HistoryRecord>(
        &mut self,
        id: &str,
        update_fn: F,
    ) -> (found: bool)
        requires
            forall|r: HistoryRecord| update_fn.requires((r,)),
        ensures
            found <==> first_index(old(self)@, id@) >= 0,
            !found ==> final(self)@ == old(self)@,
            found ==> {
                let i = first_index(old(self)@, id@);
                &&& final(self)@.len() == old(self)@.len()
                &&& forall|j: int|
                    0 <= j < old(self)@.len() && j != i ==> (#[trigger] final(self)@[j])
                        == old(self)@[j]
                &&& exists|before: HistoryRecord, after: HistoryRecord|
                    before@ == old(self)@[i] && after@ == final(self)@[i] && update_fn.ensures(
                        (before,),
                        after,
                    )
            },
    {
        match find_first(&self.records, id) {
            None => false,
            Some(i) => {
                let rec = self.records.remove(i);
                let ghost before = rec;
                let updated = update_fn(rec);
                let ghost after = updated;
                self.records.insert(i, updated);
                proof {
                    assert(self.records@ =~= old(self).records@.update(i as int, after));
                    assert(self@ =~= old(self)@.update(i as int, after@));
                }
                true
            },
        }
    }

    /// Replaces record `i`.
    fn set_at(&mut self, i: usize, rec: HistoryRecord)
        requires
            i < old(self)@.len(),
        ensures
            final(self)@ == old(self)@.update(i as int, rec@),
    {
        self.records.remove(i);
        self.records.insert(i, rec);
        assert(self@ =~= old(self)@.update(i as int, rec@));
    }

    /// Marks deleted every record whose id `ids` lists. Records stay in the journal.
    pub fn delete_records(&mut self, ids: &Vec<String>)
        ensures
            final(self)@ == after_delete(old(self)@, strs(ids@)),
    {
        let ghost rs = old(self)@;
        let mut j: usize = 0;
        while j < self.records.len()
            invariant
                rs == old(self)@,
                j <= self@.len(),
                self@.len() == rs.len(),
                forall|k: int|
                    0 <= k < rs.len() ==> (#[trigger] self@[k]) == if k < j && marked_by(
                        rs,
                        strs(ids@),
                        k,
                    ) {
                        RecordView { deleted: true, ..rs[k] }
                    } else {
                        rs[k]
                    },
            decreases rs.len() - j,
        {
            assert(self@[j as int] == self.records@[j as int]@);
            if contains_text(ids, self.records[j].id.as_str()) {
                let ghost before = self@;
                let mut rec = self.records[j].duplicate();
                rec.deleted = true;
                self.set_at(j, rec);
                proof {
                    assert forall|k: int| 0 <= k < rs.len() && k != j implies self@[k] == before[k] by {}
                }
            }
            j = j + 1;
        }
        assert(self@ =~= after_delete(rs, strs(ids@)));
    }

    /// The records that are not deleted, in order.
    pub fn get_active_records(&self) -> (r: Vec<HistoryRecord>)
        ensures
            record_views(r@) == active(self@),
    {
        let mut out: Vec<HistoryRecord> = Vec::new();
        let mut i: usize = 0;
        while i < self.records.len()
            invariant
                i <= self.records@.len(),
                record_views(out@) == active(self@.subrange(0, i as int)),
            decreases self.records@.len() - i,
        {
            let ghost pre = self@.subrange(0, i as int);
            assert(self@.subrange(0, i + 1).drop_last() =~= pre);
            if !self.records[i].deleted {
                out.push(self.records[i].duplicate());
                assert(record_views(out@) =~= active(pre).push(self@[i as int]));
            }
            i = i + 1;
        }
        assert(self@.subrange(0, self@.len() as int) =~= self@);
        out
    }

    /// The first record whose id is `id` and which is not deleted.
    pub fn get_by_id(&self, id: &str) -> (r: Option<&HistoryRecord>)
        ensures
            match r {
                Some(rec) => first_live_from(self@, id@, 0) >= 0 && rec@ == self@[first_live_from(
                    self@,
                    id@,
                    0,
                )],
                None => first_live_from(self@, id@, 0) == -1,
            },
    {
        let mut i: usize = 0;
        while i < self.records.len()
            invariant
                i <= self.records@.len(),
                first_live_from(self@, id@, 0) == first_live_from(self@, id@, i as int),
            decreases self.records@.len() - i,
        {
            if same_text(self.records[i].id.as_str(), id) && !self.records[i].deleted {
                return Some(&self.records[i]);
            }
            i = i + 1;
        }
        None
    }

    /// Marks the transcript of the first record whose id is `id` as written to `path`.
    /// Returns whether there was such a record.
    pub fn record_transcript(&mut self, id: &str, path: String) -> (found: bool)
        ensures
            found <==> first_index(old(self)@, id@) >= 0,
            final(self)@ == after_transcript(old(self)@, id@, path@),
    {
        match find_first(&self.records, id) {
            None => false,
            Some(i) => {
                let mut rec = self.records[i].duplicate();
                rec.stt_done = true;
                rec.stt_path = Some(path);
                self.set_at(i, rec);
                true
            },
        }
    }

    /// Marks the summary of the first record whose id is `id` as written to `path`, with
    /// one-line digest `line`. Returns whether there was such a record.
    pub fn record_summary(&mut self, id: &str, path: String, line: String) -> (found: bool)
        ensures
            found <==> first_index(old(self)@, id@) >= 0,
            final(self)@ == after_summary(old(self)@, id@, path@, line@),
    {
        match find_first(&self.records, id) {
            None => false,
            Some(i) => {
                let mut rec = self.records[i].duplicate();
                rec.summarize_done = true;
                rec.summary_path = Some(path);
                rec.one_line_summary = Some(line);
                self.set_at(i, rec);
                true
            },
        }
    }

    /// Marks the first record whose id is `id` as embedded. Returns whether there was one.
    pub fn record_embedding(&mut self, id: &str) -> (found: bool)
        ensures
            found <==> first_index(old(self)@, id@) >= 0,
            final(self)@ == after_embedding(old(self)@, id@),
    {
        match find_first(&self.records, id) {
            None => false,
            Some(i) => {
                let mut rec = self.records[i].duplicate();
                rec.embed_done = true;
                self.set_at(i, rec);
                true
            },
        }
    }

    /// Undoes, on the first record whose id is `id`, the phases chosen by the flags.
    /// Returns whether there was such a record.
    pub fn reset_phases(&mut self, id: &str, stt: bool, summary: bool, embedding: bool) -> (found:
        bool)
        ensures
            found <==> first_index(old(self)@, id@) >= 0,
            final(self)@ == after_reset(old(self)@, id@, stt, summary, embedding),
    {
        match find_first(&self.records, id) {
            None => false,
            Some(i) => {
                let rec = self.records[i].duplicate();
                let rec = reset_copy(rec, stt, summary, embedding);
                self.set_at(i, rec);
                true
            },
        }
    }

    /// Undoes every phase of record `id`: it is as if just uploaded.
    pub fn reset_record(&mut self, id: &str) -> (found: bool)
        ensures
            found <==> first_index(old(self)@, id@) >= 0,
            final(self)@ == after_reset(old(self)@, id@, true, true, true),
    {
        self.reset_phases(id, true, true, true)
    }

    /// Undoes the summary and the embedding of record `id`; its transcript stays.
    pub fn reset_summary_embedding(&mut self, id: &str) -> (found: bool)
        ensures
            found <==> first_index(old(self)@, id@) >= 0,
            final(self)@ == after_reset(old(self)@, id@, false, true, true),
    {
        self.reset_phases(id, false, true, true)
    }

    /// Renames record `id`. Returns whether there was such a record.
    pub fn update_filename(&mut self, id: &str, filename: String) -> (found: bool)
        ensures
            found <==> first_index(old(self)@, id@) >= 0,
            final(self)@ == after_rename(old(self)@, id@, filename@),
    {
        match find_first(&self.records, id) {
            None => false,
            Some(i) => {
                let mut rec = self.records[i].duplicate();
                rec.filename = filename;
                self.set_at(i, rec);
                true
            },
        }
    }

    fn has_live_exec(&self, id: &str) -> (r: bool)
        ensures
            r == has_live(self@, id@),
    {
        let mut k: usize = 0;
        while k < self.records.len()
            invariant
                k <= self.records@.len(),
                forall|j: int| 0 <= j < k ==> !(!(#[trigger] self@[j]).deleted && self@[j].id == id@),
            decreases self.records@.len() - k,
        {
            if !self.records[k].deleted && same_text(self.records[k].id.as_str(), id) {
                assert(!self@[k as int].deleted && self@[k as int].id == id@);
                return true;
            }
            k = k + 1;
        }
        false
    }

    /// Undoes the chosen phases on every active record; returns the number of active
    /// records.
    pub fn reset_all(&mut self, stt: bool, summary: bool, embedding: bool) -> (count: usize)
        ensures
            count == active(old(self)@).len(),
            final(self)@ == after_reset_all(old(self)@, stt, summary, embedding),
    {
        let ghost rs = self@;
        let count = self.get_active_records().len();
        let mut j: usize = 0;
        while j < self.records.len()
            invariant
                rs == old(self)@,
                j <= self@.len(),
                self@.len() == rs.len(),
                forall|k: int| 0 <= k < rs.len() ==> (#[trigger] self@[k]).id == rs[k].id,
                forall|k: int| 0 <= k < rs.len() ==> (#[trigger] self@[k]).deleted == rs[k].deleted,
                forall|k: int|
                    0 <= k < rs.len() ==> (#[trigger] self@[k]) == if k < j && reset_target(rs, k) {
                        undone(rs[k], stt, summary, embedding)
                    } else {
                        rs[k]
                    },
            decreases rs.len() - j,
        {
            proof {
                lemma_first_same_ids(self@, rs, rs[j as int].id, 0);
                assert(has_live(self@, rs[j as int].id) == has_live(rs, rs[j as int].id)) by {
                    if has_live(rs, rs[j as int].id) {
                        let k = choose|k: int| 0 <= k < rs.len() && !(#[trigger] rs[k]).deleted && rs[k].id == rs[j as int].id;
                        assert(!self@[k].deleted && self@[k].id == rs[j as int].id);
                    }
                    if has_live(self@, rs[j as int].id) {
                        let k = choose|k: int| 0 <= k < self@.len() && !(#[trigger] self@[k]).deleted && self@[k].id == rs[j as int].id;
                        assert(!rs[k].deleted && rs[k].id == rs[j as int].id);
                    }
                }
            }
            let first = find_first(&self.records, self.records[j].id.as_str());
            let live = self.has_live_exec(self.records[j].id.as_str());
            let is_first = match first {
                Some(f) => f == j,
                None => false,
            };
            let ghost before = self@;
            assert(before[j as int] == self.records@[j as int]@);
            assert(before[j as int].id == rs[j as int].id);
            if is_first && live {
                assert(first_index(rs, rs[j as int].id) == j);
                let rec = self.records[j].duplicate();
                let rec = reset_copy(rec, stt, summary, embedding);
                self.set_at(j, rec);
                proof {
                    assert(reset_target(rs, j as int));
                    assert forall|k: int| 0 <= k < rs.len() implies (#[trigger] self@[k]).id == rs[k].id by {
                        if k != j {
                            assert(self@[k] == before[k]);
                        }
                    }
                    assert forall|k: int| 0 <= k < rs.len() implies (#[trigger] self@[k]).deleted == rs[k].deleted by {
                        if k != j {
                            assert(self@[k] == before[k]);
                        }
                    }
                }
            } else {
                proof {
                    assert(!reset_target(rs, j as int));
                }
            }
            j = j + 1;
        }
        assert(self@ =~= after_reset_all(rs, stt, summary, embedding));
        count
    }

    /// The active records that are transcribed and not yet embedded, in order.
    pub fn records_to_embed(&self) -> (r: Vec<HistoryRecord>)
        ensures
            record_views(r@) == pending_embedding(self@),
    {
        let mut out: Vec<HistoryRecord> = Vec::new();
        let mut i: usize = 0;
        while i < self.records.len()
            invariant
                i <= self.records@.len(),
                record_views(out@) == pending_embedding(self@.subrange(0, i as int)),
            decreases self.records@.len() - i,
        {
            let ghost pre = self@.subrange(0, i as int);
            assert(self@.subrange(0, i + 1).drop_last() =~= pre);
            let r = &self.records[i];
            if !r.deleted && r.stt_done && !r.embed_done {
                out.push(r.duplicate());
                assert(record_views(out@) =~= pending_embedding(pre).push(self@[i as int]));
            }
            i = i + 1;
        }
        assert(self@.subrange(0, self@.len() as int) =~= self@);
        out
    }

    /// Whether the file at download path `file_path` has an active record that is
    /// transcribed; the record id is the path without its leading download prefixes.
    pub fn has_transcript(&self, file_path: &str) -> (r: bool)
        ensures
            ({
                let i = first_live_from(self@, strip_prefixes(file_path@, DOWNLOAD_PREFIX@), 0);
                r == (i >= 0 && self@[i].stt_done)
            }),
    {
        let id = record_id_of_path(file_path);
        match self.get_by_id(id.as_str()) {
            Some(rec) => rec.stt_done,
            None => false,
        }
    }

    /// Number of records, deleted ones included.
    pub fn len(&self) -> (r: usize)
        ensures
            r == self@.len(),
    {
        self.records.len()
    }

    /// Record `i`, deleted or not.
    pub fn record_at(&self, i: usize) -> (r: &HistoryRecord)
        requires
            i < self@.len(),
        ensures
            r@ == self@[i as int],
    {
        &self.records[i]
    }
}

} // verus!

verus! {

proof fn lemma_first_update(rs: Seq<RecordView>, id: Seq<char>, i: int, r: RecordView)
    requires
        0 <= i < rs.len(),
        r.id == rs[i].id,
    ensures
        first_index(rs.update(i, r), id) == first_index(rs, id),
{
    lemma_first_same_ids(rs.update(i, r), rs, id, 0);
}

proof fn lemma_active_members(rs: Seq<RecordView>)
    ensures
        forall|k: int|
            0 <= k < active(rs).len() ==> exists|j: int|
                0 <= j < rs.len() && rs[j] == #[trigger] active(rs)[k] && !rs[j].deleted,
    decreases rs.len(),
{
    if rs.len() > 0 {
        let pre = rs.drop_last();
        lemma_active_members(pre);
        assert forall|k: int| 0 <= k < active(rs).len() implies exists|j: int|
            0 <= j < rs.len() && rs[j] == #[trigger] active(rs)[k] && !rs[j].deleted by {
            if k < active(pre).len() {
                let j = choose|j: int|
                    0 <= j < pre.len() && pre[j] == #[trigger] active(pre)[k] && !pre[j].deleted;
                assert(rs[j] == pre[j]);
            } else {
                assert(rs[rs.len() - 1] == active(rs)[k]);
            }
        }
    }
}

/// Updating an id that no record has changes nothing and reports that nothing was found.
pub proof fn lemma_update_missing_is_noop(rs: Seq<RecordView>, id: Seq<char>, path: Seq<char>)
    requires
        forall|j: int| 0 <= j < rs.len() ==> (#[trigger] rs[j]).id != id,
    ensures
        first_index(rs, id) == -1,
        after_transcript(rs, id, path) == rs,
        after_embedding(rs, id) == rs,
{
    lemma_first_is_match(rs, id, 0);
}

proof fn lemma_no_live(rs: Seq<RecordView>, id: Seq<char>, i: int)
    requires
        0 <= i,
        forall|j: int| 0 <= j < rs.len() && (#[trigger] rs[j]).id == id ==> rs[j].deleted,
    ensures
        first_live_from(rs, id, i) == -1,
    decreases rs.len() - i,
{
    if i < rs.len() {
        lemma_no_live(rs, id, i + 1);
    }
}

/// Deleting a listed id hides every record with that id: none is among the active records
/// and lookup by id finds none, while each stays in the journal, flagged, with the
/// journal's length unchanged.
pub proof fn lemma_delete_hides(rs: Seq<RecordView>, ids: Seq<Seq<char>>, id: Seq<char>)
    requires
        ids.contains(id),
    ensures
        after_delete(rs, ids).len() == rs.len(),
        forall|j: int|
            0 <= j < rs.len() && rs[j].id == id ==> (#[trigger] after_delete(rs, ids)[j]).deleted
                && after_delete(rs, ids)[j].id == id,
        forall|k: int|
            0 <= k < active(after_delete(rs, ids)).len() ==> (#[trigger] active(
                after_delete(rs, ids),
            )[k]).id != id,
        first_live_from(after_delete(rs, ids), id, 0) == -1,
{
    let d = after_delete(rs, ids);
    assert forall|j: int| 0 <= j < d.len() && (#[trigger] d[j]).id == id implies d[j].deleted by {
        assert(marked_by(rs, ids, j));
    }
    lemma_no_live(d, id, 0);
    lemma_active_members(d);
    assert forall|k: int| 0 <= k < active(d).len() implies (#[trigger] active(d)[k]).id != id by {
        let w = choose|w: int| 0 <= w < d.len() && d[w] == #[trigger] active(d)[k] && !d[w].deleted;
    }
}

/// Records that already have a download path come back from a reload unchanged.
pub proof fn lemma_reload_keeps_records(rs: Seq<RecordView>)
    requires
        forall|j: int| 0 <= j < rs.len() ==> (#[trigger] rs[j]).file_path.len() > 0,
    ensures
        rs.map_values(|x: RecordView| migrated(x)) == rs,
{
    assert(rs.map_values(|x: RecordView| migrated(x)) =~= rs);
}

/// Writing the transcript of a file again overwrites the path of the first one and adds no
/// record: the journal is as if only the last write had happened, its length unchanged.
pub proof fn lemma_transcript_idempotent(
    rs: Seq<RecordView>,
    id: Seq<char>,
    first: Seq<char>,
    second: Seq<char>,
)
    ensures
        after_transcript(after_transcript(rs, id, first), id, second) == after_transcript(
            rs,
            id,
            second,
        ),
        after_transcript(rs, id, first).len() == rs.len(),
        first_index(after_transcript(rs, id, first), id) == first_index(rs, id),
{
    let i = first_index(rs, id);
    lemma_first_is_match(rs, id, 0);
    if i >= 0 {
        let r1 = RecordView { stt_done: true, stt_path: Some(first), ..rs[i] };
        lemma_first_update(rs, id, i, r1);
        let once = rs.update(i, r1);
        assert(after_transcript(once, id, second) =~= after_transcript(rs, id, second));
    }
}

/// The phases of a fresh upload, one invocation each: after the transcript, the record is
/// transcribed and not yet summarized; after the summary, summarized too; after the
/// embedding, embedded too. No record is added on the way.
pub proof fn lemma_phases_in_turn(
    rs: Seq<RecordView>,
    fresh: RecordView,
    stt_path: Seq<char>,
    summary_path: Seq<char>,
    line: Seq<char>,
)
    requires
        forall|j: int| 0 <= j < rs.len() ==> (#[trigger] rs[j]).id != fresh.id,
        !fresh.stt_done && !fresh.summarize_done && !fresh.embed_done,
    ensures
        ({
            let s0 = rs.push(fresh);
            let i = rs.len() as int;
            let s1 = after_transcript(s0, fresh.id, stt_path);
            let s2 = after_summary(s1, fresh.id, summary_path, line);
            let s3 = after_embedding(s2, fresh.id);
            &&& first_index(s0, fresh.id) == i
            &&& s1.len() == s0.len() && s2.len() == s0.len() && s3.len() == s0.len()
            &&& s1[i].stt_done && !s1[i].summarize_done && !s1[i].embed_done
            &&& s1[i].stt_path == Some(stt_path)
            &&& s2[i].stt_done && s2[i].summarize_done && !s2[i].embed_done
            &&& s2[i].summary_path == Some(summary_path)
            &&& s3[i].stt_done && s3[i].summarize_done && s3[i].embed_done
        }),
{
    let s0 = rs.push(fresh);
    let i = rs.len() as int;
    lemma_first_is_match(s0, fresh.id, 0);
    assert(s0[i].id == fresh.id);
    let f = first_index(s0, fresh.id);
    if f == -1 {
        lemma_no_match(s0, fresh.id, 0, i);
    } else if f != i {
        assert(s0[f] == rs[f]);
    }
    assert(f == i);
    let s1 = after_transcript(s0, fresh.id, stt_path);
    lemma_first_update(s0, fresh.id, i, s1[i]);
    let s2 = after_summary(s1, fresh.id, summary_path, line);
    lemma_first_update(s1, fresh.id, i, s2[i]);
}

} // verus!
