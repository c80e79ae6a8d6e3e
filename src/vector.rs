use vstd::prelude::*;
use vstd::string::*;

use crate::error::RecordRouteError;
use crate::history::{copy_opt, copy_strings};
use crate::text::{opt_str, same_text, strs};

verus! {

/// Embedding dimension of an index created before any vector is known.
pub const DEFAULT_EMBEDDING_DIM: usize = 768;

/// What is known of an indexed document besides its vector.
#[derive(Debug)]
pub struct VectorMetadata {
    pub filename: String,
    pub file_path: String,
    pub transcript_path: Option<String>,
    pub summary_path: Option<String>,
    pub one_line_summary: Option<String>,
    /// Document time, in seconds since the Unix epoch (UTC), used by date filters.
    pub timestamp: Option<i64>,
    pub tags: Vec<String>,
}

/// One indexed document; its vector lies in the file at `embedding_path`.
#[derive(Debug)]
pub struct VectorEntry {
    pub doc_id: String,
    pub embedding_path: String,
    pub metadata: VectorMetadata,
    /// Indexing time, in seconds since the Unix epoch (UTC).
    pub indexed_at: i64,
    pub deleted: bool,
}

pub struct MetadataView {
    pub filename: Seq<char>,
    pub file_path: Seq<char>,
    pub transcript_path: Option<Seq<char>>,
    pub summary_path: Option<Seq<char>>,
    pub one_line_summary: Option<Seq<char>>,
    pub timestamp: Option<i64>,
    pub tags: Seq<Seq<char>>,
}

pub struct EntryView {
    pub doc_id: Seq<char>,
    pub embedding_path: Seq<char>,
    pub metadata: MetadataView,
    pub indexed_at: i64,
    pub deleted: bool,
}

impl View for VectorMetadata {
    type V = MetadataView;

    open spec fn view(&self) -> MetadataView {
        MetadataView {
            filename: self.filename@,
            file_path: self.file_path@,
            transcript_path: opt_str(self.transcript_path),
            summary_path: opt_str(self.summary_path),
            one_line_summary: opt_str(self.one_line_summary),
            timestamp: self.timestamp,
            tags: strs(self.tags@),
        }
    }
}

impl View for VectorEntry {
    type V = EntryView;

    open spec fn view(&self) -> EntryView {
        EntryView {
            doc_id: self.doc_id@,
            embedding_path: self.embedding_path@,
            metadata: self.metadata@,
            indexed_at: self.indexed_at,
            deleted: self.deleted,
        }
    }
}

impl VectorMetadata {
    /// A field-by-field copy.
    pub fn duplicate(&self) -> (r: VectorMetadata)
        ensures
            r@ == self@,
    {
        VectorMetadata {
            filename: self.filename.clone(),
            file_path: self.file_path.clone(),
            transcript_path: copy_opt(&self.transcript_path),
            summary_path: copy_opt(&self.summary_path),
            one_line_summary: copy_opt(&self.one_line_summary),
            timestamp: self.timestamp,
            tags: copy_strings(&self.tags),
        }
    }
}

impl VectorEntry {
    /// A field-by-field copy.
    pub fn duplicate(&self) -> (r: VectorEntry)
        ensures
            r@ == self@,
    {
        VectorEntry {
            doc_id: self.doc_id.clone(),
            embedding_path: self.embedding_path.clone(),
            metadata: self.metadata.duplicate(),
            indexed_at: self.indexed_at,
            deleted: self.deleted,
        }
    }
}

/// A document time passes the date filter `[start, end]`: with no bound it always does;
/// with a bound, a document without a time never does.
pub open spec fn in_date_range(ts: Option<i64>, start: Option<i64>, end: Option<i64>) -> bool {
    if start is None && end is None {
        true
    } else {
        match ts {
            None => false,
            Some(t) => (start is None || start->0 <= t) && (end is None || t <= end->0),
        }
    }
}

/// Whether a document of time `ts` passes the date filter `[start, end]`.
pub fn passes_date_filter(ts: Option<i64>, start: Option<i64>, end: Option<i64>) -> (r: bool)
    ensures
        r == in_date_range(ts, start, end),
{
    if start.is_none() && end.is_none() {
        return true;
    }
    match ts {
        None => false,
        Some(t) => {
            let after_start = match start {
                Some(s) => s <= t,
                None => true,
            };
            let before_end = match end {
                Some(e) => t <= e,
                None => true,
            };
            after_start && before_end
        },
    }
}

/// The entries that are not deleted and pass the date filter, in order.
pub open spec fn kept(es: Seq<EntryView>, start: Option<i64>, end: Option<i64>) -> Seq<EntryView>
    decreases es.len(),
{
    if es.len() == 0 {
        seq![]
    } else {
        let rest = kept(es.drop_last(), start, end);
        let e = es.last();
        if !e.deleted && in_date_range(e.metadata.timestamp, start, end) {
            rest.push(e)
        } else {
            rest
        }
    }
}

/// The entries that are not deleted.
pub open spec fn active(es: Seq<EntryView>) -> Seq<EntryView> {
    kept(es, None, None)
}

/// Index of the entry of `id` from `i` on, or -1.
pub open spec fn entry_from(es: Seq<EntryView>, id: Seq<char>, i: int) -> int
    decreases es.len() - i,
{
    if i < 0 || i >= es.len() {
        -1
    } else if es[i].doc_id == id {
        i
    } else {
        entry_from(es, id, i + 1)
    }
}

pub open spec fn entry_index(es: Seq<EntryView>, id: Seq<char>) -> int {
    entry_from(es, id, 0)
}

/// No two entries share a document id.
pub open spec fn unique_docs(es: Seq<EntryView>) -> bool {
    forall|j: int, k: int|
        0 <= j < es.len() && 0 <= k < es.len() && j != k ==> (#[trigger] es[j]).doc_id != (
        #[trigger] es[k]).doc_id
}

pub struct IndexView {
    pub entries: Seq<EntryView>,
    pub embedding_model: Seq<char>,
    pub embedding_dim: nat,
}

/// Index of embedded documents: at most one entry per document, deleted entries kept and
/// flagged. Every vector in it comes from one model and has one dimension.
pub struct VectorIndex {
    entries: Vec<VectorEntry>,
    embedding_model: String,
    embedding_dim: usize,
}

pub open spec fn entry_views(v: Seq<VectorEntry>) -> Seq<EntryView> {
    v.map_values(|e: VectorEntry| e@)
}

impl View for VectorIndex {
    type V = IndexView;

    closed spec fn view(&self) -> IndexView {
        IndexView {
            entries: entry_views(self.entries@),
            embedding_model: self.embedding_model@,
            embedding_dim: self.embedding_dim as nat,
        }
    }
}

proof fn lemma_entry_from(es: Seq<EntryView>, id: Seq<char>, i: int)
    requires
        0 <= i,
    ensures
        entry_from(es, id, i) == -1 ==> forall|j: int|
            i <= j < es.len() ==> (#[trigger] es[j]).doc_id != id,
        entry_from(es, id, i) != -1 ==> i <= entry_from(es, id, i) < es.len() && es[entry_from(
            es,
            id,
            i,
        )].doc_id == id,
    decreases es.len() - i,
{
    if i < es.len() {
        lemma_entry_from(es, id, i + 1);
    }
}

proof fn lemma_kept_members(es: Seq<EntryView>, start: Option<i64>, end: Option<i64>)
    ensures
        forall|k: int|
            0 <= k < kept(es, start, end).len() ==> exists|j: int|
                0 <= j < es.len() && es[j] == #[trigger] kept(es, start, end)[k] && !es[j].deleted,
    decreases es.len(),
{
    if es.len() > 0 {
        let pre = es.drop_last();
        lemma_kept_members(pre, start, end);
        assert forall|k: int| 0 <= k < kept(es, start, end).len() implies exists|j: int|
            0 <= j < es.len() && es[j] == #[trigger] kept(es, start, end)[k] && !es[j].deleted by {
            if k < kept(pre, start, end).len() {
                let j = choose|j: int|
                    0 <= j < pre.len() && pre[j] == #[trigger] kept(pre, start, end)[k]
                        && !pre[j].deleted;
                assert(es[j] == pre[j]);
            } else {
                assert(es[es.len() - 1] == kept(es, start, end)[k]);
            }
        }
    }
}

impl VectorIndex {
    /// At most one entry per document.
    pub open spec fn wf(&self) -> bool {
        unique_docs(self@.entries)
    }

    /// An empty index for vectors of model `embedding_model` and dimension `embedding_dim`.
    pub fn new(embedding_model: String, embedding_dim: usize) -> (r: VectorIndex)
        ensures
            r.wf(),
            r@.entries.len() == 0,
            r@.embedding_model == embedding_model@,
            r@.embedding_dim == embedding_dim,
    {
        let r = VectorIndex { entries: Vec::new(), embedding_model, embedding_dim };
        assert(r@.entries =~= Seq::<EntryView>::empty());
        r
    }

    /// The name of the model whose vectors the index holds.
    pub fn embedding_model(&self) -> (r: &String)
        ensures
            r@ == self@.embedding_model,
    {
        &self.embedding_model
    }

    /// The dimension of every vector in the index.
    pub fn embedding_dim(&self) -> (r: usize)
        ensures
            r == self@.embedding_dim,
    {
        self.embedding_dim
    }

    fn find(&self, doc_id: &str) -> (r: Option<usize>)
        ensures
            match r {
                Some(i) => i < self@.entries.len() && i as int == entry_index(
                    self@.entries,
                    doc_id@,
                ),
                None => entry_index(self@.entries, doc_id@) == -1,
            },
    {
        let mut i: usize = 0;
        while i < self.entries.len()
            invariant
                i <= self.entries@.len(),
                entry_index(self@.entries, doc_id@) == entry_from(
                    self@.entries,
                    doc_id@,
                    i as int,
                ),
            decreases self.entries@.len() - i,
        {
            if same_text(self.entries[i].doc_id.as_str(), doc_id) {
                return Some(i);
            }
            i = i + 1;
        }
        None
    }

    /// Adds `entry`, replacing the entry of the same document if there is one.
    pub fn add_entry(&mut self, entry: VectorEntry)
        requires
            old(self).wf(),
        ensures
            final(self).wf(),
            final(self)@.embedding_model == old(self)@.embedding_model,
            final(self)@.embedding_dim == old(self)@.embedding_dim,
            final(self)@.entries == ({
                let i = entry_index(old(self)@.entries, entry@.doc_id);
                if i >= 0 {
                    old(self)@.entries.update(i, entry@)
                } else {
                    old(self)@.entries.push(entry@)
                }
            }),
    {
        let ghost before = self@.entries;
        proof {
            lemma_entry_from(before, entry@.doc_id, 0);
        }
        match self.find(entry.doc_id.as_str()) {
            Some(i) => {
                self.entries.remove(i);
                self.entries.insert(i, entry);
                assert(self@.entries =~= before.update(i as int, entry@));
            },
            None => {
                self.entries.push(entry);
                assert(self@.entries =~= before.push(entry@));
            },
        }
    }

    /// The entry of document `doc_id`, deleted or not.
    pub fn get_entry(&self, doc_id: &str) -> (r: Option<&VectorEntry>)
        ensures
            match r {
                Some(e) => entry_index(self@.entries, doc_id@) >= 0 && e@ == self@.entries[entry_index(
                    self@.entries,
                    doc_id@,
                )],
                None => entry_index(self@.entries, doc_id@) == -1,
            },
    {
        match self.find(doc_id) {
            Some(i) => Some(&self.entries[i]),
            None => None,
        }
    }

    /// Flags the entry of document `doc_id` deleted, if there is one. The entry and its
    /// vector file stay.
    pub fn delete_entry(&mut self, doc_id: &str)
        requires
            old(self).wf(),
        ensures
            final(self).wf(),
            final(self)@.embedding_model == old(self)@.embedding_model,
            final(self)@.embedding_dim == old(self)@.embedding_dim,
            final(self)@.entries == ({
                let i = entry_index(old(self)@.entries, doc_id@);
                if i >= 0 {
                    old(self)@.entries.update(i, EntryView { deleted: true, ..old(self)@.entries[i] })
                } else {
                    old(self)@.entries
                }
            }),
            // the document is no longer among the active entries or any search's candidates
            forall|start: Option<i64>, end: Option<i64>, k: int|
                0 <= k < kept(final(self)@.entries, start, end).len() ==> (#[trigger] kept(
                    final(self)@.entries,
                    start,
                    end,
                )[k]).doc_id != doc_id@,
    {
        let ghost before = self@.entries;
        match self.find(doc_id) {
            Some(i) => {
                let mut e = self.entries[i].duplicate();
                e.deleted = true;
                self.entries.remove(i);
                self.entries.insert(i, e);
                assert(self@.entries =~= before.update(
                    i as int,
                    EntryView { deleted: true, ..before[i as int] },
                ));
            },
            None => {},
        }
        proof {
            lemma_entry_from(before, doc_id@, 0);
            assert forall|start: Option<i64>, end: Option<i64>, k: int|
                0 <= k < kept(self@.entries, start, end).len() implies (#[trigger] kept(
                    self@.entries,
                    start,
                    end,
                )[k]).doc_id != doc_id@ by {
                if entry_index(before, doc_id@) >= 0 {
                    lemma_delete_hides_entry(before, doc_id@, start, end);
                } else {
                    lemma_kept_members(self@.entries, start, end);
                    let w = choose|w: int|
                        0 <= w < self@.entries.len() && self@.entries[w] == #[trigger] kept(
                            self@.entries,
                            start,
                            end,
                        )[k] && !self@.entries[w].deleted;
                    assert(self@.entries[w] == before[w]);
                }
            }
        }
    }

    /// Copies of the entries that are not deleted and pass the date filter `[start, end]`,
    /// in order: the candidates of a search.
    pub fn filtered_entries(&self, start: Option<i64>, end: Option<i64>) -> (r: Vec<VectorEntry>)
        ensures
            entry_views(r@) == kept(self@.entries, start, end),
    {
        let ghost es = self@.entries;
        let mut out: Vec<VectorEntry> = Vec::new();
        let mut i: usize = 0;
        while i < self.entries.len()
            invariant
                es == self@.entries,
                i <= self.entries@.len(),
                entry_views(out@) == kept(es.subrange(0, i as int), start, end),
            decreases self.entries@.len() - i,
        {
            let ghost pre = es.subrange(0, i as int);
            assert(es.subrange(0, i + 1).drop_last() =~= pre);
            let e = &self.entries[i];
            if !e.deleted && passes_date_filter(e.metadata.timestamp, start, end) {
                out.push(e.duplicate());
                assert(entry_views(out@) =~= kept(pre, start, end).push(es[i as int]));
            }
            i = i + 1;
        }
        assert(es.subrange(0, es.len() as int) =~= es);
        out
    }

    /// Copies of all entries, deleted ones included, in order.
    pub fn all_entries(&self) -> (r: Vec<VectorEntry>)
        ensures
            entry_views(r@) == self@.entries,
    {
        let mut out: Vec<VectorEntry> = Vec::new();
        let mut i: usize = 0;
        while i < self.entries.len()
            invariant
                i <= self.entries@.len(),
                out@.len() == i,
                forall|k: int| 0 <= k < i ==> (#[trigger] out@[k])@ == self@.entries[k],
            decreases self.entries@.len() - i,
        {
            out.push(self.entries[i].duplicate());
            i = i + 1;
        }
        assert(entry_views(out@) =~= self@.entries);
        out
    }

    /// Copies of the entries that are not deleted, in order.
    pub fn active_entries(&self) -> (r: Vec<VectorEntry>)
        ensures
            entry_views(r@) == active(self@.entries),
    {
        self.filtered_entries(None, None)
    }

    /// Number of entries that are not deleted.
    pub fn count(&self) -> (r: usize)
        ensures
            r == active(self@.entries).len(),
    {
        self.active_entries().len()
    }

    /// Number of entries that are not deleted, and the model of the index.
    pub fn stats(&self) -> (r: (usize, String))
        ensures
            r.0 == active(self@.entries).len(),
            r.1@ == self@.embedding_model,
    {
        (self.count(), self.embedding_model.clone())
    }

    /// Checks that vectors of model `model` and dimension `dim` may be compared with those
    /// of the index: a different model or dimension is an error, never re-embedded.
    pub fn check_compatible(&self, model: &str, dim: usize) -> (r: Result<(), RecordRouteError>)
        ensures
            r is Ok <==> (model@ == self@.embedding_model && dim == self@.embedding_dim),
            r is Err ==> r->Err_0 is VectorSearch,
    {
        if !same_text(model, self.embedding_model.as_str()) {
            return Err(RecordRouteError::VectorSearch("embedding model does not match the index".to_owned()));
        }
        if dim != self.embedding_dim {
            return Err(RecordRouteError::VectorSearch("embedding dimension does not match the index".to_owned()));
        }
        Ok(())
    }
}

/// Name of the file that holds the vector of document `doc_id`.
pub fn embedding_file_name(doc_id: &str) -> (r: String)
    ensures
        r@ == doc_id@ + ".json"@,
{
    let mut r = doc_id.to_owned();
    r.append(".json");
    r
}

/// After a document is deleted, no active entry, and so no search candidate, is that
/// document; its entry stays in the index, flagged.
pub proof fn lemma_delete_hides_entry(es: Seq<EntryView>, id: Seq<char>, start: Option<i64>, end: Option<i64>)
    requires
        unique_docs(es),
        entry_index(es, id) >= 0,
    ensures
        ({
            let i = entry_index(es, id);
            let d = es.update(i, EntryView { deleted: true, ..es[i] });
            &&& d.len() == es.len()
            &&& d[i].doc_id == id && d[i].deleted
            &&& forall|k: int| 0 <= k < kept(d, start, end).len() ==> (#[trigger] kept(d, start, end)[k]).doc_id != id
        }),
{
    let i = entry_index(es, id);
    lemma_entry_from(es, id, 0);
    let d = es.update(i, EntryView { deleted: true, ..es[i] });
    lemma_kept_members(d, start, end);
    assert forall|k: int| 0 <= k < kept(d, start, end).len() implies (#[trigger] kept(d, start, end)[k]).doc_id != id by {
        let w = choose|w: int| 0 <= w < d.len() && d[w] == #[trigger] kept(d, start, end)[k] && !d[w].deleted;
        if d[w].doc_id == id {
            assert(es[w].doc_id == es[i].doc_id);
        }
    }
}

proof fn lemma_kept_contains(es: Seq<EntryView>, j: int, start: Option<i64>, end: Option<i64>)
    requires
        0 <= j < es.len(),
        !es[j].deleted,
        in_date_range(es[j].metadata.timestamp, start, end),
    ensures
        kept(es, start, end).contains(es[j]),
    decreases es.len(),
{
    let pre = es.drop_last();
    if j == es.len() - 1 {
        assert(kept(es, start, end)[kept(es, start, end).len() - 1] == es[j]);
    } else {
        lemma_kept_contains(pre, j, start, end);
        assert(pre[j] == es[j]);
        let w = choose|w: int| 0 <= w < kept(pre, start, end).len() && kept(pre, start, end)[w] == es[j];
        assert(kept(es, start, end)[w] == es[j]);
    }
}

/// A document just added, not deleted and within the date bounds, is among the search
/// candidates, whether it was new or replaced an older entry of the same document.
pub proof fn lemma_added_is_candidate(
    es: Seq<EntryView>,
    e: EntryView,
    start: Option<i64>,
    end: Option<i64>,
)
    requires
        !e.deleted,
        in_date_range(e.metadata.timestamp, start, end),
    ensures
        ({
            let i = entry_index(es, e.doc_id);
            let added = if i >= 0 {
                es.update(i, e)
            } else {
                es.push(e)
            };
            kept(added, start, end).contains(e)
        }),
{
    let i = entry_index(es, e.doc_id);
    lemma_entry_from(es, e.doc_id, 0);
    if i >= 0 {
        lemma_kept_contains(es.update(i, e), i, start, end);
    } else {
        lemma_kept_contains(es.push(e), es.len() as int, start, end);
    }
}

/// A document without a time is left out of every search with a date bound, and kept by
/// one without (when it is not deleted).
pub proof fn lemma_undated_documents(start: Option<i64>, end: Option<i64>)
    ensures
        (start is Some || end is Some) ==> !in_date_range(None, start, end),
        (start is None && end is None) ==> in_date_range(None, start, end),
{
}

} // verus!
