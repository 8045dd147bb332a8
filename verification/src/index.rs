//! The index of a vault: the metadata of every registered note that has a
//! note constructor, and every link from such a note, as `notes-index.json`
//! records them.

use vstd::prelude::*;

use crate::ast::{AstExtraction, AstExtractionView};
use crate::metadata::{self, NoteMetadata, NoteMetadataView};

verus! {

/// A link of the index: from the note with id `source`, written in the file
/// `source_path`, to the note id `target`.
#[derive(Debug, Clone)]
pub struct IndexLink {
    pub source: String,
    pub target: String,
    pub source_path: String,
}

/// The mathematical value of an [`IndexLink`].
pub struct IndexLinkView {
    pub source: Seq<char>,
    pub target: Seq<char>,
    pub source_path: Seq<char>,
}

impl View for IndexLink {
    type V = IndexLinkView;

    open spec fn view(&self) -> IndexLinkView {
        IndexLinkView { source: self.source@, target: self.target@, source_path: self.source_path@ }
    }
}

/// The notes and links of a vault, in registry order.
#[derive(Debug)]
pub struct NotesIndex {
    pub notes: Vec<NoteMetadata>,
    pub links: Vec<IndexLink>,
}

/// The mathematical value of a [`NotesIndex`].
pub struct NotesIndexView {
    pub notes: Seq<NoteMetadataView>,
    pub links: Seq<IndexLinkView>,
}

/// The views of a list of note metadata.
pub open spec fn metas_view(v: Seq<NoteMetadata>) -> Seq<NoteMetadataView> {
    v.map_values(|m: NoteMetadata| m@)
}

/// The views of a list of links.
pub open spec fn links_view(v: Seq<IndexLink>) -> Seq<IndexLinkView> {
    v.map_values(|l: IndexLink| l@)
}

impl View for NotesIndex {
    type V = NotesIndexView;

    open spec fn view(&self) -> NotesIndexView {
        NotesIndexView { notes: metas_view(self.notes@), links: links_view(self.links@) }
    }
}

/// The index of no files.
pub open spec fn empty_index() -> NotesIndexView {
    NotesIndexView { notes: Seq::empty(), links: Seq::empty() }
}

/// The links written in the file `path` of the note `id`, one per target, in
/// order.
pub open spec fn file_links(id: Seq<char>, path: Seq<char>, targets: Seq<Seq<char>>) -> Seq<IndexLinkView> {
    targets.map_values(|t: Seq<char>| IndexLinkView { source: id, target: t, source_path: path })
}

/// What the file `path`, extracted as `ex`, adds to the index: when it has
/// metadata, the note and its links; otherwise nothing, its links included.
pub open spec fn with_file(ix: NotesIndexView, path: Seq<char>, ex: AstExtractionView) -> NotesIndexView {
    match ex.metadata {
        Some(m) => NotesIndexView {
            notes: ix.notes.push(m),
            links: ix.links + file_links(m.id, path, ex.links),
        },
        None => ix,
    }
}

/// The index of the files, each a path and what was extracted from it, in
/// order.
pub open spec fn index_of(files: Seq<(Seq<char>, AstExtractionView)>) -> NotesIndexView
    decreases files.len(),
{
    if files.len() == 0 {
        empty_index()
    } else {
        with_file(index_of(files.drop_last()), files.last().0, files.last().1)
    }
}

/// Whether one of the notes has the id `id`.
pub open spec fn has_note(notes: Seq<NoteMetadataView>, id: Seq<char>) -> bool {
    exists|j: int| 0 <= j < notes.len() && #[trigger] notes[j].id == id
}

/// Whether every link of the index starts at a note of the index.
pub open spec fn links_start_at_notes(ix: NotesIndexView) -> bool {
    forall|i: int| 0 <= i < ix.links.len() ==> has_note(ix.notes, #[trigger] ix.links[i].source)
}

/// Adding a file keeps every link starting at an indexed note.
pub proof fn lemma_with_file_links_start_at_notes(
    ix: NotesIndexView,
    path: Seq<char>,
    ex: AstExtractionView,
)
    requires
        links_start_at_notes(ix),
    ensures
        links_start_at_notes(with_file(ix, path, ex)),
{
    let next = with_file(ix, path, ex);
    if let Some(m) = ex.metadata {
        assert(next.notes == ix.notes.push(m));
        assert(next.links == ix.links + file_links(m.id, path, ex.links));
        assert forall|i: int| 0 <= i < next.links.len() implies has_note(
            next.notes,
            #[trigger] next.links[i].source,
        ) by {
            if i < ix.links.len() {
                assert(next.links[i] == ix.links[i]);
                assert(has_note(ix.notes, ix.links[i].source));
                let j = choose|j: int| 0 <= j < ix.notes.len() && #[trigger] ix.notes[j].id == ix.links[i].source;
                assert(next.notes[j] == ix.notes[j]);
            } else {
                let k = ix.notes.len() as int;
                assert(next.links[i].source == m.id);
                assert(next.notes[k] == m);
            }
        }
    } else {
        assert(next == ix);
    }
}

/// Every link of an index starts at a note of the index: links of a file
/// without metadata are left out, and the others carry their note's id.
pub proof fn lemma_index_links_start_at_notes(files: Seq<(Seq<char>, AstExtractionView)>)
    ensures
        links_start_at_notes(index_of(files)),
    decreases files.len(),
{
    if files.len() > 0 {
        lemma_index_links_start_at_notes(files.drop_last());
        lemma_with_file_links_start_at_notes(
            index_of(files.drop_last()),
            files.last().0,
            files.last().1,
        );
    }
}

/// The views of a list of files with what was extracted from them.
pub open spec fn files_view(files: Seq<(String, AstExtraction)>) -> Seq<(Seq<char>, AstExtractionView)> {
    files.map_values(|f: (String, AstExtraction)| (f.0@, f.1@))
}

impl NotesIndex {
    /// The index of no files.
    pub fn new() -> (res: NotesIndex)
        ensures
            res@ == empty_index(),
    {
        let res = NotesIndex { notes: Vec::new(), links: Vec::new() };
        assert(res@.notes =~= Seq::<NoteMetadataView>::empty());
        assert(res@.links =~= Seq::<IndexLinkView>::empty());
        res
    }

    /// Adds the file `path`, extracted as `extraction`: its note and a link
    /// from the note to each target, when it has metadata.
    pub fn add_file(&mut self, path: &str, extraction: AstExtraction)
        ensures
            final(self)@ == with_file(old(self)@, path@, extraction@),
    {
        let ghost ex = extraction@;
        let AstExtraction { metadata: meta, links: targets } = extraction;
        let m = match meta {
            Some(m) => m,
            None => {
                assert(ex.metadata is None);
                return;
            },
        };
        assert(ex.metadata == Some(m@));
        assert(ex.links == metadata::strs_view(targets@));
        let ghost start = self.links@;
        let ghost tv = metadata::strs_view(targets@);
        let n = targets.len();
        let mut i: usize = 0;
        assert(links_view(self.links@) =~= links_view(start) + file_links(m.id@, path@, tv.take(0)));
        while i < n
            invariant
                n == targets@.len(),
                tv == metadata::strs_view(targets@),
                i <= n,
                links_view(self.links@) == links_view(start) + file_links(m.id@, path@, tv.take(i as int)),
                self.notes@ == old(self).notes@,
                start == old(self).links@,
                m@ == ex.metadata.unwrap(),
            decreases n - i,
        {
            let link = IndexLink {
                source: m.id.clone(),
                target: targets[i].clone(),
                source_path: path.to_owned(),
            };
            let ghost before = self.links@;
            self.links.push(link);
            assert(links_view(self.links@) =~= links_view(before).push(link@));
            assert(file_links(m.id@, path@, tv.take(i + 1)) =~= file_links(m.id@, path@, tv.take(
                i as int,
            )).push(link@));
            i = i + 1;
        }
        assert(tv.take(n as int) =~= tv);
        let ghost before = self.notes@;
        self.notes.push(m);
        assert(metas_view(self.notes@) =~= metas_view(before).push(ex.metadata.unwrap()));
    }

    /// Number of notes.
    pub fn note_count(&self) -> (n: usize)
        ensures
            n == self@.notes.len(),
    {
        self.notes.len()
    }

    /// Number of links.
    pub fn link_count(&self) -> (n: usize)
        ensures
            n == self@.links.len(),
    {
        self.links.len()
    }
}

/// The index of the files, each a registered path and what was extracted
/// from that file, in registry order.
pub fn build_notes_index(files: Vec<(String, AstExtraction)>) -> (res: NotesIndex)
    ensures
        res@ == index_of(files_view(files@)),
        links_start_at_notes(res@),
{
    let ghost all = files_view(files@);
    let n = files.len();
    let mut rest = files;
    let mut reversed: Vec<(String, AstExtraction)> = Vec::new();
    while rest.len() > 0
        invariant
            n == all.len(),
            rest@.len() + reversed@.len() == n,
            forall|j: int| 0 <= j < rest@.len() ==> (rest@[j].0@, rest@[j].1@) == #[trigger] all[j],
            forall|j: int|
                0 <= j < reversed@.len() ==> (#[trigger] reversed@[j].0@, reversed@[j].1@) == all[n - 1 - j],
        decreases rest.len(),
    {
        let f = rest.pop().unwrap();
        reversed.push(f);
    }
    let mut ix = NotesIndex::new();
    assert(all.take(0) =~= Seq::<(Seq<char>, AstExtractionView)>::empty());
    while reversed.len() > 0
        invariant
            n == all.len(),
            reversed@.len() <= n,
            forall|j: int|
                0 <= j < reversed@.len() ==> (#[trigger] reversed@[j].0@, reversed@[j].1@) == all[n - 1 - j],
            ix@ == index_of(all.take(n - reversed@.len())),
        decreases reversed.len(),
    {
        let ghost k = n - reversed@.len();
        assert((reversed@[reversed@.len() - 1].0@, reversed@[reversed@.len() - 1].1@) == all[k]);
        let (path, extraction) = reversed.pop().unwrap();
        assert((path@, extraction@) == all[k]);
        assert(all.take(k + 1).drop_last() =~= all.take(k));
        ix.add_file(path.as_str(), extraction);
    }
    assert(all.take(n as int) =~= all);
    proof {
        lemma_index_links_start_at_notes(all);
    }
    ix
}

/// Whether the index must be rebuilt: when it was never written
/// (`index_modified` is `None`), or when one of its sources (the registry and
/// the note files) was modified after it. Times are in any one unit since a
/// fixed origin.
pub open spec fn stale(index_modified: Option<u64>, sources_modified: Seq<u64>) -> bool {
    match index_modified {
        None => true,
        Some(t) => exists|k: int| 0 <= k < sources_modified.len() && #[trigger] sources_modified[k] > t,
    }
}

/// Whether the index must be rebuilt, as [`stale`] says.
pub fn index_is_stale(index_modified: Option<u64>, sources_modified: &Vec<u64>) -> (res: bool)
    ensures
        res == stale(index_modified, sources_modified@),
{
    let t = match index_modified {
        None => {
            return true;
        },
        Some(t) => t,
    };
    let n = sources_modified.len();
    let mut k: usize = 0;
    while k < n
        invariant
            n == sources_modified@.len(),
            k <= n,
            index_modified == Some(t),
            forall|j: int| 0 <= j < k ==> #[trigger] sources_modified@[j] <= t,
        decreases n - k,
    {
        if sources_modified[k] > t {
            assert(sources_modified@[k as int] > t);
            return true;
        }
        k = k + 1;
    }
    false
}

} // verus!

verus! {

/// An index that was never written is stale, whatever its sources.
pub proof fn lemma_missing_index_is_stale(sources_modified: Seq<u64>)
    ensures
        stale(None, sources_modified),
{
}

/// Any one source modified after the index, at any position among the
/// sources, makes the index stale.
pub proof fn lemma_newer_source_makes_index_stale(t: u64, sources_modified: Seq<u64>, k: int)
    requires
        0 <= k < sources_modified.len(),
        sources_modified[k] > t,
    ensures
        stale(Some(t), sources_modified),
{
}

/// A written index is stale only when some source was modified after it:
/// when every source is as old as the index or older, it is not stale.
pub proof fn lemma_index_fresh_when_no_source_newer(t: u64, sources_modified: Seq<u64>)
    requires
        forall|j: int| 0 <= j < sources_modified.len() ==> sources_modified[j] <= t,
    ensures
        !stale(Some(t), sources_modified),
{
}

} // verus!

