//! Bringing the registry in line with the note files on disk.

use vstd::prelude::*;

use crate::metadata;
use crate::paths::{self, has_typ_extension};
use crate::registry;
use crate::text::contains_string;

verus! {

/// The registry path of a file in the notes directory: `notes/{name}`.
pub open spec fn notes_entry_path(name: Seq<char>) -> Seq<char> {
    "notes/"@ + name
}

/// Whether a file name is that of a note file: its extension is `typ`.
pub open spec fn is_note_file(name: Seq<char>) -> bool {
    paths::file_extension(name) == Some(seq!['t', 'y', 'p'])
}

/// The registry paths of the note files among the given file names.
pub open spec fn note_file_paths(names: Seq<Seq<char>>) -> Set<Seq<char>> {
    Set::new(
        |p: Seq<char>|
            exists|i: int|
                0 <= i < names.len() && is_note_file(#[trigger] names[i]) && p == notes_entry_path(
                    names[i],
                ),
    )
}

/// What a sync changes in the registry: the note files on disk that it does
/// not hold yet, and the paths it holds whose files are gone.
#[derive(Debug, Clone)]
pub struct SyncPlan {
    pub added: Vec<String>,
    pub removed: Vec<String>,
}

/// Whether `plan` adds exactly the note files on disk that the registry lacks
/// and removes exactly the registered paths that have no file, each once.
pub open spec fn is_sync_plan(
    added: Seq<Seq<char>>,
    removed: Seq<Seq<char>>,
    registered: Seq<Seq<char>>,
    on_disk: Set<Seq<char>>,
) -> bool {
    &&& added.no_duplicates()
    &&& removed.no_duplicates()
    &&& added.to_set() == on_disk.difference(registered.to_set())
    &&& removed.to_set() == registered.to_set().difference(on_disk)
}

proof fn lemma_push_to_set(s: Seq<Seq<char>>, x: Seq<char>)
    ensures
        s.push(x).to_set() == s.to_set().insert(x),
{
    assert forall|y: Seq<char>| s.push(x).to_set().contains(y) <==> s.to_set().insert(x).contains(y) by {
        if s.push(x).contains(y) {
            let k = choose|k: int| 0 <= k < s.push(x).len() && s.push(x)[k] == y;
            if k < s.len() {
                assert(s[k] == y);
            }
        }
        if s.contains(y) {
            let k = choose|k: int| 0 <= k < s.len() && s[k] == y;
            assert(s.push(x)[k] == y);
        }
        if y == x {
            assert(s.push(x)[s.len() as int] == x);
        }
    }
    assert(s.push(x).to_set() =~= s.to_set().insert(x));
}

proof fn lemma_push_no_duplicates(s: Seq<Seq<char>>, x: Seq<char>)
    requires
        s.no_duplicates(),
        !s.contains(x),
    ensures
        s.push(x).no_duplicates(),
{
    assert forall|i: int, j: int| 0 <= i < s.push(x).len() && 0 <= j < s.push(x).len() && i != j implies s.push(x)[i] != s.push(x)[j] by {
        if i == s.len() as int {
            assert(s[j] == s.push(x)[j]);
        } else if j == s.len() as int {
            assert(s[i] == s.push(x)[i]);
        }
    }
}

/// The plan of a sync, from the registered paths and the names of the files in
/// the notes directory.
pub fn plan_sync(registered: &Vec<String>, file_names: &Vec<String>) -> (plan: SyncPlan)
    ensures
        is_sync_plan(
            metadata::strs_view(plan.added@),
            metadata::strs_view(plan.removed@),
            metadata::strs_view(registered@),
            note_file_paths(metadata::strs_view(file_names@)),
        ),
{
    let ghost names = metadata::strs_view(file_names@);
    let ghost reg = metadata::strs_view(registered@);
    // The note files on disk, each once.
    let mut on_disk: Vec<String> = Vec::new();
    let n = file_names.len();
    let mut i: usize = 0;
    assert(metadata::strs_view(on_disk@).to_set() =~= note_file_paths(names.take(0)));
    while i < n
        invariant
            n == file_names@.len(),
            names == metadata::strs_view(file_names@),
            i <= n,
            metadata::strs_view(on_disk@).no_duplicates(),
            metadata::strs_view(on_disk@).to_set() == note_file_paths(names.take(i as int)),
        decreases n - i,
    {
        let ghost before = metadata::strs_view(on_disk@);
        let name = &file_names[i];
        assert(names[i as int] == name@);
        let is_note = has_typ_extension(name.as_str());
        let mut p = String::new();
        p.append("notes/");
        p.append(name.as_str());
        let dup = contains_string(&on_disk, &p);
        if is_note && !dup {
            proof {
                metadata::lemma_strs_view_push(on_disk@, p);
                lemma_push_to_set(before, p@);
                lemma_push_no_duplicates(before, p@);
            }
            on_disk.push(p);
        }
        let ghost after = metadata::strs_view(on_disk@);
        assert(after.to_set() =~= note_file_paths(names.take(i + 1))) by {
            assert forall|q: Seq<char>| after.to_set().contains(q) <==> note_file_paths(names.take(i + 1)).contains(q) by {
                let t = names.take(i + 1);
                if note_file_paths(t).contains(q) {
                    let k = choose|k: int| 0 <= k < t.len() && is_note_file(#[trigger] t[k]) && q == notes_entry_path(t[k]);
                    if k < i {
                        assert(names.take(i as int)[k] == t[k]);
                        assert(note_file_paths(names.take(i as int)).contains(q));
                    }
                }
                if before.to_set().contains(q) {
                    let s0 = names.take(i as int);
                    let k = choose|k: int| 0 <= k < s0.len() && is_note_file(#[trigger] s0[k]) && q == notes_entry_path(s0[k]);
                    assert(t[k] == s0[k]);
                }
                if is_note && q == notes_entry_path(name@) {
                    assert(t[i as int] == name@);
                }
            }
        }
        i = i + 1;
    }
    assert(names.take(n as int) =~= names);
    let ghost disk = metadata::strs_view(on_disk@);
    // Files on disk that the registry lacks.
    let mut added: Vec<String> = Vec::new();
    let m = on_disk.len();
    let mut j: usize = 0;
    assert(metadata::strs_view(added@).to_set() =~= disk.take(0).to_set().difference(reg.to_set()));
    while j < m
        invariant
            m == on_disk@.len(),
            disk == metadata::strs_view(on_disk@),
            disk.no_duplicates(),
            reg == metadata::strs_view(registered@),
            j <= m,
            metadata::strs_view(added@).no_duplicates(),
            forall|k: int| 0 <= k < metadata::strs_view(added@).len() ==> disk.take(j as int).contains(#[trigger] metadata::strs_view(added@)[k]),
            metadata::strs_view(added@).to_set() == disk.take(j as int).to_set().difference(reg.to_set()),
        decreases m - j,
    {
        let ghost before = metadata::strs_view(added@);
        assert(disk.take(j + 1) =~= disk.take(j as int).push(disk[j as int]));
        proof {
            lemma_push_to_set(disk.take(j as int), disk[j as int]);
        }
        let p = &on_disk[j];
        assert(disk[j as int] == p@);
        if !contains_string(registered, p) {
            assert(!before.contains(p@)) by {
                if before.contains(p@) {
                    let k = choose|k: int| 0 <= k < before.len() && before[k] == p@;
                    assert(disk.take(j as int).contains(before[k]));
                    let l = choose|l: int| 0 <= l < j && disk.take(j as int)[l] == before[k];
                    assert(disk[l] == disk[j as int]);
                }
            }
            proof {
                metadata::lemma_strs_view_push(added@, *p);
                lemma_push_to_set(before, p@);
                lemma_push_no_duplicates(before, p@);
            }
            added.push(p.clone());
            assert forall|k: int| 0 <= k < metadata::strs_view(added@).len() implies disk.take(j + 1).contains(#[trigger] metadata::strs_view(added@)[k]) by {
                if k < before.len() {
                    assert(metadata::strs_view(added@)[k] == before[k]);
                    let l = choose|l: int| 0 <= l < j && disk.take(j as int)[l] == before[k];
                    assert(disk.take(j + 1)[l] == before[k]);
                } else {
                    assert(disk.take(j + 1)[j as int] == p@);
                }
            }
        } else {
            assert forall|k: int| 0 <= k < before.len() implies disk.take(j + 1).contains(#[trigger] before[k]) by {
                let l = choose|l: int| 0 <= l < j && disk.take(j as int)[l] == before[k];
                assert(disk.take(j + 1)[l] == before[k]);
            }
        }
        assert(metadata::strs_view(added@).to_set() =~= disk.take(j + 1).to_set().difference(reg.to_set()));
        j = j + 1;
    }
    assert(disk.take(m as int) =~= disk);
    // Registered paths whose files are gone.
    let mut removed: Vec<String> = Vec::new();
    let r = registered.len();
    let mut k: usize = 0;
    assert(metadata::strs_view(removed@).to_set() =~= reg.take(0).to_set().difference(disk.to_set()));
    while k < r
        invariant
            r == registered@.len(),
            reg == metadata::strs_view(registered@),
            disk == metadata::strs_view(on_disk@),
            k <= r,
            metadata::strs_view(removed@).no_duplicates(),
            metadata::strs_view(removed@).to_set() == reg.take(k as int).to_set().difference(disk.to_set()),
        decreases r - k,
    {
        let ghost before = metadata::strs_view(removed@);
        assert(reg.take(k + 1) =~= reg.take(k as int).push(reg[k as int]));
        proof {
            lemma_push_to_set(reg.take(k as int), reg[k as int]);
        }
        let p = &registered[k];
        assert(reg[k as int] == p@);
        if !contains_string(&on_disk, p) && !contains_string(&removed, p) {
            proof {
                metadata::lemma_strs_view_push(removed@, *p);
                lemma_push_to_set(before, p@);
                lemma_push_no_duplicates(before, p@);
            }
            removed.push(p.clone());
        }
        assert(metadata::strs_view(removed@).to_set() =~= reg.take(k + 1).to_set().difference(disk.to_set()));
        k = k + 1;
    }
    assert(reg.take(r as int) =~= reg);
    SyncPlan { added, removed }
}

} // verus!

verus! {

/// The registry text after appending the line of each path, in order.
pub open spec fn append_lines(c: Seq<char>, ps: Seq<Seq<char>>) -> Seq<char>
    decreases ps.len(),
{
    if ps.len() == 0 {
        c
    } else {
        append_lines(c, ps.drop_last()) + registry::registry_line(ps.last())
    }
}

/// The registry text after removing each path, in order.
pub open spec fn remove_paths(c: Seq<char>, ps: Seq<Seq<char>>) -> Seq<char>
    decreases ps.len(),
{
    if ps.len() == 0 {
        c
    } else {
        let before = remove_paths(c, ps.drop_last());
        registry::registry_text(registry::without(registry::registry_entries(before), ps.last()))
    }
}

proof fn lemma_append_lines(c: Seq<char>, ps: Seq<Seq<char>>)
    requires
        registry::is_well_terminated(c),
        forall|i: int| 0 <= i < ps.len() ==> registry::is_clean_path(#[trigger] ps[i]),
    ensures
        registry::registry_entries(append_lines(c, ps)) == registry::registry_entries(c) + ps,
        registry::is_well_terminated(append_lines(c, ps)),
    decreases ps.len(),
{
    if ps.len() == 0 {
        assert(registry::registry_entries(c) + ps =~= registry::registry_entries(c));
    } else {
        let prev = ps.drop_last();
        assert forall|i: int| 0 <= i < prev.len() implies registry::is_clean_path(#[trigger] prev[i]) by {
            assert(prev[i] == ps[i]);
        }
        lemma_append_lines(c, prev);
        assert(registry::is_clean_path(ps[ps.len() - 1]));
        registry::lemma_append_line(append_lines(c, prev), ps.last());
        assert(registry::registry_entries(c) + prev.push(ps.last()) =~= (registry::registry_entries(c)
            + prev).push(ps.last()));
        assert(prev.push(ps.last()) =~= ps);
    }
}

proof fn lemma_without_to_set(ps: Seq<Seq<char>>, p: Seq<char>)
    ensures
        registry::without(ps, p).to_set() == ps.to_set().remove(p),
    decreases ps.len(),
{
    if ps.len() == 0 {
        assert(registry::without(ps, p).to_set() =~= ps.to_set().remove(p));
    } else {
        let prev = ps.drop_last();
        lemma_without_to_set(prev, p);
        assert(ps =~= prev.push(ps.last()));
        lemma_push_to_set(prev, ps.last());
        if ps.last() != p {
            lemma_push_to_set(registry::without(prev, p), ps.last());
        }
        assert(registry::without(ps, p).to_set() =~= ps.to_set().remove(p));
    }
}

proof fn lemma_remove_paths(c: Seq<char>, ps: Seq<Seq<char>>)
    requires
        registry::is_well_terminated(c),
    ensures
        registry::registry_entries(remove_paths(c, ps)).to_set() == registry::registry_entries(
            c,
        ).to_set().difference(ps.to_set()),
        registry::is_well_terminated(remove_paths(c, ps)),
    decreases ps.len(),
{
    if ps.len() == 0 {
        assert(registry::registry_entries(c).to_set().difference(ps.to_set()) =~= registry::registry_entries(c).to_set());
    } else {
        let prev = ps.drop_last();
        lemma_remove_paths(c, prev);
        let before = remove_paths(c, prev);
        registry::lemma_remove_path(before, ps.last());
        lemma_without_to_set(registry::registry_entries(before), ps.last());
        assert(ps =~= prev.push(ps.last()));
        lemma_push_to_set(prev, ps.last());
        assert(registry::registry_entries(remove_paths(c, ps)).to_set() =~= registry::registry_entries(
            c,
        ).to_set().difference(ps.to_set()));
    }
}

/// The registry path of a note file whose name has no line feed is clean.
pub proof fn lemma_note_file_path_clean(name: Seq<char>)
    requires
        is_note_file(name),
        !name.contains('\n'),
    ensures
        registry::is_clean_path(notes_entry_path(name)),
{
    reveal_strlit("notes/");
    let p = notes_entry_path(name);
    let i = paths::last_dot(name)->0;
    paths::lemma_file_extension_suffix(name);
    assert(name.last() == 'p') by {
        let ext = name.skip(i + 1);
        assert(ext == seq!['t', 'y', 'p']);
        assert(ext.len() == 3);
        assert(name.len() == i + 4);
        assert(ext[2] == name[i + 3]);
        assert(ext[2] == 'p');
    }
    assert(p.last() == name.last());
    assert(p[0] == 'n');
    assert(!p.contains('\n')) by {
        if p.contains('\n') {
            let j = choose|j: int| 0 <= j < p.len() && p[j] == '\n';
            if j >= 6 {
                assert(name[j - 6] == '\n');
            }
        }
    }
}

/// A sync brings the registry in line with the disk: after the line of each
/// added path is appended and then each removed path is removed, the registry
/// holds exactly the note files in the notes directory (file names with a
/// line feed in them left aside, as a registry line cannot hold them).
pub proof fn lemma_sync_matches_disk(
    c: Seq<char>,
    names: Seq<Seq<char>>,
    added: Seq<Seq<char>>,
    removed: Seq<Seq<char>>,
)
    requires
        registry::is_well_terminated(c),
        forall|i: int| 0 <= i < names.len() ==> !(#[trigger] names[i]).contains('\n'),
        is_sync_plan(added, removed, registry::registry_entries(c), note_file_paths(names)),
    ensures
        registry::registry_entries(remove_paths(append_lines(c, added), removed)).to_set()
            == note_file_paths(names),
{
    let disk = note_file_paths(names);
    let es = registry::registry_entries(c);
    assert forall|i: int| 0 <= i < added.len() implies registry::is_clean_path(#[trigger] added[i]) by {
        assert(added.to_set().contains(added[i]));
        assert(disk.contains(added[i]));
        let k = choose|k: int| 0 <= k < names.len() && is_note_file(#[trigger] names[k]) && added[i] == notes_entry_path(names[k]);
        lemma_note_file_path_clean(names[k]);
    }
    lemma_append_lines(c, added);
    let c1 = append_lines(c, added);
    lemma_remove_paths(c1, removed);
    assert((es + added).to_set() =~= es.to_set().union(added.to_set())) by {
        assert forall|q: Seq<char>| (es + added).contains(q) <==> (es.contains(q) || added.contains(q)) by {
            if (es + added).contains(q) {
                let k = choose|k: int| 0 <= k < (es + added).len() && (es + added)[k] == q;
                if k >= es.len() {
                    assert(added[k - es.len()] == q);
                }
            }
            if es.contains(q) {
                let k = choose|k: int| 0 <= k < es.len() && es[k] == q;
                assert((es + added)[k] == q);
            }
            if added.contains(q) {
                let k = choose|k: int| 0 <= k < added.len() && added[k] == q;
                assert((es + added)[es.len() + k] == q);
            }
        }
    }
    assert(es.to_set().union(added.to_set()).difference(removed.to_set()) =~= disk);
}

} // verus!

verus! {

impl SyncPlan {
    /// How many paths the sync adds and removes.
    pub fn counts(&self) -> (res: (usize, usize))
        ensures
            res.0 == self.added@.len(),
            res.1 == self.removed@.len(),
    {
        (self.added.len(), self.removed.len())
    }

    /// Whether the sync changes the registry.
    pub fn changes_registry(&self) -> (res: bool)
        ensures
            res == (self.added@.len() > 0 || self.removed@.len() > 0),
    {
        self.added.len() > 0 || self.removed.len() > 0
    }
}

} // verus!

verus! {

/// Once the registry holds exactly the note files on disk, a sync has
/// nothing left to add or remove.
pub proof fn lemma_sync_settles(
    added: Seq<Seq<char>>,
    removed: Seq<Seq<char>>,
    registered: Seq<Seq<char>>,
    on_disk: Set<Seq<char>>,
)
    requires
        registered.to_set() == on_disk,
        is_sync_plan(added, removed, registered, on_disk),
    ensures
        added.len() == 0,
        removed.len() == 0,
{
    if added.len() > 0 {
        assert(added.to_set().contains(added[0]));
    }
    if removed.len() > 0 {
        assert(removed.to_set().contains(removed[0]));
    }
}

} // verus!
