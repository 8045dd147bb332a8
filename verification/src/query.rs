//! Questions asked of the index: which notes a search finds, which notes
//! link to a note, and the graph of links, each as the lines that the
//! command-line tool prints.

use vstd::prelude::*;

use crate::index::{IndexLinkView, NotesIndex, NotesIndexView};
use crate::metadata::{self, NoteMetadata, NoteMetadataView};
use crate::note::{self, decimal_string};
use crate::text::chars_of;

verus! {

// ----------------------------------------------------------------------
// Matching text

/// `c` in lower case when it is an ASCII capital letter; otherwise `c`.
pub open spec fn ascii_lower(c: char) -> char {
    if 'A' <= c && c <= 'Z' {
        ((c as u32) + 32) as char
    } else {
        c
    }
}

/// `s` with its ASCII capitals in lower case.
pub open spec fn folded(s: Seq<char>) -> Seq<char> {
    s.map_values(|c: char| ascii_lower(c))
}

/// Whether `q` occurs in `s`.
pub open spec fn contains_text(s: Seq<char>, q: Seq<char>) -> bool {
    exists|i: int| 0 <= i && i + q.len() <= s.len() && #[trigger] s.subrange(i, i + q.len()) == q
}

/// Whether `q` occurs in `s` when ASCII letters are compared without case.
pub open spec fn occurs_in(s: Seq<char>, q: Seq<char>) -> bool {
    contains_text(folded(s), folded(q))
}

/// Whether a search for `q` finds the note: `q` occurs, ASCII case aside, in
/// its id, its title or one of its tags.
pub open spec fn matches_query(m: NoteMetadataView, q: Seq<char>) -> bool {
    ||| occurs_in(m.id, q)
    ||| occurs_in(m.title, q)
    ||| exists|k: int| 0 <= k < m.tags.len() && occurs_in(#[trigger] m.tags[k], q)
}

fn lower_char(c: char) -> (r: char)
    ensures
        r == ascii_lower(c),
{
    if 'A' <= c && c <= 'Z' {
        let u: u32 = c as u32;
        assert(65 <= u <= 90);
        let b: u8 = (u + 32) as u8;
        b as char
    } else {
        c
    }
}

fn fold_chars(s: &str) -> (r: Vec<char>)
    ensures
        r@ == folded(s@),
{
    let v = chars_of(s);
    let n = v.len();
    let mut r: Vec<char> = Vec::new();
    let mut i: usize = 0;
    while i < n
        invariant
            v@ == s@,
            n == v@.len(),
            i <= n,
            r@ == folded(v@.take(i as int)),
        decreases n - i,
    {
        let c = lower_char(v[i]);
        r.push(c);
        assert(folded(v@.take(i + 1)) =~= folded(v@.take(i as int)).push(c));
        i = i + 1;
    }
    assert(v@.take(n as int) =~= v@);
    r
}

/// Whether `q` stands in `s` from position `i`.
fn matches_at(s: &Vec<char>, q: &Vec<char>, i: usize) -> (res: bool)
    requires
        i + q@.len() <= s@.len(),
    ensures
        res == (s@.subrange(i as int, i + q@.len()) == q@),
{
    let m = q.len();
    let sl = s.len();
    let mut j: usize = 0;
    while j < m
        invariant
            m == q@.len(),
            sl == s@.len(),
            i + m <= s@.len(),
            j <= m,
            forall|t: int| 0 <= t < j ==> s@[i + t] == q@[t],
        decreases m - j,
    {
        if s[i + j] != q[j] {
            assert(s@.subrange(i as int, i + m)[j as int] != q@[j as int]);
            return false;
        }
        j = j + 1;
    }
    assert(s@.subrange(i as int, i + m) =~= q@);
    true
}

/// Whether `q` occurs in `s`.
fn contains_chars(s: &Vec<char>, q: &Vec<char>) -> (res: bool)
    ensures
        res == contains_text(s@, q@),
{
    if q.len() > s.len() {
        return false;
    }
    let last = s.len() - q.len();
    let mut i: usize = 0;
    loop
        invariant
            last == s@.len() - q@.len(),
            i <= last,
            forall|k: int| 0 <= k < i ==> #[trigger] s@.subrange(k, k + q@.len()) != q@,
        decreases last - i,
    {
        if matches_at(s, q, i) {
            return true;
        }
        if i == last {
            return false;
        }
        i = i + 1;
    }
}

/// Whether a search for `query`, folded as `q`, finds the note.
fn note_matches(m: &NoteMetadata, q: &Vec<char>, Ghost(query): Ghost<Seq<char>>) -> (res: bool)
    requires
        q@ == folded(query),
    ensures
        res == matches_query(m@, query),
{
    if contains_chars(&fold_chars(m.id.as_str()), q) {
        return true;
    }
    if contains_chars(&fold_chars(m.title.as_str()), q) {
        return true;
    }
    let n = m.tags.len();
    let mut k: usize = 0;
    while k < n
        invariant
            n == m.tags@.len(),
            q@ == folded(query),
            k <= n,
            forall|t: int| 0 <= t < k ==> !occurs_in(#[trigger] m@.tags[t], query),
        decreases n - k,
    {
        if contains_chars(&fold_chars(m.tags[k].as_str()), q) {
            assert(occurs_in(m@.tags[k as int], query));
            return true;
        }
        k = k + 1;
    }
    false
}

// ----------------------------------------------------------------------
// Search

/// The notes whose type is `t`, in order.
pub open spec fn types_of(notes: Seq<NoteMetadataView>, t: Seq<char>) -> Seq<NoteMetadataView>
    decreases notes.len(),
{
    if notes.len() == 0 {
        Seq::empty()
    } else {
        let rest = types_of(notes.drop_last(), t);
        if notes.last().note_type == t {
            rest.push(notes.last())
        } else {
            rest
        }
    }
}

/// The notes that a search for `q` finds, in order.
pub open spec fn search_results(notes: Seq<NoteMetadataView>, q: Seq<char>) -> Seq<NoteMetadataView>
    decreases notes.len(),
{
    if notes.len() == 0 {
        Seq::empty()
    } else {
        let rest = search_results(notes.drop_last(), q);
        if matches_query(notes.last(), q) {
            rest.push(notes.last())
        } else {
            rest
        }
    }
}

/// The line of a search result: `  id — title`, then the tags in brackets
/// when there are any.
pub open spec fn result_line(m: NoteMetadataView) -> Seq<char> {
    "  "@ + m.id + " — "@ + m.title + if m.tags.len() == 0 {
        Seq::empty()
    } else {
        " ["@ + note::join_with(m.tags, ", "@) + "]"@
    }
}

/// The lines printed for a search for `q`: a notice when nothing is found,
/// otherwise a line per note found and the count.
pub open spec fn search_lines(found: Seq<NoteMetadataView>, q: Seq<char>) -> Seq<Seq<char>> {
    if found.len() == 0 {
        seq!["No results for \""@ + q + "\""@]
    } else {
        found.map_values(|m: NoteMetadataView| result_line(m)).push(
            note::decimal(found.len()) + " result(s)"@,
        )
    }
}

fn result_text(m: &NoteMetadata) -> (r: String)
    ensures
        r@ == result_line(m@),
{
    let mut r = String::new();
    r.append("  ");
    r.append(m.id.as_str());
    r.append(" — ");
    r.append(m.title.as_str());
    if m.tags.len() > 0 {
        r.append(" [");
        let tags = note::join_strings(&m.tags, ", ");
        r.append(tags.as_str());
        r.append("]");
    }
    proof {
        reveal_strlit("");
    }
    assert(r@ =~= result_line(m@));
    r
}

/// The notes among `notes` that a search for `query` finds, in order: those
/// in whose id, title or one of whose tags `query` occurs, ASCII letters
/// compared without case.
pub fn search_notes(notes: &Vec<NoteMetadata>, query: &str) -> (found: Vec<usize>)
    ensures
        found@.len() == search_results(crate::index::metas_view(notes@), query@).len(),
        forall|k: int|
            0 <= k < found@.len() ==> #[trigger] found@[k] < notes@.len() && notes@[found@[k] as int]@
                == search_results(crate::index::metas_view(notes@), query@)[k],
{
    let ghost all = crate::index::metas_view(notes@);
    let q = fold_chars(query);
    let n = notes.len();
    let mut found: Vec<usize> = Vec::new();
    let mut i: usize = 0;
    while i < n
        invariant
            n == notes@.len(),
            all == crate::index::metas_view(notes@),
            q@ == folded(query@),
            i <= n,
            found@.len() == search_results(all.take(i as int), query@).len(),
            forall|k: int|
                0 <= k < found@.len() ==> #[trigger] found@[k] < i && notes@[found@[k] as int]@
                    == search_results(all.take(i as int), query@)[k],
        decreases n - i,
    {
        assert(all.take(i + 1).drop_last() =~= all.take(i as int));
        assert(all.take(i + 1).last() == notes@[i as int]@);
        if note_matches(&notes[i], &q, Ghost(query@)) {
            found.push(i);
        }
        i = i + 1;
    }
    assert(all.take(n as int) =~= all);
    found
}

/// The lines printed for a search for `query` among `notes`, keeping only
/// the notes of type `note_type` when one is given.
pub fn search_report(notes: &Vec<NoteMetadata>, query: &str, note_type: Option<&str>) -> (lines: Vec<
    String,
>)
    ensures
        metadata::strs_view(lines@) == search_lines(
            match note_type {
                Some(t) => types_of(
                    search_results(crate::index::metas_view(notes@), query@),
                    t@,
                ),
                None => search_results(crate::index::metas_view(notes@), query@),
            },
            query@,
        ),
{
    let ghost results = search_results(crate::index::metas_view(notes@), query@);
    let ghost shown = match note_type {
        Some(t) => types_of(results, t@),
        None => results,
    };
    let found = search_notes(notes, query);
    let mut lines: Vec<String> = Vec::new();
    let mut count: usize = 0;
    let m = found.len();
    let mut k: usize = 0;
    while k < m
        invariant
            m == found@.len(),
            m == results.len(),
            k <= m,
            forall|j: int|
                0 <= j < found@.len() ==> #[trigger] found@[j] < notes@.len() && notes@[found@[j] as int]@
                    == results[j],
            count == lines@.len(),
            count <= k,
            metadata::strs_view(lines@) == (match note_type {
                Some(t) => types_of(results.take(k as int), t@),
                None => results.take(k as int),
            }).map_values(|x: NoteMetadataView| result_line(x)),
        decreases m - k,
    {
        let note = &notes[found[k]];
        assert(note@ == results[k as int]);
        assert(results.take(k + 1).drop_last() =~= results.take(k as int));
        let keep = match note_type {
            Some(t) => crate::text::str_eq(note.note_type.as_str(), t),
            None => true,
        };
        if keep {
            let line = result_text(note);
            proof {
                metadata::lemma_strs_view_push(lines@, line);
            }
            lines.push(line);
            count = count + 1;
        }
        proof {
            let sel = match note_type {
                Some(t) => types_of(results.take(k + 1), t@),
                None => results.take(k + 1),
            };
            let prev = match note_type {
                Some(t) => types_of(results.take(k as int), t@),
                None => results.take(k as int),
            };
            if keep {
                assert(sel == prev.push(note@));
                assert(sel.map_values(|x: NoteMetadataView| result_line(x)) =~= prev.map_values(
                    |x: NoteMetadataView| result_line(x),
                ).push(result_line(note@)));
            } else {
                assert(sel == prev);
            }
        }
        k = k + 1;
    }
    assert(results.take(m as int) =~= results);
    assert(metadata::strs_view(lines@) == shown.map_values(|x: NoteMetadataView| result_line(x)));
    if count == 0 {
        let mut line = String::new();
        line.append("No results for \"");
        line.append(query);
        line.append("\"");
        let mut out: Vec<String> = Vec::new();
        out.push(line);
        assert(metadata::strs_view(out@) =~= search_lines(shown, query@));
        return out;
    }
    let mut last = decimal_string(count as u64);
    last.append(" result(s)");
    proof {
        metadata::lemma_strs_view_push(lines@, last);
    }
    lines.push(last);
    assert(metadata::strs_view(lines@) =~= search_lines(shown, query@));
    lines
}

// ----------------------------------------------------------------------
// Backlinks

/// Whether one of the links goes from the note `source` to the note
/// `target`.
pub open spec fn has_link(links: Seq<IndexLinkView>, source: Seq<char>, target: Seq<char>) -> bool {
    exists|k: int| 0 <= k < links.len() && #[trigger] links[k].source == source && links[k].target == target
}

/// The notes of the index that link to `id`, in index order, each once.
pub open spec fn backlink_notes(notes: Seq<NoteMetadataView>, links: Seq<IndexLinkView>, id: Seq<char>) -> Seq<
    NoteMetadataView,
>
    decreases notes.len(),
{
    if notes.len() == 0 {
        Seq::empty()
    } else {
        let rest = backlink_notes(notes.drop_last(), links, id);
        if has_link(links, notes.last().id, id) {
            rest.push(notes.last())
        } else {
            rest
        }
    }
}

/// The line of a note that links here: `  id — title (type)`.
pub open spec fn backlink_line(m: NoteMetadataView) -> Seq<char> {
    "  "@ + m.id + " — "@ + m.title + " ("@ + m.note_type + ")"@
}

/// The lines printed for the backlinks of `id`: a notice when no note links
/// to it, otherwise a heading and a line per note.
pub open spec fn backlink_lines(found: Seq<NoteMetadataView>, id: Seq<char>) -> Seq<Seq<char>> {
    if found.len() == 0 {
        seq!["No backlinks for \""@ + id + "\""@]
    } else {
        seq!["Backlinks for \""@ + id + "\":"@] + found.map_values(|m: NoteMetadataView| backlink_line(m))
    }
}

fn backlink_text(m: &NoteMetadata) -> (r: String)
    ensures
        r@ == backlink_line(m@),
{
    let mut r = String::new();
    r.append("  ");
    r.append(m.id.as_str());
    r.append(" — ");
    r.append(m.title.as_str());
    r.append(" (");
    r.append(m.note_type.as_str());
    r.append(")");
    assert(r@ =~= backlink_line(m@));
    r
}

/// Whether one of `links` goes from `source` to `target`.
fn links_from_to(links: &Vec<crate::index::IndexLink>, source: &str, target: &str) -> (res: bool)
    ensures
        res == has_link(crate::index::links_view(links@), source@, target@),
{
    let ghost lv = crate::index::links_view(links@);
    let n = links.len();
    let mut k: usize = 0;
    while k < n
        invariant
            n == links@.len(),
            lv == crate::index::links_view(links@),
            k <= n,
            forall|t: int| 0 <= t < k ==> !(#[trigger] lv[t].source == source@ && lv[t].target == target@),
        decreases n - k,
    {
        let l = &links[k];
        if crate::text::str_eq(l.source.as_str(), source) && crate::text::str_eq(l.target.as_str(), target) {
            assert(lv[k as int].source == source@ && lv[k as int].target == target@);
            return true;
        }
        k = k + 1;
    }
    false
}

/// The lines printed for the backlinks of `id`: the notes of the index with
/// a link to `id`, in index order.
pub fn backlinks_report(index: &NotesIndex, id: &str) -> (lines: Vec<String>)
    ensures
        metadata::strs_view(lines@) == backlink_lines(backlink_notes(index@.notes, index@.links, id@), id@),
{
    let ghost ix = index@;
    let n = index.notes.len();
    let mut body: Vec<String> = Vec::new();
    let mut i: usize = 0;
    while i < n
        invariant
            n == ix.notes.len(),
            ix == index@,
            i <= n,
            metadata::strs_view(body@) == backlink_notes(ix.notes.take(i as int), ix.links, id@).map_values(
                |m: NoteMetadataView| backlink_line(m),
            ),
        decreases n - i,
    {
        let m = &index.notes[i];
        assert(ix.notes[i as int] == m@);
        assert(ix.notes.take(i + 1).drop_last() =~= ix.notes.take(i as int));
        let ghost prev = backlink_notes(ix.notes.take(i as int), ix.links, id@);
        if links_from_to(&index.links, m.id.as_str(), id) {
            let line = backlink_text(m);
            proof {
                metadata::lemma_strs_view_push(body@, line);
            }
            body.push(line);
            assert(prev.push(m@).map_values(|x: NoteMetadataView| backlink_line(x)) =~= prev.map_values(
                |x: NoteMetadataView| backlink_line(x),
            ).push(line@));
        }
        i = i + 1;
    }
    assert(ix.notes.take(n as int) =~= ix.notes);
    let ghost found = backlink_notes(ix.notes, ix.links, id@);
    assert(body@.len() == found.len());
    let mut lines: Vec<String> = Vec::new();
    if body.len() == 0 {
        let mut line = String::new();
        line.append("No backlinks for \"");
        line.append(id);
        line.append("\"");
        lines.push(line);
        assert(metadata::strs_view(lines@) =~= backlink_lines(found, id@));
        return lines;
    }
    let mut head = String::new();
    head.append("Backlinks for \"");
    head.append(id);
    head.append("\":");
    lines.push(head);
    let ghost first = metadata::strs_view(lines@);
    let m = body.len();
    let mut k: usize = 0;
    while k < m
        invariant
            m == body@.len(),
            k <= m,
            metadata::strs_view(lines@) == first + metadata::strs_view(body@.take(k as int)),
        decreases m - k,
    {
        let line = body[k].clone();
        proof {
            metadata::lemma_strs_view_push(lines@, line);
        }
        lines.push(line);
        assert(metadata::strs_view(body@.take(k + 1)) =~= metadata::strs_view(body@.take(k as int)).push(
            body@[k as int]@,
        ));
        k = k + 1;
    }
    assert(body@.take(m as int) =~= body@);
    assert(metadata::strs_view(lines@) =~= backlink_lines(found, id@));
    lines
}

// ----------------------------------------------------------------------
// Graph

/// The line of a link: `  source -> target`.
pub open spec fn edge_line(l: IndexLinkView) -> Seq<char> {
    "  "@ + l.source + " -> "@ + l.target
}

/// The lines printed for the graph of the index: the numbers of notes and
/// links, then a line per link.
pub open spec fn graph_lines(ix: NotesIndexView) -> Seq<Seq<char>> {
    seq![
        "Graph: "@ + note::decimal(ix.notes.len()) + " nodes, "@ + note::decimal(ix.links.len())
            + " edges"@,
    ] + ix.links.map_values(|l: IndexLinkView| edge_line(l))
}

/// The lines printed for the graph of the index.
pub fn graph_report(index: &NotesIndex) -> (lines: Vec<String>)
    ensures
        metadata::strs_view(lines@) == graph_lines(index@),
{
    let ghost ix = index@;
    let mut head = String::new();
    head.append("Graph: ");
    let nodes = decimal_string(index.notes.len() as u64);
    head.append(nodes.as_str());
    head.append(" nodes, ");
    let edges = decimal_string(index.links.len() as u64);
    head.append(edges.as_str());
    head.append(" edges");
    let mut lines: Vec<String> = Vec::new();
    lines.push(head);
    let ghost first = metadata::strs_view(lines@);
    assert(first == seq![
        "Graph: "@ + note::decimal(ix.notes.len()) + " nodes, "@ + note::decimal(ix.links.len())
            + " edges"@,
    ]);
    let n = index.links.len();
    let mut k: usize = 0;
    assert(ix.links.take(0).map_values(|l: IndexLinkView| edge_line(l)) =~= Seq::<Seq<char>>::empty());
    assert(first + Seq::<Seq<char>>::empty() =~= first);
    while k < n
        invariant
            n == ix.links.len(),
            ix == index@,
            k <= n,
            metadata::strs_view(lines@) == first + ix.links.take(k as int).map_values(
                |l: IndexLinkView| edge_line(l),
            ),
        decreases n - k,
    {
        let l = &index.links[k];
        assert(ix.links[k as int] == l@);
        let mut line = String::new();
        line.append("  ");
        line.append(l.source.as_str());
        line.append(" -> ");
        line.append(l.target.as_str());
        assert(line@ =~= edge_line(l@));
        proof {
            metadata::lemma_strs_view_push(lines@, line);
        }
        lines.push(line);
        assert(ix.links.take(k + 1).map_values(|x: IndexLinkView| edge_line(x)) =~= ix.links.take(
            k as int,
        ).map_values(|x: IndexLinkView| edge_line(x)).push(line@));
        k = k + 1;
    }
    assert(ix.links.take(n as int) =~= ix.links);
    lines
}

} // verus!

verus! {

// ----------------------------------------------------------------------
// Laws of search and backlinks

/// Folding ASCII case is done character by character, so it distributes
/// over concatenation.
pub proof fn lemma_folded_add(a: Seq<char>, b: Seq<char>)
    ensures
        folded(a + b) == folded(a) + folded(b),
{
    assert(folded(a + b) =~= folded(a) + folded(b));
}

/// `q` occurs in any text that has it in the middle: `a + q + b`, whatever
/// `a` and `b` are.
pub proof fn lemma_contains_infix(a: Seq<char>, q: Seq<char>, b: Seq<char>)
    ensures
        contains_text(a + q + b, q),
{
    let s = a + q + b;
    assert(s.subrange(a.len() as int, (a.len() + q.len()) as int) =~= q);
}

/// A text that occurs in `s` occurs in any text that has `s` in the middle.
pub proof fn lemma_contains_within(x: Seq<char>, s: Seq<char>, y: Seq<char>, q: Seq<char>)
    requires
        contains_text(s, q),
    ensures
        contains_text(x + s + y, q),
{
    let i = choose|i: int| 0 <= i && i + q.len() <= s.len() && #[trigger] s.subrange(i, i + q.len()) == q;
    let t = x + s + y;
    assert(t.subrange(x.len() + i, x.len() + i + q.len()) =~= s.subrange(i, i + q.len()));
}

/// The query occurs in a text that has it in the middle, ASCII case aside.
pub proof fn lemma_occurs_in_infix(a: Seq<char>, q: Seq<char>, b: Seq<char>)
    ensures
        occurs_in(a + q + b, q),
{
    lemma_folded_add(a + q, b);
    lemma_folded_add(a, q);
    lemma_contains_infix(folded(a), folded(q), folded(b));
}

/// The search results keep every note that matches.
proof fn lemma_search_results_keep(notes: Seq<NoteMetadataView>, q: Seq<char>, j: int)
    requires
        0 <= j < notes.len(),
        matches_query(notes[j], q),
    ensures
        search_results(notes, q).contains(notes[j]),
    decreases notes.len(),
{
    let rest = search_results(notes.drop_last(), q);
    if j == notes.len() - 1 {
        assert(search_results(notes, q) == rest.push(notes[j]));
        assert(search_results(notes, q)[rest.len() as int] == notes[j]);
    } else {
        assert(notes.drop_last()[j] == notes[j]);
        lemma_search_results_keep(notes.drop_last(), q, j);
        let k = choose|k: int| 0 <= k < rest.len() && rest[k] == notes[j];
        if matches_query(notes.last(), q) {
            assert(search_results(notes, q)[k] == rest.push(notes.last())[k]);
        }
    }
}

/// A search finds every note in whose id, title or one of whose tags the
/// query occurs at any position: for a text `a + q + b` with the query `q`
/// anywhere in it, the note is among the results.
pub proof fn lemma_search_finds_any_occurrence(
    notes: Seq<NoteMetadataView>,
    q: Seq<char>,
    j: int,
    a: Seq<char>,
    b: Seq<char>,
)
    requires
        0 <= j < notes.len(),
        notes[j].id == a + q + b || notes[j].title == a + q + b || exists|k: int|
            0 <= k < notes[j].tags.len() && #[trigger] notes[j].tags[k] == a + q + b,
    ensures
        search_results(notes, q).contains(notes[j]),
{
    lemma_occurs_in_infix(a, q, b);
    if !(notes[j].id == a + q + b) && !(notes[j].title == a + q + b) {
        let k = choose|k: int| 0 <= k < notes[j].tags.len() && #[trigger] notes[j].tags[k] == a + q + b;
        assert(occurs_in(notes[j].tags[k], q));
    }
    lemma_search_results_keep(notes, q, j);
}

/// A search ignores the case of ASCII letters: a note whose id, title or tag
/// holds the query with its letters in any case is found.
pub proof fn lemma_search_ignores_ascii_case(
    notes: Seq<NoteMetadataView>,
    q: Seq<char>,
    r: Seq<char>,
    j: int,
)
    requires
        0 <= j < notes.len(),
        folded(q) == folded(r),
        search_results(notes, r).contains(notes[j]),
    ensures
        search_results(notes, q).contains(notes[j]),
{
    let k = choose|k: int| 0 <= k < search_results(notes, r).len() && search_results(notes, r)[k] == notes[j];
    lemma_search_results_match(notes, r, k);
    let m = search_results(notes, r)[k];
    assert(matches_query(m, r));
    assert(occurs_in(m.id, q) == occurs_in(m.id, r));
    assert(occurs_in(m.title, q) == occurs_in(m.title, r));
    assert forall|t: int| 0 <= t < m.tags.len() implies occurs_in(#[trigger] m.tags[t], q) == occurs_in(m.tags[t], r) by {}
    lemma_search_results_keep_note(notes, q, m);
}

/// Every search result is a note of the list that matches the query.
pub proof fn lemma_search_results_match(notes: Seq<NoteMetadataView>, q: Seq<char>, k: int)
    requires
        0 <= k < search_results(notes, q).len(),
    ensures
        matches_query(search_results(notes, q)[k], q),
        notes.contains(search_results(notes, q)[k]),
    decreases notes.len(),
{
    let rest = search_results(notes.drop_last(), q);
    if k < rest.len() {
        lemma_search_results_match(notes.drop_last(), q, k);
        let i = choose|i: int| 0 <= i < notes.drop_last().len() && notes.drop_last()[i] == rest[k];
        assert(notes[i] == notes.drop_last()[i]);
        if matches_query(notes.last(), q) {
            assert(search_results(notes, q)[k] == rest[k]);
        }
    } else {
        assert(search_results(notes, q)[k] == notes.last());
        assert(notes[notes.len() - 1] == notes.last());
    }
}

/// A note of the list that matches is among the results.
proof fn lemma_search_results_keep_note(notes: Seq<NoteMetadataView>, q: Seq<char>, m: NoteMetadataView)
    requires
        notes.contains(m),
        matches_query(m, q),
    ensures
        search_results(notes, q).contains(m),
{
    let j = choose|j: int| 0 <= j < notes.len() && notes[j] == m;
    lemma_search_results_keep(notes, q, j);
}

/// A link from the note `n` to `id`, at any position among the links, makes
/// `n` one of the backlinks of `id`.
pub proof fn lemma_backlinks_include_every_linking_note(
    notes: Seq<NoteMetadataView>,
    links: Seq<IndexLinkView>,
    id: Seq<char>,
    j: int,
    k: int,
)
    requires
        0 <= j < notes.len(),
        0 <= k < links.len(),
        links[k].source == notes[j].id,
        links[k].target == id,
    ensures
        backlink_notes(notes, links, id).contains(notes[j]),
    decreases notes.len(),
{
    assert(has_link(links, notes[j].id, id));
    let rest = backlink_notes(notes.drop_last(), links, id);
    if j == notes.len() - 1 {
        assert(backlink_notes(notes, links, id)[rest.len() as int] == notes[j]);
    } else {
        assert(notes.drop_last()[j] == notes[j]);
        lemma_backlinks_include_every_linking_note(notes.drop_last(), links, id, j, k);
        let i = choose|i: int| 0 <= i < rest.len() && rest[i] == notes[j];
        if has_link(links, notes.last().id, id) {
            assert(backlink_notes(notes, links, id)[i] == rest.push(notes.last())[i]);
        }
    }
}

/// Every backlink of `id` is a note of the index with a link to `id`.
pub proof fn lemma_backlinks_link_here(
    notes: Seq<NoteMetadataView>,
    links: Seq<IndexLinkView>,
    id: Seq<char>,
    i: int,
)
    requires
        0 <= i < backlink_notes(notes, links, id).len(),
    ensures
        notes.contains(backlink_notes(notes, links, id)[i]),
        exists|k: int|
            0 <= k < links.len() && #[trigger] links[k].source == backlink_notes(notes, links, id)[i].id
                && links[k].target == id,
    decreases notes.len(),
{
    let rest = backlink_notes(notes.drop_last(), links, id);
    if i < rest.len() {
        lemma_backlinks_link_here(notes.drop_last(), links, id, i);
        let t = choose|t: int| 0 <= t < notes.drop_last().len() && notes.drop_last()[t] == rest[i];
        assert(notes[t] == notes.drop_last()[t]);
        if has_link(links, notes.last().id, id) {
            assert(backlink_notes(notes, links, id)[i] == rest[i]);
        }
    } else {
        assert(backlink_notes(notes, links, id)[i] == notes.last());
        assert(notes[notes.len() - 1] == notes.last());
    }
}

} // verus!

