//! The note-path registry: a text file with one note path per line, no header.
//!
//! Reading and writing the file is left to the caller; this module gives what
//! is read from a file's text and what text is written.

use vstd::prelude::*;

use crate::text::{self, chars_of, string_from_chars, trim_chars};

verus! {

/// The lines of `s`: the pieces between line feeds, in order. A text with `k`
/// line feeds has `k + 1` pieces.
pub open spec fn split_lines(s: Seq<char>) -> Seq<Seq<char>>
    decreases s.len(),
{
    if s.len() == 0 {
        seq![Seq::empty()]
    } else {
        let prev = split_lines(s.drop_last());
        if s.last() == '\n' {
            prev.push(Seq::empty())
        } else {
            prev.update(prev.len() - 1, prev.last().push(s.last()))
        }
    }
}

/// The lines trimmed of white space, with the empty ones left out.
pub open spec fn kept_entries(lines: Seq<Seq<char>>) -> Seq<Seq<char>>
    decreases lines.len(),
{
    if lines.len() == 0 {
        Seq::empty()
    } else {
        let rest = kept_entries(lines.drop_last());
        let t = text::trim(lines.last());
        if t.len() == 0 {
            rest
        } else {
            rest.push(t)
        }
    }
}

/// The note paths that a registry text holds: its lines, trimmed, without the
/// empty ones.
pub open spec fn registry_entries(content: Seq<char>) -> Seq<Seq<char>> {
    kept_entries(split_lines(content))
}

/// The entries joined with line feeds between them.
pub open spec fn join_lines(ps: Seq<Seq<char>>) -> Seq<char>
    decreases ps.len(),
{
    if ps.len() == 0 {
        Seq::empty()
    } else if ps.len() == 1 {
        ps[0]
    } else {
        join_lines(ps.drop_last()).push('\n') + ps.last()
    }
}

/// The registry text that holds `ps`: one per line, each line ended by a line
/// feed; the empty text when that would be empty.
pub open spec fn registry_text(ps: Seq<Seq<char>>) -> Seq<char> {
    let j = join_lines(ps);
    if j.len() == 0 {
        Seq::empty()
    } else {
        j.push('\n')
    }
}

/// `ps` without the entries equal to `p`.
pub open spec fn without(ps: Seq<Seq<char>>, p: Seq<char>) -> Seq<Seq<char>>
    decreases ps.len(),
{
    if ps.len() == 0 {
        Seq::empty()
    } else {
        let rest = without(ps.drop_last(), p);
        if ps.last() == p {
            rest
        } else {
            rest.push(ps.last())
        }
    }
}

/// The line that registers `p`.
pub open spec fn registry_line(p: Seq<char>) -> Seq<char> {
    p.push('\n')
}

fn finish_line(out: &mut Vec<String>, line: &Vec<char>)
    ensures
        crate::metadata::strs_view(final(out)@) == ({
            let t = text::trim(line@);
            if t.len() == 0 {
                crate::metadata::strs_view(old(out)@)
            } else {
                crate::metadata::strs_view(old(out)@).push(t)
            }
        }),
{
    let t = trim_chars(line);
    if t.len() > 0 {
        let s = string_from_chars(&t);
        proof {
            crate::metadata::lemma_strs_view_push(out@, s);
        }
        out.push(s);
    }
}

/// The note paths held by a registry text (the text of the registry file).
pub fn parse_note_paths(content: &str) -> (paths: Vec<String>)
    ensures
        crate::metadata::strs_view(paths@) == registry_entries(content@),
{
    let c = chars_of(content);
    let n = c.len();
    let mut out: Vec<String> = Vec::new();
    let mut line: Vec<char> = Vec::new();
    let ghost mut done: Seq<Seq<char>> = Seq::empty();
    let mut i: usize = 0;
    assert(c@.take(0) =~= Seq::<char>::empty());
    assert(split_lines(Seq::<char>::empty()) =~= done.push(line@));
    assert(crate::metadata::strs_view(out@) =~= Seq::<Seq<char>>::empty());
    while i < n
        invariant
            n == c@.len(),
            c@ == content@,
            i <= n,
            split_lines(c@.take(i as int)) == done.push(line@),
            crate::metadata::strs_view(out@) == kept_entries(done),
        decreases n - i,
    {
        let ch = c[i];
        assert(c@.take(i + 1).drop_last() =~= c@.take(i as int));
        if ch == '\n' {
            finish_line(&mut out, &line);
            proof {
                assert(done.push(line@).drop_last() =~= done);
                done = done.push(line@);
            }
            line = Vec::new();
            assert(split_lines(c@.take(i + 1)) =~= done.push(line@));
        } else {
            line.push(ch);
            assert(split_lines(c@.take(i + 1)) =~= done.push(line@));
        }
        i = i + 1;
    }
    finish_line(&mut out, &line);
    assert(c@.take(n as int) =~= c@);
    assert(done.push(line@).drop_last() =~= done);
    out
}

} // verus!

verus! {

/// The registry text holding `paths`, one per line.
pub fn render_note_paths(paths: &Vec<String>) -> (content: String)
    ensures
        content@ == registry_text(crate::metadata::strs_view(paths@)),
{
    let ghost ps = crate::metadata::strs_view(paths@);
    let mut s = String::new();
    let n = paths.len();
    let mut i: usize = 0;
    proof {
        reveal_strlit("\n");
    }
    assert(ps.take(0) =~= Seq::<Seq<char>>::empty());
    while i < n
        invariant
            n == paths@.len(),
            ps == crate::metadata::strs_view(paths@),
            i <= n,
            s@ == join_lines(ps.take(i as int)),
            "\n"@ == seq!['\n'],
        decreases n - i,
    {
        assert(ps.take(i + 1).drop_last() =~= ps.take(i as int));
        if i > 0 {
            s.append("\n");
        }
        s.append(paths[i].as_str());
        assert(ps.take(i + 1).last() == paths@[i as int]@);
        assert(s@ =~= join_lines(ps.take(i + 1)));
        i = i + 1;
    }
    assert(ps.take(n as int) =~= ps);
    if s.as_str().is_empty() {
        s
    } else {
        s.append("\n");
        s
    }
}

/// The line that registers `note_path`, to be appended to the registry file.
pub fn note_path_line(note_path: &str) -> (line: String)
    ensures
        line@ == registry_line(note_path@),
{
    let mut s = note_path.to_owned();
    proof {
        reveal_strlit("\n");
    }
    s.append("\n");
    s
}

/// `paths` without the ones equal to `p`.
pub fn without_path(paths: &Vec<String>, p: &str) -> (res: Vec<String>)
    ensures
        crate::metadata::strs_view(res@) == without(crate::metadata::strs_view(paths@), p@),
{
    let ghost ps = crate::metadata::strs_view(paths@);
    let mut out: Vec<String> = Vec::new();
    let n = paths.len();
    let mut i: usize = 0;
    assert(ps.take(0) =~= Seq::<Seq<char>>::empty());
    assert(crate::metadata::strs_view(out@) =~= Seq::<Seq<char>>::empty());
    while i < n
        invariant
            n == paths@.len(),
            ps == crate::metadata::strs_view(paths@),
            i <= n,
            crate::metadata::strs_view(out@) == without(ps.take(i as int), p@),
        decreases n - i,
    {
        assert(ps.take(i + 1).drop_last() =~= ps.take(i as int));
        assert(ps.take(i + 1).last() == paths@[i as int]@);
        if !crate::text::str_eq(paths[i].as_str(), p) {
            proof {
                crate::metadata::lemma_strs_view_push(out@, paths@[i as int]);
            }
            out.push(paths[i].clone());
        }
        i = i + 1;
    }
    assert(ps.take(n as int) =~= ps);
    out
}

/// The registry text after removing every line that holds `note_path`; the
/// other paths keep their order.
pub fn remove_note_path_text(content: &str, note_path: &str) -> (res: String)
    ensures
        res@ == registry_text(without(registry_entries(content@), note_path@)),
{
    let paths = parse_note_paths(content);
    let kept = without_path(&paths, note_path);
    render_note_paths(&kept)
}

} // verus!

verus! {

/// A path that the registry stores and gives back unchanged: not empty, with
/// no line feed, not starting or ending with white space.
pub open spec fn is_clean_path(p: Seq<char>) -> bool {
    &&& p.len() > 0
    &&& !p.contains('\n')
    &&& !text::is_white_space(p[0])
    &&& !text::is_white_space(p.last())
}

/// A registry text that is empty or ends with a line feed, as every text this
/// module writes does.
pub open spec fn is_well_terminated(c: Seq<char>) -> bool {
    c.len() == 0 || c.last() == '\n'
}

proof fn lemma_split_lines_len(s: Seq<char>)
    ensures
        split_lines(s).len() >= 1,
    decreases s.len(),
{
    if s.len() > 0 {
        lemma_split_lines_len(s.drop_last());
    }
}

proof fn lemma_split_lines_no_newline(s: Seq<char>)
    ensures
        forall|i: int| 0 <= i < split_lines(s).len() ==> !(#[trigger] split_lines(s)[i]).contains('\n'),
    decreases s.len(),
{
    if s.len() > 0 {
        lemma_split_lines_no_newline(s.drop_last());
        lemma_split_lines_len(s.drop_last());
        let prev = split_lines(s.drop_last());
        if s.last() != '\n' {
            assert forall|i: int| 0 <= i < split_lines(s).len() implies !(#[trigger] split_lines(s)[i]).contains('\n') by {
                if i == prev.len() - 1 {
                    let l = prev.last().push(s.last());
                    assert(split_lines(s)[i] == l);
                    if l.contains('\n') {
                        let j = choose|j: int| 0 <= j < l.len() && l[j] == '\n';
                        assert(prev.last()[j] == '\n');
                        assert(prev[prev.len() - 1].contains('\n'));
                    }
                } else {
                    assert(split_lines(s)[i] == prev[i]);
                }
            }
        } else {
            assert forall|i: int| 0 <= i < split_lines(s).len() implies !(#[trigger] split_lines(s)[i]).contains('\n') by {
                if i < prev.len() {
                    assert(split_lines(s)[i] == prev[i]);
                }
            }
        }
    }
}

proof fn lemma_split_lines_extend(c: Seq<char>, q: Seq<char>)
    requires
        !q.contains('\n'),
    ensures
        split_lines(c).len() >= 1,
        split_lines(c + q) == split_lines(c).update(
            split_lines(c).len() - 1,
            split_lines(c).last() + q,
        ),
    decreases q.len(),
{
    lemma_split_lines_len(c);
    let sc = split_lines(c);
    if q.len() == 0 {
        assert(c + q =~= c);
        assert(sc.last() + q =~= sc.last());
        assert(sc.update(sc.len() - 1, sc.last()) =~= sc);
    } else {
        let q0 = q.drop_last();
        assert(!q0.contains('\n')) by {
            if q0.contains('\n') {
                let j = choose|j: int| 0 <= j < q0.len() && q0[j] == '\n';
                assert(q[j] == '\n');
            }
        }
        lemma_split_lines_extend(c, q0);
        assert((c + q).drop_last() =~= c + q0);
        assert((c + q).last() == q.last());
        assert(q.last() != '\n') by {
            assert(q[q.len() - 1] == q.last());
        }
        assert(sc.last() + q0.push(q.last()) =~= sc.last() + q);
        assert(q0.push(q.last()) =~= q);
        assert(split_lines(c + q) =~= sc.update(sc.len() - 1, sc.last() + q));
    }
}

proof fn lemma_kept_entries_push_empty(lines: Seq<Seq<char>>)
    ensures
        kept_entries(lines.push(Seq::empty())) == kept_entries(lines),
{
    assert(lines.push(Seq::empty()).drop_last() =~= lines);
    assert(text::trim(Seq::<char>::empty()) =~= Seq::<char>::empty());
}

/// Appending the line of a clean path to a well-terminated registry text adds
/// exactly that path at the end of what the text holds, and leaves the text
/// well-terminated.
pub proof fn lemma_append_line(c: Seq<char>, p: Seq<char>)
    requires
        is_well_terminated(c),
        is_clean_path(p),
    ensures
        registry_entries(c + registry_line(p)) == registry_entries(c).push(p),
        is_well_terminated(c + registry_line(p)),
{
    lemma_split_lines_len(c);
    let sc = split_lines(c);
    assert(sc.last() =~= Seq::<char>::empty()) by {
        if c.len() > 0 {
            assert(c.last() == '\n');
        }
    }
    lemma_split_lines_extend(c, p);
    let s1 = split_lines(c + p);
    assert(sc.last() + p =~= p);
    assert(s1 =~= sc.drop_last().push(p));
    let full = c + registry_line(p);
    assert(full =~= (c + p).push('\n'));
    assert(full.drop_last() =~= c + p);
    assert(split_lines(full) == s1.push(Seq::empty()));
    lemma_kept_entries_push_empty(s1);
    text::lemma_trim_untouched(p);
    assert(s1.drop_last() =~= sc.drop_last());
    assert(sc =~= sc.drop_last().push(Seq::empty()));
    lemma_kept_entries_push_empty(sc.drop_last());
}

proof fn lemma_join_lines_nonempty(ps: Seq<Seq<char>>)
    requires
        ps.len() > 0,
        ps.last().len() > 0,
    ensures
        join_lines(ps).len() > 0,
{
}

/// Clean paths written as a registry text are read back unchanged, and the
/// text is well-terminated.
pub proof fn lemma_registry_text_roundtrip(ps: Seq<Seq<char>>)
    requires
        forall|i: int| 0 <= i < ps.len() ==> is_clean_path(#[trigger] ps[i]),
    ensures
        registry_entries(registry_text(ps)) == ps,
        is_well_terminated(registry_text(ps)),
    decreases ps.len(),
{
    if ps.len() == 0 {
        assert(split_lines(Seq::<char>::empty()) =~= seq![Seq::<char>::empty()]);
        assert(seq![Seq::<char>::empty()] =~= Seq::<Seq<char>>::empty().push(Seq::empty()));
        lemma_kept_entries_push_empty(Seq::<Seq<char>>::empty());
        assert(registry_entries(registry_text(ps)) =~= ps);
    } else {
        let prev = ps.drop_last();
        let p = ps.last();
        assert(is_clean_path(ps[ps.len() - 1]));
        lemma_registry_text_roundtrip(prev);
        if prev.len() == 0 {
            assert(registry_text(ps) =~= Seq::<char>::empty() + registry_line(p));
            assert(registry_text(prev) =~= Seq::<char>::empty());
        } else {
            lemma_join_lines_nonempty(prev);
            assert(prev.last() == ps[ps.len() - 2]);
            assert(registry_text(ps) =~= registry_text(prev) + registry_line(p));
        }
        lemma_append_line(registry_text(prev), p);
        assert(prev.push(p) =~= ps);
    }
}

/// Every path that a registry text holds is clean.
pub proof fn lemma_registry_entries_clean(c: Seq<char>)
    ensures
        forall|i: int|
            0 <= i < registry_entries(c).len() ==> is_clean_path(#[trigger] registry_entries(c)[i]),
{
    lemma_split_lines_no_newline(c);
    lemma_kept_entries_clean(split_lines(c));
}

proof fn lemma_kept_entries_clean(lines: Seq<Seq<char>>)
    requires
        forall|i: int| 0 <= i < lines.len() ==> !(#[trigger] lines[i]).contains('\n'),
    ensures
        forall|i: int|
            0 <= i < kept_entries(lines).len() ==> is_clean_path(#[trigger] kept_entries(lines)[i]),
    decreases lines.len(),
{
    if lines.len() > 0 {
        let l = lines.last();
        assert(lines.drop_last().len() < lines.len());
        assert forall|i: int| 0 <= i < lines.drop_last().len() implies !(
        #[trigger] lines.drop_last()[i]).contains('\n') by {
            assert(lines.drop_last()[i] == lines[i]);
        }
        lemma_kept_entries_clean(lines.drop_last());
        text::lemma_trim(l);
        let t = text::trim(l);
        if t.len() > 0 {
            assert(!t.contains('\n')) by {
                let (a, b) = choose|a: int, b: int| 0 <= a <= b <= l.len() && t == l.subrange(a, b);
                if t.contains('\n') {
                    let j = choose|j: int| 0 <= j < t.len() && t[j] == '\n';
                    assert(l[a + j] == '\n');
                    assert(lines[lines.len() - 1] == l);
                }
            }
            assert(is_clean_path(t));
        }
        let rest = kept_entries(lines.drop_last());
        assert forall|i: int| 0 <= i < kept_entries(lines).len() implies is_clean_path(
            #[trigger] kept_entries(lines)[i],
        ) by {
            if i < rest.len() {
                assert(kept_entries(lines)[i] == rest[i]);
            }
        }
    }
}

proof fn lemma_without_keeps(ps: Seq<Seq<char>>, p: Seq<char>)
    ensures
        forall|i: int| 0 <= i < without(ps, p).len() ==> ps.contains(#[trigger] without(ps, p)[i]),
        !without(ps, p).contains(p),
    decreases ps.len(),
{
    if ps.len() > 0 {
        lemma_without_keeps(ps.drop_last(), p);
        let rest = without(ps.drop_last(), p);
        assert forall|i: int| 0 <= i < without(ps, p).len() implies ps.contains(#[trigger] without(ps, p)[i]) by {
            if i < rest.len() {
                let j = choose|j: int| 0 <= j < ps.drop_last().len() && ps.drop_last()[j] == rest[i];
                assert(ps[j] == rest[i]);
            } else {
                assert(ps[ps.len() - 1] == ps.last());
            }
        }
        if without(ps, p).contains(p) {
            let j = choose|j: int| 0 <= j < without(ps, p).len() && without(ps, p)[j] == p;
            if j < rest.len() {
                assert(rest[j] == p);
            }
        }
    }
}

/// After removing a path, the registry text holds the paths it held before,
/// in order, without that path.
pub proof fn lemma_remove_path(c: Seq<char>, p: Seq<char>)
    ensures
        registry_entries(registry_text(without(registry_entries(c), p))) == without(
            registry_entries(c),
            p,
        ),
        !registry_entries(registry_text(without(registry_entries(c), p))).contains(p),
        is_well_terminated(registry_text(without(registry_entries(c), p))),
{
    let es = registry_entries(c);
    lemma_registry_entries_clean(c);
    lemma_without_keeps(es, p);
    let w = without(es, p);
    assert forall|i: int| 0 <= i < w.len() implies is_clean_path(#[trigger] w[i]) by {
        let j = choose|j: int| 0 <= j < es.len() && es[j] == w[i];
        assert(is_clean_path(es[j]));
    }
    lemma_registry_text_roundtrip(w);
}

} // verus!

verus! {

proof fn lemma_without_absent(ps: Seq<Seq<char>>, p: Seq<char>)
    requires
        !ps.contains(p),
    ensures
        without(ps, p) == ps,
    decreases ps.len(),
{
    if ps.len() > 0 {
        assert(!ps.drop_last().contains(p)) by {
            if ps.drop_last().contains(p) {
                let k = choose|k: int| 0 <= k < ps.drop_last().len() && ps.drop_last()[k] == p;
                assert(ps[k] == p);
            }
        }
        lemma_without_absent(ps.drop_last(), p);
        assert(ps.last() != p) by {
            assert(ps[ps.len() - 1] == ps.last());
        }
        assert(ps.drop_last().push(ps.last()) =~= ps);
    }
}

/// Removing a path that the registry does not hold leaves what it holds
/// unchanged.
pub proof fn lemma_remove_absent_path(c: Seq<char>, p: Seq<char>)
    requires
        !registry_entries(c).contains(p),
    ensures
        registry_entries(registry_text(without(registry_entries(c), p))) == registry_entries(c),
{
    lemma_without_absent(registry_entries(c), p);
    lemma_remove_path(c, p);
}

} // verus!
