//! The table of notes that the command-line tool prints.

use vstd::prelude::*;

use crate::metadata::{self, NoteMetadata};
use crate::note::{self, decimal_string};

use vstd::utf8::{decode_utf8, encode_utf8, is_char_boundary};

verus! {

/// `s` cut short when its UTF-8 encoding is longer than `limit` bytes: its
/// first `keep` bytes followed by `...`.
pub open spec fn shortened(s: Seq<char>, limit: int, keep: int) -> Seq<char> {
    let b = encode_utf8(s);
    if b.len() > limit {
        decode_utf8(b.subrange(0, keep)) + "..."@
    } else {
        s
    }
}

/// Whether `s` can be cut short as [`shortened`] says: when it is too long,
/// byte `keep` must be a character boundary.
pub open spec fn can_shorten(s: Seq<char>, limit: int, keep: int) -> bool {
    encode_utf8(s).len() > limit ==> is_char_boundary(encode_utf8(s), keep)
}

/// `s` padded with spaces on the right to `width` characters.
pub open spec fn padded(s: Seq<char>, width: int) -> Seq<char> {
    if s.len() >= width {
        s
    } else {
        s + Seq::new((width - s.len()) as nat, |_i: int| ' ')
    }
}

/// The header line of the table.
pub open spec fn table_header() -> Seq<char> {
    padded("ID"@, 30) + " "@ + padded("TITLE"@, 25) + " "@ + padded("TYPE"@, 8) + " "@ + "TAGS"@
}

/// The line under the header: 80 dashes.
pub open spec fn table_rule() -> Seq<char> {
    Seq::new(80, |_i: int| '-')
}

/// The line of a note: id (cut at 25 bytes when longer than 28), title (cut
/// at 20 bytes when longer than 23) and type in padded columns, then the
/// tags joined by `, `.
pub open spec fn table_row(m: NoteMetadata) -> Seq<char> {
    padded(shortened(m.id@, 28, 25), 30) + " "@ + padded(shortened(m.title@, 23, 20), 25) + " "@
        + padded(m.note_type@, 8) + " "@ + note::join_with(metadata::strs_view(m.tags@), ", "@)
}

/// Whether the id and title of a note can be cut short for the table.
pub open spec fn fits_table(m: NoteMetadata) -> bool {
    can_shorten(m.id@, 28, 25) && can_shorten(m.title@, 23, 20)
}

/// The lines printed for a list of notes: a notice when there are none,
/// otherwise the header, the rule, a line per note, an empty line and the
/// count.
pub open spec fn table_lines(notes: Seq<NoteMetadata>) -> Seq<Seq<char>> {
    if notes.len() == 0 {
        seq!["No notes found."@]
    } else {
        seq![table_header(), table_rule()] + notes.map_values(|m: NoteMetadata| table_row(m)) + seq![
            Seq::empty(),
            note::decimal(notes.len()) + " note(s)"@,
        ]
    }
}

/// `s` cut short as [`shortened`] says.
fn shorten(s: &str, limit: usize, keep: usize) -> (r: String)
    requires
        can_shorten(s@, limit as int, keep as int),
    ensures
        r@ == shortened(s@, limit as int, keep as int),
{
    let byte_len = s.as_bytes().len();
    if byte_len > limit {
        let (head, _) = s.split_at(keep);
        proof {
            vstd::utf8::encode_utf8_decode_utf8(head@);
        }
        let mut r = head.to_owned();
        r.append("...");
        r
    } else {
        s.to_owned()
    }
}

/// `s` padded with spaces on the right to `width` characters.
fn pad(s: String, width: usize) -> (r: String)
    ensures
        r@ == padded(s@, width as int),
{
    let n = s.as_str().unicode_len();
    let ghost orig = s@;
    let mut r = s;
    let mut k = n;
    proof {
        reveal_strlit(" ");
    }
    assert(orig + Seq::new(0, |_i: int| ' ') =~= orig);
    while k < width
        invariant
            n == orig.len(),
            n <= k <= width || (n >= width && k == n),
            r@ == orig + Seq::new((k - n) as nat, |_i: int| ' '),
            " "@ == seq![' '],
        decreases width - k,
    {
        r.append(" ");
        assert(orig + Seq::new((k + 1 - n) as nat, |_i: int| ' ') =~= orig + Seq::new(
            (k - n) as nat,
            |_i: int| ' ',
        ) + seq![' ']);
        k = k + 1;
    }
    r
}

fn join3(a: String, b: String, c: String, last: &str) -> (r: String)
    ensures
        r@ == a@ + " "@ + b@ + " "@ + c@ + " "@ + last@,
{
    let mut r = a;
    r.append(" ");
    r.append(b.as_str());
    r.append(" ");
    r.append(c.as_str());
    r.append(" ");
    r.append(last);
    r
}

fn row(m: &NoteMetadata) -> (r: String)
    requires
        fits_table(*m),
    ensures
        r@ == table_row(*m),
{
    let id = pad(shorten(m.id.as_str(), 28, 25), 30);
    let title = pad(shorten(m.title.as_str(), 23, 20), 25);
    let kind = pad(m.note_type.clone(), 8);
    let tags = note::join_strings(&m.tags, ", ");
    join3(id, title, kind, tags.as_str())
}

/// The lines printed for a list of notes.
pub fn table_of_notes(notes: &Vec<NoteMetadata>) -> (lines: Vec<String>)
    requires
        forall|i: int| 0 <= i < notes@.len() ==> fits_table(#[trigger] notes@[i]),
    ensures
        metadata::strs_view(lines@) == table_lines(notes@),
{
    let mut lines: Vec<String> = Vec::new();
    if notes.len() == 0 {
        lines.push("No notes found.".to_owned());
        assert(metadata::strs_view(lines@) =~= table_lines(notes@));
        return lines;
    }
    let header = join3(
        pad("ID".to_owned(), 30),
        pad("TITLE".to_owned(), 25),
        pad("TYPE".to_owned(), 8),
        "TAGS",
    );
    lines.push(header);
    let mut rule = String::new();
    let mut k: usize = 0;
    proof {
        reveal_strlit("-");
    }
    while k < 80
        invariant
            k <= 80,
            rule@ == Seq::new(k as nat, |_i: int| '-'),
            "-"@ == seq!['-'],
        decreases 80 - k,
    {
        rule.append("-");
        k = k + 1;
        assert(rule@ =~= Seq::new(k as nat, |_i: int| '-'));
    }
    lines.push(rule);
    let ghost head = seq![table_header(), table_rule()];
    assert(metadata::strs_view(lines@) =~= head);
    let n = notes.len();
    let mut i: usize = 0;
    while i < n
        invariant
            n == notes@.len(),
            i <= n,
            forall|j: int| 0 <= j < notes@.len() ==> fits_table(#[trigger] notes@[j]),
            metadata::strs_view(lines@) == head + notes@.take(i as int).map_values(
                |m: NoteMetadata| table_row(m),
            ),
        decreases n - i,
    {
        let line = row(&notes[i]);
        proof {
            metadata::lemma_strs_view_push(lines@, line);
        }
        lines.push(line);
        assert(head + notes@.take(i + 1).map_values(|m: NoteMetadata| table_row(m)) =~= (head
            + notes@.take(i as int).map_values(|m: NoteMetadata| table_row(m))).push(line@));
        i = i + 1;
    }
    assert(notes@.take(n as int) =~= notes@);
    let blank = String::new();
    proof {
        metadata::lemma_strs_view_push(lines@, blank);
    }
    lines.push(blank);
    let mut count = decimal_string(n as u64);
    count.append(" note(s)");
    proof {
        metadata::lemma_strs_view_push(lines@, count);
    }
    lines.push(count);
    assert(metadata::strs_view(lines@) =~= table_lines(notes@));
    lines
}

/// The notes whose type is `t`, in order.
pub open spec fn of_type(notes: Seq<NoteMetadata>, t: Seq<char>) -> Seq<NoteMetadata>
    decreases notes.len(),
{
    if notes.len() == 0 {
        Seq::empty()
    } else {
        let rest = of_type(notes.drop_last(), t);
        if notes.last().note_type@ == t {
            rest.push(notes.last())
        } else {
            rest
        }
    }
}

/// The notes of the given type, in order; all of them when no type is given.
pub fn notes_of_type(notes: Vec<NoteMetadata>, note_type: Option<&str>) -> (res: Vec<NoteMetadata>)
    ensures
        res@ == match note_type {
            Some(t) => of_type(notes@, t@),
            None => notes@,
        },
{
    let t = match note_type {
        None => {
            return notes;
        },
        Some(t) => t,
    };
    let ghost all = notes@;
    let n = notes.len();
    let mut rest = notes;
    let mut reversed: Vec<NoteMetadata> = Vec::new();
    while rest.len() > 0
        invariant
            n == all.len(),
            rest@.len() + reversed@.len() == n,
            forall|j: int| 0 <= j < rest@.len() ==> rest@[j] == all[j],
            forall|j: int| 0 <= j < reversed@.len() ==> reversed@[j] == all[n - 1 - j],
        decreases rest.len(),
    {
        let m = rest.pop().unwrap();
        reversed.push(m);
    }
    let mut out: Vec<NoteMetadata> = Vec::new();
    assert(all.take(0) =~= Seq::<NoteMetadata>::empty());
    while reversed.len() > 0
        invariant
            n == all.len(),
            reversed@.len() <= n,
            forall|j: int| 0 <= j < reversed@.len() ==> reversed@[j] == all[n - 1 - j],
            out@ == of_type(all.take(n - reversed@.len()), t@),
        decreases reversed.len(),
    {
        let ghost k = n - reversed@.len();
        let m = reversed.pop().unwrap();
        assert(m == all[k]);
        assert(all.take(k + 1).drop_last() =~= all.take(k));
        if crate::text::str_eq(m.note_type.as_str(), t) {
            out.push(m);
        }
    }
    assert(all.take(n as int) =~= all);
    out
}

} // verus!
