//! Creating notes: ids, file paths, file contents and metadata.

use vstd::prelude::*;

use crate::error::NotesError;
use crate::metadata::{self, ExtraFields, JsonValue, JsonView, NoteMetadata};
use crate::text::{contains_string, string_from_chars};

verus! {

// ----------------------------------------------------------------------
// Note paths and decimal numbers
// ----------------------------------------------------------------------

/// The path, relative to the vault root, of the note file with id `id`.
pub open spec fn note_path_of(id: Seq<char>) -> Seq<char> {
    "notes/"@ + id + ".typ"@
}

/// The path of the note file with id `id`: `notes/{id}.typ`.
pub fn id_to_path(id: &str) -> (path: String)
    ensures
        path@ == note_path_of(id@),
{
    let mut s = String::new();
    s.append("notes/");
    s.append(id);
    s.append(".typ");
    assert(s@ =~= note_path_of(id@));
    s
}

/// The file to delete for the note with id `id`: its note file, when
/// `file_exists` says that file is there under the vault root; otherwise the
/// note is not found and nothing is deleted.
pub fn note_to_delete(id: &str, file_exists: bool) -> (res: Result<String, NotesError>)
    ensures
        file_exists ==> (res matches Ok(p) && p@ == note_path_of(id@)),
        !file_exists ==> (res matches Err(NotesError::NoteNotFound(i)) && i@ == id@),
{
    if file_exists {
        Ok(id_to_path(id))
    } else {
        Err(NotesError::NoteNotFound(id.to_owned()))
    }
}

/// The decimal digit `d`.
pub open spec fn digit_char(d: nat) -> char {
    if d == 0 {
        '0'
    } else if d == 1 {
        '1'
    } else if d == 2 {
        '2'
    } else if d == 3 {
        '3'
    } else if d == 4 {
        '4'
    } else if d == 5 {
        '5'
    } else if d == 6 {
        '6'
    } else if d == 7 {
        '7'
    } else if d == 8 {
        '8'
    } else {
        '9'
    }
}

/// `n` written in decimal, without leading zeros.
pub open spec fn decimal(n: nat) -> Seq<char>
    decreases n,
{
    if n < 10 {
        seq![digit_char(n)]
    } else {
        decimal(n / 10).push(digit_char(n % 10))
    }
}

fn digit(d: u64) -> (c: char)
    requires
        d < 10,
    ensures
        c == digit_char(d as nat),
{
    if d == 0 {
        '0'
    } else if d == 1 {
        '1'
    } else if d == 2 {
        '2'
    } else if d == 3 {
        '3'
    } else if d == 4 {
        '4'
    } else if d == 5 {
        '5'
    } else if d == 6 {
        '6'
    } else if d == 7 {
        '7'
    } else if d == 8 {
        '8'
    } else {
        '9'
    }
}

fn decimal_chars(n: u64) -> (v: Vec<char>)
    ensures
        v@ == decimal(n as nat),
    decreases n,
{
    if n < 10 {
        let mut v: Vec<char> = Vec::new();
        v.push(digit(n));
        assert(v@ =~= decimal(n as nat));
        v
    } else {
        let mut v = decimal_chars(n / 10);
        v.push(digit(n % 10));
        v
    }
}

/// `n` written in decimal.
pub fn decimal_string(n: u64) -> (s: String)
    ensures
        s@ == decimal(n as nat),
{
    let v = decimal_chars(n);
    string_from_chars(&v)
}

// ----------------------------------------------------------------------
// Note ids
// ----------------------------------------------------------------------

/// The slug that `slug::slugify` makes of a text.
pub uninterp spec fn slug_of(s: Seq<char>) -> Seq<char>;

/// What `slug::slugify` documents of every slug: it consists of `a`-`z`,
/// `0`-`9` and `-`, never has two `-` in a row, and neither starts nor ends
/// with `-`.
pub open spec fn is_slug(s: Seq<char>) -> bool {
    &&& forall|i: int|
        0 <= i < s.len() ==> {
            let c = #[trigger] s[i];
            ('a' <= c && c <= 'z') || ('0' <= c && c <= '9') || c == '-'
        }
    &&& forall|i: int| 0 <= i < s.len() - 1 ==> !(#[trigger] s[i] == '-' && s[i + 1] == '-')
    &&& s.len() > 0 ==> s[0] != '-' && s.last() != '-'
}

/// Turns a title into a slug with `slug::slugify`. The slug is named (it is a
/// function of the title alone); of it the contract states only what the
/// crate documents: which characters it holds and where dashes may stand.
#[verifier::external_body]
fn slugify(title: &str) -> (s: String)
    ensures
        s@ == slug_of(title@),
        is_slug(s@),
{
    slug::slugify(title)
}

/// The id `base-i`.
pub open spec fn id_candidate(base: Seq<char>, i: nat) -> Seq<char> {
    base + "-"@ + decimal(i)
}

/// Whether the note file of `id` is among the registered paths.
pub open spec fn id_taken(existing: Seq<Seq<char>>, id: Seq<char>) -> bool {
    existing.contains(note_path_of(id))
}

/// The first suffix from `i` up to 999 whose candidate id is free.
pub open spec fn first_free_suffix(base: Seq<char>, existing: Seq<Seq<char>>, i: nat) -> Option<nat>
    decreases 1000 - i,
{
    if i >= 1000 {
        None
    } else if !id_taken(existing, id_candidate(base, i)) {
        Some(i)
    } else {
        first_free_suffix(base, existing, i + 1)
    }
}

/// The id chosen for a note whose slug is `base`: `base` itself when its file
/// is not registered yet, otherwise `base-i` for the least free `i` from 2 to
/// 999; `None` when all of them are taken.
pub open spec fn unique_id_of(base: Seq<char>, existing: Seq<Seq<char>>) -> Option<Seq<char>> {
    if !id_taken(existing, base) {
        Some(base)
    } else {
        match first_free_suffix(base, existing, 2) {
            Some(i) => Some(id_candidate(base, i)),
            None => None,
        }
    }
}

/// The id for a note whose slug is `base`, given the registered paths: `base`
/// when free, else the first free `base-i` for `i` from 2 to 999. The note
/// file of the id is never among the registered paths.
pub fn unique_id(base: &str, existing: &Vec<String>) -> (res: Result<String, NotesError>)
    ensures
        match res {
            Ok(id) => {
                &&& unique_id_of(base@, metadata::strs_view(existing@)) == Some(id@)
                &&& !metadata::strs_view(existing@).contains(note_path_of(id@))
            },
            Err(e) => {
                &&& unique_id_of(base@, metadata::strs_view(existing@)) is None
                &&& e matches NotesError::DuplicateId(b) && b@ == base@
            },
        },
{
    let ghost es = metadata::strs_view(existing@);
    let path = id_to_path(base);
    if !contains_string(existing, &path) {
        return Ok(base.to_owned());
    }
    let mut i: u32 = 2;
    while i < 1000
        invariant
            2 <= i <= 1000,
            es == metadata::strs_view(existing@),
            id_taken(es, base@),
            first_free_suffix(base@, es, 2) == first_free_suffix(base@, es, i as nat),
        decreases 1000 - i,
    {
        let mut candidate = base.to_owned();
        candidate.append("-");
        let digits = decimal_string(i as u64);
        candidate.append(digits.as_str());
        assert(candidate@ =~= id_candidate(base@, i as nat));
        let path = id_to_path(candidate.as_str());
        if !contains_string(existing, &path) {
            return Ok(candidate);
        }
        i = i + 1;
    }
    Err(NotesError::DuplicateId(base.to_owned()))
}

/// The id that a note titled `title` gets: its slug, made unique against the
/// registered paths as [`unique_id`] does.
pub fn generate_id(title: &str, existing: &Vec<String>) -> (res: Result<String, NotesError>)
    ensures
        match res {
            Ok(id) => {
                &&& unique_id_of(slug_of(title@), metadata::strs_view(existing@)) == Some(id@)
                &&& !metadata::strs_view(existing@).contains(note_path_of(id@))
            },
            Err(e) => {
                &&& unique_id_of(slug_of(title@), metadata::strs_view(existing@)) is None
                &&& e matches NotesError::DuplicateId(b) && b@ == slug_of(title@)
            },
        },
{
    let base = slugify(title);
    unique_id(base.as_str(), existing)
}

} // verus!

verus! {

// ----------------------------------------------------------------------
// Note contents
// ----------------------------------------------------------------------

/// The parts joined with `sep` between them.
pub open spec fn join_with(parts: Seq<Seq<char>>, sep: Seq<char>) -> Seq<char>
    decreases parts.len(),
{
    if parts.len() == 0 {
        Seq::empty()
    } else if parts.len() == 1 {
        parts[0]
    } else {
        join_with(parts.drop_last(), sep) + sep + parts.last()
    }
}

/// `s` in double quotes.
pub open spec fn quoted(s: Seq<char>) -> Seq<char> {
    "\""@ + s + "\""@
}

/// The views of a slice of strings.
pub open spec fn str_slice_view(v: Seq<&str>) -> Seq<Seq<char>> {
    v.map_values(|s: &str| s@)
}

/// The argument line `  key: "value"`.
pub open spec fn field_line(key: Seq<char>, value: Seq<char>) -> Seq<char> {
    "  "@ + key + ": "@ + quoted(value)
}

/// The argument lines of the extra fields, in order.
pub open spec fn extra_lines(fields: Seq<(&str, &str)>) -> Seq<Seq<char>> {
    fields.map_values(|f: (&str, &str)| field_line(f.0@, f.1@))
}

/// The argument line of the tags: `  tags: ("a", "b")`. A single tag is
/// written `("a",)`, with the comma that makes it an array and not a
/// parenthesised string.
pub open spec fn tags_line(tags: Seq<Seq<char>>) -> Seq<char> {
    "  tags: ("@ + join_with(tags.map_values(|t: Seq<char>| quoted(t)), ", "@) + if tags.len() == 1 {
        ",)"@
    } else {
        ")"@
    }
}

/// The arguments of the note constructor, one line each: id and title, the
/// parent when there is one, the tags when there are any, then the extra
/// fields.
pub open spec fn constructor_lines(
    id: Seq<char>,
    title: Seq<char>,
    parent: Option<Seq<char>>,
    tags: Seq<Seq<char>>,
    extra: Seq<(&str, &str)>,
) -> Seq<Seq<char>> {
    let head = seq![field_line("id"@, id), field_line("title"@, title)];
    let with_parent = match parent {
        Some(p) => head.push(field_line("parent"@, p)),
        None => head,
    };
    let with_tags = if tags.len() > 0 {
        with_parent.push(tags_line(tags))
    } else {
        with_parent
    };
    with_tags + extra_lines(extra)
}

/// The text of a new note file: the vault import, a show rule with the
/// note constructor, and a heading with the title.
pub open spec fn note_content(
    id: Seq<char>,
    title: Seq<char>,
    note_type: Seq<char>,
    parent: Option<Seq<char>>,
    tags: Seq<Seq<char>>,
    extra: Seq<(&str, &str)>,
) -> Seq<char> {
    "#import \"../vault.typ\": *\n\n#show: "@ + note_type + ".with(\n"@ + join_with(
        constructor_lines(id, title, parent, tags, extra),
        ",\n"@,
    ) + ",\n)\n\n= "@ + title + "\n\n"@
}

/// The strings joined with `sep` between them.
pub fn join_strings(parts: &Vec<String>, sep: &str) -> (res: String)
    ensures
        res@ == join_with(metadata::strs_view(parts@), sep@),
{
    let ghost ps = metadata::strs_view(parts@);
    let mut s = String::new();
    let n = parts.len();
    let mut i: usize = 0;
    assert(ps.take(0) =~= Seq::<Seq<char>>::empty());
    while i < n
        invariant
            n == parts@.len(),
            ps == metadata::strs_view(parts@),
            i <= n,
            s@ == join_with(ps.take(i as int), sep@),
        decreases n - i,
    {
        assert(ps.take(i + 1).drop_last() =~= ps.take(i as int));
        assert(ps.take(i + 1).last() == parts@[i as int]@);
        if i > 0 {
            s.append(sep);
        }
        s.append(parts[i].as_str());
        assert(s@ =~= join_with(ps.take(i + 1), sep@));
        i = i + 1;
    }
    assert(ps.take(n as int) =~= ps);
    s
}

/// `s` in double quotes.
fn quote(s: &str) -> (res: String)
    ensures
        res@ == quoted(s@),
{
    let mut r = String::new();
    r.append("\"");
    r.append(s);
    r.append("\"");
    assert(r@ =~= quoted(s@));
    r
}

/// The argument line `  key: "value"`.
fn field_arg(key: &str, value: &str) -> (res: String)
    ensures
        res@ == field_line(key@, value@),
{
    let mut r = String::new();
    r.append("  ");
    r.append(key);
    r.append(": ");
    let q = quote(value);
    r.append(q.as_str());
    assert(r@ =~= field_line(key@, value@));
    r
}

/// The text of a new note file with the given metadata.
pub fn generate_note_content(
    id: &str,
    title: &str,
    note_type: &str,
    parent: Option<&str>,
    tags: &[&str],
    extra_fields: &[(&str, &str)],
) -> (content: String)
    ensures
        content@ == note_content(
            id@,
            title@,
            note_type@,
            match parent {
                Some(p) => Some(p@),
                None => None,
            },
            str_slice_view(tags@),
            extra_fields@,
        ),
{
    let ghost pv = match parent {
        Some(p) => Some(p@),
        None => None::<Seq<char>>,
    };
    let ghost tv = str_slice_view(tags@);
    let mut args: Vec<String> = Vec::new();
    args.push(field_arg("id", id));
    args.push(field_arg("title", title));
    let ghost head = seq![field_line("id"@, id@), field_line("title"@, title@)];
    assert(metadata::strs_view(args@) =~= head);
    if let Some(p) = parent {
        let line = field_arg("parent", p);
        proof {
            metadata::lemma_strs_view_push(args@, line);
        }
        args.push(line);
    }
    let ghost with_parent = metadata::strs_view(args@);
    if tags.len() > 0 {
        let mut quoted_tags: Vec<String> = Vec::new();
        let n = tags.len();
        let mut i: usize = 0;
        assert(metadata::strs_view(quoted_tags@) =~= tv.take(0).map_values(|t: Seq<char>| quoted(t)));
        while i < n
            invariant
                n == tags@.len(),
                tv == str_slice_view(tags@),
                i <= n,
                metadata::strs_view(quoted_tags@) == tv.take(i as int).map_values(
                    |t: Seq<char>| quoted(t),
                ),
            decreases n - i,
        {
            let q = quote(tags[i]);
            proof {
                metadata::lemma_strs_view_push(quoted_tags@, q);
            }
            quoted_tags.push(q);
            assert(metadata::strs_view(quoted_tags@) =~= tv.take(i + 1).map_values(
                |t: Seq<char>| quoted(t),
            ));
            i = i + 1;
        }
        assert(tv.take(n as int) =~= tv);
        let mut line = String::new();
        line.append("  tags: (");
        let joined = join_strings(&quoted_tags, ", ");
        line.append(joined.as_str());
        if n == 1 {
            line.append(",)");
        } else {
            line.append(")");
        }
        assert(line@ =~= tags_line(tv));
        proof {
            metadata::lemma_strs_view_push(args@, line);
        }
        args.push(line);
    }
    let ghost with_tags = metadata::strs_view(args@);
    assert(with_tags == (if tv.len() > 0 {
        with_parent.push(tags_line(tv))
    } else {
        with_parent
    }));
    let n = extra_fields.len();
    let mut i: usize = 0;
    assert(with_tags + extra_lines(extra_fields@.take(0)) =~= with_tags);
    while i < n
        invariant
            n == extra_fields@.len(),
            i <= n,
            metadata::strs_view(args@) == with_tags + extra_lines(extra_fields@.take(i as int)),
        decreases n - i,
    {
        let (k, v) = extra_fields[i];
        let line = field_arg(k, v);
        proof {
            metadata::lemma_strs_view_push(args@, line);
        }
        args.push(line);
        assert(extra_fields@.take(i + 1) =~= extra_fields@.take(i as int).push(extra_fields@[i as int]));
        assert(with_tags + extra_lines(extra_fields@.take(i + 1)) =~= (with_tags + extra_lines(
            extra_fields@.take(i as int),
        )).push(line@));
        i = i + 1;
    }
    assert(extra_fields@.take(n as int) =~= extra_fields@);
    assert(metadata::strs_view(args@) == constructor_lines(id@, title@, pv, tv, extra_fields@));
    let body = join_strings(&args, ",\n");
    let mut content = String::new();
    content.append("#import \"../vault.typ\": *\n\n#show: ");
    content.append(note_type);
    content.append(".with(\n");
    content.append(body.as_str());
    content.append(",\n)\n\n= ");
    content.append(title);
    content.append("\n\n");
    assert(content@ =~= note_content(id@, title@, note_type@, pv, tv, extra_fields@));
    content
}

} // verus!

verus! {

// ----------------------------------------------------------------------
// Note metadata
// ----------------------------------------------------------------------

/// Extra fields given as (name, text) pairs, set one after the other.
pub open spec fn text_fields(fields: Seq<(&str, &str)>) -> metadata::FieldsView
    decreases fields.len(),
{
    if fields.len() == 0 {
        Seq::empty()
    } else {
        metadata::insert_field(
            text_fields(fields.drop_last()),
            fields.last().0@,
            JsonView::Str(fields.last().1@),
        )
    }
}

/// The view of an optional string slice.
pub open spec fn opt_str_slice_view(o: Option<&str>) -> Option<Seq<char>> {
    match o {
        Some(s) => Some(s@),
        None => None,
    }
}

/// The metadata of a new note with id `id`, created at `created`: its file is
/// `notes/{id}.typ` and each extra field holds its text.
pub open spec fn new_note_view(
    id: Seq<char>,
    title: Seq<char>,
    note_type: Seq<char>,
    parent: Option<Seq<char>>,
    tags: Seq<Seq<char>>,
    extra: Seq<(&str, &str)>,
    created: Option<Seq<char>>,
) -> metadata::NoteMetadataView {
    metadata::NoteMetadataView {
        id,
        title,
        note_type,
        parent,
        tags,
        created,
        path: note_path_of(id),
        extra: text_fields(extra),
    }
}

/// The strings of a slice, owned.
fn owned_strings(v: &[&str]) -> (res: Vec<String>)
    ensures
        metadata::strs_view(res@) == str_slice_view(v@),
{
    let mut out: Vec<String> = Vec::new();
    let n = v.len();
    let mut i: usize = 0;
    while i < n
        invariant
            n == v@.len(),
            i <= n,
            metadata::strs_view(out@) == str_slice_view(v@.take(i as int)),
        decreases n - i,
    {
        let s = v[i].to_owned();
        proof {
            metadata::lemma_strs_view_push(out@, s);
        }
        out.push(s);
        assert(str_slice_view(v@.take(i + 1)) =~= str_slice_view(v@.take(i as int)).push(v@[i as int]@));
        i = i + 1;
    }
    assert(v@.take(n as int) =~= v@);
    out
}

/// The metadata of a new note with id `id`, created at `created`.
pub fn note_metadata(
    id: String,
    title: &str,
    note_type: &str,
    parent: Option<&str>,
    tags: &[&str],
    extra_fields: &[(&str, &str)],
    created: Option<String>,
) -> (m: NoteMetadata)
    ensures
        m@ == new_note_view(
            id@,
            title@,
            note_type@,
            opt_str_slice_view(parent),
            str_slice_view(tags@),
            extra_fields@,
            metadata::opt_str_view(created),
        ),
{
    let path = id_to_path(id.as_str());
    let mut extra = ExtraFields::new();
    let n = extra_fields.len();
    let mut i: usize = 0;
    assert(extra_fields@.take(0) =~= Seq::<(&str, &str)>::empty());
    while i < n
        invariant
            n == extra_fields@.len(),
            i <= n,
            extra@ == text_fields(extra_fields@.take(i as int)),
        decreases n - i,
    {
        let (k, v) = extra_fields[i];
        assert(extra_fields@.take(i + 1).drop_last() =~= extra_fields@.take(i as int));
        extra.insert(k.to_owned(), JsonValue::Str(v.to_owned()));
        i = i + 1;
    }
    assert(extra_fields@.take(n as int) =~= extra_fields@);
    let parent = match parent {
        Some(p) => Some(p.to_owned()),
        None => None,
    };
    NoteMetadata {
        id,
        title: title.to_owned(),
        note_type: note_type.to_owned(),
        parent,
        tags: owned_strings(tags),
        created,
        path,
        extra,
    }
}

/// Whether every character of `s` is an ASCII digit.
pub open spec fn all_digits(s: Seq<char>) -> bool {
    forall|i: int| 0 <= i < s.len() ==> '0' <= #[trigger] s[i] <= '9'
}

/// The year of an RFC 3339 time: four digits, or a sign and at least four
/// digits for a year outside 0 to 9999.
pub open spec fn rfc3339_year(y: Seq<char>) -> bool {
    ||| y.len() == 4 && all_digits(y)
    ||| y.len() >= 5 && (y[0] == '+' || y[0] == '-') && all_digits(y.drop_first())
}

/// `-MM-DDTHH:MM:SS`: the part of an RFC 3339 time between the year and the
/// fraction of a second.
pub open spec fn rfc3339_clock(c: Seq<char>) -> bool {
    &&& c.len() == 15
    &&& c[0] == '-' && c[3] == '-' && c[6] == 'T' && c[9] == ':' && c[12] == ':'
    &&& all_digits(c.subrange(1, 3)) && all_digits(c.subrange(4, 6))
    &&& all_digits(c.subrange(7, 9)) && all_digits(c.subrange(10, 12)) && all_digits(c.subrange(13, 15))
}

/// The fraction of a second: none, or a point and three, six or nine digits.
pub open spec fn rfc3339_fraction(f: Seq<char>) -> bool {
    ||| f.len() == 0
    ||| (f.len() == 4 || f.len() == 7 || f.len() == 10) && f[0] == '.' && all_digits(f.drop_first())
}

/// Whether `s` is an RFC 3339 time in UTC as chrono writes it:
/// `YYYY-MM-DDTHH:MM:SS`, an optional fraction of a second, and `+00:00`.
pub open spec fn is_rfc3339_utc(s: Seq<char>) -> bool {
    exists|y: Seq<char>, c: Seq<char>, f: Seq<char>|
        #![trigger rfc3339_year(y), rfc3339_clock(c), rfc3339_fraction(f)]
        {
            &&& rfc3339_year(y)
            &&& rfc3339_clock(c)
            &&& rfc3339_fraction(f)
            &&& s == y + c + f + seq!['+', '0', '0', ':', '0', '0']
        }
}

/// The current time in RFC 3339 form: the clock's time since the Unix epoch
/// (`std::time::SystemTime::now` and `duration_since`), made a UTC time by
/// `chrono::DateTime::from_timestamp` and written by its `to_rfc3339`.
/// `None` when the clock reads before the epoch or the time is out of
/// chrono's range. Which time it is depends on the clock and is not claimed;
/// its form is chrono's `write_rfc3339` for the UTC offset: date, `T`, time,
/// the fraction of a second when it is not zero, and `+00:00`.
#[verifier::external_body]
fn now_rfc3339() -> (s: Option<String>)
    ensures
        match s {
            Some(t) => is_rfc3339_utc(t@),
            None => true,
        },
{
    let since = std::time::SystemTime::now().duration_since(std::time::UNIX_EPOCH).ok()?;
    let secs = i64::try_from(since.as_secs()).ok()?;
    let time = chrono::DateTime::from_timestamp(secs, since.subsec_nanos())?;
    Some(time.to_rfc3339())
}

/// A note ready to be written: its metadata (with its file path) and the text
/// of its file.
#[derive(Debug)]
pub struct NewNote {
    pub metadata: NoteMetadata,
    pub content: String,
}

/// The id of a new note: the one given, or one generated from the title.
pub open spec fn chosen_id(
    title: Seq<char>,
    id: Option<Seq<char>>,
    existing: Seq<Seq<char>>,
) -> Option<Seq<char>> {
    match id {
        Some(i) => Some(i),
        None => unique_id_of(slug_of(title), existing),
    }
}

/// Prepares a new note: picks its id (the given one, or a unique one derived
/// from the title against the registered paths), writes its file text and
/// its metadata, stamped with the current time in RFC 3339 form; when the
/// clock reads before the Unix epoch the note is left without a time.
pub fn prepare_new_note(
    title: &str,
    note_type: &str,
    id: Option<&str>,
    parent: Option<&str>,
    tags: &[&str],
    extra_fields: &[(&str, &str)],
    existing: &Vec<String>,
) -> (res: Result<NewNote, NotesError>)
    ensures
        match res {
            Ok(note) => {
                &&& chosen_id(title@, opt_str_slice_view(id), metadata::strs_view(existing@)) == Some(
                    note.metadata.id@,
                )
                &&& note.content@ == note_content(
                    note.metadata.id@,
                    title@,
                    note_type@,
                    opt_str_slice_view(parent),
                    str_slice_view(tags@),
                    extra_fields@,
                )
                &&& (note.metadata.created matches Some(c) ==> is_rfc3339_utc(c@))
                &&& note.metadata@ == new_note_view(
                    note.metadata.id@,
                    title@,
                    note_type@,
                    opt_str_slice_view(parent),
                    str_slice_view(tags@),
                    extra_fields@,
                    note.metadata@.created,
                )
            },
            Err(e) => {
                &&& chosen_id(title@, opt_str_slice_view(id), metadata::strs_view(existing@)) is None
                &&& e matches NotesError::DuplicateId(b) && b@ == slug_of(title@)
            },
        },
{
    let note_id = match id {
        Some(i) => i.to_owned(),
        None => generate_id(title, existing)?,
    };
    let content = generate_note_content(note_id.as_str(), title, note_type, parent, tags, extra_fields);
    let created = now_rfc3339();
    let metadata = note_metadata(note_id, title, note_type, parent, tags, extra_fields, created);
    Ok(NewNote { metadata, content })
}

} // verus!

verus! {

// ----------------------------------------------------------------------
// Registering generated notes
// ----------------------------------------------------------------------

proof fn lemma_decimal_digits(n: nat)
    ensures
        forall|i: int| 0 <= i < decimal(n).len() ==> '0' <= #[trigger] decimal(n)[i] <= '9',
    decreases n,
{
    if n >= 10 {
        lemma_decimal_digits(n / 10);
        assert forall|i: int| 0 <= i < decimal(n).len() implies '0' <= #[trigger] decimal(n)[i] <= '9' by {
            if i < decimal(n / 10).len() {
                assert(decimal(n)[i] == decimal(n / 10)[i]);
            }
        }
    }
}

/// The note file of an id made of slug characters (lower-case letters,
/// digits, dashes) is a path that the registry stores and reads back as it is.
pub proof fn lemma_slug_id_path_clean(id: Seq<char>)
    requires
        forall|i: int|
            0 <= i < id.len() ==> {
                let c = #[trigger] id[i];
                ('a' <= c && c <= 'z') || ('0' <= c && c <= '9') || c == '-'
            },
    ensures
        crate::registry::is_clean_path(note_path_of(id)),
{
    reveal_strlit("notes/");
    reveal_strlit(".typ");
    let p = note_path_of(id);
    assert(p[0] == 'n');
    assert(p.last() == 'p');
    assert(!p.contains('\n')) by {
        if p.contains('\n') {
            let j = choose|j: int| 0 <= j < p.len() && p[j] == '\n';
            if 6 <= j < 6 + id.len() {
                assert(id[j - 6] == '\n');
            }
        }
    }
}

/// A note whose id was generated from a slug can be registered: appending its
/// path to a well-terminated registry text adds exactly that path at the end
/// of what the registry holds.
pub proof fn lemma_generated_note_registers(
    c: Seq<char>,
    base: Seq<char>,
    existing: Seq<Seq<char>>,
)
    requires
        is_slug(base),
        unique_id_of(base, existing) is Some,
        crate::registry::is_well_terminated(c),
    ensures
        ({
            let path = note_path_of(unique_id_of(base, existing)->0);
            crate::registry::registry_entries(c + crate::registry::registry_line(path))
                == crate::registry::registry_entries(c).push(path)
        }),
{
    let id = unique_id_of(base, existing)->0;
    if id_taken(existing, base) {
        let i = first_free_suffix(base, existing, 2)->0;
        lemma_decimal_digits(i);
        reveal_strlit("-");
        assert(id == base + "-"@ + decimal(i));
        assert forall|k: int| 0 <= k < id.len() implies {
            let ch = #[trigger] id[k];
            ('a' <= ch && ch <= 'z') || ('0' <= ch && ch <= '9') || ch == '-'
        } by {
            if k < base.len() {
                assert(id[k] == base[k]);
            } else if k == base.len() {
                assert(id[k] == '-');
            } else {
                assert(id[k] == decimal(i)[k - base.len() - 1]);
            }
        }
    }
    lemma_slug_id_path_clean(id);
    crate::registry::lemma_append_line(c, note_path_of(id));
}

} // verus!

verus! {

// ----------------------------------------------------------------------
// Laws of the note text

/// The number of argument lines before the extra fields: id and title, the
/// parent when there is one, the tags when there are any.
pub open spec fn leading_lines(parent: Option<Seq<char>>, tags: Seq<Seq<char>>) -> int {
    2 + (if parent is Some { 1int } else { 0int }) + (if tags.len() > 0 { 1int } else { 0int })
}

/// Every extra field of a new note gets an argument line of its own, in the
/// order given, after the id, title, parent and tags lines: there are as
/// many lines as those and the extra fields together, and the line of the
/// `i`-th field is `  key: "value"` for that field.
pub proof fn lemma_every_extra_field_has_its_line(
    id: Seq<char>,
    title: Seq<char>,
    parent: Option<Seq<char>>,
    tags: Seq<Seq<char>>,
    extra: Seq<(&str, &str)>,
)
    ensures
        constructor_lines(id, title, parent, tags, extra).len() == leading_lines(parent, tags) + extra.len(),
        forall|i: int|
            0 <= i < extra.len() ==> #[trigger] constructor_lines(id, title, parent, tags, extra)[leading_lines(
                parent,
                tags,
            ) + i] == field_line(extra[i].0@, extra[i].1@),
{
}

/// A part joined with others, followed by the separator, holds that part
/// followed by the separator.
proof fn lemma_joined_part(parts: Seq<Seq<char>>, sep: Seq<char>, i: int)
    requires
        0 <= i < parts.len(),
    ensures
        crate::query::contains_text(join_with(parts, sep) + sep, parts[i] + sep),
    decreases parts.len(),
{
    let n = parts.len() as int;
    let e = Seq::<char>::empty();
    if i == n - 1 {
        if n == 1 {
            assert(join_with(parts, sep) + sep =~= e + (parts[i] + sep) + e);
            crate::query::lemma_contains_infix(e, parts[i] + sep, e);
        } else {
            let front = join_with(parts.drop_last(), sep) + sep;
            assert(join_with(parts, sep) + sep =~= front + (parts[i] + sep) + e);
            crate::query::lemma_contains_infix(front, parts[i] + sep, e);
        }
    } else {
        assert(parts.drop_last()[i] == parts[i]);
        lemma_joined_part(parts.drop_last(), sep, i);
        let inner = join_with(parts.drop_last(), sep) + sep;
        assert(join_with(parts, sep) + sep =~= e + inner + (parts.last() + sep));
        crate::query::lemma_contains_within(e, inner, parts.last() + sep, parts[i] + sep);
    }
}

/// The text of a new note holds the line `  key: "value"` of each extra field
/// given, ended by a comma and a line break.
pub proof fn lemma_note_text_holds_every_extra_field(
    id: Seq<char>,
    title: Seq<char>,
    note_type: Seq<char>,
    parent: Option<Seq<char>>,
    tags: Seq<Seq<char>>,
    extra: Seq<(&str, &str)>,
    i: int,
)
    requires
        0 <= i < extra.len(),
    ensures
        crate::query::contains_text(
            note_content(id, title, note_type, parent, tags, extra),
            field_line(extra[i].0@, extra[i].1@) + ",\n"@,
        ),
{
    let lines = constructor_lines(id, title, parent, tags, extra);
    lemma_every_extra_field_has_its_line(id, title, parent, tags, extra);
    let at = leading_lines(parent, tags) + i;
    assert(lines[at] == field_line(extra[i].0@, extra[i].1@));
    lemma_joined_part(lines, ",\n"@, at);
    reveal_strlit(",\n");
    reveal_strlit(",\n)\n\n= ");
    reveal_strlit(")\n\n= ");
    assert(",\n)\n\n= "@ =~= ",\n"@ + ")\n\n= "@);
    let head = "#import \"../vault.typ\": *\n\n#show: "@ + note_type + ".with(\n"@;
    let tail = ")\n\n= "@ + title + "\n\n"@;
    assert(note_content(id, title, note_type, parent, tags, extra) =~= head + (join_with(lines, ",\n"@)
        + ",\n"@) + tail);
    crate::query::lemma_contains_within(head, join_with(lines, ",\n"@) + ",\n"@, tail, lines[at] + ",\n"@);
}

} // verus!

