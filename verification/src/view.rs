//! Presentation of records: which fields are secret, filtering and finding
//! records, and the texts of the list and of one record.
use crate::record::{
    as_map, has_key, record_type_name, FieldValue, FieldValueView, Record, RecordModel,
};
use crate::text::{
    concat_str, decimal_seq, decimal_string, has_prefix, hex_seq, join_seq, pad_right_seq,
    push_joined, push_padded, starts_with, str_eq, string_views, trim, trim_end, trim_end_seq,
    trim_seq,
};
use vstd::prelude::*;
use vstd::utf8::encode_utf8;

verus! {

/// Whether a field of a record type holds a secret: only the password of a login.
pub open spec fn secret_field(record_type: Seq<char>, field: Seq<char>) -> bool {
    record_type == "login"@ && field == "password"@
}

/// Whether a field of a record type holds a secret, that is, must not be shown in
/// a list: only the password of a login.
pub fn is_secret_field(record_type: &str, field: &str) -> (r: bool)
    ensures
        r == secret_field(record_type@, field@),
{
    str_eq(record_type, "login") && str_eq(field, "password")
}

/// The text of a field value: a text as it is, a number in decimal, bytes as
/// their count.
pub open spec fn value_text(v: FieldValueView) -> Seq<char> {
    match v {
        FieldValueView::Text(s) => s,
        FieldValueView::Uint(n) => decimal_seq(n as nat),
        FieldValueView::Bytes(b) => "<"@ + decimal_seq(b.len()) + " bajtow>"@,
    }
}

fn value_to_string(v: &FieldValue) -> (r: String)
    ensures
        r@ == value_text(v@),
{
    match v {
        FieldValue::Text(s) => s.clone(),
        FieldValue::Uint(n) => decimal_string(*n),
        FieldValue::Bytes(b) => {
            let n = decimal_string(b.len() as u64);
            let head = concat_str("<", n.as_str());
            concat_str(head.as_str(), " bajtow>")
        },
    }
}

// ─── Filtering and finding ──────────────────────────────────────────────────

/// Whether a record passes the filters: its type name is the type filter, and one
/// of its tags is the tag filter; a missing filter lets every record pass.
pub open spec fn passes_filters(m: RecordModel, type_filter: Option<Seq<char>>, tag_filter: Option<Seq<char>>) -> bool {
    &&& (type_filter matches Some(t) ==> record_type_name(m.rtype) == t)
    &&& (tag_filter matches Some(tag) ==> m.tags.contains(tag))
}

/// The contents of a list of records.
pub open spec fn record_models(v: Seq<Record>) -> Seq<RecordModel> {
    Seq::new(v.len(), |i: int| v[i]@)
}

/// The contents of a list of references to records.
pub open spec fn ref_models(v: Seq<&Record>) -> Seq<RecordModel> {
    Seq::new(v.len(), |i: int| v[i]@)
}

/// The spec's view of an optional `&str`.
pub open spec fn opt_str(o: Option<&str>) -> Option<Seq<char>> {
    match o {
        Some(s) => Some(s@),
        None => None,
    }
}

fn has_tag(tags: &Vec<String>, tag: &str) -> (r: bool)
    ensures
        r == string_views(tags@).contains(tag@),
{
    let mut i: usize = 0;
    while i < tags.len()
        invariant
            i <= tags@.len(),
            forall|j: int| 0 <= j < i ==> tags@[j]@ != tag@,
        decreases tags@.len() - i,
    {
        if str_eq(tags[i].as_str(), tag) {
            assert(string_views(tags@)[i as int] == tag@);
            return true;
        }
        i = i + 1;
    }
    proof {
        if string_views(tags@).contains(tag@) {
            let k = choose|k: int| 0 <= k < string_views(tags@).len() && string_views(tags@)[k] == tag@;
            assert(tags@[k]@ == tag@);
        }
    }
    false
}

fn passes(r: &Record, type_filter: Option<&str>, tag_filter: Option<&str>) -> (b: bool)
    ensures
        b == passes_filters(r@, opt_str(type_filter), opt_str(tag_filter)),
{
    let type_ok = match type_filter {
        Some(t) => str_eq(r.rtype.as_str(), t),
        None => true,
    };
    let tag_ok = match tag_filter {
        Some(tag) => has_tag(&r.tags, tag),
        None => true,
    };
    type_ok && tag_ok
}

/// The records that pass the type and tag filters, in their order.
pub fn filter<'a>(records: &'a [Record], type_filter: Option<&str>, tag_filter: Option<&str>) -> (r: Vec<&'a Record>)
    ensures
        ref_models(r@) == record_models(records@).filter(|m: RecordModel| passes_filters(m, opt_str(type_filter), opt_str(tag_filter))),
{
    let ghost pred = |m: RecordModel| passes_filters(m, opt_str(type_filter), opt_str(tag_filter));
    let ghost ms = record_models(records@);
    let mut out: Vec<&'a Record> = Vec::new();
    let mut i: usize = 0;
    proof {
        reveal(Seq::filter);
        assert(ms.subrange(0, 0).filter(pred) =~= Seq::<RecordModel>::empty());
        assert(ref_models(out@) =~= Seq::<RecordModel>::empty());
    }
    while i < records.len()
        invariant
            i <= records@.len(),
            ms == record_models(records@),
            pred == (|m: RecordModel| passes_filters(m, opt_str(type_filter), opt_str(tag_filter))),
            ref_models(out@) == ms.subrange(0, i as int).filter(pred),
        decreases records@.len() - i,
    {
        let ok = passes(&records[i], type_filter, tag_filter);
        proof {
            reveal(Seq::filter);
            let next = ms.subrange(0, i + 1);
            assert(next.drop_last() =~= ms.subrange(0, i as int));
            assert(next.last() == records@[i as int]@);
        }
        if ok {
            let ghost before = out@;
            out.push(&records[i]);
            proof {
                assert(ref_models(out@) =~= ref_models(before).push(records@[i as int]@));
            }
        }
        i = i + 1;
    }
    proof {
        assert(ms.subrange(0, records@.len() as int) =~= ms);
    }
    out
}

/// Whether a record answers a query (already trimmed): its hexadecimal id begins
/// with a non-empty query, or its title is the query.
pub open spec fn answers(m: RecordModel, q: Seq<char>) -> bool {
    (q.len() > 0 && has_prefix(hex_seq(m.id), q)) || m.title == q
}

/// The first record that answers the query, after white space is trimmed from it.
pub fn find<'a>(records: &'a [Record], query: &str) -> (r: Option<&'a Record>)
    ensures
        match r {
            Some(x) => exists|i: int| 0 <= i < records@.len() && x@ == records@[i]@ && answers(records@[i]@, trim_seq(query@)) && forall|j: int| 0 <= j < i ==> !answers(#[trigger] records@[j]@, trim_seq(query@)),
            None => forall|j: int| 0 <= j < records@.len() ==> !answers(#[trigger] records@[j]@, trim_seq(query@)),
        },
{
    let q = trim(query);
    let q_empty = q.unicode_len() == 0;
    let mut i: usize = 0;
    while i < records.len()
        invariant
            i <= records@.len(),
            q@ == trim_seq(query@),
            q_empty == (q@.len() == 0),
            forall|j: int| 0 <= j < i ==> !answers(#[trigger] records@[j]@, q@),
        decreases records@.len() - i,
    {
        let rec = &records[i];
        let hex = rec.id_hex();
        let hit = (!q_empty && starts_with(hex.as_str(), q.as_str())) || str_eq(rec.title.as_str(), q.as_str());
        if hit {
            return Some(rec);
        }
        i = i + 1;
    }
    None
}

// ─── The list ───────────────────────────────────────────────────────────────

/// The number of bytes of a text in UTF-8, by which the list sets its columns.
pub open spec fn byte_len(s: Seq<char>) -> nat {
    encode_utf8(s).len()
}

/// The widest type name of the records, in bytes, and at least 3 (`TYP`).
pub open spec fn type_width(ms: Seq<RecordModel>) -> nat
    decreases ms.len(),
{
    if ms.len() == 0 {
        3
    } else {
        let w = type_width(ms.drop_last());
        let x = byte_len(record_type_name(ms.last().rtype));
        if x > w { x } else { w }
    }
}

/// The widest title of the records, in bytes, and at least 5 (`TYTUL`).
pub open spec fn title_width(ms: Seq<RecordModel>) -> nat
    decreases ms.len(),
{
    if ms.len() == 0 {
        5
    } else {
        let w = title_width(ms.drop_last());
        let x = byte_len(ms.last().title);
        if x > w { x } else { w }
    }
}

/// One line of the list: the four columns separated by two spaces.
pub open spec fn list_line(id: Seq<char>, typ: Seq<char>, title: Seq<char>, tags: Seq<char>, tw: nat, ttw: nat) -> Seq<char> {
    pad_right_seq(id, 8) + "  "@ + pad_right_seq(typ, tw) + "  "@ + pad_right_seq(title, ttw) + "  "@ + tags + "\n"@
}

/// The line of a record: the first 8 hexadecimal digits of its id, its type, its
/// title and its tags joined by `, `. No field value appears.
pub open spec fn record_line(m: RecordModel, tw: nat, ttw: nat) -> Seq<char> {
    list_line(hex_seq(m.id).subrange(0, 8), record_type_name(m.rtype), m.title, join_seq(m.tags, ", "@), tw, ttw)
}

/// The lines of the records.
pub open spec fn record_lines(ms: Seq<RecordModel>, tw: nat, ttw: nat) -> Seq<char>
    decreases ms.len(),
{
    if ms.len() == 0 {
        Seq::empty()
    } else {
        record_lines(ms.drop_last(), tw, ttw) + record_line(ms.last(), tw, ttw)
    }
}

/// The text of the list: `Brak rekordow.` for no records, else a header line and a
/// line per record, without the trailing white space.
pub open spec fn list_text(ms: Seq<RecordModel>) -> Seq<char> {
    if ms.len() == 0 {
        "Brak rekordow."@
    } else {
        let tw = type_width(ms);
        let ttw = title_width(ms);
        trim_end_seq(list_line("ID"@, "TYP"@, "TYTUL"@, "TAGI"@, tw, ttw) + record_lines(ms, tw, ttw))
    }
}

/// Law: the line of a record begins with the first 8 hexadecimal digits of its id
/// and ends its line; the list is the header line followed by these lines in the
/// order of the records (`record_lines`), without the trailing white space.
pub proof fn lemma_record_line_shape(m: RecordModel, tw: nat, ttw: nat)
    requires
        m.id.len() == 16,
    ensures
        record_line(m, tw, ttw).subrange(0, 8) == hex_seq(m.id).subrange(0, 8),
        record_line(m, tw, ttw).last() == '\n',
{
    lemma_hex_len(m.id);
    let id8 = hex_seq(m.id).subrange(0, 8);
    assert(pad_right_seq(id8, 8) == id8);
    let l = record_line(m, tw, ttw);
    assert(l.subrange(0, 8) =~= id8);
    reveal_strlit("\n");
    let pre = pad_right_seq(id8, 8) + "  "@ + pad_right_seq(record_type_name(m.rtype), tw) + "  "@
        + pad_right_seq(m.title, ttw) + "  "@ + join_seq(m.tags, ", "@);
    assert(l == pre + "\n"@);
    assert(l.last() == "\n"@[0]);
}

/// Two records that differ at most in their fields.
pub open spec fn same_metadata(a: RecordModel, b: RecordModel) -> bool {
    a.id == b.id && a.rtype == b.rtype && a.title == b.title && a.tags == b.tags
}

/// Law: the list shows no field value. Two lists of records that differ only in
/// the fields (passwords and the like) of their records give the same text.
pub proof fn lemma_list_ignores_fields(a: Seq<RecordModel>, b: Seq<RecordModel>)
    requires
        a.len() == b.len(),
        forall|i: int| 0 <= i < a.len() ==> same_metadata(#[trigger] a[i], b[i]),
    ensures
        list_text(a) == list_text(b),
{
    lemma_widths_ignore_fields(a, b);
    lemma_lines_ignore_fields(a, b, type_width(a), title_width(a));
}

proof fn lemma_widths_ignore_fields(a: Seq<RecordModel>, b: Seq<RecordModel>)
    requires
        a.len() == b.len(),
        forall|i: int| 0 <= i < a.len() ==> same_metadata(#[trigger] a[i], b[i]),
    ensures
        type_width(a) == type_width(b),
        title_width(a) == title_width(b),
    decreases a.len(),
{
    if a.len() > 0 {
        let (x, y) = (a.drop_last(), b.drop_last());
        assert forall|i: int| 0 <= i < x.len() implies same_metadata(#[trigger] x[i], y[i]) by {
            assert(x[i] == a[i] && y[i] == b[i]);
        }
        lemma_widths_ignore_fields(x, y);
        assert(same_metadata(a[a.len() - 1], b[b.len() - 1]));
    }
}

proof fn lemma_lines_ignore_fields(a: Seq<RecordModel>, b: Seq<RecordModel>, tw: nat, ttw: nat)
    requires
        a.len() == b.len(),
        forall|i: int| 0 <= i < a.len() ==> same_metadata(#[trigger] a[i], b[i]),
    ensures
        record_lines(a, tw, ttw) == record_lines(b, tw, ttw),
    decreases a.len(),
{
    if a.len() > 0 {
        let (x, y) = (a.drop_last(), b.drop_last());
        assert forall|i: int| 0 <= i < x.len() implies same_metadata(#[trigger] x[i], y[i]) by {
            assert(x[i] == a[i] && y[i] == b[i]);
        }
        lemma_lines_ignore_fields(x, y, tw, ttw);
        assert(same_metadata(a[a.len() - 1], b[b.len() - 1]));
    }
}

fn push_list_line(out: &mut String, id: &str, typ: &str, title: &str, tags: &str, tw: usize, ttw: usize)
    ensures
        final(out)@ == old(out)@ + list_line(id@, typ@, title@, tags@, tw as nat, ttw as nat),
{
    push_padded(out, id, 8);
    out.append("  ");
    push_padded(out, typ, tw);
    out.append("  ");
    push_padded(out, title, ttw);
    out.append("  ");
    out.append(tags);
    out.append("\n");
    assert(out@ =~= old(out)@ + list_line(id@, typ@, title@, tags@, tw as nat, ttw as nat));
}

/// The list of records without secrets: id, type, title and tags, in columns.
pub fn format_list(records: &[Record]) -> (r: String)
    ensures
        r@ == list_text(record_models(records@)),
{
    let ghost ms = record_models(records@);
    if records.len() == 0 {
        return "Brak rekordow.".to_owned();
    }
    let mut tw: usize = 3;
    let mut ttw: usize = 5;
    let mut i: usize = 0;
    while i < records.len()
        invariant
            i <= records@.len(),
            ms == record_models(records@),
            tw == type_width(ms.subrange(0, i as int)),
            ttw == title_width(ms.subrange(0, i as int)),
        decreases records@.len() - i,
    {
        let x = records[i].rtype.as_str().as_bytes().len();
        let y = records[i].title.as_str().as_bytes().len();
        proof {
            let next = ms.subrange(0, i + 1);
            assert(next.drop_last() =~= ms.subrange(0, i as int));
            assert(next.last() == records@[i as int]@);
        }
        if x > tw {
            tw = x;
        }
        if y > ttw {
            ttw = y;
        }
        i = i + 1;
    }
    proof {
        assert(ms.subrange(0, records@.len() as int) =~= ms);
    }
    let mut out = String::new();
    push_list_line(&mut out, "ID", "TYP", "TYTUL", "TAGI", tw, ttw);
    let ghost head = out@;
    let mut k: usize = 0;
    while k < records.len()
        invariant
            k <= records@.len(),
            ms == record_models(records@),
            tw == type_width(ms),
            ttw == title_width(ms),
            out@ == head + record_lines(ms.subrange(0, k as int), tw as nat, ttw as nat),
        decreases records@.len() - k,
    {
        let rec = &records[k];
        let hex = rec.id_hex();
        proof {
            lemma_hex_len(rec.id@);
        }
        let short = hex.as_str().substring_char(0, 8);
        let mut tags = String::new();
        push_joined(&mut tags, &rec.tags, ", ");
        proof {
            assert(tags@ =~= join_seq(string_views(rec.tags@), ", "@));
        }
        push_list_line(&mut out, short, rec.rtype.as_str(), rec.title.as_str(), tags.as_str(), tw, ttw);
        proof {
            let next = ms.subrange(0, k + 1);
            assert(next.drop_last() =~= ms.subrange(0, k as int));
            assert(next.last() == records@[k as int]@);
            assert(short@ =~= hex_seq(rec.id@).subrange(0, 8));
        }
        k = k + 1;
    }
    proof {
        assert(ms.subrange(0, records@.len() as int) =~= ms);
    }
    trim_end(out.as_str())
}

proof fn lemma_hex_len(bytes: Seq<u8>)
    ensures
        hex_seq(bytes).len() == 2 * bytes.len(),
    decreases bytes.len(),
{
    if bytes.len() > 0 {
        lemma_hex_len(bytes.drop_last());
    }
}

// ─── One record ─────────────────────────────────────────────────────────────

/// The lines of the fields: `  name: value`, in key order.
pub open spec fn field_lines(fs: Seq<(Seq<char>, FieldValueView)>) -> Seq<char>
    decreases fs.len(),
{
    if fs.len() == 0 {
        Seq::empty()
    } else {
        field_lines(fs.drop_last()) + "  "@ + fs.last().0 + ": "@ + value_text(fs.last().1) + "\n"@
    }
}

/// The text of one record with all its fields, secrets included, without the
/// trailing white space. Tags and notes get a line only when there are some.
pub open spec fn detail_text(m: RecordModel) -> Seq<char> {
    trim_end_seq(
        "ID:      "@ + hex_seq(m.id) + "\n"@
            + "Typ:     "@ + record_type_name(m.rtype) + "\n"@
            + "Tytul:   "@ + m.title + "\n"@
            + (if m.tags.len() > 0 { "Tagi:    "@ + join_seq(m.tags, ", "@) + "\n"@ } else { Seq::empty() })
            + (if m.notes.len() > 0 { "Notatki: "@ + m.notes + "\n"@ } else { Seq::empty() })
            + "Pola:\n"@
            + field_lines(m.fields),
    )
}

/// The whole record as text, field values included.
pub fn format_detail(record: &Record) -> (r: String)
    ensures
        r@ == detail_text(record@),
{
    let mut out = String::new();
    out.append("ID:      ");
    let hex = record.id_hex();
    out.append(hex.as_str());
    out.append("\n");
    out.append("Typ:     ");
    out.append(record.rtype.as_str());
    out.append("\n");
    out.append("Tytul:   ");
    out.append(record.title.as_str());
    out.append("\n");
    let ghost m = record@;
    let ghost start = out@;
    if record.tags.len() > 0 {
        out.append("Tagi:    ");
        push_joined(&mut out, &record.tags, ", ");
        out.append("\n");
    }
    let ghost with_tags = out@;
    if record.notes.unicode_len() > 0 {
        out.append("Notatki: ");
        out.append(record.notes.as_str());
        out.append("\n");
    }
    let ghost with_notes = out@;
    out.append("Pola:\n");
    let ghost head = out@;
    let entries = record.fields.entries();
    let mut i: usize = 0;
    while i < entries.len()
        invariant
            i <= entries@.len(),
            entries@.len() == m.fields.len(),
            crate::record::entries_view(entries@) == m.fields,
            out@ == head + field_lines(m.fields.subrange(0, i as int)),
        decreases entries@.len() - i,
    {
        out.append("  ");
        out.append(entries[i].0.as_str());
        out.append(": ");
        let v = value_to_string(&entries[i].1);
        out.append(v.as_str());
        out.append("\n");
        proof {
            let next = m.fields.subrange(0, i + 1);
            assert(next.drop_last() =~= m.fields.subrange(0, i as int));
            assert(next.last() == m.fields[i as int]);
        }
        i = i + 1;
    }
    proof {
        assert(m.fields.subrange(0, m.fields.len() as int) =~= m.fields);
        assert(m.tags == string_views(record.tags@));
        if m.tags.len() > 0 {
            assert(with_tags =~= start + ("Tagi:    "@ + join_seq(m.tags, ", "@) + "\n"@));
        } else {
            assert(with_tags =~= start + Seq::<char>::empty());
        }
        if m.notes.len() > 0 {
            assert(with_notes =~= with_tags + ("Notatki: "@ + m.notes + "\n"@));
        } else {
            assert(with_notes =~= with_tags + Seq::<char>::empty());
        }
        assert(out@ =~= "ID:      "@ + hex_seq(m.id) + "\n"@
            + "Typ:     "@ + record_type_name(m.rtype) + "\n"@
            + "Tytul:   "@ + m.title + "\n"@
            + (if m.tags.len() > 0 { "Tagi:    "@ + join_seq(m.tags, ", "@) + "\n"@ } else { Seq::empty() })
            + (if m.notes.len() > 0 { "Notatki: "@ + m.notes + "\n"@ } else { Seq::empty() })
            + "Pola:\n"@
            + field_lines(m.fields));
    }
    trim_end(out.as_str())
}

/// What `field_value` gives: the title, the notes, or the text of the named field.
pub open spec fn field_value_of(m: RecordModel, field: Seq<char>) -> Option<Seq<char>> {
    if field == "title"@ {
        Some(m.title)
    } else if field == "notes"@ {
        Some(m.notes)
    } else if has_key(m.fields, field) {
        Some(value_text(as_map(m.fields)[field]))
    } else {
        None
    }
}

/// The raw value of a field of a record (secrets included): `title` and `notes`
/// name the record's own title and notes, any other name a field of the map.
pub fn field_value(record: &Record, field: &str) -> (r: Option<String>)
    ensures
        match field_value_of(record@, field@) {
            Some(t) => r matches Some(s) && s@ == t,
            None => r is None,
        },
{
    if str_eq(field, "title") {
        proof {
            reveal_strlit("title");
        }
        Some(record.title.clone())
    } else if str_eq(field, "notes") {
        Some(record.notes.clone())
    } else {
        match record.fields.get(field) {
            Some(v) => Some(value_to_string(v)),
            None => None,
        }
    }
}

// ─── Laws of finding, filtering and showing ─────────────────────────────────

/// Law: a record answers a query exactly when the query is non-empty and the
/// record's hexadecimal id begins with it character by character, or the record's
/// title is the query itself. A query that only begins the title does not answer.
pub proof fn lemma_answers_by_id_prefix_or_exact_title(m: RecordModel, q: Seq<char>)
    ensures
        answers(m, q) <==> ((q.len() > 0 && q.len() <= hex_seq(m.id).len() && forall|j: int| 0 <= j < q.len() ==> #[trigger] hex_seq(m.id)[j] == q[j]) || m.title == q),
{
    let h = hex_seq(m.id);
    if q.len() > 0 && q.len() <= h.len() && (forall|j: int| 0 <= j < q.len() ==> #[trigger] h[j] == q[j]) {
        assert(h.subrange(0, q.len() as int) =~= q);
    }
    if has_prefix(h, q) {
        assert forall|j: int| 0 <= j < q.len() implies #[trigger] h[j] == q[j] by {
            assert(h.subrange(0, q.len() as int)[j] == h[j]);
        }
    }
}

/// The records of `ms` that pass the filters, in their order: what `filter`'s
/// result holds.
pub open spec fn filtered(ms: Seq<RecordModel>, type_filter: Option<Seq<char>>, tag_filter: Option<Seq<char>>) -> Seq<RecordModel> {
    ms.filter(|m: RecordModel| passes_filters(m, type_filter, tag_filter))
}

/// Law: what the filters let through. Every record that passes a tag filter has
/// that tag among its tags, and every record that passes a type filter has that
/// type; and every record of the list that has the tag and the type passes.
pub proof fn lemma_filters_keep_exactly_matching(ms: Seq<RecordModel>, type_filter: Option<Seq<char>>, tag_filter: Option<Seq<char>>)
    ensures
        forall|i: int| 0 <= i < filtered(ms, type_filter, tag_filter).len() ==> {
            let m = #[trigger] filtered(ms, type_filter, tag_filter)[i];
            &&& (tag_filter matches Some(tag) ==> exists|j: int| 0 <= j < m.tags.len() && m.tags[j] == tag)
            &&& (type_filter matches Some(t) ==> record_type_name(m.rtype) == t)
        },
        forall|i: int| 0 <= i < ms.len() && (tag_filter matches Some(tag) ==> exists|j: int| 0 <= j < ms[i].tags.len() && ms[i].tags[j] == tag) && (type_filter matches Some(t) ==> record_type_name(ms[i].rtype) == t) ==> filtered(ms, type_filter, tag_filter).contains(#[trigger] ms[i]),
{
    let pred = |m: RecordModel| passes_filters(m, type_filter, tag_filter);
    let res = ms.filter(pred);
    assert(res == filtered(ms, type_filter, tag_filter));
    assert forall|i: int| 0 <= i < res.len() implies {
        let m = #[trigger] res[i];
        &&& (tag_filter matches Some(tag) ==> exists|j: int| 0 <= j < m.tags.len() && m.tags[j] == tag)
        &&& (type_filter matches Some(t) ==> record_type_name(m.rtype) == t)
    } by {
        ms.lemma_filter_pred(pred, i);
    }
    assert forall|i: int| 0 <= i < ms.len() && (tag_filter matches Some(tag) ==> exists|j: int| 0 <= j < ms[i].tags.len() && ms[i].tags[j] == tag) && (type_filter matches Some(t) ==> record_type_name(ms[i].rtype) == t) implies res.contains(#[trigger] ms[i]) by {
        if let Some(tag) = tag_filter {
            let j = choose|j: int| 0 <= j < ms[i].tags.len() && ms[i].tags[j] == tag;
            assert(ms[i].tags.contains(tag));
        }
        assert(pred(ms[i]));
        ms.lemma_filter_contains(pred, i);
    }
}

/// Law: the names `title` and `notes` give the record's own title and notes; any
/// other name gives a value exactly when the record has a field of that name.
pub proof fn lemma_field_value_names(m: RecordModel, name: Seq<char>)
    ensures
        field_value_of(m, "title"@) == Some(m.title),
        field_value_of(m, "notes"@) == Some(m.notes),
        name != "title"@ && name != "notes"@ ==> (field_value_of(m, name) is Some <==> has_key(m.fields, name)),
{
    reveal_strlit("title");
    reveal_strlit("notes");
    assert("notes"@[0] != "title"@[0]);
}

/// Trimming white space at the end keeps everything up to a character that is
/// not white space.
proof fn lemma_trim_end_keeps_prefix(a: Seq<char>, b: Seq<char>)
    requires
        b.len() > 0,
        !crate::text::is_white_space(b[0]),
    ensures
        trim_end_seq(a + b).len() > a.len(),
        trim_end_seq(a + b).subrange(0, a.len() as int) == a,
    decreases b.len(),
{
    let s = a + b;
    if b.len() == 1 {
        assert(s.last() == b[0]);
        assert(s.subrange(0, a.len() as int) =~= a);
    } else if crate::text::is_white_space(s.last()) {
        let b2 = b.drop_last();
        assert(s.drop_last() =~= a + b2);
        lemma_trim_end_keeps_prefix(a, b2);
    } else {
        assert(s.subrange(0, a.len() as int) =~= a);
    }
}

/// Law: a record with notes shows them, whatever its tags: its detail text holds
/// `Notatki: ` followed by the notes.
pub proof fn lemma_detail_shows_notes(m: RecordModel)
    requires
        m.notes.len() > 0,
    ensures
        exists|i: int| 0 <= i && i + 9 + m.notes.len() <= detail_text(m).len() && #[trigger] detail_text(m).subrange(i, i + 9 + m.notes.len()) == "Notatki: "@ + m.notes,
{
    reveal_strlit("Notatki: ");
    reveal_strlit("Pola:\n");
    let head = "ID:      "@ + hex_seq(m.id) + "\n"@ + "Typ:     "@ + record_type_name(m.rtype) + "\n"@
        + "Tytul:   "@ + m.title + "\n"@ + (if m.tags.len() > 0 {
        "Tagi:    "@ + join_seq(m.tags, ", "@) + "\n"@
    } else {
        Seq::empty()
    });
    let line = "Notatki: "@ + m.notes;
    let a = head + line;
    let b = "\n"@ + "Pola:\n"@ + field_lines(m.fields);
    reveal_strlit("\n");
    let full = head + ("Notatki: "@ + m.notes + "\n"@) + "Pola:\n"@ + field_lines(m.fields);
    assert(full =~= a + ("\n"@ + "Pola:\n"@ + field_lines(m.fields)));
    assert(detail_text(m) == trim_end_seq(full));
    // the character after the line ending is `P`, which is not white space
    let b2 = "Pola:\n"@ + field_lines(m.fields);
    assert(b2[0] == 'P');
    let a2 = a + "\n"@;
    assert(full =~= a2 + b2);
    lemma_trim_end_keeps_prefix(a2, b2);
    let t = detail_text(m);
    let i = head.len() as int;
    assert(line.len() == 9 + m.notes.len());
    assert(t.subrange(i, i + 9 + m.notes.len()) =~= t.subrange(0, a2.len() as int).subrange(i, i + 9 + m.notes.len()));
    assert(a2.subrange(i, i + 9 + m.notes.len()) =~= line);
}

} // verus!
