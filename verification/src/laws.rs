//! Properties of the rendered text, stated and proved over the spec
//! functions of [`crate::logs`].
//!
//! Each public proof function here is a statement the renderer is held to:
//! how the event's text decomposes into per-field pieces, where delimiters
//! fall, how cause chains unfold, and how the colored rendering relates to
//! the plain one.

use vstd::prelude::*;
use crate::logs::{
    cyan_code, error_text, event_text, field_body, field_delim, field_text, gray_code, items_text,
    list_delim, list_item_text, name_text, reset_code, still_first, ErrorModel, FieldModel,
    ValueModel,
};

verus! {

// ---------------------------------------------------------------------------
// Per-field pieces of an event's text
// ---------------------------------------------------------------------------

/// Whether the field at position `i` is rendered as the event's first
/// field: the flag starts as `first` and survives only error-kind fields.
pub open spec fn first_flag(fs: Seq<FieldModel>, i: int, first: bool) -> bool {
    first && still_first(fs.take(i))
}

/// The text each field contributes, field by field, in field order.
pub open spec fn pieces(fs: Seq<FieldModel>, first: bool, ansi: bool) -> Seq<Seq<char>> {
    Seq::new(fs.len(), |i: int| field_text(fs[i], first_flag(fs, i, first), ansi))
}

/// All the pieces, concatenated in order.
pub open spec fn concat_all(ps: Seq<Seq<char>>) -> Seq<char>
    decreases ps.len(),
{
    if ps.len() == 0 {
        Seq::<char>::empty()
    } else {
        ps[0] + concat_all(ps.drop_first())
    }
}

/// `still_first` holds exactly of a run of error-kind fields.
pub proof fn lemma_still_first_forall(fs: Seq<FieldModel>)
    ensures
        still_first(fs) <==> (forall|j: int| 0 <= j < fs.len() ==> fs[j].value is ErrorLike),
    decreases fs.len(),
{
    if fs.len() > 0 {
        lemma_still_first_forall(fs.drop_first());
        assert(forall|j: int| 1 <= j < fs.len() ==> fs[j] == fs.drop_first()[j - 1]);
    }
}

proof fn lemma_concat_all_cons(a: Seq<char>, ps: Seq<Seq<char>>)
    ensures
        concat_all(seq![a] + ps) == a + concat_all(ps),
{
    assert((seq![a] + ps).len() == 1 + ps.len());
    assert((seq![a] + ps)[0] == a);
    assert((seq![a] + ps).drop_first() =~= ps);
}

/// Field order is preserved (order law): the event's text is exactly the
/// concatenation, in field order, of the text each field contributes, and
/// there is one piece per field.
pub proof fn lemma_field_order(fs: Seq<FieldModel>, first: bool, ansi: bool)
    ensures
        event_text(fs, first, ansi) == concat_all(pieces(fs, first, ansi)),
        pieces(fs, first, ansi).len() == fs.len(),
    decreases fs.len(),
{
    if fs.len() == 0 {
        assert(pieces(fs, first, ansi).len() == 0);
    } else {
        let next = first && fs[0].value is ErrorLike;
        let rest = fs.drop_first();
        lemma_field_order(rest, next, ansi);
        assert forall|i: int| 0 <= i < fs.len() implies pieces(fs, first, ansi)[i]
            == (seq![field_text(fs[0], first, ansi)] + pieces(rest, next, ansi))[i] by {
            if i == 0 {
                assert(fs.take(0) =~= Seq::<FieldModel>::empty());
                assert(still_first(fs.take(0)));
            } else {
                assert(fs.take(i).drop_first() =~= rest.take(i - 1));
                assert(fs.take(i)[0] == fs[0]);
                assert(still_first(fs.take(i))
                    == (fs[0].value is ErrorLike && still_first(rest.take(i - 1))));
                assert((seq![field_text(fs[0], first, ansi)] + pieces(rest, next, ansi))[i]
                    == pieces(rest, next, ansi)[i - 1]);
            }
        }
        assert(pieces(fs, first, ansi)
            =~= seq![field_text(fs[0], first, ansi)] + pieces(rest, next, ansi));
        lemma_concat_all_cons(field_text(fs[0], first, ansi), pieces(rest, next, ansi));
    }
}

/// Message-first law: when the first field is generic (the event's
/// message), the event's text opens with that value bare — no field name,
/// no leading delimiter — and the rest follows with the first-field flag
/// cleared.
pub proof fn lemma_message_first(fs: Seq<FieldModel>, ansi: bool)
    requires
        fs.len() > 0,
        fs[0].value is Generic,
    ensures
        event_text(fs, true, ansi)
            == fs[0].value->text + event_text(fs.drop_first(), false, ansi),
{
    assert(field_text(fs[0], true, ansi) == fs[0].value->text);
}

/// Delimiter law: in an event whose first field is generic, every field
/// after the first contributes exactly one field delimiter followed by the
/// field's body.
pub proof fn lemma_delimiter(fs: Seq<FieldModel>, ansi: bool)
    requires
        fs.len() > 0,
        fs[0].value is Generic,
    ensures
        forall|i: int|
            1 <= i < fs.len() ==> #[trigger] pieces(fs, true, ansi)[i]
                == field_delim() + field_body(fs[i], ansi),
{
    assert forall|i: int| 1 <= i < fs.len() implies pieces(fs, true, ansi)[i]
        == field_delim() + field_body(fs[i], ansi) by {
        lemma_still_first_forall(fs.take(i));
        assert(fs.take(i)[0] == fs[0]);
        assert(!still_first(fs.take(i)));
    }
}

/// No-cause collapse law: an error-kind field whose value has no underlying
/// cause renders, in non-first position, exactly like a generic field
/// holding the error's display text.
pub proof fn lemma_no_cause_collapse(name: Seq<char>, display: Seq<char>, ansi: bool)
    ensures
        field_body(
            FieldModel {
                name,
                value: ValueModel::ErrorLike {
                    error: ErrorModel { display, causes: Seq::<Seq<char>>::empty() },
                },
            },
            ansi,
        ) == field_body(FieldModel { name, value: ValueModel::Generic { text: display } }, ansi),
{
}

proof fn lemma_items_text_is_concat(items: Seq<Seq<char>>, ansi: bool)
    ensures
        items_text(items, ansi)
            == concat_all(items.map_values(|t: Seq<char>| list_item_text(t, ansi))),
    decreases items.len(),
{
    let f = |t: Seq<char>| list_item_text(t, ansi);
    if items.len() == 0 {
        assert(items.map_values(f).len() == 0);
    } else {
        lemma_items_text_is_concat(items.drop_first(), ansi);
        assert(items.map_values(f).drop_first() =~= items.drop_first().map_values(f));
        assert(items.map_values(f)[0] == list_item_text(items[0], ansi));
    }
}

/// Cause-chain law: an error-kind field with `k >= 1` causes renders its
/// name prefix and then exactly `k + 1` list items — the error's own text
/// first, then each cause in root-ward order — each item carrying its own
/// list delimiter and bullet.
pub proof fn lemma_cause_chain(name: Seq<char>, e: ErrorModel, ansi: bool)
    requires
        e.causes.len() > 0,
    ensures
        ({
            let entries = seq![e.display] + e.causes;
            let item_texts = entries.map_values(|t: Seq<char>| list_item_text(t, ansi));
            error_text(name, e, ansi) == name_text(name, ansi) + concat_all(item_texts)
                && item_texts.len() == e.causes.len() + 1
        }),
{
    let entries = seq![e.display] + e.causes;
    lemma_items_text_is_concat(entries, ansi);
}

// ---------------------------------------------------------------------------
// Color toggle: stripping ANSI escapes from the colored text
// ---------------------------------------------------------------------------

/// One step of the escape-sequence scanner: inside a sequence it stays
/// inside until the terminating `m`; outside, only an escape character
/// enters one.
pub open spec fn next_mode(in_esc: bool, c: char) -> bool {
    if in_esc {
        c != 'm'
    } else {
        c == '\x1b'
    }
}

/// `s` with its ANSI escape sequences removed, scanning in mode `in_esc`.
pub open spec fn strip_from(s: Seq<char>, in_esc: bool) -> Seq<char>
    decreases s.len(),
{
    if s.len() == 0 {
        Seq::<char>::empty()
    } else {
        (if !in_esc && s[0] != '\x1b' {
            seq![s[0]]
        } else {
            Seq::<char>::empty()
        }) + strip_from(s.drop_first(), next_mode(in_esc, s[0]))
    }
}

/// The scanner's mode after reading all of `s` in mode `in_esc`.
pub open spec fn mode_after(s: Seq<char>, in_esc: bool) -> bool
    decreases s.len(),
{
    if s.len() == 0 {
        in_esc
    } else {
        mode_after(s.drop_first(), next_mode(in_esc, s[0]))
    }
}

/// `s` with its ANSI escape sequences removed.
pub open spec fn strip_ansi(s: Seq<char>) -> Seq<char> {
    strip_from(s, false)
}

/// `s` contains no escape character of its own.
pub open spec fn esc_free(s: Seq<char>) -> bool {
    forall|i: int| 0 <= i < s.len() ==> s[i] != '\x1b'
}

/// A field value none of whose texts contain an escape character.
pub open spec fn esc_free_value(v: ValueModel) -> bool {
    match v {
        ValueModel::Generic { text } => esc_free(text),
        ValueModel::ErrorLike { error } => esc_free(error.display) && (forall|i: int|
            0 <= i < error.causes.len() ==> esc_free(#[trigger] error.causes[i])),
    }
}

/// A field neither of whose texts contain an escape character.
pub open spec fn esc_free_field(f: FieldModel) -> bool {
    esc_free(f.name) && esc_free_value(f.value)
}

/// Stripping distributes over concatenation, threading the scanner's mode.
proof fn lemma_strip_concat(a: Seq<char>, b: Seq<char>, m: bool)
    ensures
        strip_from(a + b, m) == strip_from(a, m) + strip_from(b, mode_after(a, m)),
        mode_after(a + b, m) == mode_after(b, mode_after(a, m)),
    decreases a.len(),
{
    if a.len() == 0 {
        assert(a + b =~= b);
        assert(strip_from(a, m) + strip_from(b, m) =~= strip_from(b, m));
    } else {
        let m2 = next_mode(m, a[0]);
        lemma_strip_concat(a.drop_first(), b, m2);
        assert((a + b)[0] == a[0]);
        assert((a + b).drop_first() =~= a.drop_first() + b);
        let kept = if !m && a[0] != '\x1b' {
            seq![a[0]]
        } else {
            Seq::<char>::empty()
        };
        assert(strip_from(a + b, m)
            == kept + (strip_from(a.drop_first(), m2) + strip_from(b, mode_after(a.drop_first(), m2))));
        assert(kept + (strip_from(a.drop_first(), m2) + strip_from(b, mode_after(a.drop_first(), m2)))
            =~= (kept + strip_from(a.drop_first(), m2)) + strip_from(b, mode_after(a.drop_first(), m2)));
    }
}

/// Text without escape characters passes through the stripper untouched.
proof fn lemma_strip_clean(s: Seq<char>)
    requires
        esc_free(s),
    ensures
        strip_from(s, false) == s,
        mode_after(s, false) == false,
    decreases s.len(),
{
    if s.len() > 0 {
        assert(s[0] != '\x1b');
        assert(forall|i: int| 0 <= i < s.drop_first().len() ==> s.drop_first()[i] == s[i + 1]);
        lemma_strip_clean(s.drop_first());
        assert(seq![s[0]] + s.drop_first() =~= s);
    }
}

/// Inside an escape sequence the stripper drops everything up to and
/// including the terminating `m`, and leaves escape mode.
proof fn lemma_strip_in_esc(s: Seq<char>)
    requires
        s.len() >= 1,
        forall|i: int| 0 <= i < s.len() - 1 ==> s[i] != 'm',
        s[s.len() - 1] == 'm',
    ensures
        strip_from(s, true) == Seq::<char>::empty(),
        mode_after(s, true) == false,
    decreases s.len(),
{
    if s.len() == 1 {
        assert(s[0] == 'm');
        assert(next_mode(true, s[0]) == false);
        assert(s.drop_first().len() == 0);
        assert(mode_after(s, true) == mode_after(s.drop_first(), false));
        assert(mode_after(s.drop_first(), false) == false);
        assert(strip_from(s.drop_first(), false) == Seq::<char>::empty());
        assert(Seq::<char>::empty() + Seq::<char>::empty() =~= Seq::<char>::empty());
    } else {
        assert(s[0] != 'm');
        assert(forall|i: int| 0 <= i < s.drop_first().len() ==> s.drop_first()[i] == s[i + 1]);
        lemma_strip_in_esc(s.drop_first());
        assert(Seq::<char>::empty() + Seq::<char>::empty() =~= Seq::<char>::empty());
    }
}

/// A whole escape sequence — escape character, parameters, terminating `m`
/// — strips to nothing and leaves the scanner outside escape mode.
proof fn lemma_strip_code(s: Seq<char>)
    requires
        s.len() >= 2,
        s[0] == '\x1b',
        forall|i: int| 1 <= i < s.len() - 1 ==> s[i] != 'm',
        s[s.len() - 1] == 'm',
    ensures
        strip_from(s, false) == Seq::<char>::empty(),
        mode_after(s, false) == false,
{
    assert(forall|i: int| 0 <= i < s.drop_first().len() ==> s.drop_first()[i] == s[i + 1]);
    lemma_strip_in_esc(s.drop_first());
    assert(Seq::<char>::empty() + Seq::<char>::empty() =~= Seq::<char>::empty());
}

/// The three color codes all strip to nothing.
proof fn lemma_strip_color_codes()
    ensures
        strip_from(cyan_code(), false) == Seq::<char>::empty(),
        mode_after(cyan_code(), false) == false,
        strip_from(gray_code(), false) == Seq::<char>::empty(),
        mode_after(gray_code(), false) == false,
        strip_from(reset_code(), false) == Seq::<char>::empty(),
        mode_after(reset_code(), false) == false,
{
    lemma_strip_code(cyan_code());
    lemma_strip_code(gray_code());
    lemma_strip_code(reset_code());
}

/// Stripping the colored name prefix yields the plain one.
proof fn lemma_strip_name_text(name: Seq<char>)
    requires
        esc_free(name),
    ensures
        strip_from(name_text(name, true), false) == name_text(name, false),
        mode_after(name_text(name, true), false) == false,
{
    lemma_strip_color_codes();
    lemma_strip_clean(name);
    assert(esc_free(seq![':']));
    lemma_strip_clean(seq![':']);
    let a = cyan_code() + name;
    lemma_strip_concat(cyan_code(), name, false);
    let b = a + gray_code();
    lemma_strip_concat(a, gray_code(), false);
    let c = b + seq![':'];
    lemma_strip_concat(b, seq![':'], false);
    let d = c + reset_code();
    lemma_strip_concat(c, reset_code(), false);
    assert(strip_from(d, false) =~= name + seq![':']);
}

/// Stripping a colored list item yields the plain one.
proof fn lemma_strip_list_item(item: Seq<char>)
    requires
        esc_free(item),
    ensures
        strip_from(list_item_text(item, true), false) == list_item_text(item, false),
        mode_after(list_item_text(item, true), false) == false,
{
    lemma_strip_color_codes();
    lemma_strip_clean(item);
    assert(esc_free(list_delim()));
    lemma_strip_clean(list_delim());
    assert(esc_free(seq!['-']));
    lemma_strip_clean(seq!['-']);
    assert(esc_free(seq![' ']));
    lemma_strip_clean(seq![' ']);
    let a = list_delim() + gray_code();
    lemma_strip_concat(list_delim(), gray_code(), false);
    let b = a + seq!['-'];
    lemma_strip_concat(a, seq!['-'], false);
    let c = b + reset_code();
    lemma_strip_concat(b, reset_code(), false);
    let d = c + seq![' '];
    lemma_strip_concat(c, seq![' '], false);
    let e = d + item;
    lemma_strip_concat(d, item, false);
    assert(strip_from(e, false) =~= list_delim() + seq!['-', ' '] + item);
}

/// Stripping a colored run of list items yields the plain run.
proof fn lemma_strip_items_text(items: Seq<Seq<char>>)
    requires
        forall|i: int| 0 <= i < items.len() ==> esc_free(#[trigger] items[i]),
    ensures
        strip_from(items_text(items, true), false) == items_text(items, false),
        mode_after(items_text(items, true), false) == false,
    decreases items.len(),
{
    if items.len() == 0 {
        assert(strip_from(Seq::<char>::empty(), false) == Seq::<char>::empty());
    } else {
        assert(forall|i: int|
            0 <= i < items.drop_first().len() ==> items.drop_first()[i] == items[i + 1]);
        lemma_strip_items_text(items.drop_first());
        lemma_strip_list_item(items[0]);
        lemma_strip_concat(list_item_text(items[0], true), items_text(items.drop_first(), true), false);
    }
}

/// Stripping a colored error field body yields the plain one.
proof fn lemma_strip_error_text(name: Seq<char>, e: ErrorModel)
    requires
        esc_free(name),
        esc_free(e.display),
        forall|i: int| 0 <= i < e.causes.len() ==> esc_free(#[trigger] e.causes[i]),
    ensures
        strip_from(error_text(name, e, true), false) == error_text(name, e, false),
        mode_after(error_text(name, e, true), false) == false,
{
    lemma_strip_name_text(name);
    if e.causes.len() == 0 {
        assert(esc_free(seq![' ']));
        lemma_strip_clean(seq![' ']);
        lemma_strip_clean(e.display);
        let a = name_text(name, true) + seq![' '];
        lemma_strip_concat(name_text(name, true), seq![' '], false);
        lemma_strip_concat(a, e.display, false);
        assert(strip_from(a + e.display, false) =~= name_text(name, false) + seq![' '] + e.display);
    } else {
        let entries = seq![e.display] + e.causes;
        assert(forall|i: int|
            0 <= i < entries.len() ==> esc_free(#[trigger] entries[i])) by {
            assert(entries[0] == e.display);
            assert(forall|i: int| 1 <= i < entries.len() ==> entries[i] == e.causes[i - 1]);
        }
        lemma_strip_items_text(entries);
        lemma_strip_concat(name_text(name, true), items_text(entries, true), false);
    }
}

/// Stripping one colored field's text yields the plain field's text.
proof fn lemma_strip_field_text(f: FieldModel, first: bool)
    requires
        esc_free_field(f),
    ensures
        strip_from(field_text(f, first, true), false) == field_text(f, first, false),
        mode_after(field_text(f, first, true), false) == false,
{
    match f.value {
        ValueModel::Generic { text } => {
            lemma_strip_clean(text);
            if !first {
                lemma_strip_name_text(f.name);
                assert(esc_free(seq![' ']));
                lemma_strip_clean(seq![' ']);
                assert(esc_free(field_delim()));
                lemma_strip_clean(field_delim());
                let a = name_text(f.name, true) + seq![' '];
                lemma_strip_concat(name_text(f.name, true), seq![' '], false);
                let b = a + text;
                lemma_strip_concat(a, text, false);
                lemma_strip_concat(field_delim(), b, false);
                assert(field_text(f, first, true) == field_delim() + b);
                assert(strip_from(field_delim() + b, false)
                    =~= field_delim() + (name_text(f.name, false) + seq![' '] + text));
            }
        },
        ValueModel::ErrorLike { error } => {
            lemma_strip_error_text(f.name, error);
            if !first {
                assert(esc_free(field_delim()));
                lemma_strip_clean(field_delim());
                lemma_strip_concat(field_delim(), error_text(f.name, error, true), false);
            }
        },
    }
}

/// Color-toggle law: rendering the same event with color enabled and with
/// color disabled yields the same text once the ANSI escape sequences are
/// stripped from the colored rendering — provided no field text carries an
/// escape character of its own (one that does would lose it to the
/// stripper).
pub proof fn lemma_color_toggle(fs: Seq<FieldModel>, first: bool)
    requires
        forall|i: int| 0 <= i < fs.len() ==> esc_free_field(#[trigger] fs[i]),
    ensures
        strip_ansi(event_text(fs, first, true)) == event_text(fs, first, false),
    decreases fs.len(),
{
    if fs.len() > 0 {
        let next = first && fs[0].value is ErrorLike;
        assert(forall|i: int|
            0 <= i < fs.drop_first().len() ==> fs.drop_first()[i] == fs[i + 1]);
        lemma_color_toggle(fs.drop_first(), next);
        lemma_strip_field_text(fs[0], first);
        lemma_strip_concat(field_text(fs[0], first, true), event_text(fs.drop_first(), next, true), false);
    }
}

/// Repeatable-rendering law: rendering is a pure function of the field and
/// its position class, so two non-first fields that agree (same name, same
/// value) contribute byte-identical pieces, wherever they stand in the
/// event.  There is no hidden render state that could leak between them.
pub proof fn lemma_repeat_render(fs: Seq<FieldModel>, ansi: bool, i: int, j: int)
    requires
        fs.len() > 0,
        fs[0].value is Generic,
        1 <= i < fs.len(),
        1 <= j < fs.len(),
        fs[i] == fs[j],
    ensures
        pieces(fs, true, ansi)[i] == pieces(fs, true, ansi)[j],
{
    lemma_delimiter(fs, ansi);
}

} // verus!
