//! The log field formatter: renders one event's ordered field stream into a
//! multi-line, optionally ANSI-colored text form, with chained error causes
//! rendered as an indented bullet list.
//!
//! Layout produced for one event (no color):
//!
//! ```text
//! Something went wrong
//!   reason: "Bad things"
//!   cause:
//!     - connect timed out
//!     - network unreachable
//! ```
//!
//! The first field is the event's message and is written bare; every later
//! field sits on its own line behind a `"\n  "` delimiter and a `name:`
//! prefix.  An error-kind field with no underlying cause collapses to a plain
//! string field; one with causes becomes a bullet list, the error itself
//! first and then each cause down to the root.

use vstd::prelude::*;
use crate::sink::{FormatError, TextSink};

verus! {

// ---------------------------------------------------------------------------
// Data model
// ---------------------------------------------------------------------------

/// An error-like field value, reduced to what the renderer reads of it: its
/// display text and the display texts of its chain of underlying causes, in
/// order from the immediate cause to the root cause.
///
/// The chain is materialized as a vector, so a render call terminates even
/// where the originating error type would have offered a cyclic cause graph;
/// whoever builds an `ErrorValue` from such a type must cut the cycle.
pub struct ErrorValue {
    pub display: String,
    pub causes: Vec<String>,
}

/// A field's value: either a generic value, carried as its ready-made
/// debug-style rendering, or an error-like value with a cause chain.
pub enum FieldValue {
    Generic { text: String },
    ErrorLike { error: ErrorValue },
}

/// One named field of a log event.
pub struct LogField {
    pub name: String,
    pub value: FieldValue,
}

/// Mathematical model of an [`ErrorValue`].
#[verifier::ext_equal]
pub struct ErrorModel {
    pub display: Seq<char>,
    pub causes: Seq<Seq<char>>,
}

/// Mathematical model of a [`FieldValue`].
#[verifier::ext_equal]
pub enum ValueModel {
    Generic { text: Seq<char> },
    ErrorLike { error: ErrorModel },
}

/// Mathematical model of a [`LogField`].
#[verifier::ext_equal]
pub struct FieldModel {
    pub name: Seq<char>,
    pub value: ValueModel,
}

impl View for ErrorValue {
    type V = ErrorModel;

    open spec fn view(&self) -> ErrorModel {
        ErrorModel { display: self.display@, causes: self.causes.deep_view() }
    }
}

impl DeepView for ErrorValue {
    type V = ErrorModel;

    open spec fn deep_view(&self) -> ErrorModel {
        self.view()
    }
}

impl View for FieldValue {
    type V = ValueModel;

    open spec fn view(&self) -> ValueModel {
        match self {
            FieldValue::Generic { text } => ValueModel::Generic { text: text@ },
            FieldValue::ErrorLike { error } => ValueModel::ErrorLike { error: error@ },
        }
    }
}

impl DeepView for FieldValue {
    type V = ValueModel;

    open spec fn deep_view(&self) -> ValueModel {
        self.view()
    }
}

impl View for LogField {
    type V = FieldModel;

    open spec fn view(&self) -> FieldModel {
        FieldModel { name: self.name@, value: self.value@ }
    }
}

impl DeepView for LogField {
    type V = FieldModel;

    open spec fn deep_view(&self) -> FieldModel {
        self.view()
    }
}

// ---------------------------------------------------------------------------
// Delimiter and color policy
// ---------------------------------------------------------------------------

/// The delimiter written before every field but the first: newline plus a
/// two-space indent.
pub open spec fn field_delim() -> Seq<char> {
    seq!['\n', ' ', ' ']
}

/// The delimiter written before every cause-list item: newline plus a
/// four-space indent.
pub open spec fn list_delim() -> Seq<char> {
    seq!['\n', ' ', ' ', ' ', ' ']
}

/// ANSI escape sequence selecting cyan, used for field names.
pub open spec fn cyan_code() -> Seq<char> {
    seq!['\x1b', '[', '3', '6', 'm']
}

/// ANSI escape sequence selecting gray, used for colons and bullets.
pub open spec fn gray_code() -> Seq<char> {
    seq!['\x1b', '[', '3', '7', 'm']
}

/// ANSI escape sequence resetting the color after a colored run.
pub open spec fn reset_code() -> Seq<char> {
    seq!['\x1b', '[', '0', 'm']
}

// ---------------------------------------------------------------------------
// The rendered text, as spec functions
// ---------------------------------------------------------------------------

/// The text of a field-name prefix: `name:`, with the name in cyan and the
/// colon in gray when color is enabled.
pub open spec fn name_text(name: Seq<char>, ansi: bool) -> Seq<char> {
    if ansi {
        cyan_code() + name + gray_code() + seq![':'] + reset_code()
    } else {
        name + seq![':']
    }
}

/// The text of one cause-list item: the list delimiter, a bullet (gray when
/// color is enabled), a space, and the item's text.
pub open spec fn list_item_text(item: Seq<char>, ansi: bool) -> Seq<char> {
    if ansi {
        list_delim() + gray_code() + seq!['-'] + reset_code() + seq![' '] + item
    } else {
        list_delim() + seq!['-', ' '] + item
    }
}

/// The text of a run of cause-list items, in order.
pub open spec fn items_text(items: Seq<Seq<char>>, ansi: bool) -> Seq<char>
    decreases items.len(),
{
    if items.len() == 0 {
        Seq::<char>::empty()
    } else {
        list_item_text(items[0], ansi) + items_text(items.drop_first(), ansi)
    }
}

/// The text of an error-kind field, after any field delimiter: the name
/// prefix, then either the error's display text alone (no causes) or the
/// bullet list of the error itself followed by each cause.
pub open spec fn error_text(name: Seq<char>, e: ErrorModel, ansi: bool) -> Seq<char> {
    if e.causes.len() == 0 {
        name_text(name, ansi) + seq![' '] + e.display
    } else {
        name_text(name, ansi) + items_text(seq![e.display] + e.causes, ansi)
    }
}

/// The body of a field rendered in non-first position, without its leading
/// field delimiter.
pub open spec fn field_body(f: FieldModel, ansi: bool) -> Seq<char> {
    match f.value {
        ValueModel::Generic { text } => name_text(f.name, ansi) + seq![' '] + text,
        ValueModel::ErrorLike { error } => error_text(f.name, error, ansi),
    }
}

/// The text one field contributes to the output.  In first position a
/// generic field is the bare message (no name, no delimiter) and an
/// error-kind field is written with its name but no delimiter; in any later
/// position the field delimiter precedes the field's body.
pub open spec fn field_text(f: FieldModel, first: bool, ansi: bool) -> Seq<char> {
    if first {
        match f.value {
            ValueModel::Generic { text } => text,
            ValueModel::ErrorLike { error } => error_text(f.name, error, ansi),
        }
    } else {
        field_delim() + field_body(f, ansi)
    }
}

/// Whether, after the fields `fs` have been visited with the first-field
/// flag initially set, the flag is still set.  Only a generic field clears
/// it: it becomes the event's message.
pub open spec fn still_first(fs: Seq<FieldModel>) -> bool
    decreases fs.len(),
{
    if fs.len() == 0 {
        true
    } else {
        fs[0].value is ErrorLike && still_first(fs.drop_first())
    }
}

/// The whole text of an event: each field's text in field order, the
/// first-field flag threaded through.
pub open spec fn event_text(fs: Seq<FieldModel>, first: bool, ansi: bool) -> Seq<char>
    decreases fs.len(),
{
    if fs.len() == 0 {
        Seq::<char>::empty()
    } else {
        field_text(fs[0], first, ansi)
            + event_text(fs.drop_first(), first && fs[0].value is ErrorLike, ansi)
    }
}

// ---------------------------------------------------------------------------
// The formatter and its per-event visitor
// ---------------------------------------------------------------------------

/// The log field formatter.  One lives for the process; it makes one
/// [`DevLogFieldVisitor`] per event.
pub struct DevLogFieldFormatter {
    // To prevent direct struct initialization, so we can add fields here later
    // as a non-breaking change.
    _private: (),
}

impl DevLogFieldFormatter {
    pub fn new() -> (f: DevLogFieldFormatter) {
        DevLogFieldFormatter { _private: () }
    }

    /// A fresh visitor for one event, owning the event's sink.
    pub fn make_visitor(&self, writer: TextSink) -> (v: DevLogFieldVisitor)
        ensures
            v.writer == writer,
            v.result is Ok,
            v.first_visit,
    {
        DevLogFieldVisitor { writer, result: Ok(()), first_visit: true }
    }
}

/// Render state for one event: the sink, the latched write result, and the
/// flag that is true until the event's message has been written.
///
/// Once `result` holds an error, every later visit leaves the state
/// untouched: the one failure is surfaced exactly once, by [`Self::finish`].
pub struct DevLogFieldVisitor {
    pub writer: TextSink,
    pub result: Result<(), FormatError>,
    pub first_visit: bool,
}

impl DevLogFieldVisitor {
    /// Writes the `name:` prefix of a field, colored when the sink supports
    /// it.  This write is unconditional: the latched result is overwritten,
    /// so callers guard it themselves.
    fn write_field_name(&mut self, name: &str)
        ensures
            final(self).first_visit == old(self).first_visit,
            final(self).writer.ansi == old(self).writer.ansi,
            final(self).writer.healthy == old(self).writer.healthy,
            old(self).writer.healthy ==> final(self).result is Ok
                && final(self).writer.text@
                    == old(self).writer.text@ + name_text(name@, old(self).writer.ansi),
            !old(self).writer.healthy ==> final(self).result is Err
                && final(self).writer.text@ == old(self).writer.text@,
    {
        proof {
            reveal_strlit("\x1b[36m");
            reveal_strlit("\x1b[37m");
            reveal_strlit("\x1b[0m");
            reveal_strlit(":");
            assert(("\x1b[36m")@ =~= cyan_code());
            assert(("\x1b[37m")@ =~= gray_code());
            assert(("\x1b[0m")@ =~= reset_code());
            assert((":")@ =~= seq![':']);
        }
        if self.writer.has_ansi_escapes() {
            let mut r = self.writer.write_str("\x1b[36m");
            if r.is_ok() {
                r = self.writer.write_str(name);
            }
            if r.is_ok() {
                r = self.writer.write_str("\x1b[37m");
            }
            if r.is_ok() {
                r = self.writer.write_str(":");
            }
            if r.is_ok() {
                r = self.writer.write_str("\x1b[0m");
            }
            self.result = r;
            proof {
                if old(self).writer.healthy {
                    assert(self.writer.text@
                        =~= old(self).writer.text@ + name_text(name@, old(self).writer.ansi));
                }
            }
        } else {
            let mut r = self.writer.write_str(name);
            if r.is_ok() {
                r = self.writer.write_str(":");
            }
            self.result = r;
            proof {
                if old(self).writer.healthy {
                    assert(self.writer.text@
                        =~= old(self).writer.text@ + name_text(name@, old(self).writer.ansi));
                }
            }
        }
    }

    /// Writes a field whose value arrives as a ready-made debug-style
    /// rendering: `name: value`.  Unconditional, like the name write.
    fn write_field(&mut self, name: &str, value: &str)
        ensures
            final(self).first_visit == old(self).first_visit,
            final(self).writer.ansi == old(self).writer.ansi,
            final(self).writer.healthy == old(self).writer.healthy,
            old(self).writer.healthy ==> final(self).result is Ok
                && final(self).writer.text@
                    == old(self).writer.text@
                        + name_text(name@, old(self).writer.ansi) + seq![' '] + value@,
            !old(self).writer.healthy ==> final(self).result is Err
                && final(self).writer.text@ == old(self).writer.text@,
    {
        self.write_field_name(name);
        if self.result.is_err() {
            return;
        }
        proof {
            reveal_strlit(" ");
            assert((" ")@ =~= seq![' ']);
        }
        let mut r = self.writer.write_str(" ");
        if r.is_ok() {
            r = self.writer.write_str(value);
        }
        self.result = r;
        proof {
            if old(self).writer.healthy {
                assert(self.writer.text@
                    =~= old(self).writer.text@
                        + name_text(name@, old(self).writer.ansi) + seq![' '] + value@);
            }
        }
    }

    /// Writes a field whose value is a plain string, shown as display text:
    /// `name: value`.  Unconditional, like the name write.
    fn write_string_field(&mut self, name: &str, value: &str)
        ensures
            final(self).first_visit == old(self).first_visit,
            final(self).writer.ansi == old(self).writer.ansi,
            final(self).writer.healthy == old(self).writer.healthy,
            old(self).writer.healthy ==> final(self).result is Ok
                && final(self).writer.text@
                    == old(self).writer.text@
                        + name_text(name@, old(self).writer.ansi) + seq![' '] + value@,
            !old(self).writer.healthy ==> final(self).result is Err
                && final(self).writer.text@ == old(self).writer.text@,
    {
        self.write_field_name(name);
        if self.result.is_err() {
            return;
        }
        proof {
            reveal_strlit(" ");
            assert((" ")@ =~= seq![' ']);
        }
        let mut r = self.writer.write_str(" ");
        if r.is_ok() {
            r = self.writer.write_str(value);
        }
        self.result = r;
        proof {
            if old(self).writer.healthy {
                assert(self.writer.text@
                    =~= old(self).writer.text@
                        + name_text(name@, old(self).writer.ansi) + seq![' '] + value@);
            }
        }
    }

    /// Writes one cause-list item: the list delimiter, a bullet, and the
    /// item's text.  A no-op once a write has failed.
    fn write_string_list_item(&mut self, value: &str)
        ensures
            final(self).first_visit == old(self).first_visit,
            final(self).writer.ansi == old(self).writer.ansi,
            final(self).writer.healthy == old(self).writer.healthy,
            old(self).result is Err ==> *final(self) == *old(self),
            old(self).result is Ok && old(self).writer.healthy ==> final(self).result is Ok
                && final(self).writer.text@
                    == old(self).writer.text@ + list_item_text(value@, old(self).writer.ansi),
            old(self).result is Ok && !old(self).writer.healthy ==> final(self).result is Err
                && final(self).writer.text@ == old(self).writer.text@,
    {
        if self.result.is_err() {
            return;
        }
        proof {
            reveal_strlit("\n    ");
            reveal_strlit("\x1b[37m");
            reveal_strlit("\x1b[0m");
            reveal_strlit("-");
            reveal_strlit("- ");
            reveal_strlit(" ");
            assert(("\n    ")@ =~= list_delim());
            assert(("\x1b[37m")@ =~= gray_code());
            assert(("\x1b[0m")@ =~= reset_code());
            assert(("-")@ =~= seq!['-']);
            assert(("- ")@ =~= seq!['-', ' ']);
            assert((" ")@ =~= seq![' ']);
        }
        if self.writer.has_ansi_escapes() {
            let mut r = self.writer.write_str("\n    ");
            if r.is_ok() {
                r = self.writer.write_str("\x1b[37m");
            }
            if r.is_ok() {
                r = self.writer.write_str("-");
            }
            if r.is_ok() {
                r = self.writer.write_str("\x1b[0m");
            }
            if r.is_ok() {
                r = self.writer.write_str(" ");
            }
            if r.is_ok() {
                r = self.writer.write_str(value);
            }
            self.result = r;
            proof {
                if old(self).writer.healthy {
                    assert(self.writer.text@
                        =~= old(self).writer.text@
                            + list_item_text(value@, old(self).writer.ansi));
                }
            }
        } else {
            let mut r = self.writer.write_str("\n    ");
            if r.is_ok() {
                r = self.writer.write_str("- ");
            }
            if r.is_ok() {
                r = self.writer.write_str(value);
            }
            self.result = r;
            proof {
                if old(self).writer.healthy {
                    assert(self.writer.text@
                        =~= old(self).writer.text@
                            + list_item_text(value@, old(self).writer.ansi));
                }
            }
        }
    }

    /// Writes the field delimiter, unless this is still the first field (the
    /// message takes no delimiter) or a write has already failed.
    fn delimit(&mut self)
        ensures
            final(self).first_visit == old(self).first_visit,
            final(self).writer.ansi == old(self).writer.ansi,
            final(self).writer.healthy == old(self).writer.healthy,
            old(self).result is Err ==> *final(self) == *old(self),
            old(self).result is Ok && old(self).first_visit ==> *final(self) == *old(self),
            old(self).result is Ok && !old(self).first_visit && old(self).writer.healthy
                ==> final(self).result is Ok
                    && final(self).writer.text@ == old(self).writer.text@ + field_delim(),
            old(self).result is Ok && !old(self).first_visit && !old(self).writer.healthy
                ==> final(self).result is Err
                    && final(self).writer.text@ == old(self).writer.text@,
    {
        if self.result.is_err() {
            return;
        }

        // The first field is the main log message, which we don't want to
        // delimit.
        if !self.first_visit {
            proof {
                reveal_strlit("\n  ");
                assert(("\n  ")@ =~= field_delim());
            }
            self.result = self.writer.write_str("\n  ");
        }
    }

    /// Visits a generic-kind field, `value` being its ready-made debug-style
    /// rendering.  The first field visited this way is the event's message:
    /// it is written bare and clears the first-field flag.
    pub fn record_debug(&mut self, name: &str, value: &str)
        ensures
            final(self).writer.ansi == old(self).writer.ansi,
            final(self).writer.healthy == old(self).writer.healthy,
            old(self).result is Err ==> *final(self) == *old(self),
            old(self).result is Ok ==> !final(self).first_visit,
            old(self).result is Ok && old(self).writer.healthy ==> final(self).result is Ok
                && final(self).writer.text@
                    == old(self).writer.text@
                        + field_text(
                            FieldModel {
                                name: name@,
                                value: ValueModel::Generic { text: value@ },
                            },
                            old(self).first_visit,
                            old(self).writer.ansi,
                        ),
            old(self).result is Ok && !old(self).writer.healthy ==> final(self).result is Err
                && final(self).writer.text@ == old(self).writer.text@,
    {
        self.delimit();
        if self.result.is_err() {
            return;
        }

        // The first field is the main log message, which we want to write
        // without field name.
        if self.first_visit {
            self.first_visit = false;
            self.result = self.writer.write_str(value);
        } else {
            self.write_field(name, value);
            proof {
                if old(self).writer.healthy {
                    assert(self.writer.text@
                        =~= old(self).writer.text@
                            + field_text(
                                FieldModel {
                                    name: name@,
                                    value: ValueModel::Generic { text: value@ },
                                },
                                old(self).first_visit,
                                old(self).writer.ansi,
                            ));
                }
            }
        }
    }

    /// Visits an error-kind field.  An error with no cause is written like a
    /// plain string field; one with causes becomes a bullet list of the
    /// error's own text followed by each cause, down to the root.  The
    /// first-field flag is left as it is: only a generic field can be the
    /// event's message.
    pub fn record_error(&mut self, name: &str, error: &ErrorValue)
        ensures
            final(self).writer.ansi == old(self).writer.ansi,
            final(self).writer.healthy == old(self).writer.healthy,
            final(self).first_visit == old(self).first_visit,
            old(self).result is Err ==> *final(self) == *old(self),
            old(self).result is Ok && old(self).writer.healthy ==> final(self).result is Ok
                && final(self).writer.text@
                    == old(self).writer.text@
                        + field_text(
                            FieldModel {
                                name: name@,
                                value: ValueModel::ErrorLike { error: error@ },
                            },
                            old(self).first_visit,
                            old(self).writer.ansi,
                        ),
            old(self).result is Ok && !old(self).writer.healthy ==> final(self).result is Err
                && final(self).writer.text@ == old(self).writer.text@,
    {
        self.delimit();
        if self.result.is_err() {
            return;
        }

        // If the error has no cause, we just log the error.
        if error.causes.len() == 0 {
            self.write_string_field(name, error.display.as_str());
            proof {
                assert(error@.causes =~= Seq::<Seq<char>>::empty());
            }
            return;
        }

        self.write_field_name(name);
        self.write_string_list_item(error.display.as_str());
        let ghost entries: Seq<Seq<char>> = seq![error@.display] + error@.causes;
        let ghost base = old(self).writer.text@
            + (if old(self).first_visit { Seq::<char>::empty() } else { field_delim() })
            + name_text(name@, old(self).writer.ansi);
        proof {
            if old(self).writer.healthy {
                lemma_items_text_take_step(entries, 0, self.writer.ansi);
                assert(entries.take(0) =~= Seq::<Seq<char>>::empty());
                assert(items_text(entries.take(0), self.writer.ansi)
                    == Seq::<char>::empty());
                assert(items_text(entries.take(1), self.writer.ansi)
                    =~= list_item_text(entries[0], self.writer.ansi));
                assert(self.writer.text@
                    =~= base + items_text(entries.take(1), self.writer.ansi));
            }
        }
        let n = error.causes.len();
        let mut i: usize = 0;
        while i < n
            invariant
                i <= n,
                n == error.causes.len(),
                entries == seq![error@.display] + error@.causes,
                self.writer.ansi == old(self).writer.ansi,
                self.writer.healthy == old(self).writer.healthy,
                self.first_visit == old(self).first_visit,
                old(self).writer.healthy ==> self.result is Ok
                    && self.writer.text@
                        == base + items_text(entries.take(1 + i as int), self.writer.ansi),
                !old(self).writer.healthy ==> self.result is Err
                    && self.writer.text@ == old(self).writer.text@,
            decreases n - i,
        {
            proof {
                lemma_items_text_take_step(entries, 1 + i as int, self.writer.ansi);
                assert(entries[1 + i as int] == error@.causes[i as int]);
                assert(error@.causes[i as int] == error.causes@[i as int]@);
            }
            self.write_string_list_item(error.causes[i].as_str());
            i += 1;
        }
        proof {
            if old(self).writer.healthy {
                assert(entries.take(1 + n as int) =~= entries);
                assert(self.writer.text@
                    =~= old(self).writer.text@
                        + field_text(
                            FieldModel {
                                name: name@,
                                value: ValueModel::ErrorLike { error: error@ },
                            },
                            old(self).first_visit,
                            old(self).writer.ansi,
                        ));
            }
        }
    }

    /// Surrenders the latched result of this event's rendering: `Ok` when
    /// every write succeeded, or the one captured failure.
    pub fn finish(self) -> (r: Result<(), FormatError>)
        ensures
            r == self.result,
    {
        self.result
    }

    /// Read access to the sink this visitor writes into.
    pub fn writer(&self) -> (w: &TextSink)
        ensures
            w == self.writer,
    {
        &self.writer
    }
}

/// Peeling one more item off the front of `items_text` over a growing take:
/// the text of the first `i + 1` items is the text of the first `i` plus the
/// item at `i`.
proof fn lemma_items_text_take_step(items: Seq<Seq<char>>, i: int, ansi: bool)
    requires
        0 <= i < items.len(),
    ensures
        items_text(items.take(i + 1), ansi)
            == items_text(items.take(i), ansi) + list_item_text(items[i], ansi),
    decreases i,
{
    if i == 0 {
        assert(items.take(1).drop_first() =~= Seq::<Seq<char>>::empty());
        assert(items.take(0) =~= Seq::<Seq<char>>::empty());
        assert(items.take(1)[0] == items[0]);
        assert(items_text(items.take(0), ansi) + list_item_text(items[0], ansi)
            =~= list_item_text(items[0], ansi));
    } else {
        lemma_items_text_take_step(items.drop_first(), i - 1, ansi);
        assert(items.take(i + 1).drop_first() =~= items.drop_first().take(i));
        assert(items.take(i).drop_first() =~= items.drop_first().take(i - 1));
        assert(items.drop_first()[i - 1] == items[i]);
        assert(items_text(items.take(i + 1), ansi)
            == list_item_text(items[0], ansi)
                + items_text(items.drop_first().take(i), ansi));
        assert(items_text(items.take(i), ansi)
            == list_item_text(items[0], ansi)
                + items_text(items.drop_first().take(i - 1), ansi));
        assert(list_item_text(items[0], ansi)
            + (items_text(items.drop_first().take(i - 1), ansi) + list_item_text(items[i], ansi))
            =~= (list_item_text(items[0], ansi)
                + items_text(items.drop_first().take(i - 1), ansi))
                + list_item_text(items[i], ansi));
    }
}

/// Appending one field to an event: the text of `fs.push(f)` is the text of
/// `fs` followed by `f`'s own text, with the first-field flag as it stands
/// after `fs`.
pub proof fn lemma_event_text_push(fs: Seq<FieldModel>, f: FieldModel, first: bool, ansi: bool)
    ensures
        event_text(fs.push(f), first, ansi)
            == event_text(fs, first, ansi) + field_text(f, first && still_first(fs), ansi),
        still_first(fs.push(f)) == (still_first(fs) && f.value is ErrorLike),
    decreases fs.len(),
{
    if fs.len() == 0 {
        assert(fs.push(f)[0] == f);
        assert(fs.push(f).drop_first() =~= Seq::<FieldModel>::empty());
        assert(event_text(fs, first, ansi) == Seq::<char>::empty());
        assert(event_text(fs.push(f), first, ansi)
            == field_text(f, first, ansi)
                + event_text(
                    Seq::<FieldModel>::empty(),
                    first && f.value is ErrorLike,
                    ansi,
                ));
        assert(event_text(Seq::<FieldModel>::empty(), first && f.value is ErrorLike, ansi)
            == Seq::<char>::empty());
        assert(event_text(fs.push(f), first, ansi) =~= field_text(f, first, ansi));
        assert(event_text(fs, first, ansi) + field_text(f, first, ansi)
            =~= field_text(f, first, ansi));
        assert(still_first(fs.push(f).drop_first()));
    } else {
        let next = first && fs[0].value is ErrorLike;
        lemma_event_text_push(fs.drop_first(), f, next, ansi);
        assert(fs.push(f)[0] == fs[0]);
        assert(fs.push(f).drop_first() =~= fs.drop_first().push(f));
        assert(event_text(fs.push(f), first, ansi)
            == field_text(fs[0], first, ansi)
                + (event_text(fs.drop_first(), next, ansi)
                    + field_text(f, next && still_first(fs.drop_first()), ansi)));
        assert(field_text(fs[0], first, ansi)
            + (event_text(fs.drop_first(), next, ansi)
                + field_text(f, next && still_first(fs.drop_first()), ansi))
            =~= (field_text(fs[0], first, ansi) + event_text(fs.drop_first(), next, ansi))
                + field_text(f, next && still_first(fs.drop_first()), ansi));
        assert(still_first(fs) == (fs[0].value is ErrorLike && still_first(fs.drop_first())));
    }
}

/// Renders one event: each field of `fields` in order, the first as the
/// bare message, into the given sink.  Returns the sink with the rendered
/// text appended and the latched write result.
///
/// On a healthy sink the appended text is exactly `event_text` of the
/// fields; on a closed sink nothing is appended, and the one failure is
/// reported whenever the event had any field to write.
pub fn render(fields: &Vec<LogField>, writer: TextSink) -> (res: (TextSink, Result<
    (),
    FormatError,
>))
    ensures
        res.0.ansi == writer.ansi,
        res.0.healthy == writer.healthy,
        writer.healthy ==> res.1 is Ok
            && res.0.text@ == writer.text@ + event_text(fields.deep_view(), true, writer.ansi),
        !writer.healthy ==> res.0.text@ == writer.text@
            && (res.1 is Err <==> fields.len() > 0),
{
    let formatter = DevLogFieldFormatter::new();
    let mut v = formatter.make_visitor(writer);
    let ghost t0 = writer.text@;
    let n = fields.len();
    let mut i: usize = 0;
    proof {
        assert(fields.deep_view().take(0) =~= Seq::<FieldModel>::empty());
    }
    while i < n
        invariant
            i <= n,
            n == fields.len(),
            v.writer.ansi == writer.ansi,
            v.writer.healthy == writer.healthy,
            writer.healthy ==> v.result is Ok
                && v.writer.text@
                    == t0 + event_text(fields.deep_view().take(i as int), true, writer.ansi)
                && v.first_visit == still_first(fields.deep_view().take(i as int)),
            !writer.healthy ==> v.writer.text@ == t0 && (v.result is Err <==> i > 0),
        decreases n - i,
    {
        proof {
            assert(fields.deep_view().take(i as int + 1)
                =~= fields.deep_view().take(i as int).push(fields.deep_view()[i as int]));
            lemma_event_text_push(
                fields.deep_view().take(i as int),
                fields.deep_view()[i as int],
                true,
                writer.ansi,
            );
            assert(fields.deep_view()[i as int] == fields@[i as int]@);
        }
        match &fields[i].value {
            FieldValue::Generic { text } => {
                v.record_debug(fields[i].name.as_str(), text.as_str());
            },
            FieldValue::ErrorLike { error } => {
                v.record_error(fields[i].name.as_str(), error);
            },
        }
        i += 1;
    }
    proof {
        assert(fields.deep_view().take(n as int) =~= fields.deep_view());
    }
    let DevLogFieldVisitor { writer: out, result, first_visit: _ } = v;
    (out, result)
}

/// The fields of the event that reports a failed script run: the error's
/// display text as the message, and, when the error has at least one
/// underlying cause, a `cause` field holding the immediate cause with the
/// remainder of the chain behind it.
pub open spec fn error_event_fields(e: ErrorModel) -> Seq<FieldModel> {
    if e.causes.len() == 0 {
        seq![
            FieldModel { name: "message"@, value: ValueModel::Generic { text: e.display } },
        ]
    } else {
        seq![
            FieldModel { name: "message"@, value: ValueModel::Generic { text: e.display } },
            FieldModel {
                name: "cause"@,
                value: ValueModel::ErrorLike {
                    error: ErrorModel { display: e.causes[0], causes: e.causes.drop_first() },
                },
            },
        ]
    }
}

/// Builds the event that reports `error` at error level: the message is the
/// error's own text; the immediate cause, when there is one, becomes a
/// `cause` field carrying the rest of the chain.  The surrounding harness
/// hands the result to the active logger.
pub fn log_error(error: &ErrorValue) -> (fields: Vec<LogField>)
    ensures
        fields.deep_view() == error_event_fields(error@),
{
    let mut fields: Vec<LogField> = Vec::new();
    fields.push(LogField {
        name: String::from_str("message"),
        value: FieldValue::Generic { text: error.display.clone() },
    });
    if error.causes.len() > 0 {
        let mut rest: Vec<String> = Vec::new();
        let mut i: usize = 1;
        while i < error.causes.len()
            invariant
                1 <= i <= error.causes.len(),
                rest.deep_view() =~= error@.causes.subrange(1, i as int),
            decreases error.causes.len() - i,
        {
            rest.push(error.causes[i].clone());
            proof {
                assert(rest.deep_view()
                    =~= error@.causes.subrange(1, i as int).push(error@.causes[i as int]));
                assert(error@.causes.subrange(1, i as int + 1)
                    =~= error@.causes.subrange(1, i as int).push(error@.causes[i as int]));
            }
            i += 1;
        }
        proof {
            assert(error@.causes.subrange(1, error@.causes.len() as int)
                =~= error@.causes.drop_first());
        }
        fields.push(LogField {
            name: String::from_str("cause"),
            value: FieldValue::ErrorLike {
                error: ErrorValue { display: error.causes[0].clone(), causes: rest },
            },
        });
    }
    proof {
        assert(fields.deep_view() =~~= error_event_fields(error@));
    }
    fields
}

} // verus!
