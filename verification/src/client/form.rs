//! A small form: labelled fields, one of them in focus.
use vstd::prelude::*;

use crate::client::keys::{KeyCode, KeyEvent};
use crate::text;

verus! {

#[derive(Debug)]
pub enum FieldKind {
    Text { value: Vec<char>, cursor: usize },
    Toggle(bool),
    Select { options: Vec<String>, index: usize },
}

#[derive(Debug)]
pub struct Field {
    pub label: String,
    pub kind: FieldKind,
    pub hint: Option<String>,
}

/// A field's content.
#[verifier::ext_equal]
pub enum Content {
    Text { value: Seq<char>, cursor: int },
    Toggle(bool),
    Select { options: Seq<Seq<char>>, index: int },
}

/// A field, as what it holds.
#[verifier::ext_equal]
pub struct Entry {
    pub label: Seq<char>,
    pub kind: Content,
    pub hint: Option<Seq<char>>,
}

/// A form, as what it holds.
#[verifier::ext_equal]
pub struct Sheet {
    pub title: Seq<char>,
    pub fields: Seq<Entry>,
    pub focus: int,
    pub error: Option<Seq<char>>,
}

/// An optional text, as characters.
pub open spec fn opt_text(s: Option<String>) -> Option<Seq<char>> {
    match s {
        Some(s) => Some(s@),
        None => None,
    }
}

impl View for FieldKind {
    type V = Content;

    open spec fn view(&self) -> Content {
        match *self {
            FieldKind::Text { value, cursor } => Content::Text {
                value: value@,
                cursor: cursor as int,
            },
            FieldKind::Toggle(b) => Content::Toggle(b),
            FieldKind::Select { options, index } => Content::Select {
                options: text::views(options@),
                index: index as int,
            },
        }
    }
}

impl View for Field {
    type V = Entry;

    open spec fn view(&self) -> Entry {
        Entry { label: self.label@, kind: self.kind@, hint: opt_text(self.hint) }
    }
}

impl Content {
    /// The cursor stands on the text; the choice can be stepped.
    pub open spec fn wf(self) -> bool {
        match self {
            Content::Text { value, cursor } => 0 <= cursor <= value.len(),
            Content::Toggle(_) => true,
            Content::Select { index, .. } => 0 <= index < usize::MAX,
        }
    }
}

/// A field's content as a text.
pub open spec fn content_text(kind: Content) -> Seq<char> {
    match kind {
        Content::Text { value, .. } => value,
        Content::Toggle(b) => if b {
            "true"@
        } else {
            "false"@
        },
        Content::Select { options, index } => if 0 <= index < options.len() {
            options[index]
        } else {
            seq![]
        },
    }
}

/// The choice that a field holds; the first where it holds none.
pub open spec fn chosen(kind: Content) -> int {
    match kind {
        Content::Select { index, .. } => index,
        _ => 0,
    }
}

impl Field {
    /// A line of text, the cursor at its end.
    pub fn text(label: &str, initial: &str) -> (r: Field)
        ensures
            r@ == (Entry {
                label: label@,
                kind: Content::Text { value: initial@, cursor: initial@.len() as int },
                hint: None,
            }),
    {
        let value: Vec<char> = text::chars_of(initial);
        let cursor: usize = value.len();
        Field { label: label.to_string(), kind: FieldKind::Text { value, cursor }, hint: None }
    }

    pub fn toggle(label: &str, initial: bool) -> (r: Field)
        ensures
            r@ == (Entry { label: label@, kind: Content::Toggle(initial), hint: None }),
    {
        Field { label: label.to_string(), kind: FieldKind::Toggle(initial), hint: None }
    }

    pub fn select(label: &str, options: Vec<String>, index: usize) -> (r: Field)
        ensures
            r@ == (Entry {
                label: label@,
                kind: Content::Select { options: text::views(options@), index: index as int },
                hint: None,
            }),
    {
        Field { label: label.to_string(), kind: FieldKind::Select { options, index }, hint: None }
    }

    /// The same field with a hint.
    pub fn hint(self, hint: &str) -> (r: Field)
        ensures
            r@ == (Entry { hint: Some(hint@), ..self@ }),
    {
        let mut out = self;
        out.hint = Some(hint.to_string());
        out
    }

    pub fn text_value(&self) -> (r: String)
        ensures
            r@ == content_text(self@.kind),
    {
        match &self.kind {
            FieldKind::Text { value, .. } => text::string_of(value),
            FieldKind::Toggle(b) => if *b {
                "true".to_string()
            } else {
                "false".to_string()
            },
            FieldKind::Select { options, index } => if *index < options.len() {
                options[*index].clone()
            } else {
                let out: String = String::new();
                assert(out@ =~= seq![]);
                out
            },
        }
    }

    pub fn bool_value(&self) -> (r: bool)
        ensures
            r == (self@.kind == Content::Toggle(true)),
    {
        matches!(self.kind, FieldKind::Toggle(true))
    }

    pub fn select_index(&self) -> (r: usize)
        ensures
            r == chosen(self@.kind),
    {
        match &self.kind {
            FieldKind::Select { index, .. } => *index,
            _ => 0,
        }
    }
}

#[derive(Debug)]
pub struct Form {
    pub title: String,
    pub fields: Vec<Field>,
    pub focus: usize,
    /// What a rejected submit said, until the next edit.
    pub error: Option<String>,
}

#[derive(Clone, Copy, Debug, PartialEq, Eq, Structural)]
pub enum FormOutcome {
    Idle,
    Submit,
    Cancel,
}

/// The fields, as what they hold.
pub open spec fn entries(fields: Seq<Field>) -> Seq<Entry> {
    fields.map_values(|f: Field| f@)
}

impl View for Form {
    type V = Sheet;

    open spec fn view(&self) -> Sheet {
        Sheet {
            title: self.title@,
            fields: entries(self.fields@),
            focus: self.focus as int,
            error: opt_text(self.error),
        }
    }
}

impl Sheet {
    /// The focus is on a field, where there is one, and every field is sound.
    pub open spec fn wf(self) -> bool {
        &&& 0 <= self.focus
        &&& self.fields.len() > 0 ==> self.focus < self.fields.len()
        &&& forall|i: int| 0 <= i < self.fields.len() ==> (#[trigger] self.fields[i]).kind.wf()
    }
}

/// What a key does to a field's content.
pub open spec fn content_edited(kind: Content, key: KeyEvent) -> Content {
    match kind {
        Content::Text { value, cursor } => match key.code {
            KeyCode::Char(c) => if key.modifiers.control {
                kind
            } else {
                Content::Text { value: value.insert(cursor, c), cursor: cursor + 1 }
            },
            KeyCode::Backspace => if cursor > 0 {
                Content::Text { value: value.remove(cursor - 1), cursor: cursor - 1 }
            } else {
                kind
            },
            KeyCode::Delete => if cursor < value.len() {
                Content::Text { value: value.remove(cursor), cursor }
            } else {
                kind
            },
            KeyCode::Left => Content::Text {
                value,
                cursor: if cursor == 0 {
                    0
                } else {
                    cursor - 1
                },
            },
            KeyCode::Right => Content::Text {
                value,
                cursor: if cursor < value.len() {
                    cursor + 1
                } else {
                    value.len() as int
                },
            },
            KeyCode::Home => Content::Text { value, cursor: 0 },
            KeyCode::End => Content::Text { value, cursor: value.len() as int },
            _ => kind,
        },
        Content::Toggle(b) => if key.code == KeyCode::Char(' ') || key.code == KeyCode::Left
            || key.code == KeyCode::Right {
            Content::Toggle(!b)
        } else {
            kind
        },
        Content::Select { options, index } => if key.code == KeyCode::Left {
            Content::Select {
                options,
                index: if index > 0 {
                    index - 1
                } else if options.len() > 0 {
                    options.len() - 1
                } else {
                    0
                },
            }
        } else if key.code == KeyCode::Right || key.code == KeyCode::Char(' ') {
            Content::Select {
                options,
                index: if options.len() == 0 {
                    0
                } else {
                    (index + 1) % (options.len() as int)
                },
            }
        } else {
            kind
        },
    }
}

/// The focus on the next field, the first after the last.
pub open spec fn focused_next(s: Sheet) -> Sheet {
    if s.fields.len() == 0 {
        s
    } else if s.focus + 1 == s.fields.len() {
        Sheet { focus: 0, ..s }
    } else {
        Sheet { focus: s.focus + 1, ..s }
    }
}

/// The focus on the field before, the last before the first.
pub open spec fn focused_previous(s: Sheet) -> Sheet {
    if s.fields.len() == 0 {
        s
    } else if s.focus == 0 {
        Sheet { focus: s.fields.len() - 1, ..s }
    } else {
        Sheet { focus: s.focus - 1, ..s }
    }
}

/// What a key does to a form.
pub open spec fn form_keyed(s: Sheet, key: KeyEvent) -> (Sheet, FormOutcome) {
    match key.code {
        KeyCode::Esc => (s, FormOutcome::Cancel),
        KeyCode::Enter => (s, FormOutcome::Submit),
        KeyCode::Tab => (focused_next(s), FormOutcome::Idle),
        KeyCode::Down => (focused_next(s), FormOutcome::Idle),
        KeyCode::BackTab => (focused_previous(s), FormOutcome::Idle),
        KeyCode::Up => (focused_previous(s), FormOutcome::Idle),
        _ => (
            if s.fields.len() == 0 {
                Sheet { error: None, ..s }
            } else {
                Sheet {
                    error: None,
                    fields: s.fields.update(
                        s.focus,
                        Entry {
                            kind: content_edited(s.fields[s.focus].kind, key),
                            ..s.fields[s.focus]
                        },
                    ),
                    ..s
                }
            },
            FormOutcome::Idle,
        ),
    }
}

/// Takes a key into a field's content.
pub fn edit_content(kind: &mut FieldKind, key: KeyEvent)
    requires
        old(kind)@.wf(),
    ensures
        final(kind)@ == content_edited(old(kind)@, key),
        final(kind)@.wf(),
{
    match kind {
        FieldKind::Text { value, cursor } => match key.code {
            KeyCode::Char(c) => {
                if !key.modifiers.control {
                    value.insert(*cursor, c);
                    assert(*cursor < value.len());
                    *cursor = *cursor + 1;
                }
            },
            KeyCode::Backspace => {
                if *cursor > 0 {
                    value.remove(*cursor - 1);
                    *cursor = *cursor - 1;
                }
            },
            KeyCode::Delete => {
                if *cursor < value.len() {
                    value.remove(*cursor);
                }
            },
            KeyCode::Left => {
                if *cursor > 0 {
                    *cursor = *cursor - 1;
                }
            },
            KeyCode::Right => {
                if *cursor < value.len() {
                    *cursor = *cursor + 1;
                }
            },
            KeyCode::Home => {
                *cursor = 0;
            },
            KeyCode::End => {
                *cursor = value.len();
            },
            _ => {},
        },
        FieldKind::Toggle(b) => {
            if matches!(key.code, KeyCode::Char(' ') | KeyCode::Left | KeyCode::Right) {
                *b = !*b;
            }
        },
        FieldKind::Select { options, index } => {
            if matches!(key.code, KeyCode::Left) {
                *index = if *index > 0 {
                    *index - 1
                } else if options.len() > 0 {
                    options.len() - 1
                } else {
                    0
                };
            } else if matches!(key.code, KeyCode::Right | KeyCode::Char(' ')) {
                *index = if options.len() == 0 {
                    0
                } else {
                    (*index + 1) % options.len()
                };
            }
        },
    }
}

impl Form {
    pub fn new(title: &str, fields: Vec<Field>) -> (r: Form)
        ensures
            r@ == (Sheet { title: title@, fields: entries(fields@), focus: 0, error: None }),
            r.fields == fields,
    {
        Form { title: title.to_string(), fields, focus: 0, error: None }
    }

    pub fn field(&self, i: usize) -> (r: &Field)
        requires
            i < self.fields.len(),
        ensures
            *r == self.fields@[i as int],
            r@ == self@.fields[i as int],
    {
        &self.fields[i]
    }

    /// Takes in a key.
    pub fn handle_key(&mut self, key: KeyEvent) -> (r: FormOutcome)
        requires
            old(self)@.wf(),
        ensures
            final(self)@.wf(),
            (final(self)@, r) == form_keyed(old(self)@, key),
    {
        match key.code {
            KeyCode::Esc => {
                return FormOutcome::Cancel;
            },
            KeyCode::Enter => {
                return FormOutcome::Submit;
            },
            KeyCode::Tab | KeyCode::Down => {
                self.focus_next();
            },
            KeyCode::BackTab | KeyCode::Up => {
                self.focus_previous();
            },
            _ => {
                self.error = None;
                self.edit(key);
            },
        }
        FormOutcome::Idle
    }

    fn focus_next(&mut self)
        requires
            old(self)@.wf(),
        ensures
            final(self)@ == focused_next(old(self)@),
            final(self)@.wf(),
    {
        if self.fields.len() > 0 {
            self.focus = if self.focus + 1 == self.fields.len() {
                0
            } else {
                self.focus + 1
            };
        }
    }

    fn focus_previous(&mut self)
        requires
            old(self)@.wf(),
        ensures
            final(self)@ == focused_previous(old(self)@),
            final(self)@.wf(),
    {
        if self.fields.len() > 0 {
            self.focus = if self.focus == 0 {
                self.fields.len() - 1
            } else {
                self.focus - 1
            };
        }
    }

    fn edit(&mut self, key: KeyEvent)
        requires
            old(self)@.wf(),
        ensures
            final(self)@.wf(),
            old(self).fields@.len() == 0 ==> *final(self) == *old(self),
            old(self).fields@.len() > 0 ==> final(self)@ == (Sheet {
                fields: old(self)@.fields.update(
                    old(self)@.focus,
                    Entry {
                        kind: content_edited(old(self)@.fields[old(self)@.focus].kind, key),
                        ..old(self)@.fields[old(self)@.focus]
                    },
                ),
                ..old(self)@
            }),
    {
        if self.focus < self.fields.len() {
            let i: usize = self.focus;
            assert(self@.fields[i as int] == self.fields@[i as int]@);
            edit_content(&mut self.fields[i].kind, key);
            assert(self@.fields =~= old(self)@.fields.update(i as int, self.fields@[i as int]@));
        }
    }
}

// ---- laws --------------------------------------------------------------------------

/// A choice that is on the list stays on it, whatever key is pressed.
pub proof fn choices_stay_on_the_list(options: Seq<Seq<char>>, index: int, key: KeyEvent)
    requires
        0 <= index < options.len(),
    ensures
        content_edited(Content::Select { options, index }, key) matches Content::Select {
            options: o,
            index: i,
        } && o == options && 0 <= i < options.len(),
{
}

/// Moving the focus on and back again changes nothing, at either end too.
pub proof fn focus_goes_round(s: Sheet)
    requires
        s.wf(),
    ensures
        focused_previous(focused_next(s)) == s,
        focused_next(focused_previous(s)) == s,
{
}

/// Typing into a field of text puts each character in at the cursor; Backspace and Delete
/// take one beside it; the arrows move by one and Home and End to the ends. Ctrl with a
/// character does nothing.
pub proof fn text_is_edited_at_the_cursor(value: Seq<char>, cursor: int, key: KeyEvent)
    requires
        0 <= cursor <= value.len(),
    ensures
        ({
            let kind = Content::Text { value, cursor };
            let after = content_edited(kind, key);
            &&& after is Text
            &&& key.code matches KeyCode::Char(c) ==> if key.modifiers.control {
                after == kind
            } else {
                after == (Content::Text {
                    value: value.take(cursor) + seq![c] + value.skip(cursor),
                    cursor: cursor + 1,
                })
            }
            &&& key.code == KeyCode::Backspace && cursor > 0 ==> after == (Content::Text {
                value: value.take(cursor - 1) + value.skip(cursor),
                cursor: cursor - 1,
            })
            &&& key.code == KeyCode::Backspace && cursor == 0 ==> after == kind
            &&& key.code == KeyCode::Delete && cursor < value.len() ==> after == (Content::Text {
                value: value.take(cursor) + value.skip(cursor + 1),
                cursor,
            })
            &&& key.code == KeyCode::Delete && cursor == value.len() ==> after == kind
            &&& key.code == KeyCode::Left && cursor > 0 ==> after == (Content::Text {
                value,
                cursor: cursor - 1,
            })
            &&& key.code == KeyCode::Left && cursor == 0 ==> after == kind
            &&& key.code == KeyCode::Right && cursor < value.len() ==> after == (Content::Text {
                value,
                cursor: cursor + 1,
            })
            &&& key.code == KeyCode::Right && cursor == value.len() ==> after == kind
            &&& key.code == KeyCode::Home ==> after == (Content::Text { value, cursor: 0 })
            &&& key.code == KeyCode::End ==> after == (Content::Text {
                value,
                cursor: value.len() as int,
            })
            &&& !(key.code is Char) && key.code != KeyCode::Backspace && key.code
                != KeyCode::Delete && key.code != KeyCode::Left && key.code != KeyCode::Right
                && key.code != KeyCode::Home && key.code != KeyCode::End ==> after == kind
        }),
{
    if let KeyCode::Char(c) = key.code {
        assert(value.insert(cursor, c) =~= value.take(cursor) + seq![c] + value.skip(cursor));
    }
    if cursor > 0 {
        assert(value.remove(cursor - 1) =~= value.take(cursor - 1) + value.skip(cursor));
    }
    if cursor < value.len() {
        assert(value.remove(cursor) =~= value.take(cursor) + value.skip(cursor + 1));
    }
}

/// A switch is flipped by space and by the arrows, and by nothing else.
pub proof fn switches_flip(on: bool, key: KeyEvent)
    ensures
        key.code == KeyCode::Char(' ') || key.code == KeyCode::Left || key.code == KeyCode::Right
            ==> content_edited(Content::Toggle(on), key) == Content::Toggle(!on),
        !(key.code == KeyCode::Char(' ') || key.code == KeyCode::Left || key.code
            == KeyCode::Right) ==> content_edited(Content::Toggle(on), key) == Content::Toggle(on),
{
}

/// A choice goes to the next with Right or space and to the one before with Left, round
/// the ends; no other key changes it.
pub proof fn choices_go_round(options: Seq<Seq<char>>, index: int, key: KeyEvent)
    requires
        0 <= index < options.len(),
    ensures
        ({
            let after = content_edited(Content::Select { options, index }, key);
            let n = options.len() as int;
            let on = key.code == KeyCode::Right || key.code == KeyCode::Char(' ');
            &&& on && index + 1 < n ==> after == (Content::Select { options, index: index + 1 })
            &&& on && index + 1 == n ==> after == (Content::Select { options, index: 0 })
            &&& key.code == KeyCode::Left && index > 0 ==> after == (Content::Select {
                options,
                index: index - 1,
            })
            &&& key.code == KeyCode::Left && index == 0 ==> after == (Content::Select {
                options,
                index: n - 1,
            })
            &&& !on && key.code != KeyCode::Left ==> after == (Content::Select { options, index })
        }),
{
    let n = options.len() as int;
    if index + 1 < n {
        vstd::arithmetic::div_mod::lemma_small_mod((index + 1) as nat, n as nat);
    } else {
        vstd::arithmetic::div_mod::lemma_mod_self_0(n);
    }
}

/// Enter saves a form and Escape gives it up, as it stands. Tab and Down go to the next
/// field, BackTab and Up to the one before, round the ends. Any other key goes to the
/// field in focus, and takes away what was said to be wrong; the other fields stay.
pub proof fn forms_take_keys(s: Sheet, key: KeyEvent)
    requires
        s.wf(),
        s.fields.len() > 0,
    ensures
        ({
            let (after, outcome) = form_keyed(s, key);
            let n = s.fields.len() as int;
            let on = key.code == KeyCode::Tab || key.code == KeyCode::Down;
            let back = key.code == KeyCode::BackTab || key.code == KeyCode::Up;
            &&& outcome is Submit <==> key.code == KeyCode::Enter
            &&& outcome is Cancel <==> key.code == KeyCode::Esc
            &&& key.code == KeyCode::Enter || key.code == KeyCode::Esc ==> after == s
            &&& on ==> after == (Sheet {
                focus: if s.focus == n - 1 {
                    0
                } else {
                    s.focus + 1
                },
                ..s
            })
            &&& back ==> after == (Sheet {
                focus: if s.focus == 0 {
                    n - 1
                } else {
                    s.focus - 1
                },
                ..s
            })
            &&& outcome is Idle && !on && !back ==> {
                &&& after.error is None
                &&& after.focus == s.focus && after.title == s.title && after.fields.len() == n
                &&& forall|i: int|
                    0 <= i < n && i != s.focus ==> #[trigger] after.fields[i] == s.fields[i]
                &&& after.fields[s.focus].label == s.fields[s.focus].label
                &&& after.fields[s.focus].hint == s.fields[s.focus].hint
                &&& after.fields[s.focus].kind == content_edited(s.fields[s.focus].kind, key)
            }
        }),
{
}

/// What a field says: its text, the choice it is on, or whether it is switched on.
pub proof fn fields_say_what_they_hold(kind: Content)
    ensures
        kind matches Content::Text { value, .. } ==> content_text(kind) == value && chosen(kind)
            == 0,
        kind matches Content::Select { options, index } ==> chosen(kind) == index && (0 <= index
            < options.len() ==> content_text(kind) == options[index]),
        kind == Content::Toggle(true) ==> content_text(kind) == "true"@,
        kind == Content::Toggle(false) ==> content_text(kind) == "false"@,
{
}

} // verus!
