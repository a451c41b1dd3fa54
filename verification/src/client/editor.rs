//! Line editor for attach sessions.
//!
//! The bridge to a supervised process is line-oriented, so the remote end can
//! neither echo nor edit. This editor supplies cursor movement, in-line editing
//! and history; drawing is left to the caller.
use vstd::prelude::*;

use crate::client::keys::{KeyCode, KeyEvent};
use crate::text;

verus! {

/// What a key did.
#[derive(Debug, PartialEq, Eq)]
pub enum Keystroke {
    /// The line changed; redraw it.
    Edited,
    /// A finished line to transmit, terminator included.
    Submit(String),
    /// Not an editing key.
    Ignored,
}

pub struct LineEditor {
    pub line: Vec<char>,
    pub cursor: usize,
    pub history: Vec<String>,
    /// Which history entry is shown; none while a fresh line is written.
    pub browsing: Option<usize>,
    /// The fresh line, parked while history is browsed.
    pub stash: Vec<char>,
}

/// An editor as its contents.
#[verifier::ext_equal]
pub struct Editing {
    pub line: Seq<char>,
    pub cursor: int,
    pub history: Seq<Seq<char>>,
    pub browsing: Option<int>,
    pub stash: Seq<char>,
}

/// What a key did, as contents.
pub enum Struck {
    Edited,
    Submit(Seq<char>),
    Ignored,
}

impl View for LineEditor {
    type V = Editing;

    open spec fn view(&self) -> Editing {
        Editing {
            line: self.line@,
            cursor: self.cursor as int,
            history: text::views(self.history@),
            browsing: match self.browsing {
                Some(at) => Some(at as int),
                None => None,
            },
            stash: self.stash@,
        }
    }
}

impl View for Keystroke {
    type V = Struck;

    open spec fn view(&self) -> Struck {
        match *self {
            Keystroke::Edited => Struck::Edited,
            Keystroke::Submit(s) => Struck::Submit(s@),
            Keystroke::Ignored => Struck::Ignored,
        }
    }
}

impl Editing {
    /// The cursor is on the line, and the entry shown exists.
    pub open spec fn wf(self) -> bool {
        &&& 0 <= self.cursor <= self.line.len()
        &&& self.browsing matches Some(at) ==> 0 <= at < self.history.len()
    }
}

/// How far back from `at` the characters are white space, or are not.
pub open spec fn back_over(line: Seq<char>, at: int, white: bool) -> int
    decreases at,
{
    if 0 < at <= line.len() && text::white_space(line[at - 1]) == white {
        back_over(line, at - 1, white)
    } else {
        at
    }
}

/// Where the word before the cursor starts, white space after it included.
pub open spec fn word_start(line: Seq<char>, cursor: int) -> int {
    back_over(line, back_over(line, cursor, true), false)
}

/// The line with one character more, at the cursor.
pub open spec fn typed(e: Editing, c: char) -> Editing {
    Editing { line: e.line.insert(e.cursor, c), cursor: e.cursor + 1, ..e }
}

/// An editor that shows the given entry of its history.
pub open spec fn showing(e: Editing, at: int) -> Editing {
    Editing {
        line: e.history[at],
        cursor: e.history[at].len() as int,
        browsing: Some(at),
        ..e
    }
}

/// One step back in history, towards older entries.
pub open spec fn browsed_back(e: Editing) -> (Editing, Struck) {
    match e.browsing {
        None => if e.history.len() > 0 {
            (showing(Editing { stash: e.line, ..e }, e.history.len() - 1), Struck::Edited)
        } else {
            (e, Struck::Ignored)
        },
        Some(at) => if at == 0 {
            (e, Struck::Ignored)
        } else {
            (showing(e, at - 1), Struck::Edited)
        },
    }
}

/// One step forward in history; past the newest entry stands the fresh line.
pub open spec fn browsed_on(e: Editing) -> (Editing, Struck) {
    match e.browsing {
        None => (e, Struck::Ignored),
        Some(at) => if at + 1 < e.history.len() {
            (showing(e, at + 1), Struck::Edited)
        } else {
            (
                Editing {
                    line: e.stash,
                    cursor: e.stash.len() as int,
                    browsing: None,
                    stash: seq![],
                    ..e
                },
                Struck::Edited,
            )
        },
    }
}

/// The history with a line that was sent: an empty line, or the newest entry
/// once more, adds nothing.
pub open spec fn recorded(history: Seq<Seq<char>>, line: Seq<char>) -> Seq<Seq<char>> {
    if line.len() > 0 && (history.len() == 0 || history.last() != line) {
        history.push(line)
    } else {
        history
    }
}

/// The line is sent.
pub open spec fn submitted(e: Editing) -> (Editing, Struck) {
    (
        Editing {
            line: seq![],
            cursor: 0,
            browsing: None,
            history: recorded(e.history, e.line),
            ..e
        },
        Struck::Submit(e.line + "\r\n"@),
    )
}

/// What a key does while the control key is held.
pub open spec fn struck_with_control(e: Editing, code: KeyCode) -> (Editing, Struck) {
    if code == KeyCode::Char('a') || code == KeyCode::Char('A') {
        (Editing { cursor: 0, ..e }, Struck::Edited)
    } else if code == KeyCode::Char('e') || code == KeyCode::Char('E') {
        (Editing { cursor: e.line.len() as int, ..e }, Struck::Edited)
    } else if code == KeyCode::Char('u') || code == KeyCode::Char('U') {
        (Editing { line: e.line.skip(e.cursor), cursor: 0, ..e }, Struck::Edited)
    } else if code == KeyCode::Char('k') || code == KeyCode::Char('K') {
        (Editing { line: e.line.take(e.cursor), ..e }, Struck::Edited)
    } else if code == KeyCode::Char('w') || code == KeyCode::Char('W') {
        let start = word_start(e.line, e.cursor);
        (
            Editing { line: e.line.take(start) + e.line.skip(e.cursor), cursor: start, ..e },
            Struck::Edited,
        )
    } else {
        (e, Struck::Ignored)
    }
}

/// What a key does.
pub open spec fn struck(e: Editing, key: KeyEvent) -> (Editing, Struck) {
    if key.modifiers.control {
        struck_with_control(e, key.code)
    } else {
        match key.code {
            KeyCode::Enter => submitted(e),
            KeyCode::Char(c) => (typed(e, c), Struck::Edited),
            KeyCode::Tab => (typed(e, '\t'), Struck::Edited),
            KeyCode::Backspace => if e.cursor == 0 {
                (e, Struck::Ignored)
            } else {
                (
                    Editing { line: e.line.remove(e.cursor - 1), cursor: e.cursor - 1, ..e },
                    Struck::Edited,
                )
            },
            KeyCode::Delete => if e.cursor == e.line.len() {
                (e, Struck::Ignored)
            } else {
                (Editing { line: e.line.remove(e.cursor), ..e }, Struck::Edited)
            },
            KeyCode::Left => (
                Editing {
                    cursor: if e.cursor == 0 {
                        0
                    } else {
                        e.cursor - 1
                    },
                    ..e
                },
                Struck::Edited,
            ),
            KeyCode::Right => (
                Editing {
                    cursor: if e.cursor == e.line.len() {
                        e.cursor
                    } else {
                        e.cursor + 1
                    },
                    ..e
                },
                Struck::Edited,
            ),
            KeyCode::Home => (Editing { cursor: 0, ..e }, Struck::Edited),
            KeyCode::End => (Editing { cursor: e.line.len() as int, ..e }, Struck::Edited),
            KeyCode::Up => browsed_back(e),
            KeyCode::Down => browsed_on(e),
            _ => (e, Struck::Ignored),
        }
    }
}

proof fn back_over_is_on_the_line(line: Seq<char>, at: int, white: bool)
    requires
        0 <= at <= line.len(),
    ensures
        0 <= back_over(line, at, white) <= at,
    decreases at,
{
    if 0 < at && text::white_space(line[at - 1]) == white {
        back_over_is_on_the_line(line, at - 1, white);
    }
}

impl Default for LineEditor {
    fn default() -> (r: LineEditor)
        ensures
            r@.wf(),
            r@ == (Editing {
                line: seq![],
                cursor: 0,
                history: seq![],
                browsing: None,
                stash: seq![],
            }),
    {
        LineEditor::new()
    }
}

impl LineEditor {
    /// An empty line with no history.
    pub fn new() -> (r: LineEditor)
        ensures
            r@.wf(),
            r@ == (Editing {
                line: seq![],
                cursor: 0,
                history: seq![],
                browsing: None,
                stash: seq![],
            }),
    {
        LineEditor {
            line: Vec::new(),
            cursor: 0,
            history: Vec::new(),
            browsing: None,
            stash: Vec::new(),
        }
    }

    /// The line as shown: tabs as spaces, so that a column is a character.
    pub fn display(&self) -> (r: String)
        ensures
            r@ == self@.line.map_values(
                |c: char|
                    if c == '\t' {
                        ' '
                    } else {
                        c
                    },
            ),
    {
        let mut out: String = String::new();
        let ghost show = |c: char|
            if c == '\t' {
                ' '
            } else {
                c
            };
        let mut i: usize = 0;
        while i < self.line.len()
            invariant
                i <= self.line.len(),
                show == (|c: char|
                    if c == '\t' {
                        ' '
                    } else {
                        c
                    }),
                out@ == self.line@.take(i as int).map_values(show),
            decreases self.line.len() - i,
        {
            let c: char = self.line[i];
            out.push(
                if c == '\t' {
                    ' '
                } else {
                    c
                },
            );
            i = i + 1;
            assert(out@ =~= self.line@.take(i as int).map_values(show));
        }
        assert(self.line@.take(i as int) =~= self.line@);
        out
    }

    pub fn cursor(&self) -> (r: usize)
        ensures
            r == self@.cursor,
    {
        self.cursor
    }

    /// Takes in a key.
    pub fn handle(&mut self, key: &KeyEvent) -> (r: Keystroke)
        requires
            old(self)@.wf(),
        ensures
            final(self)@.wf(),
            (final(self)@, r@) == struck(old(self)@, *key),
    {
        if key.modifiers.control {
            return self.handle_ctrl(key);
        }
        match key.code {
            KeyCode::Enter => {
                return self.submit();
            },
            KeyCode::Char(c) => {
                self.line.insert(self.cursor, c);
                assert(self.cursor < self.line.len());
                self.cursor = self.cursor + 1;
            },
            KeyCode::Tab => {
                self.line.insert(self.cursor, '\t');
                assert(self.cursor < self.line.len());
                self.cursor = self.cursor + 1;
            },
            KeyCode::Backspace => {
                if self.cursor == 0 {
                    return Keystroke::Ignored;
                }
                self.cursor = self.cursor - 1;
                self.line.remove(self.cursor);
            },
            KeyCode::Delete => {
                if self.cursor == self.line.len() {
                    return Keystroke::Ignored;
                }
                self.line.remove(self.cursor);
            },
            KeyCode::Left => {
                if self.cursor > 0 {
                    self.cursor = self.cursor - 1;
                }
            },
            KeyCode::Right => {
                if self.cursor < self.line.len() {
                    self.cursor = self.cursor + 1;
                }
            },
            KeyCode::Home => {
                self.cursor = 0;
            },
            KeyCode::End => {
                self.cursor = self.line.len();
            },
            KeyCode::Up => {
                return self.browse_back();
            },
            KeyCode::Down => {
                return self.browse_on();
            },
            _ => {
                return Keystroke::Ignored;
            },
        }
        Keystroke::Edited
    }

    fn cut(&mut self, start: usize)
        requires
            old(self)@.wf(),
            start <= old(self).cursor,
        ensures
            final(self)@ == (Editing {
                line: old(self)@.line.take(start as int) + old(self)@.line.skip(old(self)@.cursor),
                cursor: start as int,
                ..old(self)@
            }),
    {
        let mut tail: Vec<char> = self.line.split_off(self.cursor);
        self.line.truncate(start);
        self.line.append(&mut tail);
        self.cursor = start;
        assert(self.line@ =~= old(self)@.line.take(start as int) + old(self)@.line.skip(
            old(self)@.cursor,
        ));
    }

    fn handle_ctrl(&mut self, key: &KeyEvent) -> (r: Keystroke)
        requires
            old(self)@.wf(),
        ensures
            final(self)@.wf(),
            (final(self)@, r@) == struck_with_control(old(self)@, key.code),
    {
        match key.code {
            KeyCode::Char('a') | KeyCode::Char('A') => {
                self.cursor = 0;
            },
            KeyCode::Char('e') | KeyCode::Char('E') => {
                self.cursor = self.line.len();
            },
            KeyCode::Char('u') | KeyCode::Char('U') => {
                self.cut(0);
                assert(self.line@ =~= old(self)@.line.skip(old(self)@.cursor));
            },
            KeyCode::Char('k') | KeyCode::Char('K') => {
                self.line.truncate(self.cursor);
            },
            KeyCode::Char('w') | KeyCode::Char('W') => {
                let mut start: usize = self.cursor;
                let ghost line = self.line@;
                let ghost end = self.cursor as int;
                proof {
                    back_over_is_on_the_line(line, end, true);
                    back_over_is_on_the_line(line, back_over(line, end, true), false);
                }
                while start > 0 && text::is_white_space(self.line[start - 1])
                    invariant
                        self == old(self),
                        line == self.line@,
                        start <= end,
                        end <= line.len(),
                        back_over(line, end, true) == back_over(line, start as int, true),
                    decreases start,
                {
                    start = start - 1;
                }
                let ghost mid = start as int;
                while start > 0 && !text::is_white_space(self.line[start - 1])
                    invariant
                        self == old(self),
                        line == self.line@,
                        start <= mid <= end,
                        end <= line.len(),
                        back_over(line, mid, false) == back_over(line, start as int, false),
                    decreases start,
                {
                    start = start - 1;
                }
                self.cut(start);
            },
            _ => {
                return Keystroke::Ignored;
            },
        }
        Keystroke::Edited
    }

    fn submit(&mut self) -> (r: Keystroke)
        requires
            old(self)@.wf(),
        ensures
            final(self)@.wf(),
            (final(self)@, r@) == submitted(old(self)@),
    {
        let sent: String = text::string_of(&self.line);
        self.line = Vec::new();
        self.cursor = 0;
        self.browsing = None;
        let new: bool = if self.history.len() == 0 {
            true
        } else {
            !text::same(&self.history[self.history.len() - 1], &sent)
        };
        assert(self.history@.len() > 0 ==> text::views(self.history@).last()
            == self.history@.last()@);
        if !sent.as_str().is_empty() && new {
            let ghost before = text::views(self.history@);
            self.history.push(sent.clone());
            assert(text::views(self.history@) =~= before.push(sent@));
        }
        Keystroke::Submit(text::cat2(&sent, "\r\n"))
    }

    fn show(&mut self, at: usize)
        requires
            at < old(self)@.history.len(),
        ensures
            final(self)@ == showing(old(self)@, at as int),
    {
        self.browsing = Some(at);
        self.line = text::chars_of(&self.history[at]);
        self.cursor = self.line.len();
        assert(text::views(self.history@)[at as int] == self.history@[at as int]@);
    }

    fn browse_back(&mut self) -> (r: Keystroke)
        requires
            old(self)@.wf(),
        ensures
            final(self)@.wf(),
            (final(self)@, r@) == browsed_back(old(self)@),
    {
        match self.browsing {
            None => {
                if self.history.len() == 0 {
                    return Keystroke::Ignored;
                }
                let mut line: Vec<char> = Vec::new();
                std::mem::swap(&mut line, &mut self.line);
                self.stash = line;
                let at: usize = self.history.len() - 1;
                self.show(at);
            },
            Some(at) => {
                if at == 0 {
                    return Keystroke::Ignored;
                }
                self.show(at - 1);
            },
        }
        Keystroke::Edited
    }

    fn browse_on(&mut self) -> (r: Keystroke)
        requires
            old(self)@.wf(),
        ensures
            final(self)@.wf(),
            (final(self)@, r@) == browsed_on(old(self)@),
    {
        match self.browsing {
            None => {
                return Keystroke::Ignored;
            },
            Some(at) => {
                assert(at < self.history.len());
                if at + 1 < self.history.len() {
                    self.show(at + 1);
                } else {
                    self.browsing = None;
                    let mut line: Vec<char> = Vec::new();
                    std::mem::swap(&mut line, &mut self.stash);
                    self.line = line;
                    self.cursor = self.line.len();
                }
            },
        }
        Keystroke::Edited
    }
}

// ---- laws --------------------------------------------------------------------------

/// The same entry does not stand twice in a row.
pub open spec fn no_repeats(history: Seq<Seq<char>>) -> bool {
    forall|i: int| 0 <= i < history.len() - 1 ==> #[trigger] history[i] != history[i + 1]
}

/// Whatever is typed, the cursor stays on the line, the entry shown exists, and
/// consecutive duplicates collapse in history.
pub proof fn editing_keeps_its_shape(e: Editing, key: KeyEvent)
    requires
        e.wf(),
        no_repeats(e.history),
    ensures
        struck(e, key).0.wf(),
        no_repeats(struck(e, key).0.history),
{
    if key.modifiers.control {
        back_over_is_on_the_line(e.line, e.cursor, true);
        back_over_is_on_the_line(e.line, back_over(e.line, e.cursor, true), false);
    }
    let after = recorded(e.history, e.line);
    assert forall|i: int| 0 <= i < after.len() - 1 implies #[trigger] after[i] != after[i + 1] by {
        if i + 1 < e.history.len() {
            assert(after[i] == e.history[i] && after[i + 1] == e.history[i + 1]);
        }
    }
}

/// Going back into history from a fresh line and on again restores that line.
pub proof fn browsing_restores_the_fresh_line(e: Editing)
    requires
        e.wf(),
        e.browsing is None,
        e.history.len() > 0,
    ensures
        browsed_on(browsed_back(e).0).0.line == e.line,
        browsed_on(browsed_back(e).0).0.browsing is None,
        browsed_on(browsed_back(e).0).0.history == e.history,
{
}

/// A character that is typed and then taken back leaves the line as it was.
pub proof fn backspace_undoes_typing(e: Editing, c: char)
    requires
        e.wf(),
    ensures
        ({
            let back = KeyEvent {
                code: KeyCode::Backspace,
                modifiers: crate::client::keys::KeyModifiers {
                    control: false,
                    alt: false,
                    shift: false,
                },
            };
            struck(typed(e, c), back).0 == e
        }),
{
    assert(e.line.insert(e.cursor, c).remove(e.cursor) =~= e.line);
}

/// A key without modifiers.
pub open spec fn bare(code: KeyCode) -> KeyEvent {
    KeyEvent {
        code,
        modifiers: crate::client::keys::KeyModifiers { control: false, alt: false, shift: false },
    }
}

/// Left and Right move the cursor one character, as far as the line goes, and change
/// nothing else.
pub proof fn arrows_move_by_one(e: Editing, key: KeyEvent)
    requires
        e.wf(),
        !key.modifiers.control,
    ensures
        key.code == KeyCode::Right && e.cursor < e.line.len() ==> struck(e, key).0 == (Editing {
            cursor: e.cursor + 1,
            ..e
        }),
        key.code == KeyCode::Right && e.cursor == e.line.len() ==> struck(e, key).0 == e,
        key.code == KeyCode::Left && e.cursor > 0 ==> struck(e, key).0 == (Editing {
            cursor: e.cursor - 1,
            ..e
        }),
        key.code == KeyCode::Left && e.cursor == 0 ==> struck(e, key).0 == e,
{
}

/// From any place but the start, Left and then Right leave the editor as it was; from
/// any but the end, Right and then Left do.
pub proof fn arrows_undo_each_other(e: Editing)
    requires
        e.wf(),
    ensures
        e.cursor > 0 ==> struck(struck(e, bare(KeyCode::Left)).0, bare(KeyCode::Right)).0 == e,
        e.cursor < e.line.len() ==> struck(
            struck(e, bare(KeyCode::Right)).0,
            bare(KeyCode::Left),
        ).0 == e,
{
}

/// Home and Ctrl+A go to the start, End and Ctrl+E to the end; the line stays.
pub proof fn the_ends_are_reached(e: Editing, key: KeyEvent)
    requires
        e.wf(),
    ensures
        !key.modifiers.control && key.code == KeyCode::Home ==> struck(e, key).0 == (Editing {
            cursor: 0,
            ..e
        }),
        !key.modifiers.control && key.code == KeyCode::End ==> struck(e, key).0 == (Editing {
            cursor: e.line.len() as int,
            ..e
        }),
        key.modifiers.control && (key.code == KeyCode::Char('a') || key.code == KeyCode::Char('A'))
            ==> struck(e, key).0 == (Editing { cursor: 0, ..e }),
        key.modifiers.control && (key.code == KeyCode::Char('e') || key.code == KeyCode::Char('E'))
            ==> struck(e, key).0 == (Editing { cursor: e.line.len() as int, ..e }),
{
}

/// A character comes in at the cursor, which moves past it: what stood before it stands
/// before it, and what stood behind stands behind. Tab is a character too.
pub proof fn characters_come_in_at_the_cursor(e: Editing, key: KeyEvent)
    requires
        e.wf(),
        !key.modifiers.control,
        key.code is Char || key.code == KeyCode::Tab,
    ensures
        ({
            let c = if key.code == KeyCode::Tab {
                '\t'
            } else {
                key.code->Char_0
            };
            let after = struck(e, key).0;
            &&& after.line == e.line.take(e.cursor) + seq![c] + e.line.skip(e.cursor)
            &&& after.cursor == e.cursor + 1
            &&& after.history == e.history && after.browsing == e.browsing && after.stash == e.stash
            &&& struck(e, key).1 is Edited
        }),
{
    let c = if key.code == KeyCode::Tab {
        '\t'
    } else {
        key.code->Char_0
    };
    assert(e.line.insert(e.cursor, c) =~= e.line.take(e.cursor) + seq![c] + e.line.skip(e.cursor));
}

/// Backspace takes the character before the cursor, Delete the one behind it; where
/// there is none, nothing happens.
pub proof fn one_character_is_taken(e: Editing, key: KeyEvent)
    requires
        e.wf(),
        !key.modifiers.control,
    ensures
        key.code == KeyCode::Backspace && e.cursor > 0 ==> struck(e, key).0 == (Editing {
            line: e.line.take(e.cursor - 1) + e.line.skip(e.cursor),
            cursor: e.cursor - 1,
            ..e
        }),
        key.code == KeyCode::Backspace && e.cursor == 0 ==> struck(e, key) == (e, Struck::Ignored),
        key.code == KeyCode::Delete && e.cursor < e.line.len() ==> struck(e, key).0 == (Editing {
            line: e.line.take(e.cursor) + e.line.skip(e.cursor + 1),
            ..e
        }),
        key.code == KeyCode::Delete && e.cursor == e.line.len() ==> struck(e, key) == (
            e,
            Struck::Ignored,
        ),
{
    if e.cursor > 0 {
        assert(e.line.remove(e.cursor - 1) =~= e.line.take(e.cursor - 1) + e.line.skip(e.cursor));
    }
    if e.cursor < e.line.len() {
        assert(e.line.remove(e.cursor) =~= e.line.take(e.cursor) + e.line.skip(e.cursor + 1));
    }
}

/// Whether a word, or nothing at the start of the line, and then white space only stand
/// from `start` over `end` to `at`.
pub open spec fn word_and_blanks(line: Seq<char>, start: int, end: int, at: int) -> bool {
    &&& start <= end <= at
    &&& forall|i: int| start <= i < end ==> !text::white_space(#[trigger] line[i])
    &&& forall|i: int| end <= i < at ==> text::white_space(#[trigger] line[i])
    &&& start < end || start == 0
}

/// Ctrl+U takes everything before the cursor and Ctrl+K everything behind it. Ctrl+W
/// takes the word before the cursor with the white space after it: what is left ends
/// before a word, and nothing else is lost.
pub proof fn stretches_are_taken(e: Editing, key: KeyEvent)
    requires
        e.wf(),
        key.modifiers.control,
    ensures
        key.code == KeyCode::Char('u') || key.code == KeyCode::Char('U') ==> struck(e, key).0 == (
        Editing { line: e.line.skip(e.cursor), cursor: 0, ..e }),
        key.code == KeyCode::Char('k') || key.code == KeyCode::Char('K') ==> struck(e, key).0 == (
        Editing { line: e.line.take(e.cursor), ..e }),
        key.code == KeyCode::Char('w') || key.code == KeyCode::Char('W') ==> {
            let after = struck(e, key).0;
            &&& 0 <= after.cursor <= e.cursor
            &&& after.line == e.line.take(after.cursor) + e.line.skip(e.cursor)
            &&& after.history == e.history && after.browsing == e.browsing && after.stash == e.stash
            &&& after.cursor > 0 ==> text::white_space(e.line[after.cursor - 1])
            &&& exists|end: int| word_and_blanks(e.line, after.cursor, end, e.cursor)
        },
{
    if key.code == KeyCode::Char('w') || key.code == KeyCode::Char('W') {
        let end = back_over(e.line, e.cursor, true);
        let start = back_over(e.line, end, false);
        back_over_tells(e.line, e.cursor, true);
        back_over_tells(e.line, end, false);
        assert(word_and_blanks(e.line, start, end, e.cursor));
    }
}

proof fn back_over_tells(line: Seq<char>, at: int, white: bool)
    requires
        0 <= at <= line.len(),
    ensures
        ({
            let start = back_over(line, at, white);
            &&& 0 <= start <= at
            &&& forall|i: int| start <= i < at ==> text::white_space(#[trigger] line[i]) == white
            &&& start > 0 ==> text::white_space(line[start - 1]) != white
        }),
    decreases at,
{
    if at > 0 && text::white_space(line[at - 1]) == white {
        back_over_tells(line, at - 1, white);
    }
}

/// Enter sends the whole line, wherever the cursor stands, with a line break, and
/// leaves an empty one. What was sent is the newest in the history, unless it was empty
/// or already is.
pub proof fn enter_sends_the_line(e: Editing, key: KeyEvent)
    requires
        e.wf(),
        !key.modifiers.control,
        key.code == KeyCode::Enter,
    ensures
        ({
            let (after, sent) = struck(e, key);
            &&& sent matches Struck::Submit(s) && s.len() == e.line.len() + 2 && s.take(
                e.line.len() as int,
            ) == e.line && s[e.line.len() as int] == '\r' && s[e.line.len() as int + 1] == '\n'
            &&& after.line.len() == 0
            &&& after.cursor == 0
            &&& after.browsing is None
            &&& e.line.len() > 0 ==> after.history.len() > 0 && after.history.last() == e.line
            &&& e.line.len() == 0 ==> after.history == e.history
            &&& after.history == e.history || after.history == e.history.push(e.line)
            &&& e.history.len() > 0 && e.history.last() == e.line ==> after.history == e.history
        }),
{
    reveal_strlit("\r\n");
    let s = e.line + "\r\n"@;
    assert(s.take(e.line.len() as int) =~= e.line);
}

/// Up goes through what was sent, from the newest to the oldest and no further; Down
/// goes back. An entry is shown whole, with the cursor at its end; the history itself
/// never changes.
pub proof fn history_is_walked_in_order(e: Editing)
    requires
        e.wf(),
    ensures
        ({
            let (after, done) = struck(e, bare(KeyCode::Up));
            let oldest = e.history.len() == 0 || e.browsing == Some(0int);
            &&& after.history == e.history
            &&& oldest ==> after == e && done is Ignored
            &&& !oldest ==> {
                let at = match e.browsing {
                    Some(at) => at - 1,
                    None => e.history.len() - 1,
                };
                &&& after.browsing == Some(at)
                &&& after.line == e.history[at]
                &&& after.cursor == e.history[at].len()
                &&& after.stash == (if e.browsing is None {
                    e.line
                } else {
                    e.stash
                })
                &&& done is Edited
            }
        }),
        ({
            let (after, done) = struck(e, bare(KeyCode::Down));
            &&& after.history == e.history
            &&& e.browsing is None ==> after == e && done is Ignored
            &&& e.browsing matches Some(at) ==> done is Edited && if at + 1 < e.history.len() {
                &&& after.browsing == Some(at + 1)
                &&& after.line == e.history[at + 1]
                &&& after.cursor == e.history[at + 1].len()
                &&& after.stash == e.stash
            } else {
                &&& after.browsing is None
                &&& after.line == e.stash
                &&& after.cursor == e.stash.len()
            }
        }),
{
}

/// While history is shown, Up and then Down come back to the same entry.
pub proof fn walking_back_and_on_returns(e: Editing)
    requires
        e.wf(),
        e.browsing matches Some(at) && at > 0 && e.line == e.history[at] && e.cursor
            == e.line.len(),
    ensures
        struck(struck(e, bare(KeyCode::Up)).0, bare(KeyCode::Down)).0 == e,
{
}

/// A key that means nothing here changes nothing.
pub proof fn other_keys_change_nothing(e: Editing, key: KeyEvent)
    requires
        key.modifiers.control ==> (key.code matches KeyCode::Char(c) ==> c != 'a' && c != 'A' && c
            != 'e' && c != 'E' && c != 'u' && c != 'U' && c != 'k' && c != 'K' && c != 'w' && c
            != 'W'),
        !key.modifiers.control ==> key.code == KeyCode::Esc || key.code == KeyCode::BackTab
            || key.code == KeyCode::Insert || key.code == KeyCode::PageUp || key.code
            == KeyCode::PageDown || key.code is F || key.code == KeyCode::Other,
    ensures
        struck(e, key) == (e, Struck::Ignored),
{
}

} // verus!
