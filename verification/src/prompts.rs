//! The leaf widgets: each collects one primitive value from a stream of
//! key events. A widget is a state machine: once set up it is active;
//! each event yields the next protocol state (stay active, ready to
//! submit, cancelled, a recoverable error, or a fatal failure).

use vstd::prelude::*;

use crate::document::{NumFacets, StringFacets};
use crate::text::{chars_to_string, nat_text};
use crate::validate::{
    number_verdict, parse_int, parse_int_spec, string_verdict, validate_number, validate_string,
    Validation,
};
use crate::value::Val;

verus! {

broadcast use vstd::std_specs::vec::group_vec_axioms, vstd::seq::group_seq_axioms;

/// One discrete input event, as the surrounding program hands it in.
#[derive(Debug, Clone, Copy, PartialEq, Eq)]
pub enum Event {
    Char(char),
    Enter,
    Esc,
    CtrlC,
    Up,
    Down,
    Left,
    Right,
    Backspace,
    Delete,
    Home,
    End,
}

/// The protocol state a widget reports after an event.
#[derive(Debug, PartialEq, Eq)]
pub enum PromptState {
    Active,
    Submit,
    Cancel,
    Error(String),
    Fatal(String),
}


/// What one editing event does to a line: the text after it and the new
/// cursor position. A character is inserted at the cursor, `Backspace`
/// and `Delete` remove around it, the motion keys move it; any other
/// event changes nothing.
pub open spec fn edit_spec(chars: Seq<char>, cursor: int, e: Event) -> (Seq<char>, int) {
    match e {
        Event::Char(c) => (chars.insert(cursor, c), cursor + 1),
        Event::Backspace => if cursor > 0 {
            (chars.remove(cursor - 1), cursor - 1)
        } else {
            (chars, cursor)
        },
        Event::Delete => if cursor < chars.len() {
            (chars.remove(cursor), cursor)
        } else {
            (chars, cursor)
        },
        Event::Left => (chars, if cursor > 0 {
            cursor - 1
        } else {
            0
        }),
        Event::Right => (chars, if cursor < chars.len() {
            cursor + 1
        } else {
            cursor
        }),
        Event::Home => (chars, 0),
        Event::End => (chars, chars.len() as int),
        _ => (chars, cursor),
    }
}

/// A line editor: the typed characters and a cursor position within them.
pub struct InputBuffer {
    pub chars: Vec<char>,
    pub cursor: usize,
}

impl InputBuffer {
    /// The cursor never leaves the text.
    pub open spec fn wf(&self) -> bool {
        self.cursor <= self.chars@.len()
    }

    pub fn new() -> (r: InputBuffer)
        ensures
            r.wf(),
            r.chars@ == Seq::<char>::empty(),
            r.cursor == 0,
    {
        InputBuffer { chars: Vec::new(), cursor: 0 }
    }

    /// Applies one editing event: a character is inserted at the cursor,
    /// `Backspace` and `Delete` remove around it, the motion keys move it;
    /// any other event leaves the buffer alone.
    pub fn edit(self, e: Event) -> (r: InputBuffer)
        requires
            self.wf(),
        ensures
            r.wf(),
            (r.chars@, r.cursor as int) == edit_spec(self.chars@, self.cursor as int, e),
    {
        let InputBuffer { mut chars, mut cursor } = self;
        match e {
            Event::Char(c) => {
                chars.insert(cursor, c);
                let n = chars.len();
                assert(cursor < n);
                cursor = cursor + 1;
            },
            Event::Backspace => {
                if cursor > 0 {
                    chars.remove(cursor - 1);
                    cursor = cursor - 1;
                }
            },
            Event::Delete => {
                if cursor < chars.len() {
                    chars.remove(cursor);
                }
            },
            Event::Left => {
                if cursor > 0 {
                    cursor = cursor - 1;
                }
            },
            Event::Right => {
                if cursor < chars.len() {
                    cursor = cursor + 1;
                }
            },
            Event::Home => {
                cursor = 0;
            },
            Event::End => {
                cursor = chars.len();
            },
            _ => {},
        }
        InputBuffer { chars, cursor }
    }
}

/// A yes/no choice. `y` and `n` answer and submit at once; the arrow keys
/// toggle; `Enter` submits the current answer.
pub struct BooleanPrompt {
    pub message: String,
    pub description: Option<String>,
    pub value: bool,
}

impl BooleanPrompt {
    pub fn new(message: String, description: Option<String>) -> (r: BooleanPrompt)
        ensures
            r.message == message,
            r.description == description,
            r.value == false,
    {
        BooleanPrompt { message, description, value: false }
    }

    /// Sets the descriptive hint.
    pub fn with_hint(self, hint: String) -> (r: BooleanPrompt)
        ensures
            r.message == self.message,
            r.description == Option::Some(hint),
            r.value == self.value,
    {
        BooleanPrompt { description: Option::Some(hint), ..self }
    }

    /// Sets the answer the prompt starts from.
    pub fn with_default(self, value: bool) -> (r: BooleanPrompt)
        ensures
            r.message == self.message,
            r.description == self.description,
            r.value == value,
    {
        BooleanPrompt { value, ..self }
    }

    /// What one event does to a yes/no choice: `y` and `n` answer and
    /// submit, the arrow keys toggle, `Enter` submits the current answer,
    /// `Esc` and control-C cancel, and anything else changes nothing.
    pub open spec fn handle_rel(self, e: Event, post: BooleanPrompt, st: PromptState) -> bool {
        &&& post.message == self.message
        &&& post.description == self.description
        &&& match e {
            Event::Char(c) => if c == 'y' {
                post.value == true && st is Submit
            } else if c == 'n' {
                post.value == false && st is Submit
            } else {
                post == self && st is Active
            },
            Event::Up | Event::Down | Event::Left | Event::Right => post.value == !self.value
                && st is Active,
            Event::Enter => post.value == self.value && st is Submit,
            Event::Esc | Event::CtrlC => post == self && st is Cancel,
            _ => post == self && st is Active,
        }
    }

    /// One step of the state machine.
    pub fn handle(self, e: Event) -> (r: (BooleanPrompt, PromptState))
        ensures
            self.handle_rel(e, r.0, r.1),
    {
        match e {
            Event::Char(c) => {
                if c == 'y' {
                    (BooleanPrompt { value: true, ..self }, PromptState::Submit)
                } else if c == 'n' {
                    (BooleanPrompt { value: false, ..self }, PromptState::Submit)
                } else {
                    (self, PromptState::Active)
                }
            },
            Event::Up | Event::Down | Event::Left | Event::Right => {
                let v = !self.value;
                (BooleanPrompt { value: v, ..self }, PromptState::Active)
            },
            Event::Enter => (self, PromptState::Submit),
            Event::Esc | Event::CtrlC => (self, PromptState::Cancel),
            _ => (self, PromptState::Active),
        }
    }

    pub fn submit(&self) -> (r: Val)
        ensures
            r@ == crate::value::ValSpec::Bool(self.value),
    {
        Val::Bool(self.value)
    }
}

/// A free-form text input with the declared string facets; a password
/// format only changes how the input is rendered.
pub struct TextPrompt {
    pub message: String,
    pub hint: Option<String>,
    pub facets: StringFacets,
    pub buf: InputBuffer,
}

impl TextPrompt {
    pub open spec fn wf(&self) -> bool {
        self.buf.wf()
    }

    /// Sets the descriptive hint.
    pub fn with_hint(self, hint: String) -> (r: TextPrompt)
        ensures
            r.message == self.message,
            r.hint == Option::Some(hint),
            r.facets == self.facets,
            r.buf == self.buf,
    {
        TextPrompt { hint: Option::Some(hint), ..self }
    }

    /// What one event does to a text input: editing keys edit the buffer,
    /// `Enter` offers the typed text, `Esc` and control-C cancel.
    pub open spec fn handle_rel(self, e: Event, post: TextPrompt, st: PromptState) -> bool {
        &&& post.message == self.message
        &&& post.hint == self.hint
        &&& post.facets == self.facets
        &&& match e {
            Event::Enter => post == self && st is Submit,
            Event::Esc | Event::CtrlC => post == self && st is Cancel,
            Event::Up | Event::Down => post == self && st is Active,
            _ => (post.buf.chars@, post.buf.cursor as int) == edit_spec(
                self.buf.chars@,
                self.buf.cursor as int,
                e,
            ) && st is Active,
        }
    }

    /// One step of the state machine: editing keys edit, `Enter` offers
    /// the typed text, `Esc` and control-C cancel.
    pub fn handle(self, e: Event) -> (r: (TextPrompt, PromptState))
        requires
            self.wf(),
        ensures
            r.0.wf(),
            self.handle_rel(e, r.0, r.1),
    {
        match e {
            Event::Enter => (self, PromptState::Submit),
            Event::Esc | Event::CtrlC => (self, PromptState::Cancel),
            Event::Up | Event::Down => (self, PromptState::Active),
            _ => {
                let TextPrompt { message, hint, facets, buf } = self;
                let buf = buf.edit(e);
                (TextPrompt { message, hint, facets, buf }, PromptState::Active)
            },
        }
    }

    /// Checks the typed text against the declared facets: acceptance
    /// exactly when pattern and length bounds hold, the first violated
    /// rule naming itself.
    pub fn validate(&self) -> (r: Validation)
        ensures
            string_verdict(self.facets, self.buf.chars@, r),
    {
        validate_string(&self.facets, &self.buf.chars)
    }

    pub fn submit(&self) -> (r: Val)
        ensures
            r@ == crate::value::ValSpec::Str(self.buf.chars@),
    {
        Val::Str(chars_to_string(&self.buf.chars))
    }
}

/// A free-form numeric input with the declared facets. The collected value
/// is an integer; `integer` records which of the two numeric tags the
/// schema declared.
pub struct NumberPrompt {
    pub message: String,
    pub hint: Option<String>,
    pub facets: NumFacets,
    pub integer: bool,
    pub buf: InputBuffer,
}

impl NumberPrompt {
    pub open spec fn wf(&self) -> bool {
        self.buf.wf()
    }

    /// Whether the typed text currently parses to a value.
    pub open spec fn parses(&self) -> bool {
        parse_int_spec(self.buf.chars@) is Some
    }

    /// Sets the descriptive hint.
    pub fn with_hint(self, hint: String) -> (r: NumberPrompt)
        ensures
            r.message == self.message,
            r.hint == Option::Some(hint),
            r.facets == self.facets,
            r.integer == self.integer,
            r.buf == self.buf,
    {
        NumberPrompt { hint: Option::Some(hint), ..self }
    }

    /// What one event does to a numeric input: editing keys edit the
    /// buffer, `Enter` offers the typed text, `Esc` and control-C cancel.
    pub open spec fn handle_rel(self, e: Event, post: NumberPrompt, st: PromptState) -> bool {
        &&& post.message == self.message
        &&& post.hint == self.hint
        &&& post.facets == self.facets
        &&& post.integer == self.integer
        &&& match e {
            Event::Enter => post == self && st is Submit,
            Event::Esc | Event::CtrlC => post == self && st is Cancel,
            Event::Up | Event::Down => post == self && st is Active,
            _ => (post.buf.chars@, post.buf.cursor as int) == edit_spec(
                self.buf.chars@,
                self.buf.cursor as int,
                e,
            ) && st is Active,
        }
    }

    /// One step of the state machine: editing keys edit, `Enter` offers
    /// the typed text, `Esc` and control-C cancel.
    pub fn handle(self, e: Event) -> (r: (NumberPrompt, PromptState))
        requires
            self.wf(),
        ensures
            r.0.wf(),
            self.handle_rel(e, r.0, r.1),
    {
        match e {
            Event::Enter => (self, PromptState::Submit),
            Event::Esc | Event::CtrlC => (self, PromptState::Cancel),
            Event::Up | Event::Down => (self, PromptState::Active),
            _ => {
                let NumberPrompt { message, hint, facets, integer, buf } = self;
                let buf = buf.edit(e);
                (NumberPrompt { message, hint, facets, integer, buf }, PromptState::Active)
            },
        }
    }

    /// Checks the typed text against the declared facets: acceptance
    /// exactly when the text parses to a value within the bounds and a
    /// multiple of the declared factor, the first violated rule naming
    /// itself; acceptance guarantees the text parses.
    pub fn validate(&self) -> (r: Validation)
        ensures
            number_verdict(self.facets, self.buf.chars@, r),
            r is Valid ==> self.parses(),
    {
        validate_number(&self.facets, &self.buf.chars)
    }

    pub fn submit(&self) -> (r: Val)
        requires
            self.parses(),
        ensures
            r@ == crate::value::ValSpec::Int(parse_int_spec(self.buf.chars@)->0 as int),
    {
        match parse_int(&self.buf.chars) {
            Option::Some(v) => Val::Int(v),
            Option::None => Val::Int(0),
        }
    }
}

/// One selectable option: its label, an optional hint, and the value it
/// stands for.
pub struct SelectOption {
    pub label: String,
    pub hint: Option<String>,
    pub value: Val,
}

/// What matching a label against a typed pattern yields: a score when the
/// label matches fuzzily, nothing otherwise.
pub uninterp spec fn fuzzy_score(label: Seq<char>, pattern: Seq<char>) -> Option<i64>;

/// Relies on fuzzy_matcher's `SkimMatcherV2::fuzzy_match` with the default
/// configuration: the score is a function of the label and the pattern
/// alone, and an empty pattern matches every label with score zero.
#[verifier::external_body]
fn fuzzy_match_exec(label: &str, pattern: &str) -> (r: Option<i64>)
    ensures
        r == fuzzy_score(label@, pattern@),
        pattern@.len() == 0 ==> r == Option::<i64>::Some(0),
{
    <fuzzy_matcher::skim::SkimMatcherV2 as fuzzy_matcher::FuzzyMatcher>::fuzzy_match(
        &fuzzy_matcher::skim::SkimMatcherV2::default(),
        label,
        pattern,
    )
}

/// The indices of the options whose label fuzzily matches the pattern,
/// among the first `i`.
pub open spec fn filtered_spec(opts: Seq<SelectOption>, pattern: Seq<char>, i: int) -> Seq<usize>
    decreases i,
{
    if i <= 0 {
        Seq::<usize>::empty()
    } else if i > opts.len() {
        filtered_spec(opts, pattern, opts.len() as int)
    } else if fuzzy_score(opts[i - 1].label@, pattern) is Some {
        filtered_spec(opts, pattern, i - 1).push((i - 1) as usize)
    } else {
        filtered_spec(opts, pattern, i - 1)
    }
}

/// A selection list with fuzzy filtering: typing narrows the options to
/// those whose label matches the typed pattern; the arrow keys move the
/// highlight; `Enter` submits the highlighted option.
pub struct Enumeration {
    pub message: String,
    pub options: Vec<SelectOption>,
    pub filtered: Vec<usize>,
    pub index: usize,
    pub input: InputBuffer,
}

impl Enumeration {
    /// The filter always reflects the typed pattern, and the highlight
    /// stays on a filtered option as long as any remains.
    pub open spec fn wf(&self) -> bool {
        &&& self.input.wf()
        &&& self.filtered@ == filtered_spec(self.options@, self.input.chars@, self.options@.len() as int)
        &&& forall|i: int| 0 <= i < self.filtered@.len() ==> self.filtered@[i] < self.options@.len()
        &&& (self.filtered@.len() == 0 ==> self.index == 0)
        &&& (self.filtered@.len() > 0 ==> self.index < self.filtered@.len())
    }

    /// Whether a selection exists to submit.
    pub open spec fn has_selection(&self) -> bool {
        self.index < self.filtered@.len()
    }

    /// The selected option.
    pub open spec fn selected(&self) -> SelectOption
        recommends
            self.has_selection(),
            self.wf(),
    {
        self.options@[self.filtered@[self.index as int] as int]
    }

    pub fn new(message: String, options: Vec<SelectOption>) -> (r: Enumeration)
        ensures
            r.wf(),
            r.message == message,
            r.options == options,
            r.input.chars@ == Seq::<char>::empty(),
            // With nothing typed yet, every option is visible, in order.
            r.filtered@.len() == options@.len(),
            forall|i: int| 0 <= i < options@.len() ==> r.filtered@[i] == i,
            r.index == 0,
    {
        let mut e = Enumeration {
            message,
            options,
            filtered: Vec::new(),
            index: 0,
            input: InputBuffer::new(),
        };
        e.run_filter();
        e
    }

    /// Recomputes the filtered indices for the current pattern and clamps
    /// the highlight into them.
    fn run_filter(&mut self)
        requires
            old(self).input.wf(),
        ensures
            final(self).wf(),
            final(self).message == old(self).message,
            final(self).options == old(self).options,
            final(self).input == old(self).input,
            old(self).input.chars@.len() == 0 ==> final(self).filtered@.len()
                == old(self).options@.len() && (forall|i: int|
                0 <= i < old(self).options@.len() ==> final(self).filtered@[i] == i) && (
            old(self).index == 0 ==> final(self).index == 0),
    {
        let pattern = chars_to_string(&self.input.chars);
        let mut keep: Vec<usize> = Vec::new();
        let mut i: usize = 0;
        #[verifier::loop_isolation(false)]
        while i < self.options.len()
            invariant
                0 <= i <= self.options@.len(),
                keep@ == filtered_spec(self.options@, self.input.chars@, i as int),
                forall|j: int| 0 <= j < keep@.len() ==> keep@[j] < self.options@.len(),
                self.input.chars@.len() == 0 ==> keep@.len() == i && (forall|j: int|
                    0 <= j < i ==> keep@[j] == j),
            decreases self.options@.len() - i,
        {
            let verdict = fuzzy_match_exec(self.options[i].label.as_str(), pattern.as_str());
            if verdict.is_some() {
                keep.push(i);
            }
            i = i + 1;
        }
        self.filtered = keep;
        if self.filtered.len() == 0 {
            self.index = 0;
        } else if self.index >= self.filtered.len() {
            self.index = self.filtered.len() - 1;
        }
    }

    /// What one event does to a selection list: `Enter` submits the
    /// highlighted option or reports that nothing matches, `Esc` and
    /// control-C cancel, the vertical keys move the highlight within the
    /// filtered options, and the editing keys refine the pattern, after
    /// which the filter again holds exactly the fuzzily matching options.
    pub open spec fn handle_rel(self, e: Event, post: Enumeration, st: PromptState) -> bool {
        &&& post.message == self.message
        &&& post.options == self.options
        &&& match e {
            Event::Esc | Event::CtrlC => post == self && st is Cancel,
            Event::Enter => post == self && if self.has_selection() {
                st is Submit
            } else {
                st matches PromptState::Error(m) && m@ == "No matches found"@
            },
            Event::Up => st is Active && post.filtered == self.filtered && post.input
                == self.input && post.index == if self.index > 0 {
                (self.index - 1) as usize
            } else {
                0usize
            },
            Event::Down => st is Active && post.filtered == self.filtered && post.input
                == self.input && post.index == if self.index + 1 < self.filtered@.len() {
                (self.index + 1) as usize
            } else {
                self.index
            },
            _ => st is Active && (post.input.chars@, post.input.cursor as int) == edit_spec(
                self.input.chars@,
                self.input.cursor as int,
                e,
            ),
        }
    }

    /// One step of the state machine: `Enter` submits the highlighted
    /// option, or reports that nothing matches; `Esc` and control-C
    /// cancel; the vertical keys move the highlight; the editing keys
    /// refine the pattern and re-filter.
    pub fn handle(self, e: Event) -> (r: (Enumeration, PromptState))
        requires
            self.wf(),
        ensures
            r.0.wf(),
            self.handle_rel(e, r.0, r.1),
    {
        match e {
            Event::Esc | Event::CtrlC => (self, PromptState::Cancel),
            Event::Enter => {
                if self.index < self.filtered.len() {
                    (self, PromptState::Submit)
                } else {
                    let mut msg: Vec<char> = Vec::new();
                    crate::text::push_str_chars(&mut msg, "No matches found");
                    (self, PromptState::Error(chars_to_string(&msg)))
                }
            },
            Event::Up => {
                let Enumeration { message, options, filtered, index, input } = self;
                let index: usize = if index > 0 {
                    index - 1
                } else {
                    0
                };
                (Enumeration { message, options, filtered, index, input }, PromptState::Active)
            },
            Event::Down => {
                let Enumeration { message, options, filtered, index, input } = self;
                let n = filtered.len();
                let index: usize = if index < n {
                    if index + 1 < n {
                        index + 1
                    } else {
                        index
                    }
                } else {
                    index
                };
                (Enumeration { message, options, filtered, index, input }, PromptState::Active)
            },
            _ => {
                let Enumeration { message, options, filtered, index, input } = self;
                let input = input.edit(e);
                let mut en = Enumeration { message, options, filtered, index, input };
                en.run_filter();
                (en, PromptState::Active)
            },
        }
    }

    /// Extracts the highlighted option's value.
    pub fn submit(&self) -> (r: Val)
        requires
            self.wf(),
            self.has_selection(),
        ensures
            r@ == self.selected().value@,
    {
        let idx = self.filtered[self.index];
        crate::value::clone_val(&self.options[idx].value)
    }
}

/// Whether a year is a leap year.
pub open spec fn is_leap(y: int) -> bool {
    (y % 4 == 0 && y % 100 != 0) || y % 400 == 0
}

/// The number of days of a month.
pub open spec fn days_in_month_spec(y: int, m: int) -> int {
    if m == 2 {
        if is_leap(y) {
            29
        } else {
            28
        }
    } else if m == 4 || m == 6 || m == 9 || m == 11 {
        30
    } else {
        31
    }
}

/// The following calendar day, staying put at the last day of year 9999.
pub open spec fn next_date(y: int, m: int, d: int) -> (int, int, int) {
    if d < days_in_month_spec(y, m) {
        (y, m, d + 1)
    } else if m < 12 {
        (y, m + 1, 1)
    } else if y < 9999 {
        (y + 1, 1, 1)
    } else {
        (y, m, d)
    }
}

/// The preceding calendar day, staying put at the first day of year 0.
pub open spec fn prev_date(y: int, m: int, d: int) -> (int, int, int) {
    if d > 1 {
        (y, m, d - 1)
    } else if m > 1 {
        (y, m - 1, days_in_month_spec(y, m - 1))
    } else if y > 0 {
        (y - 1, 12, 31)
    } else {
        (y, m, d)
    }
}

/// The date `k` days later.
pub open spec fn date_plus(y: int, m: int, d: int, k: nat) -> (int, int, int)
    decreases k,
{
    if k == 0 {
        (y, m, d)
    } else {
        let p = date_plus(y, m, d, (k - 1) as nat);
        next_date(p.0, p.1, p.2)
    }
}

/// The date `k` days earlier.
pub open spec fn date_minus(y: int, m: int, d: int, k: nat) -> (int, int, int)
    decreases k,
{
    if k == 0 {
        (y, m, d)
    } else {
        let p = date_minus(y, m, d, (k - 1) as nat);
        prev_date(p.0, p.1, p.2)
    }
}

/// A calendar date within the four-digit years.
pub open spec fn wf_date(y: int, m: int, d: int) -> bool {
    &&& 0 <= y <= 9999
    &&& 1 <= m <= 12
    &&& 1 <= d <= days_in_month_spec(y, m)
}

fn days_in_month(y: u16, m: u8) -> (r: u8)
    ensures
        r as int == days_in_month_spec(y as int, m as int),
{
    if m == 2 {
        if (y % 4 == 0 && y % 100 != 0) || y % 400 == 0 {
            29
        } else {
            28
        }
    } else if m == 4 || m == 6 || m == 9 || m == 11 {
        30
    } else {
        31
    }
}

/// A calendar picker for a date-formatted string. The horizontal keys
/// move one day, the vertical keys one week; `Enter` submits the date as
/// `YYYY-MM-DD`.
pub struct DatePrompt {
    pub message: String,
    pub hint: Option<String>,
    pub year: u16,
    pub month: u8,
    pub day: u8,
}

impl DatePrompt {
    pub open spec fn wf(&self) -> bool {
        wf_date(self.year as int, self.month as int, self.day as int)
    }

    /// The held date.
    pub open spec fn date_of(&self) -> (int, int, int) {
        (self.year as int, self.month as int, self.day as int)
    }

    /// The following day, staying put at the end of year 9999.
    fn next_day(self) -> (r: DatePrompt)
        requires
            self.wf(),
        ensures
            r.wf(),
            r.message == self.message,
            r.hint == self.hint,
            r.date_of() == next_date(self.year as int, self.month as int, self.day as int),
    {
        let DatePrompt { message, hint, mut year, mut month, mut day } = self;
        if day < days_in_month(year, month) {
            day = day + 1;
        } else if month < 12 {
            month = month + 1;
            day = 1;
        } else if year < 9999 {
            year = year + 1;
            month = 1;
            day = 1;
        }
        DatePrompt { message, hint, year, month, day }
    }

    /// The previous day, staying put at the start of year 0.
    fn prev_day(self) -> (r: DatePrompt)
        requires
            self.wf(),
        ensures
            r.wf(),
            r.message == self.message,
            r.hint == self.hint,
            r.date_of() == prev_date(self.year as int, self.month as int, self.day as int),
    {
        let DatePrompt { message, hint, mut year, mut month, mut day } = self;
        if day > 1 {
            day = day - 1;
        } else if month > 1 {
            month = month - 1;
            day = days_in_month(year, month);
        } else if year > 0 {
            year = year - 1;
            month = 12;
            day = 31;
        }
        DatePrompt { message, hint, year, month, day }
    }

    /// What one event does to the calendar: the horizontal keys move one
    /// day, the vertical keys one week, `Enter` submits the date, `Esc`
    /// and control-C cancel, and anything else changes nothing.
    pub open spec fn handle_rel(self, e: Event, post: DatePrompt, st: PromptState) -> bool {
        &&& post.message == self.message
        &&& post.hint == self.hint
        &&& match e {
            Event::Enter => post == self && st is Submit,
            Event::Esc | Event::CtrlC => post == self && st is Cancel,
            Event::Right => st is Active && post.date_of() == next_date(
                self.year as int,
                self.month as int,
                self.day as int,
            ),
            Event::Left => st is Active && post.date_of() == prev_date(
                self.year as int,
                self.month as int,
                self.day as int,
            ),
            Event::Down => st is Active && post.date_of() == date_plus(
                self.year as int,
                self.month as int,
                self.day as int,
                7,
            ),
            Event::Up => st is Active && post.date_of() == date_minus(
                self.year as int,
                self.month as int,
                self.day as int,
                7,
            ),
            _ => post == self && st is Active,
        }
    }

    /// One step of the state machine.
    pub fn handle(self, e: Event) -> (r: (DatePrompt, PromptState))
        requires
            self.wf(),
        ensures
            r.0.wf(),
            self.handle_rel(e, r.0, r.1),
    {
        match e {
            Event::Enter => (self, PromptState::Submit),
            Event::Esc | Event::CtrlC => (self, PromptState::Cancel),
            Event::Right => (self.next_day(), PromptState::Active),
            Event::Left => (self.prev_day(), PromptState::Active),
            Event::Down => {
                let mut d = self;
                let mut k: usize = 0;
                while k < 7
                    invariant
                        d.wf(),
                        d.message == self.message,
                        d.hint == self.hint,
                        k <= 7,
                        d.date_of() == date_plus(
                            self.year as int,
                            self.month as int,
                            self.day as int,
                            k as nat,
                        ),
                    decreases 7 - k,
                {
                    d = d.next_day();
                    k = k + 1;
                }
                (d, PromptState::Active)
            },
            Event::Up => {
                let mut d = self;
                let mut k: usize = 0;
                while k < 7
                    invariant
                        d.wf(),
                        d.message == self.message,
                        d.hint == self.hint,
                        k <= 7,
                        d.date_of() == date_minus(
                            self.year as int,
                            self.month as int,
                            self.day as int,
                            k as nat,
                        ),
                    decreases 7 - k,
                {
                    d = d.prev_day();
                    k = k + 1;
                }
                (d, PromptState::Active)
            },
            _ => (self, PromptState::Active),
        }
    }

    /// The date as an ISO `YYYY-MM-DD` string.
    pub fn submit(&self) -> (r: Val)
        requires
            self.wf(),
        ensures
            r@ == crate::value::ValSpec::Str(date_text(self.year as int, self.month as int, self.day as int)),
    {
        let mut out: Vec<char> = Vec::new();
        push_padded(&mut out, self.year as u64, 4);
        out.push('-');
        push_padded(&mut out, self.month as u64, 2);
        out.push('-');
        push_padded(&mut out, self.day as u64, 2);
        assert(out@ =~= date_text(self.year as int, self.month as int, self.day as int));
        Val::Str(chars_to_string(&out))
    }
}

/// A number in decimal, left-padded with zeroes to the given width.
pub open spec fn padded_text(n: int, width: int) -> Seq<char> {
    let digits = nat_text(n);
    if digits.len() >= width {
        digits
    } else {
        Seq::<char>::new((width - digits.len()) as nat, |i: int| '0') + digits
    }
}

/// An ISO `YYYY-MM-DD` rendering.
pub open spec fn date_text(y: int, m: int, d: int) -> Seq<char> {
    padded_text(y, 4) + seq!['-'] + padded_text(m, 2) + seq!['-'] + padded_text(d, 2)
}

/// Appends `n` in decimal, left-padded with zeroes to `width` characters.
#[verifier::loop_isolation(false)]
fn push_padded(out: &mut Vec<char>, n: u64, width: usize)
    ensures
        final(out)@ == old(out)@ + padded_text(n as int, width as int),
{
    let digits = crate::text::u64_digits_pub(n);
    let mut pad: usize = 0;
    let ghost padlen: int = if digits@.len() >= width {
        0
    } else {
        width - digits@.len()
    };
    while pad + digits.len() < width
        invariant
            digits@ == nat_text(n as int),
            0 <= pad <= padlen,
            out@ == old(out)@ + Seq::<char>::new(pad as nat, |i: int| '0'),
        decreases width - pad - digits.len(),
    {
        out.push('0');
        pad = pad + 1;
        assert(out@ =~= old(out)@ + Seq::<char>::new(pad as nat, |i: int| '0'));
    }
    assert(pad == padlen);
    crate::text::push_all(out, &digits);
    assert(out@ =~= old(out)@ + padded_text(n as int, width as int));
}

} // verus!
