//! What the program says: the answer to one expression, and the steps of a
//! session in which expressions are read line by line. Reading and printing
//! are left to the caller.
use crate::calculator::{calculate_spec, message_spec, Calculator, FromStrValue};
use crate::math::{Format, Math};
use vstd::prelude::*;

verus! {

/// What a session shows before each line.
pub open spec fn prompt_spec() -> Seq<char> {
    "> "@
}

/// What is printed to take back the line that the terminal has echoed.
pub open spec fn retake_spec() -> Seq<char> {
    "\u{8}\r\u{8}"@
}

/// What is printed for the line `help`.
pub open spec fn help_spec() -> Seq<char> {
    "  Calculator - Alan Evans 2022\n  Terminal mode\n    Enter mathematical expression and press enter\n    up    - Previous entries\n    clear - Clear expression history\n    help  - this message\n    enter - Exit terminal mode"@
}

/// The texts `parts` with one blank between each two.
pub open spec fn join_spec(parts: Seq<Seq<char>>) -> Seq<char>
    decreases parts.len(),
{
    if parts.len() == 0 {
        Seq::empty()
    } else if parts.len() == 1 {
        parts[0]
    } else {
        join_spec(parts.drop_last()) + " "@ + parts.last()
    }
}

/// The answer to `expression` in the domain `T`, where `written` is the text
/// of its value: the expression, an equals sign, and the value or the report
/// of the error.
pub open spec fn answer_with<T: FromStrValue + Math>(expression: Seq<char>, written: Seq<char>)
    -> Seq<char> {
    expression + " = "@ + match calculate_spec::<T>(expression) {
        Ok(value) => written,
        Err(error) => "Error: "@ + message_spec(error),
    }
}

/// The text that the value of `expression` is written as in the domain `T`,
/// where it has a value.
pub open spec fn written_value<T: FromStrValue + Math + Format>(expression: Seq<char>) -> Seq<
    char,
> {
    match calculate_spec::<T>(expression) {
        Ok(value) => value.format_spec(),
        Err(error) => Seq::empty(),
    }
}

/// The answer to `expression` in the domain `T`: the expression, an equals
/// sign, and its value or the report of its error.
pub open spec fn answer_spec<T: FromStrValue + Math + Format>(expression: Seq<char>) -> Seq<char> {
    answer_with::<T>(expression, written_value::<T>(expression))
}

/// The views of the texts `parts`.
pub open spec fn texts(parts: Seq<String>) -> Seq<Seq<char>> {
    parts.map_values(|part: String| part@)
}

/// The texts `parts` with one blank between each two.
pub fn join(parts: &Vec<String>) -> (r: String)
    ensures
        r@ == join_spec(texts(parts@)),
{
    let mut r = String::new();
    let mut i: usize = 0;
    while i < parts.len()
        invariant
            i <= parts.len(),
            r@ == join_spec(texts(parts@).take(i as int)),
        decreases parts.len() - i,
    {
        let ghost before = texts(parts@).take(i as int);
        let ghost after = texts(parts@).take(i + 1);
        assert(after.drop_last() =~= before);
        if i > 0 {
            r.append(" ");
        }
        r.append(parts[i].as_str());
        i = i + 1;
    }
    assert(texts(parts@).take(parts.len() as int) =~= texts(parts@));
    r
}

/// The answer to `expression` in the domain `T`.
///
/// Whatever the domain writes for the value, the answer is the expression, an
/// equals sign and that text, or the report of the error. Where the domain
/// writes what its `format_spec` says, the text is that of the value.
pub fn answer<T: FromStrValue + Math + Format>(expression: &str) -> (r: String)
    ensures
        exists|written: Seq<char>| r@ == answer_with::<T>(expression@, written),
        calculate_spec::<T>(expression@) is Err ==> r@ == answer_spec::<T>(expression@),
        T::obeys_format_spec() ==> r@ == answer_spec::<T>(expression@),
{
    let mut r = expression.to_owned();
    r.append(" = ");
    match (Calculator {}).calculate::<T>(expression) {
        Ok(value) => {
            let written = value.format();
            r.append(written.as_str());
            assert(r@ == answer_with::<T>(expression@, written@));
        },
        Err(error) => {
            r.append("Error: ");
            r.append(error.message().as_str());
            assert(r@ == answer_with::<T>(expression@, Seq::empty()));
        },
    }
    r
}

/// What has happened when a line was asked for.
pub enum Event {
    /// A line was entered.
    Line(String),
    /// The user has interrupted.
    Interrupted,
    /// The input has ended.
    Eof,
    /// Reading has failed, with this description.
    Failed(String),
}

/// What an `Event` is to the contracts.
pub ghost enum EventView {
    Line(Seq<char>),
    Interrupted,
    Eof,
    Failed(Seq<char>),
}

impl View for Event {
    type V = EventView;

    open spec fn view(&self) -> EventView {
        match self {
            Event::Line(line) => EventView::Line(line@),
            Event::Interrupted => EventView::Interrupted,
            Event::Eof => EventView::Eof,
            Event::Failed(description) => EventView::Failed(description@),
        }
    }
}

/// What becomes of the history of entered lines.
#[derive(Debug, Clone, Copy, PartialEq, Eq, Structural)]
pub enum History {
    /// It stays as it is.
    Keep,
    /// It forgets every line.
    Clear,
    /// The line that was entered joins it.
    Add,
}

/// What a session does after an event.
pub struct Step {
    /// What to print, on lines of its own.
    pub print: String,
    /// What becomes of the history.
    pub history: History,
    /// Whether the session ends.
    pub stop: bool,
}

/// What a `Step` is to the contracts.
pub ghost struct StepView {
    pub print: Seq<char>,
    pub history: History,
    pub stop: bool,
}

impl View for Step {
    type V = StepView;

    open spec fn view(&self) -> StepView {
        StepView { print: self.print@, history: self.history, stop: self.stop }
    }
}

/// The text that is offered for editing after the line `line` had the value
/// with the text `value`: none where that value was offered already, so
/// that entering it again ends with an empty line.
pub open spec fn offer_after(last: Option<Seq<char>>, value: Seq<char>) -> Option<Seq<char>> {
    if last == Some(value) {
        None
    } else {
        Some(value)
    }
}

/// Whether a session ends after `event`: after an empty line, an
/// interruption, the end of the input or a failure to read.
pub open spec fn stops_after(event: EventView) -> bool {
    match event {
        EventView::Line(line) => line.len() == 0,
        _ => true,
    }
}

/// What becomes of the history after `event`: the lines `help` and `clear`
/// clear it, any other line that is not empty joins it, and nothing else
/// changes it.
pub open spec fn history_after(event: EventView) -> History {
    match event {
        EventView::Line(line) => if line.len() == 0 {
            History::Keep
        } else if line == "help"@ || line == "clear"@ {
            History::Clear
        } else {
            History::Add
        },
        _ => History::Keep,
    }
}

/// What a session does after `event`, when `last` is the text that was
/// offered for editing and `written` is the text of the value of the line,
/// where it has one.
///
/// An empty line ends the session, and so does an interruption, the end of
/// the input or a failure to read. The lines `help` and `clear` clear the
/// history. Any other line joins the history and is evaluated: its value is
/// shown and offered for editing next, and after an error the line itself is
/// offered again.
pub open spec fn step_with<T: FromStrValue + Math>(
    last: Option<Seq<char>>,
    event: EventView,
    written: Seq<char>,
) -> (Option<Seq<char>>, StepView) {
    let step = |print: Seq<char>|
        StepView { print, history: history_after(event), stop: stops_after(event) };
    match event {
        EventView::Line(line) => {
            if line.len() == 0 {
                (last, step(retake_spec()))
            } else if line == "help"@ {
                (last, step(help_spec()))
            } else if line == "clear"@ {
                (last, step("History cleared"@))
            } else {
                match calculate_spec::<T>(line) {
                    Ok(value) => (
                        offer_after(last, written),
                        step(
                            if last == Some(line) {
                                retake_spec()
                            } else {
                                "\u{8}\r"@ + prompt_spec() + line + " = "@ + written
                            },
                        ),
                    ),
                    Err(error) => (Some(line), step("Error: "@ + message_spec(error))),
                }
            }
        },
        EventView::Interrupted => (last, step("CTRL-C"@)),
        EventView::Eof => (last, step("CTRL-D"@)),
        EventView::Failed(description) => (last, step("Error: "@ + description)),
    }
}

/// The line of `event`, where it is one.
pub open spec fn line_of(event: EventView) -> Seq<char> {
    match event {
        EventView::Line(line) => line,
        _ => Seq::empty(),
    }
}

/// Whether the line of `event` is evaluated and has a value in the domain
/// `T`.
pub open spec fn has_value<T: FromStrValue + Math>(event: EventView) -> bool {
    &&& event is Line
    &&& history_after(event) == History::Add
    &&& calculate_spec::<T>(line_of(event)) is Ok
}

/// What a session does after `event`, when `last` is the text that was
/// offered for editing, in a domain that writes its values as its
/// `format_spec` says.
pub open spec fn step_spec<T: FromStrValue + Math + Format>(
    last: Option<Seq<char>>,
    event: EventView,
) -> (Option<Seq<char>>, StepView) {
    step_with::<T>(last, event, written_value::<T>(line_of(event)))
}

/// A session: it remembers the text that it offers for editing.
pub struct Terminal {
    last_value: Option<String>,
}

impl View for Terminal {
    type V = Option<Seq<char>>;

    closed spec fn view(&self) -> Option<Seq<char>> {
        match self.last_value {
            Some(value) => Some(value@),
            None => None,
        }
    }
}

impl Terminal {
    /// A session that offers nothing for editing.
    pub fn new() -> (r: Self)
        ensures
            r@ is None,
    {
        Terminal { last_value: None }
    }

    /// What a session shows before each line.
    pub fn prompt() -> (r: &'static str)
        ensures
            r@ == prompt_spec(),
    {
        "> "
    }

    /// The text to offer for editing in the next line, where there is one.
    pub fn offer(&self) -> (r: Option<String>)
        ensures
            match r {
                Some(text) => self@ == Some(text@),
                None => self@ is None,
            },
    {
        match &self.last_value {
            Some(value) => Some(value.clone()),
            None => None,
        }
    }

    /// Whether the session offers the text `text` for editing.
    fn offers(&self, text: &String) -> (r: bool)
        ensures
            r == (self@ == Some(text@)),
    {
        match &self.last_value {
            Some(value) => *value == *text,
            None => false,
        }
    }

    /// What the session does after `event`.
    ///
    /// Whether it ends and what becomes of the history depend on the event
    /// alone. What it prints and offers next is fixed but for the text of a
    /// value, which is what the domain writes: where the line has no value,
    /// nothing is left open, and where the domain writes what its
    /// `format_spec` says, the text is that of the value.
    pub fn step<T: FromStrValue + Math + Format>(&mut self, event: Event) -> (r: Step)
        ensures
            r@.stop == stops_after(event@),
            r@.history == history_after(event@),
            exists|written: Seq<char>|
                (final(self)@, r@) == step_with::<T>(old(self)@, event@, written),
            !has_value::<T>(event@) ==> (final(self)@, r@) == step_spec::<T>(old(self)@, event@),
            T::obeys_format_spec() ==> (final(self)@, r@) == step_spec::<T>(old(self)@, event@),
    {
        let ghost nothing = Seq::<char>::empty();
        match event {
            Event::Line(line) => {
                if line.as_str().is_empty() {
                    let r = Step {
                        print: "\u{8}\r\u{8}".to_owned(),
                        history: History::Keep,
                        stop: true,
                    };
                    assert((self@, r@) == step_with::<T>(old(self)@, event@, nothing));
                    return r;
                }
                if line == "help".to_owned() {
                    let r = Step {
                        print: "  Calculator - Alan Evans 2022\n  Terminal mode\n    Enter mathematical expression and press enter\n    up    - Previous entries\n    clear - Clear expression history\n    help  - this message\n    enter - Exit terminal mode".to_owned(),
                        history: History::Clear,
                        stop: false,
                    };
                    assert((self@, r@) == step_with::<T>(old(self)@, event@, nothing));
                    return r;
                }
                if line == "clear".to_owned() {
                    let r = Step {
                        print: "History cleared".to_owned(),
                        history: History::Clear,
                        stop: false,
                    };
                    assert((self@, r@) == step_with::<T>(old(self)@, event@, nothing));
                    return r;
                }
                let result = (Calculator {}).calculate::<T>(line.as_str());
                match result {
                    Ok(value) => {
                        let value = value.format();
                        let print = if self.offers(&line) {
                            "\u{8}\r\u{8}".to_owned()
                        } else {
                            let mut print = "\u{8}\r".to_owned();
                            print.append("> ");
                            print.append(line.as_str());
                            print.append(" = ");
                            print.append(value.as_str());
                            print
                        };
                        let ghost written = value@;
                        if self.offers(&value) {
                            self.last_value = None;
                        } else {
                            self.last_value = Some(value);
                        }
                        let r = Step { print, history: History::Add, stop: false };
                        assert((self@, r@) == step_with::<T>(old(self)@, event@, written));
                        r
                    },
                    Err(error) => {
                        let mut print = "Error: ".to_owned();
                        print.append(error.message().as_str());
                        self.last_value = Some(line);
                        let r = Step { print, history: History::Add, stop: false };
                        assert((self@, r@) == step_with::<T>(old(self)@, event@, nothing));
                        r
                    },
                }
            },
            Event::Interrupted => {
                let r = Step { print: "CTRL-C".to_owned(), history: History::Keep, stop: true };
                assert((self@, r@) == step_with::<T>(old(self)@, event@, nothing));
                r
            },
            Event::Eof => {
                let r = Step { print: "CTRL-D".to_owned(), history: History::Keep, stop: true };
                assert((self@, r@) == step_with::<T>(old(self)@, event@, nothing));
                r
            },
            Event::Failed(description) => {
                let mut print = "Error: ".to_owned();
                print.append(description.as_str());
                let r = Step { print, history: History::Keep, stop: true };
                assert((self@, r@) == step_with::<T>(old(self)@, event@, nothing));
                r
            },
        }
    }
}

} // verus!
