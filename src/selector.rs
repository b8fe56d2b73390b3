use vstd::prelude::*;
use crate::store::{AliasMap, is_listing, rows_view};

verus! {

/// Help line shown while there are aliases to choose from.
pub const NAVIGATION_HELP: &'static str = "↑/↓: Navigate • Enter: Execute • q: Quit";

/// Help line shown when there is no alias.
pub const EMPTY_HELP: &'static str = "No aliases defined. Use `cs add` to create one.";

/// A key press, as the selector tells keys apart.
#[derive(Clone, Copy, PartialEq, Eq, Structural)]
pub enum Key {
    Up,
    Down,
    Confirm,
    Cancel,
    Other,
}

/// What the selector does after a key press, as plain values.
pub enum StepSpec {
    Continue,
    Selected(Seq<char>),
    Cancelled,
}

/// What the selector does after a key press: go on, end with the chosen alias
/// name, or end without a choice.
pub enum Step {
    Continue,
    Selected(String),
    Cancelled,
}

impl View for Step {
    type V = StepSpec;

    open spec fn view(&self) -> StepSpec {
        match self {
            Step::Continue => StepSpec::Continue,
            Step::Selected(s) => StepSpec::Selected(s@),
            Step::Cancelled => StepSpec::Cancelled,
        }
    }
}

/// The cursor after moving down among `len` rows: one further, from the last
/// row back to the first. Without rows there is no cursor.
pub open spec fn cursor_down(cursor: Option<usize>, len: nat) -> Option<usize> {
    match cursor {
        None => None,
        Some(i) => if i + 1 >= len {
            Some(0usize)
        } else {
            Some((i + 1) as usize)
        },
    }
}

/// The cursor after moving up among `len` rows: one back, from the first row
/// to the last. Without rows there is no cursor.
pub open spec fn cursor_up(cursor: Option<usize>, len: nat) -> Option<usize> {
    match cursor {
        None => None,
        Some(i) => if i == 0 {
            Some((len - 1) as usize)
        } else {
            Some((i - 1) as usize)
        },
    }
}

/// The cursor and the outcome after `key`, over the rows and the cursor before it.
pub open spec fn step_of(rows: Seq<(Seq<char>, Seq<char>)>, cursor: Option<usize>, key: Key) -> (
    Option<usize>,
    StepSpec,
) {
    match key {
        Key::Up => (cursor_up(cursor, rows.len()), StepSpec::Continue),
        Key::Down => (cursor_down(cursor, rows.len()), StepSpec::Continue),
        Key::Confirm => match cursor {
            Some(i) => if i < rows.len() {
                (cursor, StepSpec::Selected(rows[i as int].0))
            } else {
                (cursor, StepSpec::Continue)
            },
            None => (cursor, StepSpec::Continue),
        },
        Key::Cancel => (cursor, StepSpec::Cancelled),
        Key::Other => (cursor, StepSpec::Continue),
    }
}

/// A cursor that points at a row, and is absent exactly when there is none.
pub open spec fn cursor_valid(cursor: Option<usize>, len: nat) -> bool {
    match cursor {
        None => len == 0,
        Some(i) => i < len,
    }
}

/// The state of the interactive alias selector: the rows it shows, as
/// (name, display text) pairs, and the row under the cursor.
pub struct Selector {
    rows: Vec<(String, String)>,
    cursor: Option<usize>,
}

impl Selector {
    /// The rows, as plain values.
    pub closed spec fn rows_spec(self) -> Seq<(Seq<char>, Seq<char>)> {
        rows_view(self.rows@)
    }

    /// The row under the cursor, if any.
    pub closed spec fn cursor_spec(self) -> Option<usize> {
        self.cursor
    }

    #[verifier::type_invariant]
    closed spec fn cursor_ok(self) -> bool {
        cursor_valid(self.cursor, self.rows@.len())
    }

    /// A selector over every alias of `aliases`, in lexicographic order of
    /// names, with the cursor on the first row if there is one.
    pub fn new(aliases: &AliasMap) -> (r: Selector)
        ensures
            is_listing(aliases@, r.rows_spec()),
            r.cursor_spec() == (if r.rows_spec().len() == 0 {
                None
            } else {
                Some(0usize)
            }),
    {
        let rows = aliases.listing();
        let cursor = if rows.len() == 0 {
            None
        } else {
            Some(0)
        };
        Selector { rows, cursor }
    }

    /// The number of rows.
    pub fn len(&self) -> (r: usize)
        ensures
            r == self.rows_spec().len(),
    {
        self.rows.len()
    }

    /// The row under the cursor, if any.
    pub fn selected(&self) -> (r: Option<usize>)
        ensures
            r == self.cursor_spec(),
            cursor_valid(r, self.rows_spec().len()),
    {
        proof {
            use_type_invariant(self);
        }
        self.cursor
    }

    /// The name and display text of row `i`.
    pub fn row(&self, i: usize) -> (r: (&str, &str))
        requires
            i < self.rows_spec().len(),
        ensures
            (r.0@, r.1@) == self.rows_spec()[i as int],
    {
        (self.rows[i].0.as_str(), self.rows[i].1.as_str())
    }

    /// Moves the cursor one row down, from the last row back to the first.
    pub fn next(&mut self)
        ensures
            final(self).rows_spec() == old(self).rows_spec(),
            final(self).cursor_spec() == cursor_down(old(self).cursor_spec(), old(self).rows_spec().len()),
    {
        proof {
            use_type_invariant(&*self);
        }
        let n = self.rows.len();
        match self.cursor {
            Some(i) => {
                assert(i < n);
                if i >= n - 1 {
                    self.cursor = Some(0);
                } else {
                    self.cursor = Some(i + 1);
                }
            },
            None => {},
        }
    }

    /// Moves the cursor one row up, from the first row to the last.
    pub fn previous(&mut self)
        ensures
            final(self).rows_spec() == old(self).rows_spec(),
            final(self).cursor_spec() == cursor_up(old(self).cursor_spec(), old(self).rows_spec().len()),
    {
        proof {
            use_type_invariant(&*self);
        }
        match self.cursor {
            Some(i) => {
                if i == 0 {
                    self.cursor = Some(self.rows.len() - 1);
                } else {
                    self.cursor = Some(i - 1);
                }
            },
            None => {},
        }
    }

    /// Takes one key press: up and down move the cursor, confirm ends with the
    /// name under the cursor, cancel ends without a choice, and any other key
    /// changes nothing.
    pub fn handle(&mut self, key: Key) -> (r: Step)
        ensures
            final(self).rows_spec() == old(self).rows_spec(),
            (final(self).cursor_spec(), r@) == step_of(old(self).rows_spec(), old(self).cursor_spec(), key),
    {
        proof {
            use_type_invariant(&*self);
        }
        match key {
            Key::Up => {
                self.previous();
                Step::Continue
            },
            Key::Down => {
                self.next();
                Step::Continue
            },
            Key::Confirm => {
                match self.cursor {
                    Some(i) => {
                        if i < self.rows.len() {
                            Step::Selected(self.rows[i].0.clone())
                        } else {
                            Step::Continue
                        }
                    },
                    None => Step::Continue,
                }
            },
            Key::Cancel => Step::Cancelled,
            Key::Other => Step::Continue,
        }
    }

    /// The help line: how to navigate, or that there is no alias.
    pub fn help_text(&self) -> (r: &'static str)
        ensures
            r == (if self.cursor_spec() is Some {
                NAVIGATION_HELP
            } else {
                EMPTY_HELP
            }),
    {
        match self.cursor {
            Some(_) => NAVIGATION_HELP,
            None => EMPTY_HELP,
        }
    }
}

/// The line that shows one row: its name, an arrow, and its display text.
pub fn row_line(name: &str, shown: &str) -> (r: String)
    ensures
        r@ == name@ + "  ➜  "@ + shown@,
{
    let mut r = name.to_owned();
    r.append("  ➜  ");
    r.append(shown);
    r
}

/// Navigation wraps around: down from the last row goes to the first, up from
/// the first goes to the last. Without rows the cursor stays absent whatever
/// the key, and confirming chooses nothing.
pub proof fn law_navigation_wraps(rows: Seq<(Seq<char>, Seq<char>)>, key: Key)
    requires
        rows.len() <= usize::MAX,
    ensures
        rows.len() > 0 ==> step_of(rows, Some((rows.len() - 1) as usize), Key::Down).0 == Some(0usize),
        rows.len() > 0 ==> step_of(rows, Some(0usize), Key::Up).0 == Some((rows.len() - 1) as usize),
        rows.len() == 0 ==> step_of(rows, None, key).0 is None,
        rows.len() == 0 ==> step_of(rows, None, Key::Confirm).1 is Continue,
{
}

} // verus!
