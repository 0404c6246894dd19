//! Messages for the user: a right-aligned action label, then the message.

use vstd::prelude::*;
use vstd::string::*;

verus! {

/// Writes formatted messages to an output stream.
///
/// The writing itself, with the label in colour, is done by the application.
#[derive(Debug, Clone, Copy)]
pub struct Notifier<W> {
    pub writer: W,
}

impl<W> Notifier<W> {
    /// A notifier that writes to the given writer.
    pub fn new(writer: W) -> (notifier: Self)
        ensures
            notifier.writer == writer,
    {
        Notifier { writer }
    }
}

/// User-facing status action, shown as the prefix of a message.
#[derive(Debug, Clone, Copy, PartialEq, Eq, Structural)]
pub enum Action {
    Finished,
    Downloading,
    Generating,
    Adding,
    Installing,
    Removed,
    Warning,
    Waiting,
    Created,
    Tip,
}

/// The colour of an action's label.
#[derive(Debug, Clone, Copy, PartialEq, Eq, Structural)]
pub enum LabelColor {
    Yellow,
    Green,
}

/// The label of an action: its name.
pub open spec fn action_name(action: Action) -> Seq<char> {
    match action {
        Action::Finished => "Finished"@,
        Action::Downloading => "Downloading"@,
        Action::Generating => "Generating"@,
        Action::Adding => "Adding"@,
        Action::Installing => "Installing"@,
        Action::Removed => "Removed"@,
        Action::Warning => "Warning"@,
        Action::Waiting => "Waiting"@,
        Action::Created => "Created"@,
        Action::Tip => "Tip"@,
    }
}

/// The width the label is right-aligned in.
pub const LABEL_WIDTH: usize = 12;

/// `n` spaces.
pub open spec fn spaces(n: nat) -> Seq<char> {
    Seq::new(n, |i: int| ' ')
}

/// The label right-aligned in `LABEL_WIDTH` characters (a longer one is kept whole).
pub open spec fn padded(label: Seq<char>) -> Seq<char> {
    if label.len() < LABEL_WIDTH {
        spaces((LABEL_WIDTH - label.len()) as nat) + label
    } else {
        label
    }
}

/// A message as written, before colour: two spaces, the padded label, a space, the message
/// and a newline.
pub open spec fn message_line(action: Action, message: Seq<char>) -> Seq<char> {
    "  "@ + padded(action_name(action)) + " "@ + message + "\n"@
}

impl Action {
    /// The label of the action.
    pub fn name(&self) -> (name: &'static str)
        ensures
            name@ == action_name(*self),
    {
        match self {
            Action::Finished => "Finished",
            Action::Downloading => "Downloading",
            Action::Generating => "Generating",
            Action::Adding => "Adding",
            Action::Installing => "Installing",
            Action::Removed => "Removed",
            Action::Warning => "Warning",
            Action::Waiting => "Waiting",
            Action::Created => "Created",
            Action::Tip => "Tip",
        }
    }

    /// Warnings are shown in yellow, everything else in green.
    pub fn color(&self) -> (color: LabelColor)
        ensures
            color == if *self == Action::Warning {
                LabelColor::Yellow
            } else {
                LabelColor::Green
            },
    {
        match self {
            Action::Warning => LabelColor::Yellow,
            _ => LabelColor::Green,
        }
    }

    /// The spaces that right-align the label.
    pub fn padding(&self) -> (pad: String)
        ensures
            pad@ + action_name(*self) == padded(action_name(*self)),
    {
        let name = self.name();
        proof {
            reveal_strlit("Finished");
            reveal_strlit("Downloading");
            reveal_strlit("Generating");
            reveal_strlit("Adding");
            reveal_strlit("Installing");
            reveal_strlit("Removed");
            reveal_strlit("Warning");
            reveal_strlit("Waiting");
            reveal_strlit("Created");
            reveal_strlit("Tip");
        }
        let n = name.unicode_len();
        assert(n < LABEL_WIDTH);
        let mut pad = String::new();
        let mut i: usize = n;
        while i < LABEL_WIDTH
            invariant
                n == action_name(*self).len(),
                n <= i <= LABEL_WIDTH,
                pad@ == spaces((i - n) as nat),
            decreases LABEL_WIDTH - i,
        {
            let ghost before = pad@;
            pad.append(" ");
            proof {
                reveal_strlit(" ");
                assert(pad@ == before + " "@);
                assert(pad@ =~= spaces((i + 1 - n) as nat));
            }
            i = i + 1;
        }
        proof {
            assert(pad@ + action_name(*self) =~= padded(action_name(*self)));
        }
        pad
    }
}

/// The line written for a message, before colour.
pub fn message_text(action: Action, message: &str) -> (line: String)
    ensures
        line@ == message_line(action, message@),
{
    let mut line = String::from_str("  ");
    line.append(action.padding().as_str());
    line.append(action.name());
    line.append(" ");
    line.append(message);
    line.append("\n");
    proof {
        reveal_strlit("  ");
        reveal_strlit(" ");
        reveal_strlit("\n");
        assert(line@ =~= message_line(action, message@));
    }
    line
}

} // verus!

verus! {

/// Every action's label fills exactly the label width, so messages line up.
pub proof fn law_labels_fill_width(action: Action)
    ensures
        padded(action_name(action)).len() == LABEL_WIDTH,
{
    reveal_strlit("Finished");
    reveal_strlit("Downloading");
    reveal_strlit("Generating");
    reveal_strlit("Adding");
    reveal_strlit("Installing");
    reveal_strlit("Removed");
    reveal_strlit("Warning");
    reveal_strlit("Waiting");
    reveal_strlit("Created");
    reveal_strlit("Tip");
}

} // verus!
