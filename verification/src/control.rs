//! The text control protocol: one command per line.
//!
//! A line selects a parameter by its first character — `g` for goo, `t`
//! for threshold — and carries the new value in the rest of the line. The
//! value's text is decoded into a number by the driver's numeric kernel;
//! the library classifies the line, and applies the decoded command to the
//! field, promising that exactly the selected parameter changes and that
//! exactly one re-render is requested per command applied.

use vstd::prelude::*;
use crate::field::MetaballData;
use crate::scalar::Scalar;

verus! {

/// The classification of one control line: which parameter it selects and
/// the text of the value that follows the selector.
pub enum LineClass<'a> {
    /// The line starts with the goo selector; the payload follows it.
    Goo(&'a str),
    /// The line starts with the threshold selector; the payload follows it.
    Threshold(&'a str),
    /// The line starts with a character that selects nothing.
    Unknown,
    /// The line is empty and is silently ignored.
    Empty,
}

/// A decoded command, ready to apply to a field.
#[derive(Copy, Clone, Debug)]
pub enum ControlCommand {
    /// Replace the goo exponent.
    Goo(Scalar),
    /// Replace the threshold.
    Threshold(Scalar),
}

/// What the driver must do after a line was handled.
#[derive(PartialEq, Eq, Structural, Debug)]
pub enum LineAction {
    /// A parameter changed: re-render the field, exactly once.
    Rerender,
    /// The payload did not decode to a value: report it, change nothing.
    ReportParseError,
    /// The selector is unknown: report it, change nothing.
    ReportUnknown,
    /// The line was empty: do nothing.
    Ignore,
}

/// Classify one control line by its first character.
pub fn classify_line<'a>(line: &'a str) -> (c: LineClass<'a>)
    ensures
        line@.len() == 0 ==> c is Empty,
        line@.len() > 0 && line@[0] == 'g' ==> (c matches LineClass::Goo(p) && p@
            == line@.subrange(1, line@.len() as int)),
        line@.len() > 0 && line@[0] == 't' ==> (c matches LineClass::Threshold(p) && p@
            == line@.subrange(1, line@.len() as int)),
        line@.len() > 0 && line@[0] != 'g' && line@[0] != 't' ==> c is Unknown,
{
    let n = line.unicode_len();
    if n == 0 {
        LineClass::Empty
    } else {
        let first = line.get_char(0);
        if first == 'g' {
            LineClass::Goo(line.substring_char(1, n))
        } else if first == 't' {
            LineClass::Threshold(line.substring_char(1, n))
        } else {
            LineClass::Unknown
        }
    }
}

impl MetaballData {
    /// Apply a decoded command: replace exactly the selected parameter and
    /// leave everything else in the field as it was.
    pub fn apply_command(&mut self, command: ControlCommand)
        ensures
            final(self).width == old(self).width,
            final(self).height == old(self).height,
            final(self).metaballs@ == old(self).metaballs@,
            command matches ControlCommand::Goo(v) ==> final(self).goo == v
                && final(self).threshold == old(self).threshold,
            command matches ControlCommand::Threshold(v) ==> final(self).threshold == v
                && final(self).goo == old(self).goo,
    {
        match command {
            ControlCommand::Goo(v) => {
                self.goo = v;
            },
            ControlCommand::Threshold(v) => {
                self.threshold = v;
            },
        }
    }
}

/// Handle one classified line, given the decoded payload value if the
/// payload's text decoded to one.
///
/// A re-render is requested exactly when a parameter was replaced: once per
/// goo or threshold command with a decoded value, and never otherwise. On a
/// parse failure, an unknown selector, or an empty line the field is left
/// untouched.
pub fn handle_line(data: &mut MetaballData, class: &LineClass, value: Option<Scalar>) -> (action:
    LineAction)
    ensures
        action is Rerender <==> ((*class matches LineClass::Goo(_) || *class
            matches LineClass::Threshold(_)) && value is Some),
        value matches Some(v) ==> (if *class is Goo {
            final(data).goo == v && final(data).threshold == old(data).threshold
        } else if *class is Threshold {
            final(data).threshold == v && final(data).goo == old(data).goo
        } else {
            true
        }),
        action is Rerender ==> final(data).width == old(data).width
            && final(data).height == old(data).height
            && final(data).metaballs@ == old(data).metaballs@,
        !(action is Rerender) ==> *final(data) == *old(data),
        (*class matches LineClass::Goo(_) || *class matches LineClass::Threshold(_)) && value
            is None ==> action is ReportParseError,
        *class is Unknown ==> action is ReportUnknown,
        *class is Empty ==> action is Ignore,
{
    match *class {
        LineClass::Goo(_) => {
            match value {
                Some(v) => {
                    data.apply_command(ControlCommand::Goo(v));
                    LineAction::Rerender
                },
                None => LineAction::ReportParseError,
            }
        },
        LineClass::Threshold(_) => {
            match value {
                Some(v) => {
                    data.apply_command(ControlCommand::Threshold(v));
                    LineAction::Rerender
                },
                None => LineAction::ReportParseError,
            }
        },
        LineClass::Unknown => LineAction::ReportUnknown,
        LineClass::Empty => LineAction::Ignore,
    }
}

} // verus!
