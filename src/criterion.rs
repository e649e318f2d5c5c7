//! A single named, weighted pass/fail check.
use vstd::prelude::*;
use vstd::string::StringExecFns;

use ansi_term::Colour;

use crate::data::TestData;
use crate::error::ConfigError;
use crate::predicate::Predicate;
use crate::text::{decimal, push_decimal};

verus! {

/// The terminal colours a criterion is shown in.
#[derive(Debug, Clone, Copy, PartialEq, Eq)]
pub enum Shade {
    Green,
    Red,
    White,
}

/// The foreground code of a shade.
pub open spec fn shade_code(s: Shade) -> Seq<char> {
    match s {
        Shade::Green => seq!['3', '2'],
        Shade::Red => seq!['3', '1'],
        Shade::White => seq!['3', '7'],
    }
}

/// The escape sequence that turns a shade, bold or not, on.
pub open spec fn style_prefix(s: Shade, bold: bool) -> Seq<char> {
    seq!['\u{1b}', '['] + (if bold {
        seq!['1', ';']
    } else {
        Seq::empty()
    }) + shade_code(s) + seq!['m']
}

/// The escape sequence that turns every style off.
pub open spec fn style_reset() -> Seq<char> {
    seq!['\u{1b}', '[', '0', 'm']
}

/// `text` shown in a shade.
pub open spec fn painted(s: Shade, bold: bool, text: Seq<char>) -> Seq<char> {
    style_prefix(s, bold) + text + style_reset()
}

/// Relies on ansi_term's `Colour::paint` and the `Display` of its result:
/// the colour's escape sequence, the text, then the reset sequence.
#[verifier::external_body]
fn paint(s: Shade, text: &str) -> (r: String)
    ensures
        r@ == painted(s, false, text@),
{
    let colour = match s {
        Shade::Green => Colour::Green,
        Shade::Red => Colour::Red,
        Shade::White => Colour::White,
    };
    colour.paint(text).to_string()
}

/// Relies on ansi_term's `Colour::bold`, `Style::paint` and the `Display` of the result:
/// the bold colour's escape sequence, the text, then the reset sequence.
#[verifier::external_body]
fn paint_bold(s: Shade, text: &str) -> (r: String)
    ensures
        r@ == painted(s, true, text@),
{
    let colour = match s {
        Shade::Green => Colour::Green,
        Shade::Red => Colour::Red,
        Shade::White => Colour::White,
    };
    colour.bold().paint(text).to_string()
}

/// A single named, weighted check over test data.
pub struct Criterion {
    /// An identifier, used to find this criterion in a set.
    pub stub: String,
    /// A short, descriptive name.
    pub name: String,
    /// Points added to a submission's grade when the check passes; may be negative.
    pub worth: i16,
    /// The success message, then the failure message.
    pub messages: (String, String),
    /// An optional description.
    pub desc: String,
    /// The check itself.
    pub test: Predicate,
    /// `None` until the check has run, then the result of its latest run.
    pub status: Option<bool>,
    /// Whether the criterion is left out when shown.
    pub hide: bool,
    /// Where a rubric placed this criterion, if it said.
    pub index: Option<i64>,
}

/// `c` with its status replaced.
pub open spec fn with_status(c: Criterion, status: Option<bool>) -> Criterion {
    Criterion { status, ..c }
}

/// What showing `c` produces: nothing when hidden, otherwise its name, description,
/// worth and status on four lines, coloured after the status.
pub open spec fn rendering(c: Criterion) -> Seq<char> {
    if c.hide {
        Seq::empty()
    } else {
        let shade = match c.status {
            Some(true) => Shade::Green,
            Some(false) => Shade::Red,
            None => Shade::White,
        };
        let status_text = match c.status {
            Some(true) => painted(Shade::Green, false, c.messages.0@),
            Some(false) => painted(Shade::Red, false, c.messages.1@),
            None => "not tested"@,
        };
        painted(shade, true, c.name@) + "\n"@ + painted(Shade::White, false, c.desc@) + "\n"@
            + "Worth: "@ + decimal(c.worth as int) + " pts\n"@ + "Status: "@ + status_text + "\n"@
    }
}

impl Criterion {
    /// A criterion that has not run, with stub `none`, no description, shown.
    pub fn new(name: &str, worth: i16, messages: (&str, &str), test: Predicate) -> (r: Criterion)
        ensures
            r.stub@ == "none"@,
            r.name@ == name@,
            r.worth == worth,
            r.messages.0@ == messages.0@,
            r.messages.1@ == messages.1@,
            r.desc@.len() == 0,
            r.test == test,
            r.status is None,
            !r.hide,
            r.index is None,
    {
        Criterion {
            stub: "none".to_owned(),
            name: name.to_owned(),
            worth,
            messages: (messages.0.to_owned(), messages.1.to_owned()),
            desc: String::new(),
            test,
            status: None,
            hide: false,
            index: None,
        }
    }

    /// Sets the description.
    pub fn set_desc(&mut self, desc: &str)
        ensures
            final(self).desc@ == desc@,
            final(self).stub == old(self).stub,
            final(self).name == old(self).name,
            final(self).worth == old(self).worth,
            final(self).messages == old(self).messages,
            final(self).test == old(self).test,
            final(self).status == old(self).status,
            final(self).hide == old(self).hide,
            final(self).index == old(self).index,
    {
        self.desc = desc.to_owned();
    }

    /// The success message.
    pub fn success_message(&self) -> (r: &String)
        ensures
            *r == self.messages.0,
    {
        &self.messages.0
    }

    /// The failure message.
    pub fn failure_message(&self) -> (r: &String)
        ensures
            *r == self.messages.1,
    {
        &self.messages.1
    }

    /// Sets whether the criterion is left out when shown.
    pub fn set_hide(&mut self, state: bool)
        ensures
            *final(self) == (Criterion { hide: state, ..*old(self) }),
    {
        self.hide = state;
    }

    /// Replaces the check; the status is kept.
    pub fn attach(&mut self, test: Predicate)
        ensures
            *final(self) == (Criterion { test, ..*old(self) }),
    {
        self.test = test;
    }

    /// Runs the check on `data` and records the result as the status.
    pub fn test_with_data(&mut self, data: &TestData) -> (r: bool)
        ensures
            r == old(self).test.holds(data@),
            *final(self) == with_status(*old(self), Some(r)),
    {
        let r = self.test.evaluate(data);
        self.status = Some(r);
        r
    }

    /// Runs the check on empty data and records the result as the status.
    pub fn test(&mut self) -> (r: bool)
        ensures
            r == old(self).test.holds(Seq::empty()),
            *final(self) == with_status(*old(self), Some(r)),
    {
        let empty = TestData::new();
        self.test_with_data(&empty)
    }

    /// The criterion as shown to a student.
    pub fn render(&self) -> (r: String)
        ensures
            r@ == rendering(*self),
    {
        let mut out = String::new();
        if self.hide {
            return out;
        }
        proof {
            reveal_strlit("\n");
            reveal_strlit("Worth: ");
            reveal_strlit(" pts\n");
            reveal_strlit("Status: ");
            reveal_strlit("not tested");
        }
        let shade = match self.status {
            Some(true) => Shade::Green,
            Some(false) => Shade::Red,
            None => Shade::White,
        };
        let title = paint_bold(shade, self.name.as_str());
        out.append(title.as_str());
        out.append("\n");
        let desc = paint(Shade::White, self.desc.as_str());
        out.append(desc.as_str());
        out.append("\n");
        out.append("Worth: ");
        push_decimal(&mut out, self.worth as i64);
        out.append(" pts\n");
        out.append("Status: ");
        match self.status {
            Some(true) => {
                let m = paint(Shade::Green, self.messages.0.as_str());
                out.append(m.as_str());
            },
            Some(false) => {
                let m = paint(Shade::Red, self.messages.1.as_str());
                out.append(m.as_str());
            },
            None => {
                out.append("not tested");
            },
        }
        out.append("\n");
        out
    }
}

/// Gathers the parts of a criterion one at a time; `build` checks that the worth was given.
pub struct CriterionBuilder {
    pub name: String,
    pub stub: Option<String>,
    pub worth: Option<i16>,
    pub messages: Option<(String, String)>,
    pub desc: Option<String>,
    pub hidden: bool,
    pub index: Option<i64>,
    pub test: Option<Predicate>,
}

impl CriterionBuilder {
    /// A builder for a criterion named `name`, with nothing else given yet.
    pub fn new(name: &str) -> (r: CriterionBuilder)
        ensures
            r.name@ == name@,
            r.stub is None,
            r.worth is None,
            r.messages is None,
            r.desc is None,
            !r.hidden,
            r.index is None,
            r.test is None,
    {
        CriterionBuilder {
            name: name.to_owned(),
            stub: None,
            worth: None,
            messages: None,
            desc: None,
            hidden: false,
            index: None,
            test: None,
        }
    }

    /// Gives the stub.
    pub fn stub(self, stub: &str) -> (r: CriterionBuilder)
        ensures
            r.stub matches Some(s) && s@ == stub@,
            r == (CriterionBuilder { stub: r.stub, ..self }),
    {
        CriterionBuilder { stub: Some(stub.to_owned()), ..self }
    }

    /// Gives the worth.
    pub fn worth(self, worth: i16) -> (r: CriterionBuilder)
        ensures
            r == (CriterionBuilder { worth: Some(worth), ..self }),
    {
        CriterionBuilder { worth: Some(worth), ..self }
    }

    /// Gives the success and failure messages.
    pub fn messages(self, success: &str, failure: &str) -> (r: CriterionBuilder)
        ensures
            r.messages matches Some(m) && m.0@ == success@ && m.1@ == failure@,
            r == (CriterionBuilder { messages: r.messages, ..self }),
    {
        CriterionBuilder { messages: Some((success.to_owned(), failure.to_owned())), ..self }
    }

    /// Gives the description.
    pub fn desc(self, desc: &str) -> (r: CriterionBuilder)
        ensures
            r.desc matches Some(d) && d@ == desc@,
            r == (CriterionBuilder { desc: r.desc, ..self }),
    {
        CriterionBuilder { desc: Some(desc.to_owned()), ..self }
    }

    /// Gives whether the criterion is left out when shown.
    pub fn hidden(self, hidden: bool) -> (r: CriterionBuilder)
        ensures
            r == (CriterionBuilder { hidden, ..self }),
    {
        CriterionBuilder { hidden, ..self }
    }

    /// Gives the criterion's place among others.
    pub fn index(self, index: i64) -> (r: CriterionBuilder)
        ensures
            r == (CriterionBuilder { index: Some(index), ..self }),
    {
        CriterionBuilder { index: Some(index), ..self }
    }

    /// Gives the check.
    pub fn test(self, test: Predicate) -> (r: CriterionBuilder)
        ensures
            r == (CriterionBuilder { test: Some(test), ..self }),
    {
        CriterionBuilder { test: Some(test), ..self }
    }

    /// The criterion, once a worth was given. Absent parts default: the stub to `none`, the
    /// messages to `passed` and `failed`, the description to empty, the check to one that fails.
    pub fn build(self) -> (r: Result<Criterion, ConfigError>)
        ensures
            self.worth is Some <==> r is Ok,
            match r {
                Ok(c) => {
                    &&& c.name == self.name
                    &&& c.worth == self.worth->0
                    &&& match self.stub {
                        Some(s) => c.stub == s,
                        None => c.stub@ == "none"@,
                    }
                    &&& match self.messages {
                        Some(m) => c.messages == m,
                        None => c.messages.0@ == "passed"@ && c.messages.1@ == "failed"@,
                    }
                    &&& match self.desc {
                        Some(d) => c.desc == d,
                        None => c.desc@.len() == 0,
                    }
                    &&& c.hide == self.hidden
                    &&& c.index == self.index
                    &&& c.status is None
                    &&& match self.test {
                        Some(t) => c.test == t,
                        None => c.test == Predicate::Always(false),
                    }
                },
                Err(e) => e matches ConfigError::MissingWorth(n) && n == self.name,
            },
    {
        let worth = match self.worth {
            Some(w) => w,
            None => {
                return Err(ConfigError::MissingWorth(self.name));
            },
        };
        let stub = match self.stub {
            Some(s) => s,
            None => "none".to_owned(),
        };
        let messages = match self.messages {
            Some(m) => m,
            None => ("passed".to_owned(), "failed".to_owned()),
        };
        let desc = match self.desc {
            Some(d) => d,
            None => String::new(),
        };
        let test = match self.test {
            Some(t) => t,
            None => Predicate::Always(false),
        };
        Ok(
            Criterion {
                stub,
                name: self.name,
                worth,
                messages,
                desc,
                test,
                status: None,
                hide: self.hidden,
                index: self.index,
            },
        )
    }
}

} // verus!
