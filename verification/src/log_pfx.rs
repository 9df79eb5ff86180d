//! Prefixes that name where a log line comes from.
use vstd::prelude::*;

use crate::spec::text::{Text, debug_quoted, decimal_digits, str_debug, string_push, u64_to_text};

verus! {

/// A prefix for log lines: quoted names, separated by `/`.
#[derive(Debug)]
pub struct LogPfx(pub Text);

impl View for LogPfx {
    type V = Seq<char>;

    open spec fn view(&self) -> Seq<char> {
        self.0@
    }
}

impl LogPfx {
    /// The prefix of one name, quoted as `Debug` shows it.
    pub fn new(t: &str) -> (r: Self)
        ensures
            r@ == debug_quoted(t@),
    {
        LogPfx(Text(str_debug(t)))
    }

    /// The prefix with one more name after a `/`.
    pub fn join(&self, text: &str) -> (r: LogPfx)
        ensures
            r@ == self@ + seq!['/'] + debug_quoted(text@),
    {
        let mut s = String::new();
        s.append(self.0.as_str());
        string_push(&mut s, '/');
        let q = str_debug(text);
        s.append(q.as_str());
        LogPfx(Text(s))
    }

    /// The prefix with one more part after a `/`: a position, written in
    /// decimal as `Debug` shows an index.
    pub fn join_index(&self, index: u64) -> (r: LogPfx)
        ensures
            r@ == self@ + seq!['/'] + decimal_digits(index as nat),
    {
        let mut s = String::new();
        s.append(self.0.as_str());
        string_push(&mut s, '/');
        let d = u64_to_text(index);
        s.append(d.0.as_str());
        LogPfx(Text(s))
    }
}

impl<'a> From<&'a str> for LogPfx {
    /// The prefix of one name: the same as `LogPfx::new`.
    fn from(value: &'a str) -> (r: LogPfx)
        ensures
            r@ == debug_quoted(value@),
    {
        LogPfx::new(value)
    }
}

/// `from` claims only the view above: the prefix's `String` itself is not
/// a function of the text that a spec could name.
impl<'a> vstd::std_specs::convert::FromSpecImpl<&'a str> for LogPfx {
    open spec fn obeys_from_spec() -> bool {
        false
    }

    open spec fn from_spec(value: &'a str) -> LogPfx {
        arbitrary()
    }
}

} // verus!
