use vstd::prelude::*;
use vstd::string::StringExecFns;

verus! {

/// An in-memory text sink. Builtins write their human-readable output and
/// error text here; the session driver decides where the text finally goes
/// (the process's standard streams, in the full program).
pub struct Sink {
    text: String,
}

impl View for Sink {
    type V = Seq<char>;

    closed spec fn view(&self) -> Seq<char> {
        self.text@
    }
}

impl Sink {
    /// Creates an empty sink.
    pub fn new() -> (s: Sink)
        ensures
            s@ == Seq::<char>::empty(),
    {
        Sink { text: String::new() }
    }

    /// Appends the given text to the sink.
    pub fn write_str(&mut self, s: &str)
        ensures
            final(self)@ == old(self)@ + s@,
    {
        self.text.append(s);
    }

    /// Appends the given text followed by a single newline.
    pub fn write_line(&mut self, s: &str)
        ensures
            final(self)@ == old(self)@ + s@ + "\n"@,
    {
        self.text.append(s);
        self.text.append("\n");
    }

    /// Everything written to the sink so far.
    pub fn contents(&self) -> (r: &str)
        ensures
            r@ == self@,
    {
        self.text.as_str()
    }

    /// True when nothing has been written yet.
    pub fn is_empty(&self) -> (r: bool)
        ensures
            r == (self@.len() == 0),
    {
        self.text.as_str().is_empty()
    }
}

} // verus!
