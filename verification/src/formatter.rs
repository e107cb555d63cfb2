use vstd::prelude::*;

verus! {

/// The state of the JSON output formatter: pretty-printed on a terminal,
/// compact otherwise, and a line break after every top-level object so that
/// each message of a stream ends its own line.
pub struct CustomFormatter {
    pretty: bool,
    depth: usize,
}

impl CustomFormatter {
    /// Whether output is pretty-printed.
    pub closed spec fn is_pretty(&self) -> bool {
        self.pretty
    }

    /// How many objects are open.
    pub closed spec fn depth(&self) -> nat {
        self.depth as nat
    }

    /// A formatter for a terminal (`is_tty`: pretty) or for a pipe (compact),
    /// with no object open.
    pub fn new(is_tty: bool) -> (r: CustomFormatter)
        ensures
            r.is_pretty() == is_tty,
            r.depth() == 0,
    {
        CustomFormatter { pretty: is_tty, depth: 0 }
    }

    /// Whether output is pretty-printed.
    pub fn pretty(&self) -> (r: bool)
        ensures
            r == self.is_pretty(),
    {
        self.pretty
    }

    /// How many objects are open.
    pub fn open_objects(&self) -> (n: usize)
        ensures
            n == self.depth(),
    {
        self.depth
    }

    /// An object is opened.
    pub fn begin_object(&mut self)
        requires
            old(self).depth() < usize::MAX,
        ensures
            final(self).depth() == old(self).depth() + 1,
            final(self).is_pretty() == old(self).is_pretty(),
    {
        self.depth = self.depth + 1;
    }

    /// An object has been closed; returns whether it was a top-level one, so
    /// that a line break follows it.
    pub fn end_object(&mut self) -> (newline: bool)
        requires
            old(self).depth() > 0,
        ensures
            final(self).depth() == old(self).depth() - 1,
            final(self).is_pretty() == old(self).is_pretty(),
            newline == (final(self).depth() == 0),
    {
        self.depth = self.depth - 1;
        self.depth == 0
    }
}

} // verus!
