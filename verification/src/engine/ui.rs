//! State of the debug console overlay that involves no floating-point value.
use vstd::prelude::*;

verus! {

/// Whether the debug console is shown, and the text typed into it.
pub struct Debug {
    show: bool,
    input_text: String,
}

impl Debug {
    pub closed spec fn shown(&self) -> bool {
        self.show
    }

    pub closed spec fn text(&self) -> Seq<char> {
        self.input_text@
    }

    /// A hidden console with no text typed.
    pub fn new() -> (d: Self)
        ensures
            !d.shown(),
            d.text() == Seq::<char>::empty(),
    {
        Self { show: false, input_text: String::new() }
    }

    pub fn show(&mut self)
        ensures
            final(self).shown(),
            final(self).text() == old(self).text(),
    {
        self.show = true;
    }

    /// Hides the console.
    pub fn close(&mut self)
        ensures
            !final(self).shown(),
            final(self).text() == old(self).text(),
    {
        self.show = false;
    }

    /// Shows a hidden console and hides a shown one.
    pub fn switch(&mut self)
        ensures
            final(self).shown() == !old(self).shown(),
            final(self).text() == old(self).text(),
    {
        self.show = !self.show;
    }

    pub fn is_shown(&self) -> (b: bool)
        ensures
            b == self.shown(),
    {
        self.show
    }
}

} // verus!
