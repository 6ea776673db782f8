use vstd::prelude::*;

verus! {

/// The colors a terminal plot can use for a trace.
#[derive(Debug, Clone, Copy, PartialEq, Eq, Structural)]
pub enum PlotColor {
    Red,
    Blue,
    Green,
    Cyan,
    Magenta,
    Yellow,
    White,
    Reset,
}

impl PlotColor {
    /// The ANSI escape sequence that switches the terminal to this color
    /// (`Reset` restores the default).
    pub fn to_ansi(&self) -> (r: &'static str)
        ensures
            *self == PlotColor::Red ==> r@ == "\x1b[31m"@,
            *self == PlotColor::Blue ==> r@ == "\x1b[34m"@,
            *self == PlotColor::Green ==> r@ == "\x1b[32m"@,
            *self == PlotColor::Cyan ==> r@ == "\x1b[36m"@,
            *self == PlotColor::Magenta ==> r@ == "\x1b[35m"@,
            *self == PlotColor::Yellow ==> r@ == "\x1b[33m"@,
            *self == PlotColor::White ==> r@ == "\x1b[37m"@,
            *self == PlotColor::Reset ==> r@ == "\x1b[0m"@,
    {
        match self {
            PlotColor::Red => "\x1b[31m",
            PlotColor::Blue => "\x1b[34m",
            PlotColor::Green => "\x1b[32m",
            PlotColor::Cyan => "\x1b[36m",
            PlotColor::Magenta => "\x1b[35m",
            PlotColor::Yellow => "\x1b[33m",
            PlotColor::White => "\x1b[37m",
            PlotColor::Reset => "\x1b[0m",
        }
    }
}

} // verus!
