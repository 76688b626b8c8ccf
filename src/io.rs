use vstd::prelude::*;

verus! {

/// Something that can be parsed into an output.
pub trait Input {
    type Output;

    type State: ParseState;

    fn parse(self) -> Self::Output;
}

/// The state of a parser, which can be switched to another.
pub trait ParseState: Sized {
    fn switch(&mut self, new_state: Self);
}

impl ParseState for () {
    fn switch(&mut self, new_state: Self) {
    }
}

} // verus!
