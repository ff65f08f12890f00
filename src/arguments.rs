use vstd::prelude::*;

verus! {

/// What the command line gives: the path of the input file.
#[derive(Debug)]
pub struct Arguments {
    input: String,
}

impl View for Arguments {
    type V = Seq<char>;

    closed spec fn view(&self) -> Seq<char> {
        self.input@
    }
}

impl Arguments {
    /// Arguments naming `input` as the file to read.
    pub fn new(input: String) -> (r: Arguments)
        ensures
            r@ == input@,
    {
        Arguments { input }
    }

    /// The path of the input file.
    pub fn get_input(&self) -> (r: &String)
        ensures
            r@ == self@,
    {
        &self.input
    }
}

} // verus!
