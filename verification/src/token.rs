use crate::number::{i32_value, read_i32, read_usize, usize_value};
use vstd::prelude::*;

verus! {

/// A value that can be read from a piece of text.
///
/// `read` carries no postcondition: what is proved of [`crate::pair::parse_pair`] holds
/// for every implementation. The implementations for `usize` and `i32` say what they
/// return.
pub trait Token: Sized {
    /// The value that `s` stands for, or `None` if it stands for none.
    fn read(s: &str) -> Option<Self>;
}

/// `value` is what reading the text `token` can return.
pub open spec fn reads<T: Token>(token: Seq<char>, value: Option<T>) -> bool {
    exists|s: &str| s@ == token && #[trigger] call_ensures(T::read, (s,), value)
}

impl Token for usize {
    fn read(s: &str) -> (value: Option<usize>)
        ensures
            value == usize_value(s@),
    {
        read_usize(s)
    }
}

impl Token for i32 {
    fn read(s: &str) -> (value: Option<i32>)
        ensures
            value == i32_value(s@),
    {
        read_i32(s)
    }
}

/// Reading a `usize` returns what the text stands for, and nothing else.
pub proof fn lemma_reads_usize(token: Seq<char>, value: Option<usize>)
    requires
        reads(token, value),
    ensures
        value == usize_value(token),
{
}

/// Reading an `i32` returns what the text stands for, and nothing else.
pub proof fn lemma_reads_i32(token: Seq<char>, value: Option<i32>)
    requires
        reads(token, value),
    ensures
        value == i32_value(token),
{
}

} // verus!
