//! Errors raised while handling blocks.
use vstd::prelude::*;

verus! {

pub enum BlockError {
    /// The block already exists.
    BlockExists(String),
    /// An error of another crate: its name and its message.
    Crate(String, String),
    Message(String),
    TransactionError(String),
    /// The block of this number has not been mined yet.
    InvalidBlockNumber(u32),
    /// The expected parent, and the parent found.
    InvalidParent(String, String),
    /// The block is neither canonical nor on a side chain.
    IrrelevantBlock(String),
}

impl BlockError {
    /// The error for an I/O failure, given the failure's debug rendering.
    pub fn from_io(debug_message: String) -> (r: BlockError)
        ensures
            r matches BlockError::Crate(source, message) && source@ == "std::io"@ && message
                == debug_message,
    {
        BlockError::Crate("std::io".to_owned(), debug_message)
    }
}

} // verus!
