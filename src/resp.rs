use vstd::prelude::*;

verus! {

/// A binary-safe string.
pub type BinSafeStr = Vec<u8>;

/// A bulk string reply: a byte string or nil.
#[derive(Debug)]
pub enum BulkStr {
    Str(BinSafeStr),
    Nil,
}

/// An array reply: a list of replies or nil.
#[derive(Debug)]
pub enum Array {
    Arr(Vec<Resp>),
    Nil,
}

/// A request or reply of the key-value store's protocol.
#[derive(Debug)]
pub enum Resp {
    Error(BinSafeStr),
    Simple(BinSafeStr),
    Bulk(BulkStr),
    Integer(BinSafeStr),
    Arr(Array),
}

} // verus!
