//! The operation data model.
//!
//! An [`Operation`] is an atomic, immutable edit descriptor. Its kind is a
//! closed variant: the three tags this engine recognizes, plus [`OpType::Unknown`],
//! which carries the raw tag of any other operation so that a round trip
//! through the wire shape is lossless. An unknown kind still advances a
//! document's version bookkeeping; only the content mutation is skipped.

use vstd::prelude::*;

verus! {

/// The kind of an edit.
#[derive(Debug)]
pub enum OpType {
    Insert,
    Delete,
    Retain,
    /// A kind this engine does not recognize; the raw wire tag is kept
    /// so it survives a round trip unchanged.
    Unknown(String),
}

/// A single text operation: an edit at `pos`, stamped with the author's
/// logical clock. `content` is meaningful for inserts, `length` for deletes.
/// Positions are counted in decoded characters.
#[derive(Debug)]
pub struct Operation {
    pub op_type: OpType,
    pub pos: usize,
    pub content: Option<String>,
    pub length: Option<usize>,
    pub clock: u64,
    pub user_id: String,
}

impl Clone for OpType {
    fn clone(&self) -> (res: Self)
        ensures
            res == *self,
    {
        match self {
            OpType::Insert => OpType::Insert,
            OpType::Delete => OpType::Delete,
            OpType::Retain => OpType::Retain,
            OpType::Unknown(tag) => OpType::Unknown(tag.clone()),
        }
    }
}

impl Clone for Operation {
    fn clone(&self) -> (res: Self)
        ensures
            res == *self,
    {
        Operation {
            op_type: self.op_type.clone(),
            pos: self.pos,
            content: match &self.content {
                Some(s) => Some(s.clone()),
                None => None,
            },
            length: self.length,
            clock: self.clock,
            user_id: self.user_id.clone(),
        }
    }
}

/// The wire tag that names each kind; an unknown kind keeps its raw tag.
pub open spec fn kind_tag(t: OpType) -> Seq<char> {
    match t {
        OpType::Insert => "insert"@,
        OpType::Delete => "delete"@,
        OpType::Retain => "retain"@,
        OpType::Unknown(tag) => tag@,
    }
}

/// Character-for-character equality of two string slices.
pub fn str_eq(a: &str, b: &str) -> (r: bool)
    ensures
        r == (a@ == b@),
{
    let sa: String = a.to_owned();
    let sb: String = b.to_owned();
    sa.eq(&sb)
}

/// Reads a wire tag back into a kind. Tags other than the three recognized
/// ones are preserved verbatim inside [`OpType::Unknown`], so
/// `kind_tag(op_type_from_tag(t)) == t@` for every tag.
pub fn op_type_from_tag(tag: String) -> (r: OpType)
    ensures
        tag@ == "insert"@ ==> r == OpType::Insert,
        tag@ == "delete"@ ==> r == OpType::Delete,
        tag@ == "retain"@ ==> r == OpType::Retain,
        tag@ != "insert"@ && tag@ != "delete"@ && tag@ != "retain"@ ==> r == (OpType::Unknown(
            tag,
        )),
        kind_tag(r) == tag@,
{
    proof {
        reveal_strlit("insert");
        reveal_strlit("delete");
        reveal_strlit("retain");
        assert("insert"@[0] != "delete"@[0]);
        assert("insert"@[0] != "retain"@[0]);
        assert("delete"@[0] != "retain"@[0]);
    }
    if str_eq(tag.as_str(), "insert") {
        OpType::Insert
    } else if str_eq(tag.as_str(), "delete") {
        OpType::Delete
    } else if str_eq(tag.as_str(), "retain") {
        OpType::Retain
    } else {
        OpType::Unknown(tag)
    }
}

/// Writes a kind back to its wire tag.
pub fn tag_of_op_type(t: &OpType) -> (r: String)
    ensures
        r@ == kind_tag(*t),
{
    match t {
        OpType::Insert => "insert".to_owned(),
        OpType::Delete => "delete".to_owned(),
        OpType::Retain => "retain".to_owned(),
        OpType::Unknown(tag) => tag.clone(),
    }
}

} // verus!
