//! Documents and the merge (apply) routine.
//!
//! A [`Document`] is replicated text plus its append-only operation log, a
//! monotonic version counter, and a version vector recording the highest
//! clock seen per author. The log is the source of truth: the content always
//! equals the replay of the log over the initial content, and the version
//! always equals the log's length. Applying an operation never fails:
//! positions and lengths are clamped, and an operation of unrecognized kind
//! still appends to the log and updates the bookkeeping, mutating nothing.

use vstd::prelude::*;
use vstd::string::StrSliceExecFns;
use vstd::string::StringExecFns;

use crate::assoc::assoc_map;
use crate::assoc::has_key;
use crate::assoc::keys_unique;
use crate::assoc::lemma_assoc_map_dom;
use crate::assoc::lemma_assoc_map_index;
use crate::assoc::lemma_assoc_map_push;
use crate::assoc::lemma_assoc_map_update;
use crate::ops::OpType;
use crate::ops::Operation;
use crate::ops::str_eq;

verus! {

/// `pos` clamped into `[0, len]`.
pub open spec fn clamp(pos: int, len: int) -> int {
    if pos <= len {
        pos
    } else {
        len
    }
}

/// The larger of two clock values.
pub open spec fn max_u64(a: u64, b: u64) -> u64 {
    if a >= b {
        a
    } else {
        b
    }
}

/// `s` spliced into `c` at `pos`, with `pos` clamped to the content length.
pub open spec fn insert_at(c: Seq<char>, pos: int, s: Seq<char>) -> Seq<char> {
    let p = clamp(pos, c.len() as int);
    c.subrange(0, p) + s + c.subrange(p, c.len() as int)
}

/// The range `[min(pos, len), min(pos + l, len))` removed from `c`.
pub open spec fn delete_range(c: Seq<char>, pos: int, l: int) -> Seq<char> {
    let start = clamp(pos, c.len() as int);
    let end = clamp(start + l, c.len() as int);
    c.subrange(0, start) + c.subrange(end, c.len() as int)
}

/// What one operation does to document content. Only a recognized kind with
/// its payload present mutates; anything else leaves the content alone.
pub open spec fn apply_op_content(c: Seq<char>, op: Operation) -> Seq<char> {
    match op.op_type {
        OpType::Insert => match op.content {
            Some(s) => insert_at(c, op.pos as int, s@),
            None => c,
        },
        OpType::Delete => match op.length {
            Some(l) => delete_range(c, op.pos as int, l as int),
            None => c,
        },
        OpType::Retain => c,
        OpType::Unknown(_) => c,
    }
}

/// The content reached by applying every entry of `ops`, in log order,
/// starting from `init`.
pub open spec fn replay(init: Seq<char>, ops: Seq<Operation>) -> Seq<char>
    decreases ops.len(),
{
    if ops.len() == 0 {
        init
    } else {
        apply_op_content(replay(init, ops.drop_last()), ops.last())
    }
}

/// Key of a version-vector entry: the author it counts for.
pub open spec fn vv_key() -> spec_fn((String, u64)) -> Seq<char> {
    |e: (String, u64)| e.0@
}

/// The mapping author -> highest clock seen, as a version vector denotes it.
pub open spec fn vv_map(s: Seq<(String, u64)>) -> Map<Seq<char>, u64> {
    assoc_map(s, vv_key()).map_values(|e: (String, u64)| e.1)
}

/// The clock recorded for `a`, defaulting to zero when `a` is absent.
pub open spec fn vv_val(m: Map<Seq<char>, u64>, a: Seq<char>) -> u64 {
    if m.dom().contains(a) {
        m[a]
    } else {
        0
    }
}

/// Replicated text with its operation log and version bookkeeping.
pub struct Document {
    pub id: String,
    pub content: String,
    pub version: u64,
    pub operations: Vec<Operation>,
    pub version_vector: Vec<(String, u64)>,
    /// The content the document was created with; the anchor of the
    /// log-replay invariant.
    pub initial_content: Ghost<Seq<char>>,
}

/// How `apply` relates a document to its predecessor: the operation is
/// appended to the log, the version ticks once, the author's version-vector
/// entry rises to the operation's clock if that is higher, and the content
/// changes exactly as [`apply_op_content`] says.
pub open spec fn applied(d0: Document, d1: Document, op: Operation) -> bool {
    &&& d1.id == d0.id
    &&& d1.initial_content == d0.initial_content
    &&& d1.content@ == apply_op_content(d0.content@, op)
    &&& d1.version == d0.version + 1
    &&& d1.operations@ == d0.operations@.push(op)
    &&& d1.vv() == d0.vv().insert(op.user_id@, max_u64(vv_val(d0.vv(), op.user_id@), op.clock))
}

/// Version-vector entries never sink: across one apply, every author's
/// recorded clock stays or rises — the edit's author to the operation's
/// clock if that is higher, everyone else untouched.
pub proof fn lemma_vv_never_decreases(d0: Document, d1: Document, op: Operation, a: Seq<char>)
    requires
        applied(d0, d1, op),
    ensures
        vv_val(d1.vv(), a) >= vv_val(d0.vv(), a),
{
}

/// The log suffix at index `>= version`; empty once `version` reaches the
/// log's length.
pub open spec fn ops_since(ops: Seq<Operation>, version: u64) -> Seq<Operation> {
    if version >= ops.len() {
        Seq::empty()
    } else {
        ops.skip(version as int)
    }
}

impl Document {
    /// Well-formedness: the version counts the log, version-vector authors
    /// are distinct, and the content is what replaying the log yields.
    pub open spec fn wf(self) -> bool {
        &&& self.version == self.operations@.len()
        &&& keys_unique(self.version_vector@, vv_key())
        &&& self.content@ == replay(self.initial_content@, self.operations@)
    }

    /// The version vector as a map from author to highest clock seen.
    pub open spec fn vv(self) -> Map<Seq<char>, u64> {
        vv_map(self.version_vector@)
    }

    pub fn new(id: String, initial_content: String) -> (d: Document)
        ensures
            d.wf(),
            d.id == id,
            d.content == initial_content,
            d.version == 0,
            d.operations@ == Seq::<Operation>::empty(),
            d.version_vector@ == Seq::<(String, u64)>::empty(),
            d.vv() == Map::<Seq<char>, u64>::empty(),
    {
        let ghost init = initial_content@;
        let d = Document {
            id,
            content: initial_content,
            version: 0,
            operations: Vec::new(),
            version_vector: Vec::new(),
            initial_content: Ghost(init),
        };
        proof {
            assert(d.operations@ =~= Seq::<Operation>::empty());
            assert(d.version_vector@ =~= Seq::<(String, u64)>::empty());
            assert(d.vv() =~= Map::<Seq<char>, u64>::empty());
        }
        d
    }

    /// Merges one operation into the document. Never fails: positions and
    /// lengths are clamped, and every operation — whatever its kind — is
    /// logged and counted.
    pub fn apply_operation(&mut self, op: Operation)
        requires
            old(self).wf(),
        ensures
            final(self).wf(),
            applied(*old(self), *final(self), op),
    {
        match &op.op_type {
            OpType::Insert => {
                if let Some(text) = &op.content {
                    let len = self.content.as_str().unicode_len();
                    let p = if op.pos < len {
                        op.pos
                    } else {
                        len
                    };
                    let prefix = self.content.as_str().substring_char(0, p);
                    let mut newc = prefix.to_owned();
                    newc.append(text.as_str());
                    let suffix = self.content.as_str().substring_char(p, len);
                    newc.append(suffix);
                    self.content = newc;
                }
            },
            OpType::Delete => {
                if let Some(l) = op.length {
                    let len = self.content.as_str().unicode_len();
                    let start = if op.pos < len {
                        op.pos
                    } else {
                        len
                    };
                    let rem = len - start;
                    let end = if l < rem {
                        start + l
                    } else {
                        len
                    };
                    let prefix = self.content.as_str().substring_char(0, start);
                    let mut newc = prefix.to_owned();
                    let suffix = self.content.as_str().substring_char(end, len);
                    newc.append(suffix);
                    self.content = newc;
                }
            },
            OpType::Retain => {},
            OpType::Unknown(_) => {},
        }
        assert(self.content@ == apply_op_content(old(self).content@, op));
        vv_update(&mut self.version_vector, &op.user_id, op.clock);
        self.operations.push(op);
        let n = self.operations.len();
        proof {
            assert(self.version + 1 == n);
        }
        self.version = self.version + 1;
        proof {
            let ops1 = old(self).operations@.push(op);
            assert(ops1.drop_last() =~= old(self).operations@);
            assert(ops1.last() == op);
        }
    }

    /// Tails the log: every entry at index `>= version`, in log order.
    pub fn get_operations_since(&self, version: u64) -> (r: Vec<Operation>)
        ensures
            r@ == ops_since(self.operations@, version),
    {
        let n = self.operations.len();
        let mut r: Vec<Operation> = Vec::new();
        if version >= n as u64 {
            assert(r@ =~= ops_since(self.operations@, version));
            return r;
        }
        let mut i: usize = version as usize;
        while i < n
            invariant
                n == self.operations@.len(),
                version <= i as u64,
                i <= n,
                r@ =~= self.operations@.subrange(version as int, i as int),
            decreases n - i,
        {
            r.push(self.operations[i].clone());
            i = i + 1;
        }
        assert(r@ =~= ops_since(self.operations@, version));
        r
    }
}

/// Raises the entry for `user_id` to `clock` if that is higher, inserting
/// the entry if the author is new; on the map model this is exactly an
/// insert of the get-or-zero-then-max value.
fn vv_update(vv: &mut Vec<(String, u64)>, user_id: &String, clock: u64)
    requires
        keys_unique(old(vv)@, vv_key()),
    ensures
        keys_unique(final(vv)@, vv_key()),
        vv_map(final(vv)@) == vv_map(old(vv)@).insert(
            user_id@,
            max_u64(vv_val(vv_map(old(vv)@), user_id@), clock),
        ),
{
    let n = vv.len();
    let mut i: usize = 0;
    while i < n
        invariant
            n == vv@.len(),
            vv@ == old(vv)@,
            keys_unique(vv@, vv_key()),
            i <= n,
            forall|j: int| 0 <= j < i ==> vv@[j].0@ != user_id@,
        decreases n - i,
    {
        if str_eq(vv[i].0.as_str(), user_id.as_str()) {
            let entry = vv.remove(i);
            let cur = entry.1;
            let newv = if cur >= clock {
                cur
            } else {
                clock
            };
            let entry2 = (entry.0, newv);
            let ghost ge = entry2;
            vv.insert(i, entry2);
            proof {
                let s = old(vv)@;
                assert(vv@ =~= s.update(i as int, ge));
                assert(vv_key()(ge) == vv_key()(s[i as int]));
                lemma_assoc_map_update(s, vv_key(), i as int, ge);
                lemma_assoc_map_index(s, vv_key(), i as int);
                lemma_assoc_map_dom(s, vv_key());
                assert(vv_map(s).dom().contains(user_id@));
                assert(vv_val(vv_map(s), user_id@) == s[i as int].1);
                assert(vv_map(vv@) =~= vv_map(s).insert(
                    user_id@,
                    max_u64(vv_val(vv_map(s), user_id@), clock),
                ));
            }
            return ;
        }
        i = i + 1;
    }
    let entry = (user_id.clone(), clock);
    let ghost ge = entry;
    vv.push(entry);
    proof {
        let s = old(vv)@;
        lemma_assoc_map_dom(s, vv_key());
        assert(!has_key(s, vv_key(), user_id@));
        assert(!vv_map(s).dom().contains(user_id@));
        lemma_assoc_map_push(s, vv_key(), ge);
        assert(max_u64(vv_val(vv_map(s), user_id@), clock) == clock);
        assert(vv_map(vv@) =~= vv_map(s).insert(user_id@, clock));
    }
}

} // verus!
