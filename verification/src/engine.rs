//! The engine: many documents, one local author, ephemeral cursors.
//!
//! A local edit advances the engine's logical clock, builds an operation
//! stamped with the new clock and the local author, applies it to the target
//! document if that document exists, and returns the operation for the host
//! to broadcast. The clock is consumed even when the target is missing. A
//! remote operation, already decoded by the host, is applied in arrival
//! order with no causal gating. Cursors live in one flat namespace keyed by
//! author alone — they are not scoped to a document.

use vstd::prelude::*;

use crate::assoc::assoc_map;
use crate::assoc::has_key;
use crate::assoc::keys_unique;
use crate::assoc::lemma_assoc_map_dom;
use crate::assoc::lemma_assoc_map_index;
use crate::assoc::lemma_assoc_map_push;
use crate::assoc::lemma_assoc_map_update;
use crate::document::Document;
use crate::document::applied;
use crate::document::ops_since;
use crate::ops::OpType;
use crate::ops::Operation;
use crate::ops::str_eq;

verus! {

/// Ephemeral per-author presence: a position and an optional selection.
/// Never logged, never versioned.
#[derive(Debug)]
pub struct Cursor {
    pub user_id: String,
    pub position: usize,
    pub selection_start: Option<usize>,
    pub selection_end: Option<usize>,
}

impl Clone for Cursor {
    fn clone(&self) -> (res: Self)
        ensures
            res == *self,
    {
        Cursor {
            user_id: self.user_id.clone(),
            position: self.position,
            selection_start: self.selection_start,
            selection_end: self.selection_end,
        }
    }
}

/// Key of a document: its id.
pub open spec fn doc_key() -> spec_fn(Document) -> Seq<char> {
    |d: Document| d.id@
}

/// Key of a cursor: its author.
pub open spec fn cursor_key() -> spec_fn(Cursor) -> Seq<char> {
    |c: Cursor| c.user_id@
}

/// The replication engine: documents keyed by id, the local author with its
/// logical clock, and the flat cursor table.
pub struct CrdtEngine {
    pub documents: Vec<Document>,
    pub user_id: String,
    pub clock: u64,
    pub cursors: Vec<Cursor>,
}

/// How a mutating call relates the engine's documents to their prior state:
/// if a document with the given id exists, exactly that document has `op`
/// applied to it ([`applied`]) and every other document is untouched;
/// otherwise the document table is unchanged.
pub open spec fn mutated_doc(e0: CrdtEngine, e1: CrdtEngine, id: Seq<char>, op: Operation) -> bool {
    if e0.doc_map().dom().contains(id) {
        &&& e1.doc_map().dom() == e0.doc_map().dom()
        &&& applied(e0.doc_map()[id], e1.doc_map()[id], op)
        &&& forall|k: Seq<char>|
            k != id && #[trigger] e0.doc_map().dom().contains(k) ==> e1.doc_map()[k]
                == e0.doc_map()[k]
    } else {
        e1.documents == e0.documents
    }
}

impl CrdtEngine {
    /// Well-formedness: document ids and cursor authors are pairwise
    /// distinct, and every document is itself well-formed.
    pub open spec fn wf(self) -> bool {
        &&& keys_unique(self.documents@, doc_key())
        &&& forall|i: int|
            0 <= i < self.documents@.len() ==> (#[trigger] self.documents@[i]).wf()
        &&& keys_unique(self.cursors@, cursor_key())
    }

    /// The documents as a map from id to document.
    pub open spec fn doc_map(self) -> Map<Seq<char>, Document> {
        assoc_map(self.documents@, doc_key())
    }

    /// The cursor table as a map from author to cursor.
    pub open spec fn cursor_map(self) -> Map<Seq<char>, Cursor> {
        assoc_map(self.cursors@, cursor_key())
    }

    pub fn new(user_id: String) -> (r: CrdtEngine)
        ensures
            r.wf(),
            r.user_id == user_id,
            r.clock == 0,
            r.documents@ == Seq::<Document>::empty(),
            r.cursors@ == Seq::<Cursor>::empty(),
            r.doc_map() == Map::<Seq<char>, Document>::empty(),
            r.cursor_map() == Map::<Seq<char>, Cursor>::empty(),
    {
        let r = CrdtEngine { documents: Vec::new(), user_id, clock: 0, cursors: Vec::new() };
        proof {
            assert(r.documents@ =~= Seq::<Document>::empty());
            assert(r.cursors@ =~= Seq::<Cursor>::empty());
            assert(r.doc_map() =~= Map::<Seq<char>, Document>::empty());
            assert(r.cursor_map() =~= Map::<Seq<char>, Cursor>::empty());
        }
        r
    }

    /// The index of the document with this id, if one exists.
    fn find_doc(&self, doc_id: &str) -> (r: Option<usize>)
        ensures
            match r {
                Some(i) => i < self.documents@.len() && self.documents@[i as int].id@ == doc_id@,
                None => forall|j: int|
                    0 <= j < self.documents@.len() ==> (#[trigger] self.documents@[j]).id@
                        != doc_id@,
            },
    {
        let n = self.documents.len();
        let mut i: usize = 0;
        while i < n
            invariant
                n == self.documents@.len(),
                i <= n,
                forall|j: int| 0 <= j < i ==> (#[trigger] self.documents@[j]).id@ != doc_id@,
            decreases n - i,
        {
            if str_eq(self.documents[i].id.as_str(), doc_id) {
                return Some(i);
            }
            i = i + 1;
        }
        None
    }

    /// The index of the cursor for this author, if one exists.
    fn find_cursor(&self, user_id: &str) -> (r: Option<usize>)
        ensures
            match r {
                Some(i) => i < self.cursors@.len() && self.cursors@[i as int].user_id@ == user_id@,
                None => forall|j: int|
                    0 <= j < self.cursors@.len() ==> (#[trigger] self.cursors@[j]).user_id@
                        != user_id@,
            },
    {
        let n = self.cursors.len();
        let mut i: usize = 0;
        while i < n
            invariant
                n == self.cursors@.len(),
                i <= n,
                forall|j: int| 0 <= j < i ==> (#[trigger] self.cursors@[j]).user_id@ != user_id@,
            decreases n - i,
        {
            if str_eq(self.cursors[i].user_id.as_str(), user_id) {
                return Some(i);
            }
            i = i + 1;
        }
        None
    }

    /// Applies `op` to the document with this id if it exists; otherwise
    /// does nothing.
    fn apply_to_doc(&mut self, doc_id: &str, op: Operation)
        requires
            old(self).wf(),
        ensures
            final(self).wf(),
            final(self).user_id == old(self).user_id,
            final(self).clock == old(self).clock,
            final(self).cursors == old(self).cursors,
            mutated_doc(*old(self), *final(self), doc_id@, op),
    {
        let ghost s = self.documents@;
        let idx = self.find_doc(doc_id);
        match idx {
            None => {
                proof {
                    lemma_assoc_map_dom(s, doc_key());
                    assert(!has_key(s, doc_key(), doc_id@));
                }
            },
            Some(i) => {
                let ghost op0 = op;
                let mut d = self.documents.remove(i);
                d.apply_operation(op);
                let ghost dnew = d;
                self.documents.insert(i, d);
                proof {
                    assert(self.documents@ =~= s.update(i as int, dnew));
                    assert(doc_key()(dnew) == doc_key()(s[i as int]));
                    lemma_assoc_map_update(s, doc_key(), i as int, dnew);
                    lemma_assoc_map_index(s, doc_key(), i as int);
                    lemma_assoc_map_dom(s, doc_key());
                    assert(old(self).doc_map().dom().contains(doc_id@));
                    assert(self.doc_map() == old(self).doc_map().insert(doc_id@, dnew));
                    assert(self.doc_map().dom() =~= old(self).doc_map().dom());
                    assert(applied(old(self).doc_map()[doc_id@], self.doc_map()[doc_id@], op0));
                    assert forall|j: int|
                        0 <= j < self.documents@.len() implies (
                    #[trigger] self.documents@[j]).wf() by {
                        if j != i {
                            assert(self.documents@[j] == s[j]);
                        }
                    }
                }
            },
        }
    }

    /// Creates a document with this id and content, silently replacing any
    /// previous document under the same id, and returns the id.
    pub fn create_document(&mut self, id: String, initial_content: String) -> (r: String)
        requires
            old(self).wf(),
        ensures
            final(self).wf(),
            r == id,
            final(self).user_id == old(self).user_id,
            final(self).clock == old(self).clock,
            final(self).cursors == old(self).cursors,
            final(self).doc_map().dom() == old(self).doc_map().dom().insert(id@),
            final(self).doc_map()[id@].id == id,
            final(self).doc_map()[id@].content == initial_content,
            final(self).doc_map()[id@].version == 0,
            final(self).doc_map()[id@].operations@ == Seq::<Operation>::empty(),
            final(self).doc_map()[id@].vv() == Map::<Seq<char>, u64>::empty(),
            forall|k: Seq<char>|
                k != id@ && #[trigger] old(self).doc_map().dom().contains(k) ==> final(self).doc_map()[k] == old(self).doc_map()[k],
    {
        let ghost s = self.documents@;
        let r = id.clone();
        let doc = Document::new(id, initial_content);
        let ghost gdoc = doc;
        let idx = self.find_doc(r.as_str());
        match idx {
            Some(i) => {
                let _replaced = self.documents.remove(i);
                self.documents.insert(i, doc);
                proof {
                    assert(self.documents@ =~= s.update(i as int, gdoc));
                    assert(doc_key()(gdoc) == doc_key()(s[i as int]));
                    lemma_assoc_map_update(s, doc_key(), i as int, gdoc);
                    lemma_assoc_map_dom(s, doc_key());
                    assert(self.doc_map() == old(self).doc_map().insert(id@, gdoc));
                    assert(old(self).doc_map().dom().contains(id@));
                    assert(self.doc_map().dom() =~= old(self).doc_map().dom().insert(id@));
                    assert forall|j: int|
                        0 <= j < self.documents@.len() implies (
                    #[trigger] self.documents@[j]).wf() by {
                        if j != i {
                            assert(self.documents@[j] == s[j]);
                        }
                    }
                }
            },
            None => {
                self.documents.push(doc);
                proof {
                    lemma_assoc_map_dom(s, doc_key());
                    assert(!has_key(s, doc_key(), id@));
                    lemma_assoc_map_push(s, doc_key(), gdoc);
                    assert(self.doc_map() == old(self).doc_map().insert(id@, gdoc));
                    assert(self.doc_map().dom() =~= old(self).doc_map().dom().insert(id@));
                    assert forall|j: int|
                        0 <= j < self.documents@.len() implies (
                    #[trigger] self.documents@[j]).wf() by {
                        if j < s.len() {
                            assert(self.documents@[j] == s[j]);
                        }
                    }
                }
            },
        }
        r
    }

    /// The current content of the document with this id; absence — not an
    /// error — when the id is unknown.
    pub fn get_content(&self, doc_id: &str) -> (r: Option<String>)
        requires
            self.wf(),
        ensures
            self.doc_map().dom().contains(doc_id@) ==> r == Some(self.doc_map()[doc_id@].content),
            !self.doc_map().dom().contains(doc_id@) ==> r is None,
    {
        proof {
            lemma_assoc_map_dom(self.documents@, doc_key());
        }
        match self.find_doc(doc_id) {
            Some(i) => {
                proof {
                    lemma_assoc_map_index(self.documents@, doc_key(), i as int);
                }
                Some(self.documents[i].content.clone())
            },
            None => None,
        }
    }

    /// The version of the document with this id; zero when the id is
    /// unknown, indistinguishable from an empty document's version.
    pub fn get_version(&self, doc_id: &str) -> (r: u64)
        requires
            self.wf(),
        ensures
            self.doc_map().dom().contains(doc_id@) ==> r == self.doc_map()[doc_id@].version,
            !self.doc_map().dom().contains(doc_id@) ==> r == 0,
    {
        proof {
            lemma_assoc_map_dom(self.documents@, doc_key());
        }
        match self.find_doc(doc_id) {
            Some(i) => {
                proof {
                    lemma_assoc_map_index(self.documents@, doc_key(), i as int);
                }
                self.documents[i].version
            },
            None => 0,
        }
    }

    /// Builds an insert operation stamped with the freshly advanced clock
    /// and the local author, applies it to the target document if present,
    /// and returns it. The clock is consumed even when the target is
    /// missing, and the document table is then left unchanged.
    pub fn insert(&mut self, doc_id: &str, pos: usize, content: String) -> (r: Operation)
        requires
            old(self).wf(),
            old(self).clock < u64::MAX,
        ensures
            final(self).wf(),
            final(self).user_id == old(self).user_id,
            final(self).cursors == old(self).cursors,
            final(self).clock == old(self).clock + 1,
            r == (Operation {
                op_type: OpType::Insert,
                pos,
                content: Some(content),
                length: None,
                clock: (old(self).clock + 1) as u64,
                user_id: old(self).user_id,
            }),
            mutated_doc(*old(self), *final(self), doc_id@, r),
    {
        self.clock = self.clock + 1;
        let op = Operation {
            op_type: OpType::Insert,
            pos,
            content: Some(content),
            length: None,
            clock: self.clock,
            user_id: self.user_id.clone(),
        };
        let r = op.clone();
        self.apply_to_doc(doc_id, op);
        r
    }

    /// Builds a delete operation, otherwise exactly as [`CrdtEngine::insert`].
    pub fn delete(&mut self, doc_id: &str, pos: usize, length: usize) -> (r: Operation)
        requires
            old(self).wf(),
            old(self).clock < u64::MAX,
        ensures
            final(self).wf(),
            final(self).user_id == old(self).user_id,
            final(self).cursors == old(self).cursors,
            final(self).clock == old(self).clock + 1,
            r == (Operation {
                op_type: OpType::Delete,
                pos,
                content: None,
                length: Some(length),
                clock: (old(self).clock + 1) as u64,
                user_id: old(self).user_id,
            }),
            mutated_doc(*old(self), *final(self), doc_id@, r),
    {
        self.clock = self.clock + 1;
        let op = Operation {
            op_type: OpType::Delete,
            pos,
            content: None,
            length: Some(length),
            clock: self.clock,
            user_id: self.user_id.clone(),
        };
        let r = op.clone();
        self.apply_to_doc(doc_id, op);
        r
    }

    /// Applies an operation that arrived from another replica, in arrival
    /// order, with no causal gating. The host hands in the decoded
    /// operation, or nothing when the payload did not parse; then the call
    /// changes no state at all. An unknown document id is a no-op too.
    pub fn apply_remote_operation(&mut self, doc_id: &str, op: Option<Operation>)
        requires
            old(self).wf(),
        ensures
            final(self).wf(),
            op is None ==> *final(self) == *old(self),
            op matches Some(o) ==> {
                &&& final(self).user_id == old(self).user_id
                &&& final(self).clock == old(self).clock
                &&& final(self).cursors == old(self).cursors
                &&& mutated_doc(*old(self), *final(self), doc_id@, o)
            },
    {
        match op {
            Some(o) => self.apply_to_doc(doc_id, o),
            None => {},
        }
    }

    /// Upserts the author's cursor: position set, selection reset to absent.
    /// On the cursor table's map this is exactly an insert, so a second
    /// update by the same author overwrites the first.
    pub fn update_cursor(&mut self, user_id: String, position: usize)
        requires
            old(self).wf(),
        ensures
            final(self).wf(),
            final(self).documents == old(self).documents,
            final(self).user_id == old(self).user_id,
            final(self).clock == old(self).clock,
            final(self).cursor_map() == old(self).cursor_map().insert(
                user_id@,
                (Cursor { user_id, position, selection_start: None, selection_end: None }),
            ),
            old(self).cursor_map().dom().contains(user_id@) ==> final(self).cursors@.len() == old(self).cursors@.len(),
            !old(self).cursor_map().dom().contains(user_id@) ==> final(self).cursors@.len() == old(self).cursors@.len() + 1,
    {
        let ghost s = self.cursors@;
        let idx = self.find_cursor(user_id.as_str());
        let c = Cursor { user_id, position, selection_start: None, selection_end: None };
        let ghost gc = c;
        proof {
            lemma_assoc_map_dom(s, cursor_key());
        }
        match idx {
            Some(i) => {
                let _replaced = self.cursors.remove(i);
                self.cursors.insert(i, c);
                proof {
                    assert(self.cursors@ =~= s.update(i as int, gc));
                    assert(cursor_key()(gc) == cursor_key()(s[i as int]));
                    lemma_assoc_map_update(s, cursor_key(), i as int, gc);
                }
            },
            None => {
                self.cursors.push(c);
                proof {
                    assert(!has_key(s, cursor_key(), gc.user_id@));
                    lemma_assoc_map_push(s, cursor_key(), gc);
                }
            },
        }
    }

    /// Every cursor the engine knows, across all documents: the cursor
    /// namespace is flat, keyed by author alone.
    pub fn get_cursors(&self) -> (r: Vec<Cursor>)
        ensures
            r@ == self.cursors@,
    {
        let n = self.cursors.len();
        let mut r: Vec<Cursor> = Vec::new();
        let mut i: usize = 0;
        while i < n
            invariant
                n == self.cursors@.len(),
                i <= n,
                r@ =~= self.cursors@.subrange(0, i as int),
            decreases n - i,
        {
            r.push(self.cursors[i].clone());
            i = i + 1;
        }
        proof {
            assert(r@ =~= self.cursors@);
        }
        r
    }

    /// Tails the log of the document with this id: its entries at index
    /// `>= version`, in order; empty when the id is unknown or the offset
    /// is at or past the end.
    pub fn get_operations_since(&self, doc_id: &str, version: u64) -> (r: Vec<Operation>)
        requires
            self.wf(),
        ensures
            self.doc_map().dom().contains(doc_id@) ==> r@ == ops_since(
                self.doc_map()[doc_id@].operations@,
                version,
            ),
            !self.doc_map().dom().contains(doc_id@) ==> r@ == Seq::<Operation>::empty(),
    {
        proof {
            lemma_assoc_map_dom(self.documents@, doc_key());
        }
        match self.find_doc(doc_id) {
            Some(i) => {
                proof {
                    lemma_assoc_map_index(self.documents@, doc_key(), i as int);
                }
                self.documents[i].get_operations_since(version)
            },
            None => {
                let r: Vec<Operation> = Vec::new();
                proof {
                    assert(r@ =~= Seq::<Operation>::empty());
                }
                r
            },
        }
    }
}

/// Overwrite law for cursor updates: when two updates for the same author
/// follow one another — each an insert on the cursor map, as
/// [`CrdtEngine::update_cursor`] ensures — the table ends as if only the
/// second had happened.
pub proof fn lemma_cursor_update_overwrites(
    e0: CrdtEngine,
    e1: CrdtEngine,
    e2: CrdtEngine,
    a: Seq<char>,
    c1: Cursor,
    c2: Cursor,
)
    requires
        e1.cursor_map() == e0.cursor_map().insert(a, c1),
        e2.cursor_map() == e1.cursor_map().insert(a, c2),
    ensures
        e2.cursor_map() == e0.cursor_map().insert(a, c2),
{
    assert(e0.cursor_map().insert(a, c1).insert(a, c2) =~= e0.cursor_map().insert(a, c2));
}

/// A well-formed engine holds exactly one cursor entry per author present
/// in its cursor map: one exists, and any two entries for the author are
/// the same entry.
pub proof fn lemma_cursor_entry_unique(e: CrdtEngine, a: Seq<char>)
    requires
        e.wf(),
        e.cursor_map().dom().contains(a),
    ensures
        exists|i: int| 0 <= i < e.cursors@.len() && (#[trigger] e.cursors@[i]).user_id@ == a,
        forall|i: int, j: int|
            0 <= i < e.cursors@.len() && 0 <= j < e.cursors@.len()
                && (#[trigger] e.cursors@[i]).user_id@ == a && (#[trigger] e.cursors@[j]).user_id@
                == a ==> i == j,
{
    lemma_assoc_map_dom(e.cursors@, cursor_key());
    assert(has_key(e.cursors@, cursor_key(), a));
    let w = choose|i: int| 0 <= i < e.cursors@.len() && cursor_key()(e.cursors@[i]) == a;
    assert((e.cursors@[w]).user_id@ == a);
    assert forall|i: int, j: int|
        0 <= i < e.cursors@.len() && 0 <= j < e.cursors@.len() && (
        #[trigger] e.cursors@[i]).user_id@ == a && (#[trigger] e.cursors@[j]).user_id@ == a implies i
        == j by {
        if i != j {
            assert(cursor_key()(e.cursors@[i]) == cursor_key()(e.cursors@[j]));
        }
    }
}

} // verus!
