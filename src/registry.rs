//! The registry of introduced peers: each node identity maps to the name that
//! the peer last announced. Entries are only ever added or overwritten.
use vstd::prelude::*;

verus! {

/// A node's identity: its 32-byte public key.
pub type NodeId = [u8; 32];

/// What the registry keeps of a peer.
#[derive(Debug, Clone)]
pub struct RemoteNode {
    /// Name of the remote node.
    pub name: String,
}

/// Whether two identities are the same.
pub fn same_node(a: &NodeId, b: &NodeId) -> (r: bool)
    ensures
        r == (a@ == b@),
{
    let mut i: usize = 0;
    while i < 32
        invariant
            i <= 32,
            a@.len() == 32,
            b@.len() == 32,
            forall|j: int| 0 <= j < i ==> a@[j] == b@[j],
        decreases 32 - i,
    {
        if a[i] != b[i] {
            assert(a@[i as int] != b@[i as int]);
            return false;
        }
        i = i + 1;
    }
    assert(a@ =~= b@);
    true
}

/// The known peers: identity to announced name.
pub struct PeerRegistry {
    entries: Vec<(NodeId, RemoteNode)>,
    known: Ghost<Map<Seq<u8>, Seq<char>>>,
}

impl View for PeerRegistry {
    type V = Map<Seq<u8>, Seq<char>>;

    closed spec fn view(&self) -> Map<Seq<u8>, Seq<char>> {
        self.known@
    }
}

impl PeerRegistry {
    /// Each identity stands in one entry, and the entries are exactly the map.
    pub closed spec fn well_formed(&self) -> bool {
        &&& forall|i: int, j: int|
            0 <= i < j < self.entries@.len() ==> self.entries@[i].0@ != self.entries@[j].0@
        &&& forall|i: int|
            0 <= i < self.entries@.len() ==> {
                &&& self.known@.contains_key(#[trigger] self.entries@[i].0@)
                &&& self.known@[self.entries@[i].0@] == self.entries@[i].1.name@
            }
        &&& forall|k: Seq<u8>|
            #[trigger] self.known@.contains_key(k) ==> exists|i: int|
                0 <= i < self.entries@.len() && self.entries@[i].0@ == k
    }

    /// An empty registry.
    pub fn new() -> (r: PeerRegistry)
        ensures
            r.well_formed(),
            r@ == Map::<Seq<u8>, Seq<char>>::empty(),
    {
        PeerRegistry { entries: Vec::new(), known: Ghost(Map::empty()) }
    }

    /// The position of `id` among the entries, if it has one.
    fn find(&self, id: &NodeId) -> (r: Option<usize>)
        requires
            self.well_formed(),
        ensures
            match r {
                Some(i) => i < self.entries@.len() && self.entries@[i as int].0@ == id@,
                None => !self@.contains_key(id@),
            },
    {
        let mut i: usize = 0;
        while i < self.entries.len()
            invariant
                self.well_formed(),
                i <= self.entries@.len(),
                forall|j: int| 0 <= j < i ==> self.entries@[j].0@ != id@,
            decreases self.entries@.len() - i,
        {
            if same_node(&self.entries[i].0, id) {
                return Some(i);
            }
            i = i + 1;
        }
        None
    }

    /// Whether `id` has been introduced.
    pub fn contains(&self, id: &NodeId) -> (r: bool)
        requires
            self.well_formed(),
        ensures
            r == self@.contains_key(id@),
    {
        match self.find(id) {
            Some(_) => true,
            None => false,
        }
    }

    /// What is known of `id`, if it has been introduced.
    pub fn get(&self, id: &NodeId) -> (r: Option<RemoteNode>)
        requires
            self.well_formed(),
        ensures
            match r {
                Some(node) => self@.contains_key(id@) && node.name@ == self@[id@],
                None => !self@.contains_key(id@),
            },
    {
        match self.find(id) {
            Some(i) => {
                let name = self.entries[i].1.name.clone();
                Some(RemoteNode { name })
            },
            None => None,
        }
    }

    /// Records `name` for `id`, over whatever was there.
    pub fn upsert(&mut self, id: NodeId, name: String)
        requires
            old(self).well_formed(),
        ensures
            final(self).well_formed(),
            final(self)@ == old(self)@.insert(id@, name@),
    {
        let ghost key = id@;
        let ghost value = name@;
        match self.find(&id) {
            Some(i) => {
                self.entries.set(i, (id, RemoteNode { name }));
                self.known = Ghost(self.known@.insert(key, value));
                assert forall|k: Seq<u8>| #[trigger] self.known@.contains_key(k) implies exists|
                    j: int,
                | 0 <= j < self.entries@.len() && self.entries@[j].0@ == k by {
                    if k != key {
                        assert(old(self).known@.contains_key(k));
                        let j = choose|j: int|
                            0 <= j < old(self).entries@.len() && old(self).entries@[j].0@ == k;
                        assert(self.entries@[j].0@ == k);
                    } else {
                        assert(self.entries@[i as int].0@ == k);
                    }
                }
            },
            None => {
                self.entries.push((id, RemoteNode { name }));
                self.known = Ghost(self.known@.insert(key, value));
                assert forall|k: Seq<u8>| #[trigger] self.known@.contains_key(k) implies exists|
                    j: int,
                | 0 <= j < self.entries@.len() && self.entries@[j].0@ == k by {
                    if k != key {
                        assert(old(self).known@.contains_key(k));
                        let j = choose|j: int|
                            0 <= j < old(self).entries@.len() && old(self).entries@[j].0@ == k;
                        assert(self.entries@[j].0@ == k);
                    } else {
                        let last = self.entries@.len() - 1;
                        assert(self.entries@[last].0@ == k);
                    }
                }
            },
        }
    }
}

/// The registry after recording each pair of `ops` in turn.
pub open spec fn upsert_all(
    known: Map<Seq<u8>, Seq<char>>,
    ops: Seq<(Seq<u8>, Seq<char>)>,
) -> Map<Seq<u8>, Seq<char>>
    decreases ops.len(),
{
    if ops.len() == 0 {
        known
    } else {
        upsert_all(known, ops.drop_last()).insert(ops.last().0, ops.last().1)
    }
}

/// After `upsert(id, name)`, `get(id)` gives `name`.
pub proof fn lemma_get_after_upsert(known: Map<Seq<u8>, Seq<char>>, id: Seq<u8>, name: Seq<char>)
    ensures
        known.insert(id, name).contains_key(id),
        known.insert(id, name)[id] == name,
{
}

/// A second `upsert` of the same identity overwrites the first: the last write
/// wins, and the registry is as if only the second had been made.
pub proof fn lemma_last_write_wins(
    known: Map<Seq<u8>, Seq<char>>,
    id: Seq<u8>,
    first: Seq<char>,
    second: Seq<char>,
)
    ensures
        known.insert(id, first).insert(id, second) == known.insert(id, second),
        known.insert(id, first).insert(id, second)[id] == second,
{
    assert(known.insert(id, first).insert(id, second) =~= known.insert(id, second));
}

/// Starting from an empty registry, an identity is known exactly when some
/// `upsert` named it.
pub proof fn lemma_known_only_if_upserted(ops: Seq<(Seq<u8>, Seq<char>)>, id: Seq<u8>)
    ensures
        upsert_all(Map::empty(), ops).contains_key(id) <==> exists|i: int|
            0 <= i < ops.len() && (#[trigger] ops[i]).0 == id,
    decreases ops.len(),
{
    if ops.len() > 0 {
        let front = ops.drop_last();
        lemma_known_only_if_upserted(front, id);
        if upsert_all(Map::empty(), ops).contains_key(id) && ops.last().0 != id {
            let i = choose|i: int| 0 <= i < front.len() && (#[trigger] front[i]).0 == id;
            assert(ops[i] == front[i]);
        }
        if exists|i: int| 0 <= i < ops.len() && (#[trigger] ops[i]).0 == id {
            let i = choose|i: int| 0 <= i < ops.len() && (#[trigger] ops[i]).0 == id;
            if i < ops.len() - 1 {
                assert(front[i] == ops[i]);
            }
        }
    }
}

} // verus!
