//! An in-memory model of the system clipboard.
//!
//! The system clipboard holds, at any moment, a set of named formats, each
//! with a payload that is retrieved either over a string path or over a
//! binary path. This module models that snapshot as a map from format name
//! to payload, so negotiation and transfer can be verified against it and
//! exercised without any operating-system dependency. The surrounding
//! binary fills a [`SimClipboard`] from the live clipboard (or pushes its
//! contents back out) at the edge of the process.

use vstd::prelude::*;

verus! {

/// A clipboard payload as specifications see it: either text (retrieved
/// over the string path) or raw bytes (retrieved over the binary path).
pub enum PayloadModel {
    Text(Seq<char>),
    Bytes(Seq<u8>),
}

/// A clipboard payload: either text or raw bytes.
#[derive(Clone)]
pub enum ClipData {
    Text(String),
    Bytes(Vec<u8>),
}

impl View for ClipData {
    type V = PayloadModel;

    open spec fn view(&self) -> PayloadModel {
        match self {
            ClipData::Text(s) => PayloadModel::Text(s@),
            ClipData::Bytes(b) => PayloadModel::Bytes(b@),
        }
    }
}

/// One advertised format: its registered name and its payload.
pub struct ClipEntry {
    pub id: String,
    pub data: ClipData,
}

/// The modeled clipboard: a snapshot of every advertised format.
///
/// Its view is a map from format name to payload; the invariant keeps one
/// entry per name, so the map loses nothing that the snapshot holds.
pub struct SimClipboard {
    entries: Vec<ClipEntry>,
}

/// The map that a sequence of entries denotes, later entries shadowing
/// earlier ones of the same name (the invariant rules shadowing out).
spec fn entries_map(s: Seq<ClipEntry>) -> Map<Seq<char>, PayloadModel>
    decreases s.len(),
{
    if s.len() == 0 {
        Map::empty()
    } else {
        entries_map(s.drop_last()).insert(s.last().id@, s.last().data@)
    }
}

/// A name is in the denoted map exactly when some entry carries it.
proof fn lemma_entries_map_dom(s: Seq<ClipEntry>, k: Seq<char>)
    ensures
        entries_map(s).contains_key(k) <==> exists|i: int| 0 <= i < s.len() && s[i].id@ == k,
    decreases s.len(),
{
    if s.len() > 0 {
        lemma_entries_map_dom(s.drop_last(), k);
        if exists|i: int| 0 <= i < s.len() && s[i].id@ == k {
            let i = choose|i: int| 0 <= i < s.len() && s[i].id@ == k;
            if i < s.len() - 1 {
                assert(s.drop_last()[i].id@ == k);
            }
        }
    }
}

/// Under the uniqueness invariant, each entry's payload is the one the
/// denoted map assigns to its name.
proof fn lemma_entries_map_at(s: Seq<ClipEntry>, i: int)
    requires
        forall|p: int, q: int|
            0 <= p < q < s.len() ==> s[p].id@ != s[q].id@,
        0 <= i < s.len(),
    ensures
        entries_map(s).contains_key(s[i].id@),
        entries_map(s)[s[i].id@] == s[i].data@,
    decreases s.len(),
{
    lemma_entries_map_dom(s, s[i].id@);
    if i < s.len() - 1 {
        assert(s.last().id@ != s[i].id@);
        lemma_entries_map_at(s.drop_last(), i);
        assert(s.drop_last()[i] == s[i]);
    }
}

impl View for SimClipboard {
    type V = Map<Seq<char>, PayloadModel>;

    closed spec fn view(&self) -> Map<Seq<char>, PayloadModel> {
        entries_map(self.entries@)
    }
}

impl SimClipboard {
    /// One entry per format name.
    pub closed spec fn wf(&self) -> bool {
        forall|p: int, q: int|
            0 <= p < q < self.entries@.len() ==> self.entries@[p].id@ != self.entries@[q].id@
    }

    /// An empty clipboard: no formats advertised.
    pub fn new() -> (r: SimClipboard)
        ensures
            r.wf(),
            r@ == Map::<Seq<char>, PayloadModel>::empty(),
    {
        SimClipboard { entries: Vec::new() }
    }

    /// The position of the entry that carries `id`, if any.
    fn position_of(&self, id: &str) -> (r: Option<usize>)
        requires
            self.wf(),
        ensures
            match r {
                Some(i) => {
                    &&& i < self.entries@.len()
                    &&& self.entries@[i as int].id@ == id@
                    &&& self@.contains_key(id@)
                    &&& self@[id@] == self.entries@[i as int].data@
                },
                None => !self@.contains_key(id@),
            },
    {
        let n = self.entries.len();
        let mut k: usize = 0;
        while k < n
            invariant
                self.wf(),
                n == self.entries@.len(),
                k <= n,
                forall|j: int| 0 <= j < k ==> self.entries@[j].id@ != id@,
            decreases n - k,
        {
            if crate::formats::str_eq(self.entries[k].id.as_str(), id) {
                proof {
                    lemma_entries_map_at(self.entries@, k as int);
                }
                return Some(k);
            }
            k += 1;
        }
        proof {
            lemma_entries_map_dom(self.entries@, id@);
        }
        None
    }

    /// Whether the clipboard currently advertises the format named `id`.
    pub fn advertises(&self, id: &str) -> (r: bool)
        requires
            self.wf(),
        ensures
            r == self@.contains_key(id@),
    {
        self.position_of(id).is_some()
    }

    /// The names of every advertised format, in snapshot order.
    pub fn advertised_names(&self) -> (r: Vec<String>)
        requires
            self.wf(),
        ensures
            forall|k: Seq<char>|
                (exists|i: int| 0 <= i < r@.len() && r@[i]@ == k) <==> self@.contains_key(k),
    {
        let n = self.entries.len();
        let mut names: Vec<String> = Vec::new();
        let mut k: usize = 0;
        while k < n
            invariant
                n == self.entries@.len(),
                k <= n,
                names@.len() == k,
                forall|i: int| 0 <= i < k ==> names@[i]@ == self.entries@[i].id@,
            decreases n - k,
        {
            names.push(self.entries[k].id.clone());
            k += 1;
        }
        proof {
            assert forall|k2: Seq<char>|
                (exists|i: int| 0 <= i < names@.len() && names@[i]@ == k2)
                    <==> self@.contains_key(k2) by {
                lemma_entries_map_dom(self.entries@, k2);
                if exists|i: int| 0 <= i < names@.len() && names@[i]@ == k2 {
                    let i = choose|i: int| 0 <= i < names@.len() && names@[i]@ == k2;
                    assert(self.entries@[i].id@ == k2);
                }
                if self@.contains_key(k2) {
                    let i = choose|i: int| 0 <= i < self.entries@.len() && self.entries@[i].id@
                        == k2;
                    assert(names@[i]@ == k2);
                }
            }
        }
        names
    }

    /// The text payload of the format named `id`, if that format is
    /// advertised and carries text.
    pub fn read_text(&self, id: &str) -> (r: Option<String>)
        requires
            self.wf(),
        ensures
            match r {
                Some(t) => self@.contains_key(id@) && self@[id@] == PayloadModel::Text(t@),
                None => !(self@.contains_key(id@) && self@[id@] is Text),
            },
    {
        match self.position_of(id) {
            Some(i) => match &self.entries[i].data {
                ClipData::Text(s) => Some(s.clone()),
                ClipData::Bytes(_) => None,
            },
            None => None,
        }
    }

    /// The byte payload of the format named `id`, if that format is
    /// advertised and carries raw bytes.
    pub fn read_bytes(&self, id: &str) -> (r: Option<Vec<u8>>)
        requires
            self.wf(),
        ensures
            match r {
                Some(b) => self@.contains_key(id@) && self@[id@] == PayloadModel::Bytes(b@),
                None => !(self@.contains_key(id@) && self@[id@] is Bytes),
            },
    {
        match self.position_of(id) {
            Some(i) => match &self.entries[i].data {
                ClipData::Bytes(b) => Some(clone_bytes(b)),
                ClipData::Text(_) => None,
            },
            None => None,
        }
    }

    /// Remove every advertised format.
    pub fn clear(&mut self)
        ensures
            final(self).wf(),
            final(self)@ == Map::<Seq<char>, PayloadModel>::empty(),
    {
        self.entries = Vec::new();
    }

    /// Advertise the format named `id` with the given payload, replacing
    /// any payload that format already carried.
    pub fn put(&mut self, id: String, data: ClipData)
        requires
            old(self).wf(),
        ensures
            final(self).wf(),
            final(self)@ == old(self)@.insert(id@, data@),
    {
        match self.position_of(id.as_str()) {
            Some(i) => {
                let ghost before = self.entries@;
                self.entries.set(i, ClipEntry { id, data });
                proof {
                    lemma_entries_map_update(before, i as int, self.entries@[i as int]);
                }
            },
            None => {
                let ghost before = self.entries@;
                proof {
                    assert forall|j: int| 0 <= j < before.len() implies before[j].id@ != id@ by {
                        lemma_entries_map_at(before, j);
                    }
                }
                self.entries.push(ClipEntry { id, data });
                proof {
                    assert(self.entries@.drop_last() =~= before);
                }
            },
        }
    }
}

/// Replacing the entry at `i` by one with the same name re-points the
/// denoted map at the new payload and touches nothing else.
proof fn lemma_entries_map_update(s: Seq<ClipEntry>, i: int, e: ClipEntry)
    requires
        forall|p: int, q: int|
            0 <= p < q < s.len() ==> s[p].id@ != s[q].id@,
        0 <= i < s.len(),
        e.id@ == s[i].id@,
    ensures
        entries_map(s.update(i, e)) == entries_map(s).insert(e.id@, e.data@),
    decreases s.len(),
{
    let t = s.update(i, e);
    if i == s.len() - 1 {
        assert(t.drop_last() =~= s.drop_last());
        assert(entries_map(t) == entries_map(s.drop_last()).insert(e.id@, e.data@));
        assert(entries_map(s) == entries_map(s.drop_last()).insert(s[i].id@, s[i].data@));
        assert(entries_map(s).insert(e.id@, e.data@) =~= entries_map(s.drop_last()).insert(
            e.id@,
            e.data@,
        ));
    } else {
        assert(t.drop_last() =~= s.drop_last().update(i, e));
        assert(t.last() == s.last());
        lemma_entries_map_update(s.drop_last(), i, e);
        assert(entries_map(t) == entries_map(s.drop_last()).insert(e.id@, e.data@).insert(
            s.last().id@,
            s.last().data@,
        ));
        assert(s.last().id@ != e.id@);
        assert(entries_map(s.drop_last()).insert(e.id@, e.data@).insert(
            s.last().id@,
            s.last().data@,
        ) =~= entries_map(s.drop_last()).insert(s.last().id@, s.last().data@).insert(
            e.id@,
            e.data@,
        ));
    }
}

/// A fresh copy of a byte payload.
pub fn clone_bytes(v: &Vec<u8>) -> (r: Vec<u8>)
    ensures
        r@ == v@,
{
    let n = v.len();
    let mut out: Vec<u8> = Vec::new();
    let mut k: usize = 0;
    while k < n
        invariant
            n == v@.len(),
            k <= n,
            out@ =~= v@.subrange(0, k as int),
        decreases n - k,
    {
        out.push(v[k]);
        k += 1;
    }
    assert(out@ =~= v@);
    out
}

} // verus!
