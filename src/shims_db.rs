use vstd::prelude::*;

use crate::codec::{bincode_bytes, stored_records_view};
use crate::error::AsdfwError;

verus! {

/// How a shim stands in for its executable.
#[derive(PartialEq, Eq, Structural, Clone, Copy, Debug, Hash)]
pub enum ShimType {
    /// A copy of the generic launcher executable.
    ExeShim,
    /// A command script that asks a helper for the target and runs it.
    CmdShim,
}

/// What the database records of one shim: the tool that owns it and its kind.
#[derive(PartialEq, Eq, Debug)]
pub struct ShimData {
    pub tool: String,
    pub tipe: ShimType,
}

impl View for ShimData {
    type V = (Seq<char>, ShimType);

    open spec fn view(&self) -> (Seq<char>, ShimType) {
        (self.tool@, self.tipe)
    }
}

impl ShimData {
    pub fn duplicate(&self) -> (r: ShimData)
        ensures
            r@ == self@,
    {
        ShimData { tool: self.tool.clone(), tipe: self.tipe }
    }
}

/// The map whose keys are the first components of `s`, each mapped to the
/// second component of an element that has it.
pub open spec fn map_of<K, V>(s: Seq<(K, V)>) -> Map<K, V> {
    Map::new(
        |k: K| exists|i: int| 0 <= i < s.len() && #[trigger] s[i].0 == k,
        |k: K| s[choose|i: int| 0 <= i < s.len() && #[trigger] s[i].0 == k].1,
    )
}

pub open spec fn keys_unique<K, V>(s: Seq<(K, V)>) -> bool {
    forall|i: int, j: int| 0 <= i < s.len() && 0 <= j < s.len() && i != j ==> #[trigger] s[i].0 != #[trigger] s[j].0
}

proof fn lemma_map_of_index<K, V>(s: Seq<(K, V)>, i: int)
    requires
        keys_unique(s),
        0 <= i < s.len(),
    ensures
        map_of(s).contains_key(s[i].0),
        map_of(s)[s[i].0] == s[i].1,
{
    let k = s[i].0;
    assert(map_of(s).dom().contains(k));
    let j = choose|j: int| 0 <= j < s.len() && #[trigger] s[j].0 == k;
    assert(i == j);
}

proof fn lemma_map_of_push<K, V>(s: Seq<(K, V)>, k: K, v: V)
    requires
        keys_unique(s),
        !map_of(s).contains_key(k),
    ensures
        keys_unique(s.push((k, v))),
        map_of(s.push((k, v))) == map_of(s).insert(k, v),
{
    let t = s.push((k, v));
    assert(keys_unique(t)) by {
        assert forall|i: int, j: int| 0 <= i < t.len() && 0 <= j < t.len() && i != j implies #[trigger] t[i].0 != #[trigger] t[j].0 by {
            if i < s.len() && j < s.len() {
                assert(t[i] == s[i] && t[j] == s[j]);
            } else if i < s.len() {
                assert(map_of(s).dom().contains(s[i].0));
            } else {
                assert(map_of(s).dom().contains(s[j].0));
            }
        }
    }
    assert forall|key: K| #[trigger] map_of(t).contains_key(key) <==> map_of(s).insert(k, v).contains_key(key) by {
        if map_of(s).contains_key(key) {
            let i = choose|i: int| 0 <= i < s.len() && #[trigger] s[i].0 == key;
            assert(t[i] == s[i]);
        }
        if map_of(t).contains_key(key) && key != k {
            let i = choose|i: int| 0 <= i < t.len() && #[trigger] t[i].0 == key;
            assert(t[i] == s[i]);
        }
        if key == k {
            assert(t[s.len() as int].0 == k);
        }
    }
    assert forall|key: K| #[trigger] map_of(t).contains_key(key) implies map_of(t)[key] == map_of(s).insert(k, v)[key] by {
        if key == k {
            lemma_map_of_index(t, s.len() as int);
        } else {
            let i = choose|i: int| 0 <= i < t.len() && #[trigger] t[i].0 == key;
            assert(t[i] == s[i]);
            lemma_map_of_index(t, i);
            lemma_map_of_index(s, i);
        }
    }
    assert(map_of(t) =~= map_of(s).insert(k, v));
}

proof fn lemma_map_of_update<K, V>(s: Seq<(K, V)>, i: int, v: V)
    requires
        keys_unique(s),
        0 <= i < s.len(),
    ensures
        keys_unique(s.update(i, (s[i].0, v))),
        map_of(s.update(i, (s[i].0, v))) == map_of(s).insert(s[i].0, v),
{
    let k = s[i].0;
    let t = s.update(i, (k, v));
    assert(keys_unique(t)) by {
        assert forall|a: int, b: int| 0 <= a < t.len() && 0 <= b < t.len() && a != b implies #[trigger] t[a].0 != #[trigger] t[b].0 by {
            assert(t[a].0 == s[a].0 && t[b].0 == s[b].0);
        }
    }
    assert forall|key: K| #[trigger] map_of(t).contains_key(key) <==> map_of(s).insert(k, v).contains_key(key) by {
        if map_of(s).contains_key(key) {
            let j = choose|j: int| 0 <= j < s.len() && #[trigger] s[j].0 == key;
            assert(t[j].0 == s[j].0);
        }
        if map_of(t).contains_key(key) {
            let j = choose|j: int| 0 <= j < t.len() && #[trigger] t[j].0 == key;
            assert(t[j].0 == s[j].0);
        }
        if key == k {
            assert(t[i].0 == k);
        }
    }
    assert forall|key: K| #[trigger] map_of(t).contains_key(key) implies map_of(t)[key] == map_of(s).insert(k, v)[key] by {
        let j = choose|j: int| 0 <= j < t.len() && #[trigger] t[j].0 == key;
        lemma_map_of_index(t, j);
        if j != i {
            assert(t[j] == s[j]);
            lemma_map_of_index(s, j);
        }
    }
    assert(map_of(t) =~= map_of(s).insert(k, v));
}

/// The shim database: each shim command name mapped to the tool that owns it
/// and to the kind of its shim. Names are unique.
#[derive(Debug)]
pub struct ShimsDB {
    entries: Vec<(String, ShimData)>,
}

pub open spec fn entries_view(v: Seq<(String, ShimData)>) -> Seq<(Seq<char>, (Seq<char>, ShimType))> {
    v.map_values(|e: (String, ShimData)| (e.0@, e.1@))
}

impl ShimsDB {
    #[verifier::type_invariant]
    spec fn names_unique(self) -> bool {
        keys_unique(entries_view(self.entries@))
    }

    /// The entries in the order in which they are stored.
    pub closed spec fn entry_seq(&self) -> Seq<(Seq<char>, (Seq<char>, ShimType))> {
        entries_view(self.entries@)
    }
}

impl View for ShimsDB {
    type V = Map<Seq<char>, (Seq<char>, ShimType)>;

    closed spec fn view(&self) -> Map<Seq<char>, (Seq<char>, ShimType)> {
        map_of(entries_view(self.entries@))
    }
}

impl ShimsDB {
    /// The entries in the order in which they are stored.
    pub fn entries(&self) -> (r: &Vec<(String, ShimData)>)
        ensures
            entries_view(r@) == self.entry_seq(),
            keys_unique(self.entry_seq()),
            self@ == map_of(self.entry_seq()),
    {
        proof {
            use_type_invariant(self);
        }
        &self.entries
    }

    /// The number of shims recorded.
    pub fn len(&self) -> (r: usize)
        ensures
            r == self.entry_seq().len(),
    {
        self.entries.len()
    }

    /// The empty database.
    pub fn new() -> (r: ShimsDB)
        ensures
            r@ == Map::<Seq<char>, (Seq<char>, ShimType)>::empty(),
            r.entry_seq().len() == 0,
    {
        let r = ShimsDB { entries: Vec::new() };
        assert(r@ =~= Map::<Seq<char>, (Seq<char>, ShimType)>::empty());
        r
    }

    /// The position of `name` among the stored entries.
    fn position(&self, name: &str) -> (r: Option<usize>)
        ensures
            match r {
                Some(i) => i < self.entries@.len() && self.entries@[i as int].0@ == name@,
                None => !self@.contains_key(name@),
            },
    {
        let wanted = String::from_str(name);
        let mut i: usize = 0;
        while i < self.entries.len()
            invariant
                i <= self.entries.len(),
                wanted@ == name@,
                forall|j: int| 0 <= j < i ==> self.entries@[j].0@ != name@,
            decreases self.entries.len() - i,
        {
            if self.entries[i].0 == wanted {
                return Some(i);
            }
            i = i + 1;
        }
        proof {
            if self@.contains_key(name@) {
                let s = entries_view(self.entries@);
                let j = choose|j: int| 0 <= j < s.len() && #[trigger] s[j].0 == name@;
                assert(self.entries@[j].0@ == name@);
            }
        }
        None
    }

    /// What the database records of `name`.
    pub fn get(&self, name: &str) -> (r: Option<&ShimData>)
        ensures
            match r {
                Some(d) => self@.contains_key(name@) && self@[name@] == d@,
                None => !self@.contains_key(name@),
            },
    {
        proof {
            use_type_invariant(self);
        }
        match self.position(name) {
            Some(i) => {
                proof {
                    lemma_map_of_index(entries_view(self.entries@), i as int);
                }
                Some(&self.entries[i].1)
            },
            None => None,
        }
    }

    /// Records `data` for `name`, in place of what was recorded before.
    pub fn insert(&mut self, name: &str, data: ShimData) -> (r: Option<ShimData>)
        ensures
            final(self)@ == old(self)@.insert(name@, data@),
            !old(self)@.contains_key(name@) ==> final(self).entry_seq() == old(self).entry_seq().push(
                (name@, data@),
            ),
            match r {
                Some(d) => old(self)@.contains_key(name@) && old(self)@[name@] == d@,
                None => !old(self)@.contains_key(name@),
            },
    {
        proof {
            use_type_invariant(&*self);
        }
        let ghost before = entries_view(self.entries@);
        let found = self.position(name);
        let mut entries: Vec<(String, ShimData)> = Vec::new();
        std::mem::swap(&mut entries, &mut self.entries);
        let ghost dv = data@;
        let r = match found {
            Some(i) => {
                proof {
                    lemma_map_of_index(before, i as int);
                }
                let old_data = entries[i].1.duplicate();
                entries[i] = (String::from_str(name), data);
                proof {
                    assert(entries_view(entries@) =~= before.update(i as int, (name@, dv)));
                    lemma_map_of_update(before, i as int, dv);
                }
                Some(old_data)
            },
            None => {
                entries.push((String::from_str(name), data));
                proof {
                    assert(entries_view(entries@) =~= before.push((name@, dv)));
                    lemma_map_of_push(before, name@, dv);
                }
                None
            },
        };
        std::mem::swap(&mut entries, &mut self.entries);
        r
    }
}

// The stored form of the database: one record per shim, its name, its tool
// and a tag for its kind.
pub open spec fn type_tag(t: ShimType) -> u8 {
    match t {
        ShimType::ExeShim => 0,
        ShimType::CmdShim => 1,
    }
}

pub open spec fn tag_type(tag: u8) -> Option<ShimType> {
    if tag == 0 {
        Some(ShimType::ExeShim)
    } else if tag == 1 {
        Some(ShimType::CmdShim)
    } else {
        None
    }
}

/// The records that stand for the entries `es`.
pub open spec fn db_records(es: Seq<(Seq<char>, (Seq<char>, ShimType))>) -> Seq<(Seq<char>, Seq<char>, u8)> {
    es.map_values(|e: (Seq<char>, (Seq<char>, ShimType))| (e.0, e.1.0, type_tag(e.1.1)))
}

/// The entries that the records `rs` stand for.
pub open spec fn records_entries(rs: Seq<(Seq<char>, Seq<char>, u8)>) -> Seq<(Seq<char>, (Seq<char>, ShimType))> {
    rs.map_values(|r: (Seq<char>, Seq<char>, u8)| (r.0, (r.1, tag_type(r.2)->0)))
}

/// Records that encode a database: known tags, and no name twice.
pub open spec fn records_valid(rs: Seq<(Seq<char>, Seq<char>, u8)>) -> bool {
    &&& forall|i: int| 0 <= i < rs.len() ==> (#[trigger] tag_type(rs[i].2)) is Some
    &&& keys_unique(records_entries(rs))
}

/// The stored entries of a database read back as the same map.
pub proof fn lemma_saved_db_loads_back(es: Seq<(Seq<char>, (Seq<char>, ShimType))>)
    requires
        keys_unique(es),
    ensures
        records_valid(db_records(es)),
        records_entries(db_records(es)) == es,
        map_of(records_entries(db_records(es))) == map_of(es),
{
    let rs = db_records(es);
    assert forall|i: int| 0 <= i < rs.len() implies (#[trigger] tag_type(rs[i].2)) is Some by {
        assert(rs[i].2 == type_tag(es[i].1.1));
    }
    assert forall|i: int| 0 <= i < es.len() implies #[trigger] records_entries(rs)[i] == es[i] by {
        assert(rs[i].2 == type_tag(es[i].1.1));
    }
    assert(records_entries(rs) =~= es);
}

/// `rs` are records that `bytes` encode.
pub open spec fn decodes_to(bytes: Seq<u8>, rs: Seq<(Seq<char>, Seq<char>, u8)>) -> bool {
    bincode_bytes(rs) == bytes
}

impl ShimsDB {
    /// The records that stand for the entries, in their order.
    pub fn to_records(&self) -> (r: Vec<(String, String, u8)>)
        ensures
            stored_records_view(r@) == db_records(self.entry_seq()),
    {
        let entries = self.entries();
        let mut records: Vec<(String, String, u8)> = Vec::new();
        let mut k: usize = 0;
        while k < entries.len()
            invariant
                k <= entries.len(),
                entries_view(entries@) == self.entry_seq(),
                stored_records_view(records@) == db_records(self.entry_seq()).take(k as int),
            decreases entries.len() - k,
        {
            let tag: u8 = match entries[k].1.tipe {
                ShimType::ExeShim => 0,
                ShimType::CmdShim => 1,
            };
            let ghost before = records@;
            let record = (entries[k].0.clone(), entries[k].1.tool.clone(), tag);
            records.push(record);
            proof {
                let e = self.entry_seq()[k as int];
                assert(e == (entries@[k as int].0@, entries@[k as int].1@));
                assert(tag == type_tag(e.1.1));
                assert(stored_records_view(records@) =~= stored_records_view(before).push((e.0, e.1.0, tag)));
                assert(stored_records_view(records@) =~= db_records(self.entry_seq()).take(k + 1));
            }
            k = k + 1;
        }
        proof {
            assert(db_records(self.entry_seq()).take(k as int) =~= db_records(self.entry_seq()));
        }
        records
    }

    /// The database that `records` stand for, in their order; `InvalidShimsDb`
    /// when a tag is unknown or a name comes twice.
    pub fn from_records(records: &Vec<(String, String, u8)>) -> (r: Result<ShimsDB, AsdfwError>)
        ensures
            if records_valid(stored_records_view(records@)) {
                r matches Ok(db) && db.entry_seq() == records_entries(stored_records_view(records@))
                    && db@ == map_of(records_entries(stored_records_view(records@)))
            } else {
                r matches Err(e) && e is InvalidShimsDb
            },
    {
        let ghost rs = stored_records_view(records@);
        let mut db = ShimsDB::new();
        let mut k: usize = 0;
        while k < records.len()
            invariant
                k <= records.len(),
                rs == stored_records_view(records@),
                records_valid(rs.take(k as int)),
                db.entry_seq() == records_entries(rs.take(k as int)),
                db@ == map_of(records_entries(rs.take(k as int))),
            decreases records.len() - k,
        {
            let tipe = if records[k].2 == 0 {
                ShimType::ExeShim
            } else if records[k].2 == 1 {
                ShimType::CmdShim
            } else {
                proof {
                    assert(tag_type(rs[k as int].2) is None);
                }
                return Err(AsdfwError::InvalidShimsDb);
            };
            let name = records[k].0.as_str();
            if db.get(name).is_some() {
                proof {
                    let es = records_entries(rs.take(k as int));
                    let j = choose|j: int| 0 <= j < es.len() && #[trigger] es[j].0 == name@;
                    assert(records_entries(rs)[j].0 == records_entries(rs)[k as int].0);
                }
                return Err(AsdfwError::InvalidShimsDb);
            }
            let data = ShimData { tool: records[k].1.clone(), tipe };
            proof {
                use_type_invariant(&db);
            }
            db.insert(name, data);
            proof {
                assert(records_entries(rs.take(k + 1)) =~= records_entries(rs.take(k as int)).push(
                    (name@, data@),
                ));
            }
            k = k + 1;
        }
        proof {
            assert(rs.take(k as int) =~= rs);
        }
        Ok(db)
    }
}

/// `t` is what the database `m` records as the owner of `exe`.
pub open spec fn owner_matches(t: Option<String>, m: Map<Seq<char>, (Seq<char>, ShimType)>, exe: Seq<char>) -> bool {
    if m.contains_key(exe) {
        t matches Some(tool) && tool@ == m[exe].0
    } else {
        t is None
    }
}

impl ShimsDB {
    /// The tool that owns `exe`, if the database has such a shim.
    pub fn find_tool(&self, exe: &str) -> (r: Option<String>)
        ensures
            owner_matches(r, self@, exe@),
    {
        match self.get(exe) {
            Some(d) => Some(d.tool.clone()),
            None => None,
        }
    }
}

} // verus!
