use vstd::prelude::*;
use vstd::map::*;

verus! {

/// The configuration namespace an options bag belongs to.
#[derive(Clone, Copy, Debug, PartialEq, Eq, Structural)]
pub enum OptionsType {
    Signatures,
    Symmetric,
    KeyExchange,
}

/// A region of guest memory that the guest has lent to the host for the
/// lifetime of an options handle.  The host checked it against guest memory
/// when it was set; that it stays valid and host-writable afterwards is the
/// guest's promise, which the host cannot enforce.
#[derive(Clone, Copy, Debug, PartialEq, Eq, Structural)]
pub struct RetainedBuffer {
    pub ptr: u32,
    pub len: u32,
}

/// The value of an option.
#[derive(Debug)]
pub enum OptionValue {
    /// Bytes copied to the host.
    Bytes(Vec<u8>),
    /// A reference to guest memory, retained by the handle.
    GuestBuffer(RetainedBuffer),
    /// An unsigned 64-bit integer.
    U64(u64),
}

/// What an option value is, with bytes as sequences.
pub ghost enum OptionValueModel {
    Bytes(Seq<u8>),
    GuestBuffer(RetainedBuffer),
    U64(u64),
}

impl View for OptionValue {
    type V = OptionValueModel;

    open spec fn view(&self) -> OptionValueModel {
        match self {
            OptionValue::Bytes(b) => OptionValueModel::Bytes(b@),
            OptionValue::GuestBuffer(g) => OptionValueModel::GuestBuffer(*g),
            OptionValue::U64(n) => OptionValueModel::U64(*n),
        }
    }
}

/// One named value.
#[derive(Debug)]
pub struct OptionEntry {
    pub name: Vec<u8>,
    pub value: OptionValue,
}

/// The values that a list of entries sets, a later entry winning over an
/// earlier one of the same name.
pub open spec fn entries_map(s: Seq<OptionEntry>) -> Map<Seq<u8>, OptionValueModel>
    decreases s.len(),
{
    if s.len() == 0 {
        Map::empty()
    } else {
        entries_map(s.drop_last()).insert(s.last().name@, s.last().value@)
    }
}

/// No two entries share a name.
pub open spec fn names_unique(s: Seq<OptionEntry>) -> bool {
    forall|i: int, j: int| 0 <= i < j < s.len() ==> s[i].name@ != s[j].name@
}

/// Every name in the map is the name of an entry.
proof fn lemma_entries_map_keys(s: Seq<OptionEntry>, k: Seq<u8>)
    requires
        entries_map(s).contains_key(k),
    ensures
        exists|i: int| 0 <= i < s.len() && s[i].name@ == k,
    decreases s.len(),
{
    if s.last().name@ != k {
        lemma_entries_map_keys(s.drop_last(), k);
        let i = choose|i: int| 0 <= i < s.drop_last().len() && s.drop_last()[i].name@ == k;
        assert(s[i].name@ == k);
    }
}

/// Giving an entry a new value updates the map at its name.
proof fn lemma_entries_map_update(s: Seq<OptionEntry>, i: int, e: OptionEntry)
    requires
        names_unique(s),
        0 <= i < s.len(),
        e.name@ == s[i].name@,
    ensures
        entries_map(s.update(i, e)) == entries_map(s).insert(e.name@, e.value@),
    decreases s.len(),
{
    let t = s.update(i, e);
    if i == s.len() - 1 {
        assert(t.drop_last() =~= s.drop_last());
        assert_maps_equal!(entries_map(t), entries_map(s).insert(e.name@, e.value@));
    } else {
        assert(t.drop_last() =~= s.drop_last().update(i, e));
        lemma_entries_map_update(s.drop_last(), i, e);
        assert(s.last().name@ != e.name@);
        assert_maps_equal!(entries_map(t), entries_map(s).insert(e.name@, e.value@));
    }
}

/// Whether two byte strings are equal.
pub fn bytes_eq(a: &[u8], b: &[u8]) -> (r: bool)
    ensures
        r == (a@ == b@),
{
    if a.len() != b.len() {
        return false;
    }
    let mut i: usize = 0;
    while i < a.len()
        invariant
            a@.len() == b@.len(),
            i <= a@.len(),
            forall|j: int| 0 <= j < i ==> a@[j] == b@[j],
        decreases a@.len() - i,
    {
        if a[i] != b[i] {
            return false;
        }
        i = i + 1;
    }
    assert(a@ =~= b@);
    true
}

/// A named key/value store that configures operations of one namespace.
pub struct OptionsBag {
    kind: OptionsType,
    entries: Vec<OptionEntry>,
}

impl View for OptionsBag {
    type V = Map<Seq<u8>, OptionValueModel>;

    closed spec fn view(&self) -> Map<Seq<u8>, OptionValueModel> {
        entries_map(self.entries@)
    }
}

impl OptionsBag {
    pub closed spec fn spec_kind(&self) -> OptionsType {
        self.kind
    }

    pub closed spec fn wf(&self) -> bool {
        names_unique(self.entries@)
    }

    /// An empty bag.
    pub fn new(kind: OptionsType) -> (r: Self)
        ensures
            r.wf(),
            r@ == Map::<Seq<u8>, OptionValueModel>::empty(),
            r.spec_kind() == kind,
    {
        OptionsBag { kind, entries: Vec::new() }
    }

    /// The namespace of this bag.
    pub fn kind(&self) -> (r: OptionsType)
        ensures
            r == self.spec_kind(),
    {
        self.kind
    }

    /// The number of names set.
    pub fn len(&self) -> (r: usize)
        requires
            self.wf(),
        ensures
            r == self@.len(),
    {
        proof { self.lemma_len(); }
        self.entries.len()
    }

    proof fn lemma_len(&self)
        requires
            self.wf(),
        ensures
            self@.len() == self.entries@.len(),
            self@.dom().finite(),
    {
        lemma_unique_len(self.entries@);
    }

    /// Position of the entry with this name, if there is one.
    fn find(&self, name: &[u8]) -> (r: Option<usize>)
        ensures
            r matches Some(i) ==> i < self.entries@.len() && self.entries@[i as int].name@ == name@,
            r is None ==> forall|j: int| 0 <= j < self.entries@.len() ==> self.entries@[j].name@ != name@,
    {
        let mut i: usize = 0;
        while i < self.entries.len()
            invariant
                i <= self.entries@.len(),
                forall|j: int| 0 <= j < i ==> self.entries@[j].name@ != name@,
            decreases self.entries@.len() - i,
        {
            if bytes_eq(self.entries[i].name.as_slice(), name) {
                return Some(i);
            }
            i = i + 1;
        }
        None
    }

    /// The value set under a name.
    pub fn get(&self, name: &[u8]) -> (r: Option<&OptionValue>)
        requires
            self.wf(),
        ensures
            self@.contains_key(name@) ==> (r matches Some(v) && v@ == self@[name@]),
            !self@.contains_key(name@) ==> r is None,
    {
        match self.find(name) {
            Some(i) => {
                proof { lemma_unique_lookup(self.entries@, i as int); }
                Some(&self.entries[i].value)
            },
            None => {
                proof {
                    if self@.contains_key(name@) {
                        lemma_entries_map_keys(self.entries@, name@);
                    }
                }
                None
            },
        }
    }

    /// Sets a name to a value, replacing any value, of any kind, that the
    /// name had.
    pub fn set(&mut self, name: Vec<u8>, value: OptionValue)
        requires
            old(self).wf(),
        ensures
            final(self).wf(),
            final(self)@ == old(self)@.insert(name@, value@),
            final(self).spec_kind() == old(self).spec_kind(),
    {
        match self.find(name.as_slice()) {
            Some(i) => {
                let ghost e = OptionEntry { name: name, value: value };
                proof { lemma_entries_map_update(self.entries@, i as int, e); }
                self.entries.set(i, OptionEntry { name, value });
            },
            None => {
                let ghost prev = self.entries@;
                self.entries.push(OptionEntry { name, value });
                assert(self.entries@.drop_last() =~= prev);
            },
        }
    }
}

/// Reading a name back after setting it gives the value set, and setting a
/// name twice leaves only the second value.
pub proof fn lemma_set_read_back(
    values: Map<Seq<u8>, OptionValueModel>,
    name: Seq<u8>,
    first: OptionValueModel,
    second: OptionValueModel,
)
    ensures
        values.insert(name, first).contains_key(name),
        values.insert(name, first)[name] == first,
        values.insert(name, first).insert(name, second) == values.insert(name, second),
        values.insert(name, first).insert(name, second).dom() == values.insert(name, first).dom(),
{
    assert(values.insert(name, first).insert(name, second) =~= values.insert(name, second));
    assert(values.insert(name, first).insert(name, second).dom() =~= values.insert(name, first).dom());
}

/// The entry's value is what the map holds at its name.
proof fn lemma_unique_lookup(s: Seq<OptionEntry>, i: int)
    requires
        names_unique(s),
        0 <= i < s.len(),
    ensures
        entries_map(s).contains_key(s[i].name@),
        entries_map(s)[s[i].name@] == s[i].value@,
    decreases s.len(),
{
    if i != s.len() - 1 {
        lemma_unique_lookup(s.drop_last(), i);
    }
}

/// With unique names the map has one key per entry.
proof fn lemma_unique_len(s: Seq<OptionEntry>)
    requires
        names_unique(s),
    ensures
        entries_map(s).dom().finite(),
        entries_map(s).len() == s.len(),
    decreases s.len(),
{
    if s.len() > 0 {
        lemma_unique_len(s.drop_last());
        if entries_map(s.drop_last()).contains_key(s.last().name@) {
            lemma_entries_map_keys(s.drop_last(), s.last().name@);
        }
    }
}

} // verus!
