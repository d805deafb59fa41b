//! What a project description declares about resources, and how one
//! description differs from the one before it.
//!
//! A refresh compares the resources declared now with those that were loaded
//! last time: what is new is loaded, what is gone is removed, and what could
//! not be loaded is struck from the record, so that the next refresh tries it
//! again.  A resource that fails to load does not end the refresh.

use vstd::prelude::*;
use crate::scalar::Scalar;

verus! {

/// What identifies a declaration: its name and all it says.
pub struct SeedKey {
    pub name: Seq<char>,
    pub source: Seq<char>,
    pub detail: Seq<char>,
    pub value: u32,
}

/// A declaration that can be compared and copied.
pub trait Seed: Sized {
    /// What the declaration says.
    spec fn key(&self) -> SeedKey;

    /// Whether two declarations say the same.
    fn same(&self, other: &Self) -> (r: bool)
        ensures
            r == (self.key() == other.key()),
    ;

    /// A copy of the declaration.
    fn duplicate(&self) -> (r: Self)
        ensures
            r.key() == self.key(),
    ;

    /// Whether the declaration goes by `name`.
    fn is_named(&self, name: &String) -> (r: bool)
        ensures
            r == (self.key().name == name@),
    ;
}

/// A sample to load: its name, its file and the way its channels are used.
#[derive(Debug)]
pub struct SampleSeed {
    pub name: String,
    pub file: String,
    pub method: String,
}

/// A file to load under a name: a resource, a MIDI file, or a plugin by its
/// address.
#[derive(Debug)]
pub struct FileSeed {
    pub name: String,
    pub file: String,
}

/// A value for a parameter of a plugin.
#[derive(Debug)]
pub struct ParamSeed {
    pub plugin: String,
    pub name: String,
    pub value: Scalar,
}

impl Seed for SampleSeed {
    open spec fn key(&self) -> SeedKey {
        SeedKey { name: self.name@, source: self.file@, detail: self.method@, value: 0 }
    }

    fn same(&self, other: &Self) -> (r: bool) {
        self.name == other.name && self.file == other.file && self.method == other.method
    }

    fn duplicate(&self) -> (r: Self) {
        SampleSeed { name: self.name.clone(), file: self.file.clone(), method: self.method.clone() }
    }

    fn is_named(&self, name: &String) -> (r: bool) {
        self.name == *name
    }
}

impl Seed for FileSeed {
    open spec fn key(&self) -> SeedKey {
        SeedKey { name: self.name@, source: self.file@, detail: Seq::empty(), value: 0 }
    }

    fn same(&self, other: &Self) -> (r: bool) {
        self.name == other.name && self.file == other.file
    }

    fn duplicate(&self) -> (r: Self) {
        FileSeed { name: self.name.clone(), file: self.file.clone() }
    }

    fn is_named(&self, name: &String) -> (r: bool) {
        self.name == *name
    }
}

impl Seed for ParamSeed {
    open spec fn key(&self) -> SeedKey {
        SeedKey { name: self.plugin@, source: self.name@, detail: Seq::empty(), value: self.value.bits }
    }

    fn same(&self, other: &Self) -> (r: bool) {
        self.plugin == other.plugin && self.name == other.name && self.value.to_bits() == other.value.to_bits()
    }

    fn duplicate(&self) -> (r: Self) {
        ParamSeed { plugin: self.plugin.clone(), name: self.name.clone(), value: self.value }
    }

    fn is_named(&self, name: &String) -> (r: bool) {
        self.plugin == *name
    }
}

/// What each declaration of a list says.
pub open spec fn keys<T: Seed>(list: Seq<T>) -> Seq<SeedKey> {
    Seq::new(list.len(), |i: int| list[i].key())
}

/// Whether `key` is among `list`.
pub open spec fn among(list: Seq<SeedKey>, key: SeedKey) -> bool {
    exists|i: int| 0 <= i < list.len() && #[trigger] list[i] == key
}

/// The declarations of `list` that are not among `other`, in order.
pub open spec fn missing(list: Seq<SeedKey>, other: Seq<SeedKey>) -> Seq<SeedKey>
    decreases list.len(),
{
    if list.len() == 0 {
        Seq::empty()
    } else {
        let rest = missing(list.drop_last(), other);
        if among(other, list.last()) {
            rest
        } else {
            rest.push(list.last())
        }
    }
}

/// Whether a declaration like `item` is in `list`.
fn contains<T: Seed>(list: &Vec<T>, item: &T) -> (r: bool)
    ensures
        r == among(keys(list@), item.key()),
{
    let mut i: usize = 0;
    while i < list.len()
        invariant
            i <= list.len(),
            forall|k: int| 0 <= k < i ==> (#[trigger] keys(list@)[k]) != item.key(),
        decreases list.len() - i,
    {
        if list[i].same(item) {
            assert(keys(list@)[i as int] == item.key());
            return true;
        }
        i += 1;
    }
    false
}

/// Copies of the declarations of `list` that are not among `other`.
fn copy_missing<T: Seed>(list: &Vec<T>, other: &Vec<T>) -> (out: Vec<T>)
    ensures
        keys(out@) == missing(keys(list@), keys(other@)),
{
    let mut out: Vec<T> = Vec::new();
    let mut i: usize = 0;
    assert(keys(list@).take(0) =~= Seq::empty());
    assert(keys(out@) =~= Seq::empty());
    while i < list.len()
        invariant
            i <= list.len(),
            keys(out@) == missing(keys(list@).take(i as int), keys(other@)),
        decreases list.len() - i,
    {
        let ghost before = out@;
        proof {
            assert(keys(list@).take(i + 1).drop_last() =~= keys(list@).take(i as int));
            assert(keys(list@).take(i + 1).last() == list@[i as int].key());
        }
        if !contains(other, &list[i]) {
            out.push(list[i].duplicate());
            assert(keys(out@) =~= keys(before).push(list@[i as int].key()));
        }
        i += 1;
    }
    assert(keys(list@).take(list@.len() as int) =~= keys(list@));
    out
}

/// Compares the declarations of last time with those of now: what was added,
/// and what was removed.
pub fn diff<T: Seed>(old_list: &Vec<T>, new_list: &Vec<T>) -> (r: (Vec<T>, Vec<T>))
    ensures
        keys(r.0@) == missing(keys(new_list@), keys(old_list@)),
        keys(r.1@) == missing(keys(old_list@), keys(new_list@)),
{
    let adds: Vec<T> = copy_missing(new_list, old_list);
    let removes: Vec<T> = copy_missing(old_list, new_list);
    (adds, removes)
}

/// Whether `name` is among `names`.
pub open spec fn named_in(names: Seq<String>, name: Seq<char>) -> bool {
    exists|i: int| 0 <= i < names.len() && (#[trigger] names[i])@ == name
}

/// The declarations of `list` whose name is not among `names`, in order.
pub open spec fn without(list: Seq<SeedKey>, names: Seq<String>) -> Seq<SeedKey>
    decreases list.len(),
{
    if list.len() == 0 {
        Seq::empty()
    } else {
        let rest = without(list.drop_last(), names);
        if named_in(names, list.last().name) {
            rest
        } else {
            rest.push(list.last())
        }
    }
}

fn is_excluded<T: Seed>(item: &T, names: &Vec<String>) -> (r: bool)
    ensures
        r == named_in(names@, item.key().name),
{
    let mut i: usize = 0;
    while i < names.len()
        invariant
            i <= names.len(),
            forall|k: int| 0 <= k < i ==> (#[trigger] names@[k])@ != item.key().name,
        decreases names.len() - i,
    {
        if item.is_named(&names[i]) {
            return true;
        }
        i += 1;
    }
    false
}

/// Settles the record after loading: the declarations that failed to load
/// are struck from it, so that the next refresh tries them again; the others
/// stay, in order.
pub fn settle<T: Seed>(declared: &Vec<T>, failed: &Vec<String>) -> (record: Vec<T>)
    ensures
        keys(record@) == without(keys(declared@), failed@),
{
    let mut out: Vec<T> = Vec::new();
    let mut i: usize = 0;
    assert(keys(declared@).take(0) =~= Seq::empty());
    assert(keys(out@) =~= Seq::empty());
    while i < declared.len()
        invariant
            i <= declared.len(),
            keys(out@) == without(keys(declared@).take(i as int), failed@),
        decreases declared.len() - i,
    {
        let ghost before = out@;
        proof {
            assert(keys(declared@).take(i + 1).drop_last() =~= keys(declared@).take(i as int));
            assert(keys(declared@).take(i + 1).last() == declared@[i as int].key());
        }
        if !is_excluded(&declared[i], failed) {
            out.push(declared[i].duplicate());
            assert(keys(out@) =~= keys(before).push(declared@[i as int].key()));
        }
        i += 1;
    }
    assert(keys(declared@).take(declared@.len() as int) =~= keys(declared@));
    out
}

/// Without failures the record is what was declared.
pub proof fn lemma_settle_all(list: Seq<SeedKey>, names: Seq<String>)
    requires
        names.len() == 0,
    ensures
        without(list, names) == list,
    decreases list.len(),
{
    if list.len() > 0 {
        lemma_settle_all(list.drop_last(), names);
        assert(list.drop_last().push(list.last()) =~= list);
    }
}

proof fn lemma_prefix_not_missing(list: Seq<SeedKey>, upto: int)
    requires
        0 <= upto <= list.len(),
    ensures
        missing(list.take(upto), list) == Seq::<SeedKey>::empty(),
    decreases upto,
{
    if upto > 0 {
        lemma_prefix_not_missing(list, upto - 1);
        assert(list.take(upto).drop_last() =~= list.take(upto - 1));
        assert(list[upto - 1] == list.take(upto).last());
    }
}

/// Between a description and itself nothing was added and nothing removed.
pub proof fn lemma_diff_same(list: Seq<SeedKey>)
    ensures
        missing(list, list) == Seq::<SeedKey>::empty(),
{
    lemma_prefix_not_missing(list, list.len() as int);
    assert(list.take(list.len() as int) =~= list);
}

} // verus!
