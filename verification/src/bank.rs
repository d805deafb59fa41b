//! Named storage with deferred removal, shared by the resource banks.
//!
//! Every item is stored under a unique name and addressed by its index.  An
//! item is first marked and later removed in one sweep, which moves the
//! remaining items together and gives them new indices.

use vstd::prelude::*;
use vstd::hash_map::StringHashMap;

verus! {

/// Why an item was not taken in.
#[derive(Clone, Copy, Debug, PartialEq, Eq, Structural)]
pub enum BankError {
    /// The name is taken.
    DuplicateName,
}

/// The items that are not marked, in order.
pub open spec fn kept<T>(items: Seq<T>, marked: Seq<bool>) -> Seq<T>
    decreases items.len(),
{
    if items.len() == 0 || marked.len() != items.len() {
        Seq::empty()
    } else {
        let rest = kept(items.drop_last(), marked.drop_last());
        if marked.last() {
            rest
        } else {
            rest.push(items.last())
        }
    }
}

/// Number of items among the first `i` that are not marked: the index that
/// item `i` has after a sweep, if it stays.
pub open spec fn kept_before(marked: Seq<bool>, i: int) -> nat
    decreases i,
{
    if i <= 0 || i > marked.len() {
        0
    } else {
        kept_before(marked, i - 1) + if marked[i - 1] {
            0nat
        } else {
            1nat
        }
    }
}

/// Without marks a sweep keeps everything.
pub proof fn lemma_kept_all<T>(items: Seq<T>, marked: Seq<bool>)
    requires
        marked.len() == items.len(),
        forall|i: int| 0 <= i < marked.len() ==> !#[trigger] marked[i],
    ensures
        kept(items, marked) == items,
    decreases items.len(),
{
    if items.len() > 0 {
        lemma_kept_all(items.drop_last(), marked.drop_last());
        assert(items.drop_last().push(items.last()) =~= items);
    }
}

/// A sweep keeps the items in order: the item at index `i`, if not marked,
/// ends up at index `kept_before(marked, i)`.
pub proof fn lemma_kept_index<T>(items: Seq<T>, marked: Seq<bool>, i: int)
    requires
        marked.len() == items.len(),
        0 <= i < items.len(),
        !marked[i],
    ensures
        kept_before(marked, i) < kept(items, marked).len(),
        kept(items, marked)[kept_before(marked, i) as int] == items[i],
    decreases items.len(),
{
    lemma_kept_len(items, marked);
    if i == items.len() - 1 {
        lemma_kept_len(items.drop_last(), marked.drop_last());
        lemma_kept_before_prefix(marked, marked.drop_last(), i);
    } else {
        lemma_kept_index(items.drop_last(), marked.drop_last(), i);
        lemma_kept_before_prefix(marked, marked.drop_last(), i);
    }
}

/// A sweep leaves as many items as are not marked.
pub proof fn lemma_kept_len<T>(items: Seq<T>, marked: Seq<bool>)
    requires
        marked.len() == items.len(),
    ensures
        kept(items, marked).len() == kept_before(marked, items.len() as int),
    decreases items.len(),
{
    if items.len() > 0 {
        lemma_kept_len(items.drop_last(), marked.drop_last());
        lemma_kept_before_prefix(marked, marked.drop_last(), items.len() - 1);
    }
}

proof fn lemma_kept_before_prefix(marked: Seq<bool>, shorter: Seq<bool>, i: int)
    requires
        0 <= i <= shorter.len() <= marked.len(),
        forall|j: int| 0 <= j < shorter.len() ==> shorter[j] == marked[j],
    ensures
        kept_before(shorter, i) == kept_before(marked, i),
    decreases i,
{
    if i > 0 {
        lemma_kept_before_prefix(marked, shorter, i - 1);
    }
}

/// The abstract state of a bank.
pub struct BankView<T> {
    /// The items, by index.
    pub items: Seq<T>,
    /// The name of every item.
    pub labels: Seq<Seq<char>>,
    /// For every item, whether it is to be removed.
    pub marked: Seq<bool>,
}

impl<T> BankView<T> {
    /// The invariant of a bank: one name and one mark per item, and no name
    /// twice.
    pub open spec fn wf(self) -> bool {
        &&& self.labels.len() == self.items.len()
        &&& self.marked.len() == self.items.len()
        &&& self.labels.no_duplicates()
    }

    /// The bank without items.
    pub open spec fn blank() -> BankView<T> {
        BankView { items: Seq::empty(), labels: Seq::empty(), marked: Seq::empty() }
    }

    /// Whether an item goes by `name`.
    pub open spec fn has(self, name: Seq<char>) -> bool {
        exists|i: int| 0 <= i < self.labels.len() && #[trigger] self.labels[i] == name
    }

    /// The index of the item named `name`, if there is one.
    pub open spec fn index_of(self, name: Seq<char>) -> Option<usize> {
        if self.has(name) {
            Some((choose|i: int| 0 <= i < self.labels.len() && #[trigger] self.labels[i] == name) as usize)
        } else {
            None
        }
    }

    /// The bank after a sweep.
    pub open spec fn swept(self) -> BankView<T> {
        BankView {
            items: kept(self.items, self.marked),
            labels: kept(self.labels, self.marked),
            marked: Seq::new(kept(self.items, self.marked).len(), |i: int| false),
        }
    }

    /// The bank with the item named `name` marked, if there is one.
    pub open spec fn with_mark(self, name: Seq<char>) -> BankView<T> {
        BankView {
            marked: Seq::new(self.marked.len(), |i: int| self.marked[i] || self.labels[i] == name),
            ..self
        }
    }
}

/// Items under unique names, with deferred removal.
pub struct Bank<T> {
    items: Vec<T>,
    labels: Vec<String>,
    lookup: StringHashMap<usize>,
    marked: Vec<bool>,
}

impl<T> View for Bank<T> {
    type V = BankView<T>;

    closed spec fn view(&self) -> BankView<T> {
        BankView {
            items: self.items@,
            labels: Seq::new(self.labels@.len(), |i: int| self.labels@[i]@),
            marked: self.marked@,
        }
    }
}

impl<T> Bank<T> {
    /// Whether the lookup table is the inverse of the names.
    closed spec fn indexed(&self) -> bool {
        &&& forall|i: int|
            0 <= i < self.labels@.len() ==> self.lookup@.contains_key(#[trigger] self.labels@[i]@)
                && self.lookup@[self.labels@[i]@] == i
        &&& forall|n: Seq<char>| #[trigger]
            self.lookup@.contains_key(n) ==> self.lookup@[n] < self.labels@.len() && self.labels@[self.lookup@[n] as int]@
                == n
    }

    /// Whether the bank's invariant holds.
    pub closed spec fn wf(&self) -> bool {
        self@.wf() && self.indexed()
    }

    /// A well-formed bank has a well-formed state.
    pub proof fn lemma_wf(&self)
        requires
            self.wf(),
        ensures
            self@.wf(),
    {
    }

    /// An empty bank.
    pub fn new() -> (bank: Self)
        ensures
            bank.wf(),
            bank@ == BankView::<T>::blank(),
    {
        let bank = Self { items: Vec::new(), labels: Vec::new(), lookup: StringHashMap::new(), marked: Vec::new() };
        assert(bank@.labels =~= Seq::empty());
        assert(bank@.items =~= Seq::empty());
        assert(bank@.marked =~= Seq::empty());
        bank
    }

    /// Number of items.
    pub fn len(&self) -> (n: usize)
        ensures
            n == self@.items.len(),
    {
        self.items.len()
    }

    /// Stores `item` under `name`, unless the name is taken.
    pub fn add(&mut self, name: String, item: T) -> (r: Result<(), BankError>)
        requires
            old(self).wf(),
        ensures
            final(self).wf(),
            r is Err <==> old(self)@.has(name@),
            r is Err ==> r == Err::<(), BankError>(BankError::DuplicateName) && final(self)@ == old(self)@,
            r is Ok ==> final(self)@ == (BankView {
                items: old(self)@.items.push(item),
                labels: old(self)@.labels.push(name@),
                marked: old(self)@.marked.push(false),
            }),
    {
        if self.lookup.contains_key(name.as_str()) {
            proof {
                let i = self.lookup@[name@] as int;
                assert(self@.labels[i] == name@);
            }
            return Err(BankError::DuplicateName);
        }
        proof {
            if old(self)@.has(name@) {
                let i = choose|i: int| 0 <= i < old(self)@.labels.len() && #[trigger] old(self)@.labels[i] == name@;
                assert(self.lookup@.contains_key(self.labels@[i]@));
            }
        }
        let n: usize = self.items.len();
        let key: String = name.clone();
        self.items.push(item);
        self.labels.push(name);
        self.marked.push(false);
        self.lookup.insert(key, n);
        proof {
            assert(self@.labels =~= old(self)@.labels.push(name@));
            assert(self@.labels.no_duplicates()) by {
                assert forall|i: int, j: int|
                    0 <= i < self@.labels.len() && 0 <= j < self@.labels.len() && i != j implies self@.labels[i]
                    != self@.labels[j] by {
                    if i < n && j < n {
                        assert(old(self)@.labels[i] != old(self)@.labels[j]);
                    } else if i < n {
                        assert(old(self)@.labels[i] == old(self).labels@[i]@);
                    } else {
                        assert(old(self)@.labels[j] == old(self).labels@[j]@);
                    }
                }
            }
            assert forall|i: int| 0 <= i < self.labels@.len() implies self.lookup@.contains_key(
                #[trigger] self.labels@[i]@,
            ) && self.lookup@[self.labels@[i]@] == i by {
                if i < n {
                    assert(old(self).lookup@.contains_key(old(self).labels@[i]@));
                }
            }
            assert forall|m: Seq<char>| #[trigger] self.lookup@.contains_key(m) implies self.lookup@[m]
                < self.labels@.len() && self.labels@[self.lookup@[m] as int]@ == m by {
                if m != name@ {
                    assert(old(self).lookup@.contains_key(m));
                }
            }
        }
        Ok(())
    }

    /// The index of the item named `name`, if there is one.
    pub fn get_index(&self, name: &str) -> (r: Option<usize>)
        requires
            self.wf(),
        ensures
            r is Some <==> self@.has(name@),
            r is Some ==> r->0 < self@.labels.len() && self@.labels[r->0 as int] == name@,
            r == self@.index_of(name@),
    {
        match self.lookup.get(name) {
            Some(i) => {
                assert(self@.labels[*i as int] == name@);
                proof {
                    let c = choose|c: int| 0 <= c < self@.labels.len() && #[trigger] self@.labels[c] == name@;
                    if c != *i as int {
                        assert(self@.labels[c] != self@.labels[*i as int]);
                    }
                }
                Some(*i)
            },
            None => {
                proof {
                    if self@.has(name@) {
                        let i = choose|i: int| 0 <= i < self@.labels.len() && #[trigger] self@.labels[i] == name@;
                        assert(self.lookup@.contains_key(self.labels@[i]@));
                    }
                }
                None
            },
        }
    }

    /// Item `index`, if there is one.
    pub fn get(&self, index: usize) -> (r: Option<&T>)
        ensures
            index < self@.items.len() ==> r == Some(&self@.items[index as int]),
            index >= self@.items.len() ==> r is None,
    {
        if index < self.items.len() {
            Some(&self.items[index])
        } else {
            None
        }
    }

    /// Marks the item named `name` for removal; an unknown name changes
    /// nothing.
    pub fn mark_dead(&mut self, name: &str)
        requires
            old(self).wf(),
        ensures
            final(self).wf(),
            final(self)@ == old(self)@.with_mark(name@),
    {
        match self.get_index(name) {
            Some(index) => {
                self.marked.set(index, true);
                proof {
                    assert forall|i: int| 0 <= i < self@.marked.len() implies self@.marked[i] == (old(
                        self,
                    )@.marked[i] || old(self)@.labels[i] == name@) by {
                        if i != index && old(self)@.labels[i] == name@ {
                            assert(old(self)@.labels[i] != old(self)@.labels[index as int]);
                        }
                    }
                    assert(self@.marked =~= old(self)@.with_mark(name@).marked);
                }
            },
            None => {
                proof {
                    assert forall|i: int| 0 <= i < self@.marked.len() implies self@.marked[i] == (old(
                        self,
                    )@.marked[i] || old(self)@.labels[i] == name@) by {
                        if old(self)@.labels[i] == name@ {
                            assert(old(self)@.has(name@));
                        }
                    }
                    assert(self@.marked =~= old(self)@.with_mark(name@).marked);
                }
            },
        }
    }
}

/// Every item left by a sweep was an unmarked item before, and sits where
/// `kept_before` says.
pub proof fn lemma_kept_origin<T>(items: Seq<T>, marked: Seq<bool>, j: int) -> (i: int)
    requires
        marked.len() == items.len(),
        0 <= j < kept(items, marked).len(),
    ensures
        0 <= i < items.len(),
        !marked[i],
        kept_before(marked, i) == j,
        kept(items, marked)[j] == items[i],
    decreases items.len(),
{
    let n = items.len() as int;
    let rest = kept(items.drop_last(), marked.drop_last());
    lemma_kept_len(items.drop_last(), marked.drop_last());
    lemma_kept_before_prefix(marked, marked.drop_last(), n - 1);
    if j < rest.len() {
        let i = lemma_kept_origin(items.drop_last(), marked.drop_last(), j);
        lemma_kept_before_prefix(marked, marked.drop_last(), i);
        i
    } else {
        n - 1
    }
}

proof fn lemma_kept_before_rises(marked: Seq<bool>, i: int, j: int)
    requires
        0 <= i < j <= marked.len(),
        !marked[i],
    ensures
        kept_before(marked, i) < kept_before(marked, j),
    decreases j,
{
    if j > i + 1 {
        lemma_kept_before_rises(marked, i, j - 1);
    }
}

/// A sweep leaves no name twice.
pub proof fn lemma_kept_no_duplicates<T>(items: Seq<T>, marked: Seq<bool>)
    requires
        marked.len() == items.len(),
        items.no_duplicates(),
    ensures
        kept(items, marked).no_duplicates(),
{
    let k = kept(items, marked);
    assert forall|a: int, b: int| 0 <= a < k.len() && 0 <= b < k.len() && a != b implies k[a] != k[b] by {
        let i = lemma_kept_origin(items, marked, a);
        let j = lemma_kept_origin(items, marked, b);
        if i == j {
        } else {
            assert(items[i] != items[j]);
        }
    }
}

/// A sequence read backwards.
pub open spec fn mirrored<T>(s: Seq<T>) -> Seq<T> {
    Seq::new(s.len(), |i: int| s[s.len() - 1 - i])
}

/// Takes the unmarked items out of `items`, in order.
fn sift<T>(items: Vec<T>, marked: &Vec<bool>) -> (out: Vec<T>)
    requires
        marked@.len() == items@.len(),
    ensures
        out@ == kept(items@, marked@),
{
    let mut items = items;
    let ghost all = items@;
    let mut backwards: Vec<T> = Vec::new();
    let mut k: usize = items.len();
    assert(items@ =~= all.take(k as int));
    assert(marked@.take(k as int) =~= marked@);
    while k > 0
        invariant
            k <= all.len(),
            marked@.len() == all.len(),
            items@ == all.take(k as int),
            kept(all, marked@) == kept(items@, marked@.take(k as int)) + mirrored(backwards@),
        decreases k,
    {
        let ghost before = backwards@;
        let ghost shown = items@;
        let item: T = items.pop().unwrap();
        k -= 1;
        proof {
            assert(shown.drop_last() =~= all.take(k as int));
            assert(marked@.take(k + 1).drop_last() =~= marked@.take(k as int));
            assert(marked@.take(k + 1).last() == marked@[k as int]);
        }
        if !marked[k] {
            backwards.push(item);
            proof {
                assert(mirrored(backwards@) =~= seq![item] + mirrored(before));
                assert(kept(shown, marked@.take(k + 1)) + mirrored(before) =~= kept(
                    items@,
                    marked@.take(k as int),
                ) + mirrored(backwards@));
            }
        }
    }
    assert(kept(all, marked@) =~= mirrored(backwards@));
    let mut out: Vec<T> = Vec::new();
    let ghost turned = backwards@;
    while backwards.len() > 0
        invariant
            out@ + mirrored(backwards@) == mirrored(turned),
        decreases backwards.len(),
    {
        let ghost left = backwards@;
        let ghost done = out@;
        let item: T = backwards.pop().unwrap();
        out.push(item);
        proof {
            assert(mirrored(left) =~= seq![item] + mirrored(backwards@));
            assert(out@ + mirrored(backwards@) =~= done + mirrored(left));
        }
    }
    assert(out@ =~= mirrored(turned));
    out
}

impl<T> Bank<T> {
    /// Removes the marked items.  The others move together, keeping their
    /// order, and no item is marked afterwards.
    pub fn refresh(&mut self)
        requires
            old(self).wf(),
        ensures
            final(self).wf(),
            final(self)@ == old(self)@.swept(),
    {
        let mut items: Vec<T> = Vec::new();
        let mut labels: Vec<String> = Vec::new();
        let mut marked: Vec<bool> = Vec::new();
        std::mem::swap(&mut items, &mut self.items);
        std::mem::swap(&mut labels, &mut self.labels);
        std::mem::swap(&mut marked, &mut self.marked);
        let ghost old_labels = old(self)@.labels;
        let ghost old_names = labels@;
        assert(old_labels =~= Seq::new(old_names.len(), |i: int| old_names[i]@));
        let items: Vec<T> = sift(items, &marked);
        let labels: Vec<String> = sift(labels, &marked);
        let n: usize = items.len();
        proof {
            lemma_kept_len(old(self)@.items, marked@);
            lemma_kept_len(old_names, marked@);
            lemma_kept_len(old_labels, marked@);
            lemma_kept_texts(old_names, marked@);
            lemma_kept_no_duplicates(old_labels, marked@);
        }
        self.lookup.clear();
        self.marked = Vec::new();
        let mut i: usize = 0;
        while i < n
            invariant
                i <= n,
                n == labels@.len(),
                self.marked@.len() == i,
                forall|j: int| 0 <= j < i ==> !#[trigger] self.marked@[j],
                Seq::new(labels@.len(), |j: int| labels@[j]@).no_duplicates(),
                forall|j: int|
                    0 <= j < i ==> self.lookup@.contains_key(#[trigger] labels@[j]@) && self.lookup@[labels@[j]@] == j,
                forall|m: Seq<char>| #[trigger]
                    self.lookup@.contains_key(m) ==> self.lookup@[m] < i && labels@[self.lookup@[m] as int]@ == m,
            decreases n - i,
        {
            let ghost texts = Seq::new(labels@.len(), |j: int| labels@[j]@);
            let ghost before = self.lookup@;
            let key: String = labels[i].clone();
            self.lookup.insert(key, i);
            self.marked.push(false);
            proof {
                assert forall|j: int| 0 <= j < i + 1 implies self.lookup@.contains_key(#[trigger] labels@[j]@)
                    && self.lookup@[labels@[j]@] == j by {
                    if j < i {
                        assert(before.contains_key(labels@[j]@));
                        assert(texts[j] != texts[i as int]);
                    }
                }
                assert forall|m: Seq<char>| #[trigger] self.lookup@.contains_key(m) implies self.lookup@[m] < i
                    + 1 && labels@[self.lookup@[m] as int]@ == m by {
                    if m != labels@[i as int]@ {
                        assert(before.contains_key(m));
                    }
                }
            }
            i += 1;
        }
        self.items = items;
        self.labels = labels;
        proof {
            assert(self@.labels =~= kept(old_labels, marked@));
            assert(self@.marked =~= old(self)@.swept().marked);
        }
    }
}

/// The texts of the names a sweep leaves are what a sweep leaves of the
/// texts.
proof fn lemma_kept_texts(names: Seq<String>, marked: Seq<bool>)
    requires
        marked.len() == names.len(),
    ensures
        Seq::new(kept(names, marked).len(), |i: int| kept(names, marked)[i]@) == kept(
            Seq::new(names.len(), |i: int| names[i]@),
            marked,
        ),
    decreases names.len(),
{
    let texts = Seq::new(names.len(), |i: int| names[i]@);
    if names.len() > 0 {
        lemma_kept_texts(names.drop_last(), marked.drop_last());
        assert(texts.drop_last() =~= Seq::new(names.drop_last().len(), |i: int| names.drop_last()[i]@));
        assert(Seq::new(kept(names, marked).len(), |i: int| kept(names, marked)[i]@) =~= kept(texts, marked));
    } else {
        assert(Seq::new(kept(names, marked).len(), |i: int| kept(names, marked)[i]@) =~= kept(texts, marked));
    }
}

} // verus!
