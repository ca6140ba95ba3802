//! The operation registry: finds operations by name and makes them on request.

use crate::error::{ErrorView, IndustrytsError};
use crate::operation::{Operation, OperationCategory};
use crate::string_map::StringMap;
use vstd::prelude::*;
use vstd::string::StringExecFns;

verus! {

/// What the registry knows of one operation. `F` is the type of the factory: a
/// function without arguments that makes the operation, boxed or not.
#[derive(Clone)]
pub struct OperationInfo<F> {
    /// Name of the operation.
    pub name: String,
    /// Kind of work the operation does.
    pub category: OperationCategory,
    /// What the operation does.
    pub description: String,
    /// Makes the operation.
    pub factory: F,
}

/// The test that keeps the entries of one category.
pub open spec fn in_category<F>(category: OperationCategory) -> spec_fn(OperationInfo<F>) -> bool {
    |info: OperationInfo<F>| info.category == category
}

/// The text of the failure for a name that is not registered.
pub open spec fn not_found_text(name: Seq<char>) -> Seq<char> {
    "Operation not found: "@ + name
}

/// Operations by name. A name has one entry: registering it again replaces the entry.
#[verifier::reject_recursive_types(F)]
#[verifier::reject_recursive_types(T)]
pub struct OperationRegistry<F: Fn() -> T, T: Operation = Box<dyn Operation>> {
    operations: StringMap<OperationInfo<F>>,
    made: std::marker::PhantomData<T>,
}

impl<F: Fn() -> T, T: Operation> View for OperationRegistry<F, T> {
    type V = Map<Seq<char>, OperationInfo<F>>;

    /// The entry registered under each name.
    closed spec fn view(&self) -> Map<Seq<char>, OperationInfo<F>> {
        self.operations@
    }
}

impl<F: Fn() -> T, T: Operation> OperationRegistry<F, T> {
    /// The entries, in the order in which their names were first registered.
    pub closed spec fn entries(&self) -> Seq<OperationInfo<F>> {
        self.operations.value_seq()
    }

    /// The registered names, in the order in which they were first registered.
    pub closed spec fn names(&self) -> Seq<Seq<char>> {
        self.operations.key_seq()
    }

    #[verifier::type_invariant]
    spec fn callable(&self) -> bool {
        &&& self.operations.key_seq().len() == self.operations.value_seq().len()
        &&& self.operations.key_seq().no_duplicates()
        &&& forall|i: int|
            0 <= i < self.operations.value_seq().len() ==> call_requires(
                (#[trigger] self.operations.value_seq()[i]).factory,
                (),
            )
        &&& forall|i: int|
            0 <= i < self.operations.value_seq().len() ==> (
            #[trigger] self.operations.value_seq()[i]).name@ == self.operations.key_seq()[i]
    }

    /// Whether the listing and the map hold the same: each name is listed once, and
    /// the entry at a name's place carries that name and is the one that the map
    /// holds under it.
    pub open spec fn is_keyed_by_name(&self) -> bool {
        &&& self.entries().len() == self.names().len()
        &&& self.names().no_duplicates()
        &&& forall|i: int|
            0 <= i < self.names().len() ==> (#[trigger] self.entries()[i]).name@
                == self.names()[i] && self@.contains_key(self.names()[i]) && self@[self.names()[i]]
                == self.entries()[i]
    }

    /// What holds of every registry, from what it keeps to be true of itself.
    proof fn lemma_keyed_by_name(&self)
        requires
            self.callable(),
        ensures
            self.is_keyed_by_name(),
    {
        assert forall|i: int| 0 <= i < self.names().len() implies (#[trigger] self.entries()[i]).name@
            == self.names()[i] && self@.contains_key(self.names()[i]) && self@[self.names()[i]]
            == self.entries()[i] by {
            let key = self.operations.key_seq()[i];
            assert(self.operations.key_seq().contains(key));
            assert(self.operations.key_seq().index_of(key) == i);
        }
    }

    /// A registry without entries.
    pub fn new() -> (r: Self)
        ensures
            r@ == Map::<Seq<char>, OperationInfo<F>>::empty(),
            r.entries() == Seq::<OperationInfo<F>>::empty(),
            r.names() == Seq::<Seq<char>>::empty(),
    {
        OperationRegistry { operations: StringMap::new(), made: std::marker::PhantomData }
    }

    /// Registers an operation under `name`. An entry already registered under that
    /// name is replaced without notice. The factory must be callable.
    pub fn register(
        &mut self,
        name: String,
        category: OperationCategory,
        description: String,
        factory: F,
    )
        requires
            call_requires(factory, ()),
        ensures
            final(self)@ == old(self)@.insert(
                name@,
                (OperationInfo { name, category, description, factory }),
            ),
            final(self).names() == if old(self).names().contains(name@) {
                old(self).names()
            } else {
                old(self).names().push(name@)
            },
            final(self).entries() == if old(self).names().contains(name@) {
                old(self).entries().update(
                    old(self).names().index_of(name@),
                    (OperationInfo { name, category, description, factory }),
                )
            } else {
                old(self).entries().push((OperationInfo { name, category, description, factory }))
            },
            final(self).is_keyed_by_name(),
    {
        proof {
            use_type_invariant(&*self);
        }
        let info = OperationInfo { name: name.clone(), category, description, factory };
        let mut operations: StringMap<OperationInfo<F>> = StringMap::new();
        std::mem::swap(&mut operations, &mut self.operations);
        let ghost before = operations;
        operations.insert(name, info);
        proof {
            assert forall|i: int| 0 <= i < operations.value_seq().len() implies call_requires(
                (#[trigger] operations.value_seq()[i]).factory,
                (),
            ) by {
                if operations.key_seq()[i] == name@ {
                    assert(operations.key_seq().index_of(name@) == i);
                } else {
                    assert(i < before.key_seq().len());
                    assert(before.key_seq()[i] != name@);
                }
            }
            assert forall|i: int| 0 <= i < operations.value_seq().len() implies (
            #[trigger] operations.value_seq()[i]).name@ == operations.key_seq()[i] by {
                if operations.key_seq()[i] == name@ {
                    assert(operations.key_seq().index_of(name@) == i);
                } else {
                    assert(i < before.key_seq().len());
                    assert(before.key_seq()[i] != name@);
                }
            }
        }
        self.operations = operations;
        proof {
            self.lemma_keyed_by_name();
        }
    }

    /// The entry registered under `name`, if there is one.
    pub fn get(&self, name: &str) -> (r: Option<&OperationInfo<F>>)
        ensures
            match r {
                Some(info) => self@.contains_key(name@) && *info == self@[name@],
                None => !self@.contains_key(name@),
            },
    {
        self.operations.get(name)
    }

    /// Makes the operation registered under `name` by calling its factory. Fails with
    /// an invalid-operation error that carries the name when nothing is registered
    /// under it.
    pub fn create(&self, name: &str) -> (r: Result<T, IndustrytsError>)
        ensures
            match r {
                Ok(operation) => self@.contains_key(name@) && call_ensures(
                    self@[name@].factory,
                    (),
                    operation,
                ),
                Err(e) => !self@.contains_key(name@) && e@ == ErrorView::InvalidOperation(
                    not_found_text(name@),
                ),
            },
    {
        proof {
            use_type_invariant(self);
        }
        match self.operations.get(name) {
            Some(info) => {
                proof {
                    let i = self.operations.key_seq().index_of(name@);
                    assert(self.operations.value_seq()[i] == *info);
                }
                Ok((info.factory)())
            },
            None => Err(
                IndustrytsError::InvalidOperation("Operation not found: ".to_owned().concat(name)),
            ),
        }
    }

    /// Every entry, in the order in which the names were first registered.
    pub fn list_all(&self) -> (r: Vec<&OperationInfo<F>>)
        ensures
            r@.map_values(|info: &OperationInfo<F>| *info) == self.entries(),
            r@.len() == self.entries().len(),
            forall|i: int| 0 <= i < r@.len() ==> *(#[trigger] r@[i]) == self.entries()[i],
            self.is_keyed_by_name(),
    {
        proof {
            use_type_invariant(self);
            self.lemma_keyed_by_name();
        }
        let mut listed: Vec<&OperationInfo<F>> = Vec::new();
        let mut i: usize = 0;
        let count = self.operations.len();
        while i < count
            invariant
                i <= count,
                count == self.operations.value_seq().len(),
                count == self.operations.key_seq().len(),
                listed@.len() == i,
                forall|j: int| 0 <= j < i ==> *(#[trigger] listed@[j]) == self.operations.value_seq()[j],
            decreases count - i,
        {
            match self.operations.entry_at(i) {
                Some((_, info)) => {
                    listed.push(info);
                },
                None => {},
            }
            i = i + 1;
        }
        assert(listed@.map_values(|info: &OperationInfo<F>| *info) =~= self.entries());
        listed
    }

    /// The entries of one category, in the order in which the names were first
    /// registered.
    pub fn list_by_category(&self, category: OperationCategory) -> (r: Vec<&OperationInfo<F>>)
        ensures
            r@.map_values(|info: &OperationInfo<F>| *info) == self.entries().filter(
                in_category(category),
            ),
            r@.len() == self.entries().filter(in_category(category)).len(),
            forall|i: int|
                0 <= i < r@.len() ==> *(#[trigger] r@[i]) == self.entries().filter(
                    in_category(category),
                )[i],
            self.is_keyed_by_name(),
    {
        proof {
            use_type_invariant(self);
            self.lemma_keyed_by_name();
        }
        let ghost all = self.operations.value_seq();
        let ghost keep = in_category::<F>(category);
        let ghost deref = |info: &OperationInfo<F>| *info;
        let mut listed: Vec<&OperationInfo<F>> = Vec::new();
        let mut i: usize = 0;
        let count = self.operations.len();
        proof {
            assert(all.take(0) =~= Seq::<OperationInfo<F>>::empty());
            reveal(Seq::filter);
            assert(listed@.map_values(deref) =~= all.take(0).filter(keep));
        }
        while i < count
            invariant
                i <= count,
                count == all.len(),
                count == self.operations.key_seq().len(),
                all == self.operations.value_seq(),
                keep == in_category::<F>(category),
                deref == |info: &OperationInfo<F>| *info,
                listed@.map_values(deref) == all.take(i as int).filter(keep),
            decreases count - i,
        {
            proof {
                assert(all.take(i + 1) =~= all.take(i as int).push(all[i as int]));
                all.take(i as int).lemma_filter_push(all[i as int], keep);
            }
            match self.operations.entry_at(i) {
                Some((_, info)) => {
                    if info.category == category {
                        let ghost before = listed@;
                        listed.push(info);
                        assert(listed@.map_values(deref) =~= before.map_values(deref).push(
                            all[i as int],
                        ));
                    }
                },
                None => {},
            }
            i = i + 1;
        }
        assert(all.take(count as int) =~= all);
        listed
    }

    /// Whether an operation is registered under `name`.
    pub fn contains(&self, name: &str) -> (r: bool)
        ensures
            r == self@.contains_key(name@),
    {
        self.operations.contains_key(name)
    }

    /// The number of registered names.
    pub fn len(&self) -> (r: usize)
        ensures
            r == self@.len(),
            r == self.names().len(),
            r == self.entries().len(),
            self@.dom().finite(),
            self.is_keyed_by_name(),
    {
        proof {
            use_type_invariant(self);
            self.lemma_keyed_by_name();
        }
        self.operations.len()
    }

    /// Whether nothing is registered.
    pub fn is_empty(&self) -> (r: bool)
        ensures
            r == (self@ == Map::<Seq<char>, OperationInfo<F>>::empty()),
            r == (self.names().len() == 0),
    {
        self.operations.is_empty()
    }
}

impl<F: Fn() -> T, T: Operation> Default for OperationRegistry<F, T> {
    fn default() -> (r: Self)
        ensures
            r@ == Map::<Seq<char>, OperationInfo<F>>::empty(),
    {
        OperationRegistry::new()
    }
}

/// The names of the entries, in the entries' order.
pub open spec fn names_of<F>(entries: Seq<OperationInfo<F>>) -> Seq<Seq<char>> {
    entries.map_values(|info: OperationInfo<F>| info.name@)
}

/// The listing of a category holds exactly the entries of that category, no more of
/// them than there are entries.
pub proof fn lemma_listing_by_category<F>(
    entries: Seq<OperationInfo<F>>,
    category: OperationCategory,
)
    ensures
        forall|info: OperationInfo<F>|
            #[trigger] entries.filter(in_category(category)).contains(info) <==> entries.contains(
                info,
            ) && info.category == category,
        entries.filter(in_category(category)).len() <= entries.len(),
{
    let keep = in_category::<F>(category);
    let listed = entries.filter(keep);
    entries.lemma_filter_len(keep);
    assert forall|info: OperationInfo<F>| #[trigger]
        listed.contains(info) <==> entries.contains(info) && info.category == category by {
        if listed.contains(info) {
            entries.lemma_filter_contains_rev(keep, info);
            let i = choose|i: int| 0 <= i < listed.len() && listed[i] == info;
            entries.lemma_filter_pred(keep, i);
        }
        if entries.contains(info) && info.category == category {
            let i = choose|i: int| 0 <= i < entries.len() && entries[i] == info;
            entries.lemma_filter_contains(keep, i);
        }
    }
}

/// Where no two entries carry the same name, no two entries of a category's listing
/// do: an entry is listed once.
pub proof fn lemma_listing_lists_once<F>(
    entries: Seq<OperationInfo<F>>,
    category: OperationCategory,
)
    requires
        names_of(entries).no_duplicates(),
    ensures
        names_of(entries.filter(in_category(category))).no_duplicates(),
    decreases entries.len(),
{
    let keep = in_category::<F>(category);
    reveal(Seq::filter);
    if entries.len() > 0 {
        let init = entries.drop_last();
        let last = entries.last();
        assert(names_of(init) =~= names_of(entries).drop_last());
        lemma_listing_lists_once(init, category);
        assert(entries =~= init.push(last));
        init.lemma_filter_push(last, keep);
        if keep(last) {
            let listed = init.filter(keep);
            assert(names_of(listed.push(last)) =~= names_of(listed).push(last.name@));
            assert forall|i: int| 0 <= i < listed.len() implies (#[trigger] listed[i]).name@
                != last.name@ by {
                assert(listed.contains(listed[i]));
                init.lemma_filter_contains_rev(keep, listed[i]);
                let j = choose|j: int| 0 <= j < init.len() && init[j] == listed[i];
                assert(names_of(entries)[j] == listed[i].name@);
                assert(names_of(entries)[entries.len() - 1] == last.name@);
            }
            assert forall|i: int, j: int|
                0 <= i < listed.len() + 1 && 0 <= j < listed.len() + 1 && i != j implies names_of(
                listed,
            ).push(last.name@)[i] != names_of(listed).push(last.name@)[j] by {
                if i < listed.len() && j < listed.len() {
                    assert(names_of(listed)[i] != names_of(listed)[j]);
                } else if i < listed.len() {
                    assert(listed[i].name@ != last.name@);
                } else {
                    assert(listed[j].name@ != last.name@);
                }
            }
        }
    } else {
        assert(names_of(entries.filter(keep)) =~= Seq::<Seq<char>>::empty());
    }
}

/// The listings of the four categories hold every entry between them: their lengths
/// add up to the number of entries.
pub proof fn lemma_categories_share_the_entries<F>(entries: Seq<OperationInfo<F>>)
    ensures
        entries.filter(in_category(OperationCategory::DataQuality)).len() + entries.filter(
            in_category(OperationCategory::Temporal),
        ).len() + entries.filter(in_category(OperationCategory::Features)).len() + entries.filter(
            in_category(OperationCategory::Transform),
        ).len() == entries.len(),
    decreases entries.len(),
{
    reveal(Seq::filter);
    if entries.len() > 0 {
        let init = entries.drop_last();
        let last = entries.last();
        lemma_categories_share_the_entries(init);
        assert(entries =~= init.push(last));
        init.lemma_filter_push(last, in_category::<F>(OperationCategory::DataQuality));
        init.lemma_filter_push(last, in_category::<F>(OperationCategory::Temporal));
        init.lemma_filter_push(last, in_category::<F>(OperationCategory::Features));
        init.lemma_filter_push(last, in_category::<F>(OperationCategory::Transform));
    }
}

} // verus!
