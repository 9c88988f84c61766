//! The string-set payload of a fact.
//!
//! The elements live in a `hashbrown::HashSet<String>`. The verifier cannot
//! look into that table, so the set is modelled by [`string_set_items`], and
//! the few functions that touch the table directly state what `hashbrown`
//! documents of the call they make. Everything else in the crate is proved
//! against those statements.

use core::hash::Hash;
use core::hash::Hasher;
use hashbrown::HashSet;
use vstd::prelude::*;

verus! {

/// An unordered set of strings. Two sets are equal when they hold the same
/// strings; hashing walks the elements in sorted order, so it does not depend
/// on the order in which they were inserted.
#[verifier::external_body]
#[derive(Debug, PartialEq, Eq)]
pub struct StringHashSet(HashSet<String>);

/// The strings that a set holds, each as its sequence of characters.
pub uninterp spec fn string_set_items(s: StringHashSet) -> Set<Seq<char>>;

/// The character sequences of a list of strings, in order.
pub open spec fn texts(v: Seq<String>) -> Seq<Seq<char>> {
    Seq::new(v.len(), |i: int| v[i]@)
}

/// Lexicographic order on character sequences, characters compared by their
/// code points. This is the order of `String`.
pub open spec fn text_le(a: Seq<char>, b: Seq<char>) -> bool
    decreases a.len(),
{
    if a.len() == 0 {
        true
    } else if b.len() == 0 {
        false
    } else if a[0] != b[0] {
        (a[0] as u32) < (b[0] as u32)
    } else {
        text_le(a.drop_first(), b.drop_first())
    }
}

/// Whether a list of character sequences ascends in the order of [`text_le`].
pub open spec fn texts_sorted(v: Seq<Seq<char>>) -> bool {
    forall|i: int, j: int| 0 <= i <= j < v.len() ==> text_le(#[trigger] v[i], #[trigger] v[j])
}

impl View for StringHashSet {
    type V = Set<Seq<char>>;

    open spec fn view(&self) -> Set<Seq<char>> {
        string_set_items(*self)
    }
}

impl StringHashSet {
    /// `hashbrown::HashSet::new`: a set that holds nothing.
    #[verifier::external_body]
    pub(crate) fn new() -> (r: Self)
        ensures
            string_set_items(r) == Set::<Seq<char>>::empty(),
    {
        StringHashSet(HashSet::new())
    }

    /// `hashbrown::HashSet::insert`: the value joins the set; the result is
    /// `true` exactly when the set did not hold it before.
    #[verifier::external_body]
    pub(crate) fn insert(&mut self, value: String) -> (r: bool)
        ensures
            string_set_items(*final(self)) == string_set_items(*old(self)).insert(value@),
            r == !string_set_items(*old(self)).contains(value@),
    {
        self.0.insert(value)
    }

    /// `hashbrown::HashSet::remove`: the value leaves the set; the result is
    /// `true` exactly when the set held it before.
    #[verifier::external_body]
    pub(crate) fn remove(&mut self, value: &String) -> (r: bool)
        ensures
            string_set_items(*final(self)) == string_set_items(*old(self)).remove(value@),
            r == string_set_items(*old(self)).contains(value@),
    {
        self.0.remove(value)
    }

    /// `hashbrown::HashSet::contains`: whether the set holds the value.
    #[verifier::external_body]
    pub(crate) fn holds(&self, value: &String) -> (r: bool)
        ensures
            r == string_set_items(*self).contains(value@),
    {
        self.0.contains(value)
    }

    /// `hashbrown::HashSet`'s `==`: whether both sets hold the same strings.
    #[verifier::external_body]
    pub(crate) fn same_items(&self, other: &StringHashSet) -> (r: bool)
        ensures
            r == (string_set_items(*self) == string_set_items(*other)),
    {
        self.0 == other.0
    }

    /// `hashbrown::HashSet::iter`, each element cloned into a vector: every
    /// string of the set exactly once. The order is that in which the table
    /// is walked, and nothing is claimed of it.
    #[verifier::external_body]
    pub(crate) fn items(&self) -> (r: Vec<String>)
        ensures
            texts(r@).no_duplicates(),
            texts(r@).to_set() == string_set_items(*self),
    {
        self.0.iter().cloned().collect()
    }

    /// The elements in ascending order, each exactly once.
    pub fn sorted_items(&self) -> (r: Vec<String>)
        ensures
            texts(r@).no_duplicates(),
            texts(r@).to_set() == self@,
            texts_sorted(texts(r@)),
    {
        let mut listed = self.items();
        let ghost before = texts(listed@);
        sort_texts(&mut listed);
        proof {
            let after = texts(listed@);
            before.lemma_multiset_has_no_duplicates();
            after.lemma_multiset_has_no_duplicates_conv();
            assert forall|t: Seq<char>| after.to_set().contains(t) == before.to_set().contains(
                t,
            ) by {
                before.to_multiset_ensures();
                after.to_multiset_ensures();
                assert(before.contains(t) <==> before.to_multiset().count(t) > 0);
            }
        }
        listed
    }

    /// The set of the strings in `values`.
    pub fn from_items(values: Vec<String>) -> (r: Self)
        ensures
            r@ == texts(values@).to_set(),
    {
        let mut set = StringHashSet::new();
        let mut i: usize = 0;
        while i < values.len()
            invariant
                i <= values.len(),
                set@ == texts(values@).take(i as int).to_set(),
            decreases values.len() - i,
        {
            let value = values[i].clone();
            proof {
                let all = texts(values@);
                assert(all.take(i as int + 1) =~= all.take(i as int).push(all[i as int]));
                all.take(i as int).lemma_push_to_set_commute(all[i as int]);
            }
            set.insert(value);
            i += 1;
        }
        proof {
            assert(texts(values@).take(values.len() as int) =~= texts(values@));
        }
        set
    }
}

/// `<[String]>::sort`: the same strings, rearranged into ascending order.
#[verifier::external_body]
fn sort_texts(v: &mut Vec<String>)
    ensures
        texts(final(v)@).to_multiset() == texts(old(v)@).to_multiset(),
        texts_sorted(texts(final(v)@)),
{
    v.sort()
}

/// `<String as Hash>::hash`: feeds the string to the hasher. Nothing is
/// claimed of the hasher's state.
#[verifier::external_body]
fn hash_text<H: Hasher>(text: &String, state: &mut H) {
    text.hash(state)
}

impl Clone for StringHashSet {
    fn clone(&self) -> (r: Self)
        ensures
            r@ == self@,
    {
        StringHashSet::from_items(self.items())
    }
}

impl Hash for StringHashSet {
    /// Hashes the elements in ascending order.
    fn hash<H: Hasher>(&self, state: &mut H) {
        let sorted = self.sorted_items();
        let mut i: usize = 0;
        while i < sorted.len()
            invariant
                i <= sorted.len(),
            decreases sorted.len() - i,
        {
            hash_text(&sorted[i], state);
            i += 1;
        }
    }
}

} // verus!
