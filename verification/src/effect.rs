//! Effects: the writes to the fact store that a finished beat asks for.

use crate::fact::Fact;
use crate::fact::FactValue;
use crate::fact::FactView;
use crate::store::CoolFactStore;
use crate::store::StoreError;
use crate::store::StoreView;
use crate::string_set::StringHashSet;
use vstd::prelude::*;
use vstd::string::StringExecFns;

verus! {

/// A write to the fact store.
#[derive(Debug, PartialEq, Eq, Hash)]
pub enum Effect {
    /// Sets the fact of that name to that value.
    SetFact(Fact),
}

/// An effect as a mathematical value.
pub enum EffectView {
    SetFact(FactView),
}

impl EffectView {
    /// The outcome of the effect on a store: that of writing its value under
    /// its name.
    pub open spec fn apply(self, store: StoreView) -> Result<StoreView, StoreError> {
        match self {
            EffectView::SetFact(fact) => store.store(fact.name, fact.value),
        }
    }
}

impl View for Effect {
    type V = EffectView;

    open spec fn view(&self) -> EffectView {
        match *self {
            Effect::SetFact(fact) => EffectView::SetFact(fact@),
        }
    }
}

impl Clone for Effect {
    fn clone(&self) -> (r: Self)
        ensures
            r@ == self@,
    {
        match self {
            Effect::SetFact(fact) => Effect::SetFact(fact.clone()),
        }
    }
}

impl Effect {
    /// Writes the effect's value to the store through the setter of its type.
    /// A name that holds another type is refused, and the store stays as it
    /// was.
    pub fn apply(&self, store: &mut CoolFactStore) -> (r: Result<(), StoreError>)
        ensures
            match self@.apply(old(store)@) {
                Ok(after) => r is Ok && final(store)@ == after,
                Err(e) => r == Err::<(), StoreError>(e) && final(store)@ == old(store)@,
            },
            old(store)@.wf() ==> final(store)@.wf(),
    {
        match self {
            Effect::SetFact(Fact::Int(name, value)) => store.store_int(name.clone(), *value),
            Effect::SetFact(Fact::String(name, value)) => store.store_string(
                name.clone(),
                value.clone(),
            ),
            Effect::SetFact(Fact::Bool(name, value)) => store.store_bool(name.clone(), *value),
            Effect::SetFact(Fact::StringList(name, value)) => store.store_list(
                name.clone(),
                value.clone(),
            ),
        }
    }
}

/// The views of a list of effects, in order.
pub open spec fn effect_views(v: Seq<Effect>) -> Seq<EffectView> {
    Seq::new(v.len(), |i: int| v[i]@)
}

/// The outcome of a list of effects on a store, applied in order. The first
/// effect that is refused ends it: the store then holds what the effects
/// before it wrote, and the error is that effect's.
pub open spec fn apply_all(store: StoreView, effects: Seq<EffectView>) -> (
    StoreView,
    Result<(), StoreError>,
)
    decreases effects.len(),
{
    if effects.len() == 0 {
        (store, Ok(()))
    } else {
        match effects[0].apply(store) {
            Ok(next) => apply_all(next, effects.drop_first()),
            Err(e) => (store, Err(e)),
        }
    }
}

/// Applies the effects to the store in order, up to the first that is
/// refused.
pub fn apply_effects(effects: &Vec<Effect>, store: &mut CoolFactStore) -> (r: Result<
    (),
    StoreError,
>)
    ensures
        final(store)@ == apply_all(old(store)@, effect_views(effects@)).0,
        r == apply_all(old(store)@, effect_views(effects@)).1,
        old(store)@.wf() ==> final(store)@.wf(),
{
    let ghost all = effect_views(effects@);
    let mut i: usize = 0;
    proof {
        assert(all.skip(0) =~= all);
    }
    while i < effects.len()
        invariant
            i <= effects.len(),
            all == effect_views(effects@),
            apply_all(old(store)@, all) == apply_all(store@, all.skip(i as int)),
            old(store)@.wf() ==> store@.wf(),
        decreases effects.len() - i,
    {
        proof {
            assert(all.skip(i as int).drop_first() =~= all.skip(i as int + 1));
        }
        match effects[i].apply(store) {
            Ok(()) => {},
            Err(e) => {
                return Err(e);
            },
        }
        i += 1;
    }
    Ok(())
}

/// A copy of a list of effects.
pub(crate) fn clone_effects(effects: &Vec<Effect>) -> (r: Vec<Effect>)
    ensures
        effect_views(r@) == effect_views(effects@),
{
    let mut copy: Vec<Effect> = Vec::new();
    let mut i: usize = 0;
    while i < effects.len()
        invariant
            i <= effects.len(),
            copy@.len() == i,
            forall|k: int| 0 <= k < i ==> copy@[k]@ == effects@[k]@,
        decreases effects.len() - i,
    {
        copy.push(effects[i].clone());
        i += 1;
    }
    copy
}

/// Collects effects one call at a time.
#[derive(Debug)]
pub struct EffectBuilder {
    effects: Vec<Effect>,
}

impl Default for EffectBuilder {
    fn default() -> (r: Self)
        ensures
            r.effects() == Seq::<EffectView>::empty(),
    {
        EffectBuilder::new()
    }
}

impl EffectBuilder {
    /// The effects collected so far, in the order of the calls.
    pub closed spec fn effects(self) -> Seq<EffectView> {
        effect_views(self.effects@)
    }

    pub fn new() -> (r: Self)
        ensures
            r.effects() == Seq::<EffectView>::empty(),
    {
        EffectBuilder { effects: Vec::new() }
    }

    /// The builder with one more effect at the end.
    fn with(self, effect: Effect) -> (r: Self)
        ensures
            r.effects() == self.effects().push(effect@),
    {
        let mut effects = self.effects;
        effects.push(effect);
        EffectBuilder { effects }
    }

    pub fn set_fact_int(self, name: &str, value: i32) -> (r: Self)
        ensures
            r.effects() == self.effects().push(
                EffectView::SetFact(FactView { name: name@, value: FactValue::Int(value) }),
            ),
    {
        self.with(Effect::SetFact(Fact::Int(String::from_str(name), value)))
    }

    pub fn set_fact_string(self, name: &str, value: &str) -> (r: Self)
        ensures
            r.effects() == self.effects().push(
                EffectView::SetFact(FactView { name: name@, value: FactValue::Text(value@) }),
            ),
    {
        self.with(Effect::SetFact(Fact::String(String::from_str(name), String::from_str(value))))
    }

    pub fn set_fact_bool(self, name: &str, value: bool) -> (r: Self)
        ensures
            r.effects() == self.effects().push(
                EffectView::SetFact(FactView { name: name@, value: FactValue::Bool(value) }),
            ),
    {
        self.with(Effect::SetFact(Fact::Bool(String::from_str(name), value)))
    }

    pub fn set_fact_string_list(self, name: &str, values: StringHashSet) -> (r: Self)
        ensures
            r.effects() == self.effects().push(
                EffectView::SetFact(FactView { name: name@, value: FactValue::List(values@) }),
            ),
    {
        self.with(Effect::SetFact(Fact::StringList(String::from_str(name), values)))
    }

    pub fn build(self) -> (r: Vec<Effect>)
        ensures
            effect_views(r@) == self.effects(),
    {
        self.effects
    }
}

} // verus!
