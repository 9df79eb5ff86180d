//! Sources of the data that evaluations read through selectors.
use vstd::prelude::*;

use core::marker::PhantomData;
use std::borrow::Cow;

use crate::evaluation::single_evaluation::FatalV;
use crate::features::Features;
use crate::spec::entities::{Coremapping, Selector, SetFlagMode};
use crate::spec::eval::{Query, QueryV};
use crate::spec::runtime::{AnyV, FatalError, RuntimeAction, RuntimeAny, clone_any};
use crate::spec::values::{
    KeyV, MapKey, MappingOrArray, RealMapping, RuntimeValue, ValueV, clone_mapping, clone_value,
    lemma_comp_view, walk,
};
use crate::spec::deep::{keys_view, with_new_keys_spec};

verus! {

/// The error of a selector that a source does not serve.
pub open spec fn not_available(q: QueryV) -> FatalV {
    match q {
        QueryV::Selector(m, p) => FatalV::SelectorNotAvailable(m, p),
        _ => FatalV::AnswerMismatch,
    }
}

/// The model of what a request gives.
pub open spec fn request_view(r: Result<RuntimeAny, FatalError>) -> Result<AnyV, FatalV> {
    match r {
        Ok(a) => Ok(a@),
        Err(e) => Err(e@),
    }
}

/// Something that serves the data that selectors read.
pub trait SelectableSource {
    /// What a request for the selector `q` gives, with the capabilities
    /// `allowed`.
    spec fn spec_request(&self, q: QueryV, allowed: u32) -> Result<AnyV, FatalV>;

    /// Requests the data for a selector.
    fn request(&self, selector: &Selector, allowed_features: Features) -> (r: Result<RuntimeAny, FatalError>)
        ensures
            request_view(r) == self.spec_request(Query::Selector(*selector)@, allowed_features.0),
    ;
}

/// The error of a selector that a source does not serve.
fn mark_fallback_need(selector: &Selector) -> (r: FatalError)
    ensures
        r@ == not_available(Query::Selector(*selector)@),
{
    FatalError::RequestedSelectorValueNotAvailable(selector.clone())
}

/// `Ok` where every capability of `required` is among `provided`, else the
/// mismatch of the two.
pub fn enforce_required(required: Features, provided: Features) -> (r: Result<(), FatalError>)
    ensures
        provided.spec_contains(required) ==> r is Ok,
        !provided.spec_contains(required) ==> r == Err::<(), FatalError>(FatalError::FeatureMissmatch { required, provided }),
{
    if provided.contains(required) {
        Ok(())
    } else {
        Err(FatalError::FeatureMissmatch { required, provided })
    }
}

/// The source that serves nothing.
impl SelectableSource for () {
    open spec fn spec_request(&self, q: QueryV, allowed: u32) -> Result<AnyV, FatalV> {
        Err(not_available(q))
    }

    fn request(&self, selector: &Selector, allowed_features: Features) -> (r: Result<RuntimeAny, FatalError>) {
        Err(mark_fallback_need(selector))
    }
}

/// A source that may be missing: a missing one serves nothing.
impl<A: SelectableSource> SelectableSource for Option<A> {
    open spec fn spec_request(&self, q: QueryV, allowed: u32) -> Result<AnyV, FatalV> {
        match self {
            Some(a) => a.spec_request(q, allowed),
            None => Err(not_available(q)),
        }
    }

    fn request(&self, selector: &Selector, allowed_features: Features) -> (r: Result<RuntimeAny, FatalError>) {
        match self {
            Some(a) => a.request(selector, allowed_features),
            None => Err(mark_fallback_need(selector)),
        }
    }
}

/// A borrowed source serves what the source serves.
impl<'a, A: SelectableSource> SelectableSource for &'a A {
    open spec fn spec_request(&self, q: QueryV, allowed: u32) -> Result<AnyV, FatalV> {
        (**self).spec_request(q, allowed)
    }

    fn request(&self, selector: &Selector, allowed_features: Features) -> (r: Result<RuntimeAny, FatalError>) {
        (**self).request(selector, allowed_features)
    }
}

/// A source first, and a second one for the selectors that the first does
/// not serve.
impl<A: SelectableSource, B: SelectableSource> SelectableSource for (A, B) {
    open spec fn spec_request(&self, q: QueryV, allowed: u32) -> Result<AnyV, FatalV> {
        match self.0.spec_request(q, allowed) {
            Err(FatalV::SelectorNotAvailable(_, _)) => self.1.spec_request(q, allowed),
            x => x,
        }
    }

    fn request(&self, selector: &Selector, allowed_features: Features) -> (r: Result<RuntimeAny, FatalError>) {
        match self.0.request(selector, allowed_features) {
            Err(FatalError::RequestedSelectorValueNotAvailable(_)) => self.1.request(selector, allowed_features),
            x => x,
        }
    }
}

// ---------------------------------------------------------------------------
// Data of a test run
// ---------------------------------------------------------------------------

/// The data of a test run: the answers it was given, the lines it wrote,
/// the random numbers it used, and its lists and variables at the end.
#[derive(Debug)]
pub struct Rundata {
    input: RuntimeAny,
    output: RuntimeAny,
    randoms: RuntimeAny,
    lists: RuntimeAny,
    variables: RuntimeAny,
}

impl Rundata {
    /// The data of a run.
    pub fn new(input: Vec<RuntimeValue>, output: Vec<RuntimeValue>, randoms: Vec<RuntimeValue>, lists: RealMapping, variables: RealMapping) -> (r: Rundata)
        ensures
            r.input_view() == ValueV::Array(Seq::new(input@.len(), |i: int| input@[i]@)),
            r.output_view() == ValueV::Array(Seq::new(output@.len(), |i: int| output@[i]@)),
            r.randoms_view() == ValueV::Array(Seq::new(randoms@.len(), |i: int| randoms@[i]@)),
            r.lists_view() == lists@,
            r.variables_view() == variables@,
    {
        let ghost lv = lists@;
        let ghost vv = variables@;
        proof {
            lemma_comp_view(MappingOrArray::Mapping(lists));
            lemma_comp_view(MappingOrArray::Mapping(variables));
        }
        let i = RuntimeValue::Comp(MappingOrArray::Array(crate::spec::values::Array(input)));
        let o = RuntimeValue::Comp(MappingOrArray::Array(crate::spec::values::Array(output)));
        let ra = RuntimeValue::Comp(MappingOrArray::Array(crate::spec::values::Array(randoms)));
        assert(i@->Array_0 =~= Seq::new(input@.len(), |k: int| input@[k]@));
        assert(o@->Array_0 =~= Seq::new(output@.len(), |k: int| output@[k]@));
        assert(ra@->Array_0 =~= Seq::new(randoms@.len(), |k: int| randoms@[k]@));
        Rundata {
            input: RuntimeAny::Value(i),
            output: RuntimeAny::Value(o),
            randoms: RuntimeAny::Value(ra),
            lists: RuntimeAny::Value(RuntimeValue::Comp(MappingOrArray::Mapping(lists))),
            variables: RuntimeAny::Value(RuntimeValue::Comp(MappingOrArray::Mapping(variables))),
        }
    }

    /// The answers the run was given.
    pub closed spec fn input_view(&self) -> ValueV {
        match self.input@ {
            AnyV::Value(v) => v,
            _ => ValueV::Array(Seq::empty()),
        }
    }

    /// The lines the run wrote.
    pub closed spec fn output_view(&self) -> ValueV {
        match self.output@ {
            AnyV::Value(v) => v,
            _ => ValueV::Array(Seq::empty()),
        }
    }

    /// The random numbers the run used.
    pub closed spec fn randoms_view(&self) -> ValueV {
        match self.randoms@ {
            AnyV::Value(v) => v,
            _ => ValueV::Array(Seq::empty()),
        }
    }

    /// The lists at the end of the run.
    pub closed spec fn lists_view(&self) -> ValueV {
        match self.lists@ {
            AnyV::Value(v) => v,
            _ => ValueV::Mapping(Seq::empty(), None),
        }
    }

    /// The variables at the end of the run.
    pub closed spec fn variables_view(&self) -> ValueV {
        match self.variables@ {
            AnyV::Value(v) => v,
            _ => ValueV::Mapping(Seq::empty(), None),
        }
    }

    /// All five are values.
    #[verifier::type_invariant]
    closed spec fn wf(&self) -> bool {
        &&& self.input@ is Value
        &&& self.output@ is Value
        &&& self.randoms@ is Value
        &&& self.lists@ is Value
        &&& self.variables@ is Value
    }

    /// A copy.
    pub fn clone_data(&self) -> (r: Rundata)
        ensures
            r.input_view() == self.input_view(),
            r.output_view() == self.output_view(),
            r.randoms_view() == self.randoms_view(),
            r.lists_view() == self.lists_view(),
            r.variables_view() == self.variables_view(),
    {
        proof {
            use_type_invariant(self);
        }
        Rundata {
            input: clone_any(&self.input),
            output: clone_any(&self.output),
            randoms: clone_any(&self.randoms),
            lists: clone_any(&self.lists),
            variables: clone_any(&self.variables),
        }
    }
}

impl Clone for Rundata {
    fn clone(&self) -> (r: Self)
        ensures
            r.input_view() == self.input_view(),
            r.output_view() == self.output_view(),
            r.randoms_view() == self.randoms_view(),
            r.lists_view() == self.lists_view(),
            r.variables_view() == self.variables_view(),
    {
        self.clone_data()
    }
}

/// The data of a run needs the capability to read it; it serves the five
/// mappings of the run, and no parameters, flags or items.
pub open spec fn rundata_request(r: Rundata, q: QueryV, allowed: u32) -> Result<AnyV, FatalV> {
    if allowed & 1u32 != 1u32 {
        Err(FatalV::FeatureMissmatch(1, allowed))
    } else {
        match q {
            QueryV::Selector(Coremapping::Input, None) => Ok(AnyV::Value(r.input_view())),
            QueryV::Selector(Coremapping::Output, None) => Ok(AnyV::Value(r.output_view())),
            QueryV::Selector(Coremapping::Randoms, None) => Ok(AnyV::Value(r.randoms_view())),
            QueryV::Selector(Coremapping::Lists, None) => Ok(AnyV::Value(r.lists_view())),
            QueryV::Selector(Coremapping::Variables, None) => Ok(AnyV::Value(r.variables_view())),
            _ => Err(not_available(q)),
        }
    }
}

impl SelectableSource for Rundata {
    open spec fn spec_request(&self, q: QueryV, allowed: u32) -> Result<AnyV, FatalV> {
        rundata_request(*self, q, allowed)
    }

    fn request(&self, selector: &Selector, allowed_features: Features) -> (r: Result<RuntimeAny, FatalError>) {
        proof {
            use_type_invariant(self);
        }
        match enforce_required(Features::READ_RUNDATA(), allowed_features) {
            Err(e) => return Err(e),
            Ok(()) => {},
        }
        match selector {
            Selector::Coremap(m) => match m {
                Coremapping::Input => Ok(clone_any(&self.input)),
                Coremapping::Output => Ok(clone_any(&self.output)),
                Coremapping::Randoms => Ok(clone_any(&self.randoms)),
                Coremapping::Lists => Ok(clone_any(&self.lists)),
                Coremapping::Variables => Ok(clone_any(&self.variables)),
                _ => Err(mark_fallback_need(selector)),
            },
            _ => Err(mark_fallback_need(selector)),
        }
    }
}


// ---------------------------------------------------------------------------
// Parameters and flags
// ---------------------------------------------------------------------------

/// Marks the data of flags.
#[derive(Debug)]
pub struct SourceFlag(());

/// Marks the data of parameters.
#[derive(Debug)]
pub struct SourceParam(());

/// A mapping served under one mapping of the run (`T` tells which).
#[derive(Debug)]
pub struct MappingData<T> {
    data: RealMapping,
    _phantom: PhantomData<T>,
}

/// The flags set during a run.
pub type FlagData = MappingData<SourceFlag>;

/// The parameters of an evaluation.
pub type ParamData = MappingData<SourceParam>;

/// The model of items to insert along key paths.
pub open spec fn path_items_view(items: Seq<(Vec<MapKey>, RuntimeValue)>) -> Seq<(Seq<KeyV>, ValueV)> {
    Seq::new(items.len(), |i: int| (keys_view(items[i].0@), items[i].1@))
}

/// The model of items to insert each under its own key.
pub open spec fn key_items_view(items: Seq<(MapKey, RuntimeValue)>) -> Seq<(Seq<KeyV>, ValueV)> {
    Seq::new(items.len(), |i: int| (seq![items[i].0@], items[i].1@))
}

/// The mapping `m` after inserting the items along their key paths.
pub open spec fn inserted(m: ValueV, items: Seq<(Seq<KeyV>, ValueV)>) -> ValueV {
    match m {
        ValueV::Mapping(es, d) => with_new_keys_spec(es, d, items),
        _ => m,
    }
}

impl<T> View for MappingData<T> {
    type V = ValueV;

    closed spec fn view(&self) -> ValueV {
        self.data@
    }
}

impl<T> Clone for MappingData<T> {
    fn clone(&self) -> (r: Self)
        ensures
            r@ == self@,
    {
        MappingData { data: clone_mapping(&self.data), _phantom: PhantomData }
    }
}

impl<T> MappingData<T> {
    /// The entries of the mapping.
    pub closed spec fn entries(&self) -> Seq<(MapKey, RuntimeValue)> {
        self.data.mapping@
    }

    /// The empty mapping.
    pub fn new() -> (r: Self)
        ensures
            r@ == ValueV::Mapping(Seq::empty(), None),
    {
        MappingData { data: RealMapping::empty(), _phantom: PhantomData }
    }

    /// The given mapping.
    pub fn from_mapping(m: RealMapping) -> (r: Self)
        ensures
            r@ == m@,
    {
        MappingData { data: m, _phantom: PhantomData }
    }

    /// The mapping.
    pub fn as_mapping(&self) -> (r: &RealMapping)
        ensures
            r@ == self@,
    {
        &self.data
    }

    /// The mapping.
    pub fn into_mapping(self) -> (r: RealMapping)
        ensures
            r@ == self@,
            r.mapping@ == self.entries(),
    {
        self.data
    }

    /// Inserts values along key paths, one after the other.
    pub fn extend_paths(&mut self, items: &Vec<(Vec<MapKey>, RuntimeValue)>)
        ensures
            final(self)@ == inserted(old(self)@, path_items_view(items@)),
    {
        let m = self.data.with_new_keys(items);
        assert(path_items_view(items@) =~= Seq::new(items@.len(), |i: int| (keys_view(items@[i].0@), items@[i].1@)));
        self.data = m;
    }

    /// Inserts values each under its own key, one after the other.
    pub fn extend_keys(&mut self, items: &Vec<(MapKey, RuntimeValue)>)
        ensures
            final(self)@ == inserted(old(self)@, key_items_view(items@)),
    {
        let m = self.data.with_merged(items);
        assert(key_items_view(items@) =~= Seq::new(items@.len(), |i: int| (seq![items@[i].0@], items@[i].1@)));
        self.data = m;
    }

    /// The mapping after inserting values along key paths.
    pub fn extended(self, items: &Vec<(Vec<MapKey>, RuntimeValue)>) -> (r: Self)
        ensures
            r@ == inserted(self@, path_items_view(items@)),
    {
        let mut s = self;
        s.extend_paths(items);
        s
    }

    /// Inserts one value under a key.
    pub fn inefficient_insert(&mut self, key: MapKey, value: RuntimeValue)
        ensures
            final(self)@ == inserted(old(self)@, seq![(seq![key@], value@)]),
    {
        let ghost kv = key@;
        let ghost vv = value@;
        let mut items: Vec<(MapKey, RuntimeValue)> = Vec::new();
        items.push((key, value));
        assert(key_items_view(items@) =~= seq![(seq![kv], vv)]);
        self.extend_keys(&items);
    }

    /// The entries of `other` merged in, each under its own key.
    pub fn with_append(self, other: FlagData) -> (r: Self)
        ensures
            r@ == inserted(self@, key_items_view(other.entries())),
    {
        let mut s = self;
        s.extend_keys(&other.data.mapping);
        s
    }
}

impl MappingData<SourceFlag> {
    /// Sets the flags of the actions that set flags, in order.
    pub fn extend_with_actions(&mut self, actions: &Vec<RuntimeAction>)
        ensures
            final(self)@ == inserted(old(self)@, flag_items(actions@.map_values(|a: RuntimeAction| a@))),
    {
        let mut items: Vec<(Vec<MapKey>, RuntimeValue)> = Vec::new();
        let mut i: usize = 0;
        while i < actions.len()
            invariant
                i <= actions.len(),
                path_items_view(items@) == flag_items(actions@.map_values(|a: RuntimeAction| a@).take(i as int)),
            decreases actions.len() - i,
        {
            let ghost before = path_items_view(items@);
            let ghost acts = actions@.map_values(|a: RuntimeAction| a@);
            assert(acts.take(i + 1).drop_last() =~= acts.take(i as int));
            match &actions[i] {
                RuntimeAction::SetFlag(f) => {
                    let mut k: Vec<MapKey> = Vec::new();
                    let mut j: usize = 0;
                    while j < f.key.len()
                        invariant
                            j <= f.key.len(),
                            keys_view(k@) == f.key@.map_values(|x: MapKey| x@).take(j as int),
                        decreases f.key.len() - j,
                    {
                        let ghost kb = k@;
                        assert(keys_view(kb).len() == kb.len());
                        assert(kb.len() == j);
                        let c = f.key[j].clone();
                        k.push(c);
                        assert(k@ == kb.push(c));
                        assert forall|t: int| 0 <= t < j + 1 implies #[trigger] keys_view(k@)[t] == f.key@.map_values(|x: MapKey| x@).take(j + 1)[t] by {
                            if t < j {
                                assert(k@[t] == kb[t]);
                                assert(keys_view(kb)[t] == kb[t]@);
                            }
                        }
                        assert(keys_view(k@) =~= f.key@.map_values(|x: MapKey| x@).take(j + 1));
                        j = j + 1;
                    }
                    assert(keys_view(k@) =~= f.key@.map_values(|x: MapKey| x@));
                    let v = RuntimeValue::Prim(f.value.clone());
                    items.push((k, v));
                    assert(path_items_view(items@) =~= before.push((keys_view(k@), v@)));
                },
                _ => {
                    assert(path_items_view(items@) =~= before);
                },
            }
            i = i + 1;
        }
        assert(actions@.map_values(|a: RuntimeAction| a@).take(actions@.len() as int) =~= actions@.map_values(|a: RuntimeAction| a@));
        self.extend_paths(&items);
    }
}

/// The flags that a list of actions sets, in order: each action that sets a
/// flag sets its value at its key path.
pub open spec fn flag_items(acts: Seq<crate::spec::runtime::ActV>) -> Seq<(Seq<KeyV>, ValueV)>
    decreases acts.len(),
{
    if acts.len() == 0 {
        Seq::empty()
    } else {
        let rest = flag_items(acts.drop_last());
        match acts.last() {
            crate::spec::runtime::ActV::SetFlag(_, k, v) => rest.push((k, ValueV::Prim(v))),
            _ => rest,
        }
    }
}

/// What a mapping serves under the mapping `which` of the run: the whole
/// mapping, or what a non-empty key path leads to (an error on the way is
/// handed on as the value).
pub open spec fn mapping_request(m: ValueV, which: Coremapping, q: QueryV) -> Result<AnyV, FatalV> {
    match q {
        QueryV::Selector(c, None) => if c == which {
            Ok(AnyV::Value(m))
        } else {
            Err(not_available(q))
        },
        QueryV::Selector(c, Some(path)) => if c == which {
            if path.len() == 0 {
                Ok(AnyV::Value(m))
            } else {
                match walk(m, path) {
                    Ok(v) => Ok(AnyV::Value(v)),
                    Err(e) => Ok(AnyV::Catchable(e)),
                }
            }
        } else {
            Err(not_available(q))
        },
        _ => Err(not_available(q)),
    }
}

fn serve_mapping(m: &RealMapping, which: Coremapping, selector: &Selector) -> (r: Result<RuntimeAny, FatalError>)
    ensures
        request_view(r) == mapping_request(m@, which, Query::Selector(*selector)@),
{
    match selector {
        Selector::Coremap(c) => if *c == which {
            let cm = clone_mapping(m);
            proof {
                lemma_comp_view(MappingOrArray::Mapping(cm));
            }
            Ok(RuntimeAny::Value(RuntimeValue::Comp(MappingOrArray::Mapping(cm))))
        } else {
            Err(mark_fallback_need(selector))
        },
        Selector::CoremapItem { mapping, key } => if *mapping == which {
            match m.get_by_seq(key.as_slice()) {
                Ok(None) => {
                    let cm = clone_mapping(m);
                    proof {
                        lemma_comp_view(MappingOrArray::Mapping(cm));
                    }
                    Ok(RuntimeAny::Value(RuntimeValue::Comp(MappingOrArray::Mapping(cm))))
                },
                Ok(Some(v)) => Ok(RuntimeAny::Value(clone_value(v))),
                Err(e) => Ok(RuntimeAny::Catchable(e)),
            }
        } else {
            Err(mark_fallback_need(selector))
        },
    }
}

impl SelectableSource for MappingData<SourceParam> {
    open spec fn spec_request(&self, q: QueryV, allowed: u32) -> Result<AnyV, FatalV> {
        mapping_request(self@, Coremapping::Param, q)
    }

    fn request(&self, selector: &Selector, allowed_features: Features) -> (r: Result<RuntimeAny, FatalError>) {
        serve_mapping(&self.data, Coremapping::Param, selector)
    }
}

impl SelectableSource for MappingData<SourceFlag> {
    open spec fn spec_request(&self, q: QueryV, allowed: u32) -> Result<AnyV, FatalV> {
        mapping_request(self@, Coremapping::Flags, q)
    }

    fn request(&self, selector: &Selector, allowed_features: Features) -> (r: Result<RuntimeAny, FatalError>) {
        serve_mapping(&self.data, Coremapping::Flags, selector)
    }
}

// ---------------------------------------------------------------------------
// A source with a fallback
// ---------------------------------------------------------------------------

/// A source with a fallback for the selectors that it does not serve.
#[derive(Debug)]
#[verifier::reject_recursive_types(F)]
pub struct SelFal<'f, D, F: Clone> {
    data: D,
    fallback: Cow<'f, F>,
}

impl<'f, D, F: Clone> SelFal<'f, D, F> {
    /// The source.
    pub closed spec fn spec_data(&self) -> D {
        self.data
    }

    /// The fallback.
    pub closed spec fn spec_fallback(&self) -> F {
        match self.fallback {
            Cow::Borrowed(b) => *b,
            Cow::Owned(o) => o,
        }
    }

    /// A source with a fallback that it owns.
    pub fn new_owned(data: D, fallback: F) -> (r: Self)
        ensures
            r.spec_data() == data,
            r.spec_fallback() == fallback,
    {
        SelFal { data, fallback: Cow::Owned(fallback) }
    }

    /// A source with a borrowed fallback.
    pub fn new_ref(data: D, fallback: &'f F) -> (r: Self)
        ensures
            r.spec_data() == data,
            r.spec_fallback() == *fallback,
    {
        SelFal { data, fallback: Cow::Borrowed(fallback) }
    }

    /// A source with the given fallback.
    pub fn new_cow(data: D, fallback: Cow<'f, F>) -> (r: Self)
        ensures
            r.spec_data() == data,
            r.spec_fallback() == match fallback {
                Cow::Borrowed(b) => *b,
                Cow::Owned(o) => o,
            },
    {
        SelFal { data, fallback }
    }

    /// The fallback.
    pub fn fallback(&self) -> (r: &F)
        ensures
            *r == self.spec_fallback(),
    {
        match &self.fallback {
            Cow::Borrowed(b) => b,
            Cow::Owned(o) => o,
        }
    }

    /// The source.
    pub fn data(&self) -> (r: &D)
        ensures
            *r == self.spec_data(),
    {
        &self.data
    }

    /// The source, without the fallback.
    pub fn into_data(self) -> (r: D)
        ensures
            r == self.spec_data(),
    {
        self.data
    }

    /// The same fallback with the source that `closure` makes of this one.
    pub fn map_data<X, C: FnOnce(D) -> X>(self, closure: C) -> (r: SelFal<'f, X, F>)
        requires
            closure.requires((self.spec_data(),)),
        ensures
            closure.ensures((self.spec_data(),), r.spec_data()),
            r.spec_fallback() == self.spec_fallback(),
    {
        SelFal { data: closure(self.data), fallback: self.fallback }
    }

    /// Changes the source with `closure`.
    pub fn mutate_data<C: FnOnce(&mut D)>(&mut self, closure: C)
        requires
            forall|d: &mut D| *d == old(self).spec_data() ==> closure.requires((d,)),
        ensures
            final(self).spec_fallback() == old(self).spec_fallback(),
            exists|d: &mut D|
                *d == old(self).spec_data() && *final(d) == final(self).spec_data()
                    && closure.ensures((d,), ()),
    {
        closure(&mut self.data);
    }
}

impl<'f, D> SelFal<'f, D, ()> {
    /// A source without fallback.
    pub fn new_data(data: D) -> (r: Self)
        ensures
            r.spec_data() == data,
    {
        SelFal { data, fallback: Cow::Owned(()) }
    }
}

/// The data of a test run, with a fallback for what it does not serve.
pub type TestRundataSource<'f, F> = SelFal<'f, Rundata, F>;

impl<'f, F: Clone> SelFal<'f, Rundata, F> {
    /// The data of a test run (see `Rundata::new`) with the given fallback.
    pub fn new(
        input: Vec<RuntimeValue>,
        output: Vec<RuntimeValue>,
        randoms: Vec<RuntimeValue>,
        lists: RealMapping,
        variables: RealMapping,
        fallback: Cow<'f, F>,
    ) -> (r: Self)
        ensures
            r.spec_data().input_view() == ValueV::Array(Seq::new(input@.len(), |i: int| input@[i]@)),
            r.spec_data().output_view() == ValueV::Array(Seq::new(output@.len(), |i: int| output@[i]@)),
            r.spec_data().randoms_view() == ValueV::Array(Seq::new(randoms@.len(), |i: int| randoms@[i]@)),
            r.spec_data().lists_view() == lists@,
            r.spec_data().variables_view() == variables@,
            r.spec_fallback() == match fallback {
                Cow::Borrowed(b) => *b,
                Cow::Owned(o) => o,
            },
    {
        Self::new_cow(Rundata::new(input, output, randoms, lists, variables), fallback)
    }
}

impl<'f, D: SelectableSource, F: SelectableSource + Clone> SelectableSource for SelFal<'f, D, F> {
    open spec fn spec_request(&self, q: QueryV, allowed: u32) -> Result<AnyV, FatalV> {
        match self.spec_data().spec_request(q, allowed) {
            Err(FatalV::SelectorNotAvailable(_, _)) => self.spec_fallback().spec_request(q, allowed),
            x => x,
        }
    }

    fn request(&self, selector: &Selector, allowed_features: Features) -> (r: Result<RuntimeAny, FatalError>) {
        match self.data.request(selector, allowed_features) {
            Err(FatalError::RequestedSelectorValueNotAvailable(_)) => self.fallback().request(selector, allowed_features),
            x => x,
        }
    }
}


// ---------------------------------------------------------------------------
// Reading flags back
// ---------------------------------------------------------------------------

proof fn lemma_walk_default(res: Seq<(KeyV, ValueV)>, d: Option<Box<ValueV>>, ks: Seq<KeyV>)
    requires
        ks.len() > 0,
        crate::spec::values::find_key(res, ks[0]) is Some,
    ensures
        walk(ValueV::Mapping(res, d), ks) == walk(ValueV::Mapping(res, None), ks),
{
}

/// What a read of a path gives after values were inserted along paths: the
/// last value written to that path, where it is a primitive.
pub proof fn lemma_read_after_write(m: ValueV, items: Seq<(Seq<KeyV>, ValueV)>, ks: Seq<KeyV>, p: crate::spec::values::PrimV)
    requires
        m is Mapping,
        ks.len() > 0,
    ensures
        walk(inserted(m, items.push((ks, ValueV::Prim(p)))), ks) == Ok::<ValueV, crate::catchable::cerr>(ValueV::Prim(p)),
{
    let all = items.push((ks, ValueV::Prim(p)));
    let es = m->Mapping_0;
    let d = m->Mapping_1;
    let t0 = crate::spec::deep::to_tree(ValueV::Mapping(es, d));
    let titems = Seq::new(all.len(), |i: int| (all[i].0, crate::spec::deep::to_tree(all[i].1)));
    assert(titems.last() == (ks, crate::spec::deep::TreeV::Leaf(p)));
    let x = crate::spec::deep::insert_all(t0, titems.drop_last());
    let t = crate::spec::deep::insert_all(t0, titems);
    assert(t == crate::spec::deep::insert_path(x, ks, crate::spec::deep::TreeV::Leaf(p)));
    crate::spec::deep::lemma_insert_path_then_at(x, ks, p);
    crate::spec::deep::lemma_walk_from_tree(t, ks, p);
    assert(t is Inner);
    let res = crate::spec::deep::from_tree(t)->Mapping_0;
    assert(crate::spec::deep::from_tree(t) == ValueV::Mapping(res, None));
    assert(inserted(m, all) == ValueV::Mapping(res, d));
    assert(crate::spec::values::find_key(res, ks[0]) is Some);
    lemma_walk_default(res, d, ks);
}

/// A flag that an action sets is what a read of its key path gives
/// afterwards (where no later action sets the same path).
pub proof fn lemma_flag_read_after_write(m: ValueV, acts: Seq<crate::spec::runtime::ActV>, mode: SetFlagMode, ks: Seq<KeyV>, p: crate::spec::values::PrimV)
    requires
        m is Mapping,
        ks.len() > 0,
    ensures
        mapping_request(
            inserted(m, flag_items(acts.push(crate::spec::runtime::ActV::SetFlag(mode, ks, p)))),
            Coremapping::Flags,
            QueryV::Selector(Coremapping::Flags, Some(ks)),
        ) == Ok::<AnyV, FatalV>(AnyV::Value(ValueV::Prim(p))),
{
    let a2 = acts.push(crate::spec::runtime::ActV::SetFlag(mode, ks, p));
    assert(a2.drop_last() =~= acts);
    assert(flag_items(a2) == flag_items(acts).push((ks, ValueV::Prim(p))));
    lemma_read_after_write(m, flag_items(acts), ks, p);
}

/// With the capability to read it, the data of a run serves each of its
/// mappings under its own selector: the input, output, randoms, lists and
/// variables that it was made with (see `Rundata::new`); without it, every
/// request is refused.
pub proof fn lemma_rundata_serves_its_own_data(r: Rundata, allowed: u32)
    ensures
        allowed & 1u32 == 1u32 ==> {
            &&& r.spec_request(QueryV::Selector(Coremapping::Input, None), allowed) == Ok::<AnyV, FatalV>(AnyV::Value(r.input_view()))
            &&& r.spec_request(QueryV::Selector(Coremapping::Output, None), allowed) == Ok::<AnyV, FatalV>(AnyV::Value(r.output_view()))
            &&& r.spec_request(QueryV::Selector(Coremapping::Randoms, None), allowed) == Ok::<AnyV, FatalV>(AnyV::Value(r.randoms_view()))
            &&& r.spec_request(QueryV::Selector(Coremapping::Lists, None), allowed) == Ok::<AnyV, FatalV>(AnyV::Value(r.lists_view()))
            &&& r.spec_request(QueryV::Selector(Coremapping::Variables, None), allowed) == Ok::<AnyV, FatalV>(AnyV::Value(r.variables_view()))
        },
        allowed & 1u32 != 1u32 ==> forall|q: QueryV| #[trigger] r.spec_request(q, allowed) == Err::<AnyV, FatalV>(FatalV::FeatureMissmatch(1, allowed)),
{
}

/// Two sources together: what the first serves is the answer; the second
/// is asked only for what the first does not serve; a missing source serves
/// nothing, and a borrowed one what it borrows.
pub proof fn lemma_combined_sources<A: SelectableSource, B: SelectableSource>(a: A, b: B, q: QueryV, allowed: u32)
    ensures
        !(a.spec_request(q, allowed) is Err && a.spec_request(q, allowed)->Err_0 is SelectorNotAvailable)
            ==> (a, b).spec_request(q, allowed) == a.spec_request(q, allowed),
        (a.spec_request(q, allowed) is Err && a.spec_request(q, allowed)->Err_0 is SelectorNotAvailable)
            ==> (a, b).spec_request(q, allowed) == b.spec_request(q, allowed),
        None::<A>.spec_request(q, allowed) == Err::<AnyV, FatalV>(not_available(q)),
        Some(a).spec_request(q, allowed) == a.spec_request(q, allowed),
        (&a).spec_request(q, allowed) == a.spec_request(q, allowed),
{
}

/// A source with a fallback: what its data serves is the answer; the
/// fallback is asked only for what the data does not serve.
pub proof fn lemma_fallback_only_when_not_served<'f, D: SelectableSource, F: SelectableSource + Clone>(s: SelFal<'f, D, F>, q: QueryV, allowed: u32)
    ensures
        !(s.spec_data().spec_request(q, allowed) is Err && s.spec_data().spec_request(q, allowed)->Err_0 is SelectorNotAvailable)
            ==> s.spec_request(q, allowed) == s.spec_data().spec_request(q, allowed),
        (s.spec_data().spec_request(q, allowed) is Err && s.spec_data().spec_request(q, allowed)->Err_0 is SelectorNotAvailable)
            ==> s.spec_request(q, allowed) == s.spec_fallback().spec_request(q, allowed),
{
}

/// Parameters are served under the parameters' selector only, flags under
/// the flags' selector only: each as the whole mapping, or what a non-empty
/// path of keys leads to in it.
pub proof fn lemma_params_and_flags(p: ParamData, f: FlagData, allowed: u32, path: Seq<KeyV>)
    ensures
        p.spec_request(QueryV::Selector(Coremapping::Param, None), allowed) == Ok::<AnyV, FatalV>(AnyV::Value(p@)),
        p.spec_request(QueryV::Selector(Coremapping::Flags, None), allowed) is Err,
        f.spec_request(QueryV::Selector(Coremapping::Flags, None), allowed) == Ok::<AnyV, FatalV>(AnyV::Value(f@)),
        f.spec_request(QueryV::Selector(Coremapping::Param, None), allowed) is Err,
        path.len() > 0 ==> p.spec_request(QueryV::Selector(Coremapping::Param, Some(path)), allowed) == match walk(p@, path) {
            Ok(v) => Ok::<AnyV, FatalV>(AnyV::Value(v)),
            Err(e) => Ok::<AnyV, FatalV>(AnyV::Catchable(e)),
        },
        path.len() > 0 ==> f.spec_request(QueryV::Selector(Coremapping::Flags, Some(path)), allowed) == match walk(f@, path) {
            Ok(v) => Ok::<AnyV, FatalV>(AnyV::Value(v)),
            Err(e) => Ok::<AnyV, FatalV>(AnyV::Catchable(e)),
        },
{
}

} // verus!
