//! From parameter values to the control values that are pushed.

use crate::params::{law_all_listed, strs, Param, PARAM_COUNT};
use crate::strmap::StrMap;
use vstd::prelude::*;

verus! {

/// One control value to be pushed.
pub struct ControlPush {
    /// The control of the filter chain.
    pub internal: &'static str,
    /// The value, as the bit pattern of a double.
    pub value: u64,
}

/// The contents of a list of pushes.
pub open spec fn push_pairs(pushes: Seq<ControlPush>) -> Seq<(Seq<char>, u64)> {
    Seq::new(pushes.len(), |i: int| (pushes[i].internal@, pushes[i].value))
}

/// The pushes that give a parameter a value: one to each control behind it.
pub open spec fn param_pushes(param: Param, value: u64) -> Seq<(Seq<char>, u64)> {
    Seq::new(param.controls().len(), |i: int| (param.controls()[i], value))
}

/// The pushes for the first `n` parameters, in the order of the parameters;
/// one that has no value is left out.
pub open spec fn pushes_up_to(cache: Map<Seq<char>, u64>, n: int) -> Seq<(Seq<char>, u64)>
    decreases n,
{
    if n <= 0 {
        Seq::empty()
    } else {
        let param = Param::all()[n - 1];
        let before = pushes_up_to(cache, n - 1);
        if cache.dom().contains(param.public_name()) {
            before + param_pushes(param, cache[param.public_name()])
        } else {
            before
        }
    }
}

/// The pushes for all parameters.
pub open spec fn cache_pushes(cache: Map<Seq<char>, u64>) -> Seq<(Seq<char>, u64)> {
    pushes_up_to(cache, PARAM_COUNT as int)
}

/// Appends the pushes that give a parameter a value.
pub fn push_param(pushes: &mut Vec<ControlPush>, param: Param, value: u64)
    ensures
        push_pairs(final(pushes)@) == push_pairs(old(pushes)@) + param_pushes(param, value),
{
    let controls: Vec<&'static str> = param.internals();
    let ghost before = push_pairs(pushes@);
    let ghost whole = param_pushes(param, value);
    let mut i: usize = 0;
    assert(push_pairs(pushes@) =~= before + whole.take(0));
    while i < controls.len()
        invariant
            i <= controls@.len(),
            strs(controls@) == param.controls(),
            whole == param_pushes(param, value),
            push_pairs(pushes@) == before + whole.take(i as int),
        decreases controls@.len() - i,
    {
        let ghost earlier = pushes@;
        let internal: &'static str = controls[i];
        pushes.push(ControlPush { internal, value });
        assert(push_pairs(pushes@) =~= push_pairs(earlier).push((internal@, value)));
        assert(whole.take(i + 1) =~= whole.take(i as int).push(whole[i as int]));
        assert(whole[i as int] == (internal@, value)) by {
            assert(strs(controls@)[i as int] == internal@);
        }
        i = i + 1;
    }
    assert(whole.take(i as int) =~= whole);
}

/// The pushes that bring the filter chain in line with the parameter values.
pub fn push_cache_to_pipewire(cache: &StrMap<u64>) -> (pushes: Vec<ControlPush>)
    ensures
        push_pairs(pushes@) == cache_pushes(cache@),
{
    let mut pushes: Vec<ControlPush> = Vec::new();
    let mut i: usize = 0;
    assert(push_pairs(pushes@) =~= Seq::empty());
    while i < PARAM_COUNT
        invariant
            i <= PARAM_COUNT,
            push_pairs(pushes@) == pushes_up_to(cache@, i as int),
        decreases PARAM_COUNT - i,
    {
        let param: Param = Param::at(i);
        if let Some(value) = cache.get(param.name()) {
            push_param(&mut pushes, param, *value);
        }
        i = i + 1;
    }
    pushes
}

proof fn lemma_pushes_grow(cache: Map<Seq<char>, u64>, m: int, n: int, k: int)
    requires
        0 <= m <= n,
        0 <= k < pushes_up_to(cache, m).len(),
    ensures
        k < pushes_up_to(cache, n).len(),
        pushes_up_to(cache, n)[k] == pushes_up_to(cache, m)[k],
    decreases n,
{
    if m < n {
        lemma_pushes_grow(cache, m, n - 1, k);
    }
}

/// Every control behind a parameter is given the value of the parameter.
pub proof fn law_every_control_pushed(cache: Map<Seq<char>, u64>, param: Param, i: int)
    requires
        cache.dom().contains(param.public_name()),
        0 <= i < param.controls().len(),
    ensures
        cache_pushes(cache).contains((param.controls()[i], cache[param.public_name()])),
{
    let at = law_all_listed(param);
    let before = pushes_up_to(cache, at);
    let with = pushes_up_to(cache, at + 1);
    let k = before.len() + i;
    assert(with[k] == param_pushes(param, cache[param.public_name()])[i]);
    lemma_pushes_grow(cache, at + 1, PARAM_COUNT as int, k);
    assert(cache_pushes(cache)[k] == (param.controls()[i], cache[param.public_name()]));
}

/// The push gives a control of the parameter the parameter's value.
pub open spec fn carries(cache: Map<Seq<char>, u64>, push: (Seq<char>, u64), param: Param) -> bool {
    &&& cache.dom().contains(param.public_name())
    &&& param.controls().contains(push.0)
    &&& push.1 == cache[param.public_name()]
}

/// Nothing else is pushed than the values of parameters to their controls.
pub proof fn law_only_values_pushed(cache: Map<Seq<char>, u64>, n: int, k: int) -> (param: Param)
    requires
        0 <= n <= PARAM_COUNT,
        0 <= k < pushes_up_to(cache, n).len(),
    ensures
        carries(cache, pushes_up_to(cache, n)[k], param),
    decreases n,
{
    let before = pushes_up_to(cache, n - 1);
    if k < before.len() {
        law_only_values_pushed(cache, n - 1, k)
    } else {
        let param = Param::all()[n - 1];
        let i = k - before.len();
        assert(pushes_up_to(cache, n)[k] == param_pushes(param, cache[param.public_name()])[i]);
        assert(param.controls()[i] == pushes_up_to(cache, n)[k].0);
        param
    }
}

/// The contents of pushes, one by one.
pub proof fn law_push_contents(pushes: Seq<ControlPush>, i: int)
    requires
        0 <= i < pushes.len(),
    ensures
        push_pairs(pushes).len() == pushes.len(),
        push_pairs(pushes)[i] == (pushes[i].internal@, pushes[i].value),
{
}

/// A parameter's value goes to each of its controls, once, in their order.
pub proof fn law_param_pushes(param: Param, value: u64, i: int)
    requires
        0 <= i < param.controls().len(),
    ensures
        param_pushes(param, value).len() == param.controls().len(),
        param_pushes(param, value)[i] == (param.controls()[i], value),
{
}

/// The parameters are pushed in the order in which they are listed, each once; a
/// parameter without a value is passed over.
pub proof fn law_push_order(cache: Map<Seq<char>, u64>, i: int)
    requires
        0 <= i < 17,
    ensures
        pushes_up_to(cache, 0).len() == 0,
        pushes_up_to(cache, i + 1) == pushes_up_to(cache, i) + (if cache.dom().contains(
            Param::all()[i].public_name(),
        ) {
            param_pushes(Param::all()[i], cache[Param::all()[i].public_name()])
        } else {
            Seq::empty()
        }),
        cache_pushes(cache) == pushes_up_to(cache, 17),
{
    assert(pushes_up_to(cache, i) + Seq::empty() =~= pushes_up_to(cache, i));
}

} // verus!
