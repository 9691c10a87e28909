//! Laws of template parameter lists.

use crate::ast::TemplateParameterView;
use crate::compile::module::param_count;
use crate::compile::object::param_slot;
use crate::parse::object::{param_position, template_params};
use vstd::prelude::*;

verus! {

/// The parameter list `params` is the one that the written names `names`
/// make: the first occurrence of a name is a `Param` of that name, and every
/// later occurrence is a `Reference` to the position of the first.
pub open spec fn params_of_names(params: Seq<TemplateParameterView>, names: Seq<Seq<char>>) -> bool {
    &&& params.len() == names.len()
    &&& forall|i: int|
        0 <= i < params.len() ==> match #[trigger] params[i] {
            TemplateParameterView::Param(name) => name == names[i] && forall|k: int|
                0 <= k < i ==> names[k] != name,
            TemplateParameterView::Reference(first) => 0 <= first < i && params[first as int]
                == TemplateParameterView::Param(names[i]),
        }
}

/// The position that is found holds the parameter, and no position before it
/// does.
proof fn lemma_param_position(params: Seq<TemplateParameterView>, name: Seq<char>, from: int)
    requires
        0 <= from,
    ensures
        match param_position(params, name, from) {
            Some(at) => from <= at < params.len() && params[at] == TemplateParameterView::Param(
                name,
            ),
            None => forall|k: int|
                from <= k < params.len() ==> params[k] != TemplateParameterView::Param(name),
        },
    decreases params.len() - from,
{
    if from < params.len() && params[from] != TemplateParameterView::Param(name) {
        lemma_param_position(params, name, from + 1);
    }
}

/// Where a parameter list agrees with the names written so far, a name
/// that is no `Param` of the list has not been written.
proof fn lemma_unseen_name(
    params: Seq<TemplateParameterView>,
    names: Seq<Seq<char>>,
    name: Seq<char>,
)
    requires
        params_of_names(params, names),
        forall|k: int| 0 <= k < params.len() ==> params[k] != TemplateParameterView::Param(name),
    ensures
        forall|k: int| 0 <= k < names.len() ==> names[k] != name,
{
    assert forall|k: int| 0 <= k < names.len() implies names[k] != name by {
        match params[k] {
            TemplateParameterView::Param(n) => {},
            TemplateParameterView::Reference(first) => {
                assert(params[first as int] == TemplateParameterView::Param(names[k]));
            },
        }
    }
}

/// Making the parameter list goes on from a list that agrees with the names
/// read to one that agrees with all names.
proof fn lemma_template_params(
    names: Seq<Seq<char>>,
    from: int,
    acc: Seq<TemplateParameterView>,
)
    requires
        0 <= from <= names.len(),
        names.len() <= usize::MAX,
        params_of_names(acc, names.take(from)),
    ensures
        params_of_names(template_params(names, from, acc), names),
    decreases names.len() - from,
{
    if from >= names.len() {
        assert(names.take(from) =~= names);
    } else {
        let name = names[from];
        lemma_param_position(acc, name, 0);
        let seen = names.take(from);
        let more = names.take(from + 1);
        assert(more =~= seen.push(name));
        let next = match param_position(acc, name, 0) {
            Some(index) => acc.push(TemplateParameterView::Reference(index as usize)),
            None => acc.push(TemplateParameterView::Param(name)),
        };
        if param_position(acc, name, 0) is None {
            lemma_unseen_name(acc, seen, name);
        }
        assert forall|i: int| 0 <= i < next.len() implies match #[trigger] next[i] {
            TemplateParameterView::Param(n) => n == more[i] && forall|k: int|
                0 <= k < i ==> more[k] != n,
            TemplateParameterView::Reference(first) => 0 <= first < i && next[first as int]
                == TemplateParameterView::Param(more[i]),
        } by {
            if i < acc.len() {
                assert(next[i] == acc[i]);
                assert(more[i] == seen[i]);
                match acc[i] {
                    TemplateParameterView::Param(n) => {
                        assert forall|k: int| 0 <= k < i implies more[k] != n by {
                            assert(more[k] == seen[k]);
                        }
                    },
                    TemplateParameterView::Reference(first) => {
                        assert(next[first as int] == acc[first as int]);
                    },
                }
            } else {
                match param_position(acc, name, 0) {
                    Some(index) => {
                        assert(next[index] == acc[index]);
                    },
                    None => {
                        assert forall|k: int| 0 <= k < i implies more[k] != name by {
                            assert(more[k] == seen[k]);
                        }
                    },
                }
            }
        }
        lemma_template_params(names, from + 1, next);
    }
}

/// The parameter list of a template holds a `Param` for the first occurrence
/// of every written name and a `Reference` to it for every repetition, so
/// that all occurrences of a name share one value slot.
pub proof fn law_repeated_names_share_a_slot(names: Seq<Seq<char>>)
    requires
        names.len() <= usize::MAX,
    ensures
        params_of_names(template_params(names, 0, Seq::empty()), names),
{
    assert(names.take(0) =~= Seq::<Seq<char>>::empty());
    lemma_template_params(names, 0, Seq::empty());
}

/// Counting goes on from the number of different names among the first
/// `from` to the number of different names among all.
proof fn lemma_param_count(
    params: Seq<TemplateParameterView>,
    names: Seq<Seq<char>>,
    from: int,
    acc: nat,
)
    requires
        0 <= from <= names.len(),
        params_of_names(params, names),
        acc == names.take(from).to_set().len(),
    ensures
        param_count(params, from, acc) == names.to_set().len(),
    decreases names.len() - from,
{
    if from >= names.len() {
        assert(names.take(from) =~= names);
    } else {
        let seen = names.take(from);
        let name = names[from];
        assert(names.take(from + 1) =~= seen.push(name));
        seen.lemma_push_to_set_commute(name);
        vstd::seq_lib::seq_to_set_is_finite(seen);
        vstd::set::axiom_set_insert_len(seen.to_set(), name);
        match params[from] {
            TemplateParameterView::Param(n) => {
                assert(!seen.to_set().contains(name)) by {
                    if seen.to_set().contains(name) {
                        let k = choose|k: int| 0 <= k < seen.len() && seen[k] == name;
                        assert(names[k] == name);
                    }
                }
                lemma_param_count(params, names, from + 1, acc + 1);
            },
            TemplateParameterView::Reference(first) => {
                assert(seen.to_set().contains(name)) by {
                    assert(params[first as int] == TemplateParameterView::Param(name));
                    assert(0 <= first < from);
                    assert(seen[first as int] == name);
                }
                lemma_param_count(params, names, from + 1, acc);
            },
        }
    }
}

/// A template has as many `Param` entries, and so as many value slots, as
/// there are different names in its written parameter list.
pub proof fn law_param_count_is_number_of_names(names: Seq<Seq<char>>)
    requires
        names.len() <= usize::MAX,
    ensures
        param_count(template_params(names, 0, Seq::empty()), 0, 0) == names.to_set().len(),
{
    law_repeated_names_share_a_slot(names);
    assert(names.take(0) =~= Seq::<Seq<char>>::empty());
    assert(Seq::<Seq<char>>::empty().to_set() =~= Set::<Seq<char>>::empty());
    lemma_param_count(template_params(names, 0, Seq::empty()), names, 0, 0);
}

/// Counting `Param` entries never gives less than what was counted before.
proof fn lemma_param_count_grows(params: Seq<TemplateParameterView>, from: int, acc: nat)
    ensures
        param_count(params, from, acc) >= acc,
    decreases params.len() - from,
{
    if 0 <= from < params.len() {
        match params[from] {
            TemplateParameterView::Param(_) => lemma_param_count_grows(params, from + 1, acc + 1),
            TemplateParameterView::Reference(_) => lemma_param_count_grows(params, from + 1, acc),
        }
    }
}

/// A parameter that stands at or after `from` has a slot, and the slot is
/// one of those that are counted.
proof fn lemma_param_slot_in_count(
    params: Seq<TemplateParameterView>,
    name: Seq<char>,
    from: int,
    slot: nat,
    at: int,
)
    requires
        0 <= from <= at < params.len(),
        params[at] == TemplateParameterView::Param(name),
    ensures
        match param_slot(params, name, from, slot as int) {
            Some(found) => slot <= found < param_count(params, from, slot),
            None => false,
        },
    decreases params.len() - from,
{
    match params[from] {
        TemplateParameterView::Param(param) => {
            if param == name {
                lemma_param_count_grows(params, from + 1, slot + 1);
            } else {
                lemma_param_slot_in_count(params, name, from + 1, slot + 1, at);
            }
        },
        TemplateParameterView::Reference(_) => {
            lemma_param_slot_in_count(params, name, from + 1, slot, at);
        },
    }
}

/// Every name written in the parameter list of a template has a value slot,
/// and the slot is one of those that `@impl` gives a value: where the number
/// of ranges matches, no parameter of the template is without a value.
pub proof fn law_written_names_have_slots(names: Seq<Seq<char>>, i: int)
    requires
        names.len() <= usize::MAX,
        0 <= i < names.len(),
    ensures
        match param_slot(template_params(names, 0, Seq::empty()), names[i], 0, 0) {
            Some(slot) => 0 <= slot < param_count(template_params(names, 0, Seq::empty()), 0, 0),
            None => false,
        },
{
    law_repeated_names_share_a_slot(names);
    let params = template_params(names, 0, Seq::empty());
    match params[i] {
        TemplateParameterView::Param(_) => {
            lemma_param_slot_in_count(params, names[i], 0, 0, i);
        },
        TemplateParameterView::Reference(first) => {
            lemma_param_slot_in_count(params, names[i], 0, 0, first as int);
        },
    }
}

} // verus!
