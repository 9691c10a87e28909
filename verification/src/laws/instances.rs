//! Laws of `@impl`: which instances of a template are rendered, and in
//! which order.

use crate::ast::{ImplRange, TemplateView};
use crate::compile::module::{
    agree_before, expand_slots, expand_values, lemma_expand_values_frame, slots_text,
    slots_values, values_text, values_values,
};
use crate::compile::object::{compile_object, Binding, Scope};
use crate::error::CompileFailureView;
use vstd::prelude::*;

verus! {

/// The value lists of the instances that the ranges `ranges[slot..]` give,
/// in the order in which they are rendered; the slots before `slot` keep the
/// values that `values` gives them.
pub open spec fn instances(ranges: Seq<ImplRange>, slot: int, values: Seq<usize>) -> Seq<
    Seq<usize>,
>
    decreases ranges.len() - slot, 1nat, 0nat,
{
    if slot < 0 || slot >= ranges.len() {
        seq![values]
    } else if ranges[slot].first > ranges[slot].last {
        Seq::empty()
    } else {
        instances_of_values(ranges, slot, ranges[slot].first as int, values)
    }
}

/// `instances` for the values `value..=ranges[slot].last` of the slot `slot`.
pub open spec fn instances_of_values(
    ranges: Seq<ImplRange>,
    slot: int,
    value: int,
    values: Seq<usize>,
) -> Seq<Seq<usize>>
    decreases ranges.len() - slot, 0nat, ranges[slot].last - value + 1,
{
    if slot < 0 || slot >= ranges.len() || value < 0 || value > ranges[slot].last {
        Seq::empty()
    } else {
        instances(ranges, slot + 1, values.update(slot, value as usize)) + instances_of_values(
            ranges,
            slot,
            value + 1,
            values,
        )
    }
}

/// The text `acc` after the instances of `template` with the value lists
/// `tuples` have been rendered onto it, one after the other.
pub open spec fn render_all(
    scope: Scope,
    template: TemplateView,
    decorated: bool,
    tuples: Seq<Seq<usize>>,
    acc: Seq<char>,
    depth: nat,
) -> Result<Seq<char>, CompileFailureView>
    decreases tuples.len(),
{
    if tuples.len() == 0 {
        Ok(acc)
    } else {
        match compile_object(
            scope,
            template.obj,
            decorated,
            Some(Binding { values: tuples[0], params: template.params }),
            depth,
        ) {
            Err(failure) => Err(failure),
            Ok(text) => render_all(
                scope,
                template,
                decorated,
                tuples.drop_first(),
                acc + text,
                depth,
            ),
        }
    }
}

/// Rendering two lists of instances one after the other is rendering the
/// first and then, where that did not fail, the second.
proof fn lemma_render_all_concat(
    scope: Scope,
    template: TemplateView,
    decorated: bool,
    first: Seq<Seq<usize>>,
    second: Seq<Seq<usize>>,
    acc: Seq<char>,
    depth: nat,
)
    ensures
        render_all(scope, template, decorated, first + second, acc, depth) == match render_all(
            scope,
            template,
            decorated,
            first,
            acc,
            depth,
        ) {
            Err(failure) => Err(failure),
            Ok(text) => render_all(scope, template, decorated, second, text, depth),
        },
    decreases first.len(),
{
    if first.len() == 0 {
        assert(first + second =~= second);
    } else {
        let all = first + second;
        assert(all[0] == first[0]);
        assert(all.drop_first() =~= first.drop_first() + second);
        match compile_object(
            scope,
            template.obj,
            decorated,
            Some(Binding { values: first[0], params: template.params }),
            depth,
        ) {
            Err(_) => {},
            Ok(text) => {
                lemma_render_all_concat(
                    scope,
                    template,
                    decorated,
                    first.drop_first(),
                    second,
                    acc + text,
                    depth,
                );
            },
        }
    }
}

/// `@impl` renders the instances of `instances`, in that order.
pub proof fn law_impl_renders_instances(
    scope: Scope,
    template: TemplateView,
    decorated: bool,
    ranges: Seq<ImplRange>,
    slot: int,
    values: Seq<usize>,
    acc: Seq<char>,
    depth: nat,
)
    requires
        0 <= slot <= ranges.len(),
    ensures
        expand_slots(scope, template, decorated, ranges, slot, values, acc, depth) == render_all(
            scope,
            template,
            decorated,
            instances(ranges, slot, values),
            acc,
            depth,
        ),
    decreases ranges.len() - slot, 1nat, 0nat,
{
    if slot >= ranges.len() {
        let tuples = seq![values];
        assert(tuples.drop_first() =~= Seq::<Seq<usize>>::empty());
        assert(tuples[0] == values);
        match compile_object(
            scope,
            template.obj,
            decorated,
            Some(Binding { values, params: template.params }),
            depth,
        ) {
            Err(_) => {},
            Ok(text) => {
                assert(render_all(scope, template, decorated, Seq::empty(), acc + text, depth)
                    == Ok::<Seq<char>, CompileFailureView>(acc + text));
            },
        }
    } else if ranges[slot].first > ranges[slot].last {
        assert(render_all(scope, template, decorated, Seq::empty(), acc, depth) == Ok::<
            Seq<char>,
            CompileFailureView,
        >(acc));
    } else {
        lemma_values_render_instances(
            scope,
            template,
            decorated,
            ranges,
            slot,
            ranges[slot].first as int,
            values,
            acc,
            depth,
        );
    }
}

/// `law_impl_renders_instances` for the values of one slot.
proof fn lemma_values_render_instances(
    scope: Scope,
    template: TemplateView,
    decorated: bool,
    ranges: Seq<ImplRange>,
    slot: int,
    value: int,
    values: Seq<usize>,
    acc: Seq<char>,
    depth: nat,
)
    requires
        0 <= slot < ranges.len(),
    ensures
        expand_values(scope, template, decorated, ranges, slot, value, values, acc, depth)
            == render_all(
            scope,
            template,
            decorated,
            instances_of_values(ranges, slot, value, values),
            acc,
            depth,
        ),
    decreases ranges.len() - slot, 0nat, ranges[slot].last - value + 1,
{
    if value < 0 || value > ranges[slot].last {
    } else {
        let inner = values.update(slot, value as usize);
        let first = instances(ranges, slot + 1, inner);
        let second = instances_of_values(ranges, slot, value + 1, values);
        law_impl_renders_instances(scope, template, decorated, ranges, slot + 1, inner, acc, depth);
        lemma_render_all_concat(scope, template, decorated, first, second, acc, depth);
        match expand_slots(scope, template, decorated, ranges, slot + 1, inner, acc, depth) {
            Err(_) => {},
            Ok(text) => {
                lemma_values_render_instances(
                    scope,
                    template,
                    decorated,
                    ranges,
                    slot,
                    value + 1,
                    values,
                    text,
                    depth,
                );
            },
        }
    }
}

/// The text `acc` followed by the instances with the value lists `tuples`,
/// one after the other, up to the first one that fails.
pub open spec fn render_reach(
    scope: Scope,
    template: TemplateView,
    decorated: bool,
    tuples: Seq<Seq<usize>>,
    acc: Seq<char>,
    depth: nat,
) -> Seq<char>
    decreases tuples.len(),
{
    if tuples.len() == 0 {
        acc
    } else {
        match compile_object(
            scope,
            template.obj,
            decorated,
            Some(Binding { values: tuples[0], params: template.params }),
            depth,
        ) {
            Err(_) => acc,
            Ok(text) => render_reach(
                scope,
                template,
                decorated,
                tuples.drop_first(),
                acc + text,
                depth,
            ),
        }
    }
}

/// Two lists of instances one after the other reach what the first reaches
/// where it fails, and else what the second reaches after it.
proof fn lemma_render_reach_concat(
    scope: Scope,
    template: TemplateView,
    decorated: bool,
    first: Seq<Seq<usize>>,
    second: Seq<Seq<usize>>,
    acc: Seq<char>,
    depth: nat,
)
    ensures
        render_reach(scope, template, decorated, first + second, acc, depth) == match render_all(
            scope,
            template,
            decorated,
            first,
            acc,
            depth,
        ) {
            Err(_) => render_reach(scope, template, decorated, first, acc, depth),
            Ok(text) => render_reach(scope, template, decorated, second, text, depth),
        },
    decreases first.len(),
{
    if first.len() == 0 {
        assert(first + second =~= second);
    } else {
        let all = first + second;
        assert(all[0] == first[0]);
        assert(all.drop_first() =~= first.drop_first() + second);
        match compile_object(
            scope,
            template.obj,
            decorated,
            Some(Binding { values: first[0], params: template.params }),
            depth,
        ) {
            Err(_) => {},
            Ok(text) => {
                lemma_render_reach_concat(
                    scope,
                    template,
                    decorated,
                    first.drop_first(),
                    second,
                    acc + text,
                    depth,
                );
            },
        }
    }
}

/// Where `@impl` fails, the text holds what it held before and the instances
/// that come before the failing one, in their order; where it does not fail,
/// all instances.
pub proof fn law_failed_impl_keeps_earlier_instances(
    scope: Scope,
    template: TemplateView,
    decorated: bool,
    ranges: Seq<ImplRange>,
    slot: int,
    values: Seq<usize>,
    acc: Seq<char>,
    depth: nat,
)
    requires
        0 <= slot <= ranges.len(),
    ensures
        slots_text(scope, template, decorated, ranges, slot, values, acc, depth) == render_reach(
            scope,
            template,
            decorated,
            instances(ranges, slot, values),
            acc,
            depth,
        ),
    decreases ranges.len() - slot, 1nat, 0nat,
{
    if slot >= ranges.len() {
        let tuples = seq![values];
        assert(tuples.drop_first() =~= Seq::<Seq<usize>>::empty());
        assert(tuples[0] == values);
        match compile_object(
            scope,
            template.obj,
            decorated,
            Some(Binding { values, params: template.params }),
            depth,
        ) {
            Err(_) => {},
            Ok(text) => {
                assert(render_reach(scope, template, decorated, Seq::empty(), acc + text, depth)
                    == acc + text);
            },
        }
    } else if ranges[slot].first > ranges[slot].last {
        assert(render_reach(scope, template, decorated, Seq::empty(), acc, depth) == acc);
    } else {
        lemma_values_reach(
            scope,
            template,
            decorated,
            ranges,
            slot,
            ranges[slot].first as int,
            values,
            acc,
            depth,
        );
    }
}

/// `law_failed_impl_keeps_earlier_instances` for the values of one slot.
proof fn lemma_values_reach(
    scope: Scope,
    template: TemplateView,
    decorated: bool,
    ranges: Seq<ImplRange>,
    slot: int,
    value: int,
    values: Seq<usize>,
    acc: Seq<char>,
    depth: nat,
)
    requires
        0 <= slot < ranges.len(),
    ensures
        values_text(scope, template, decorated, ranges, slot, value, values, acc, depth)
            == render_reach(
            scope,
            template,
            decorated,
            instances_of_values(ranges, slot, value, values),
            acc,
            depth,
        ),
    decreases ranges.len() - slot, 0nat, ranges[slot].last - value + 1,
{
    if value < 0 || value > ranges[slot].last {
    } else {
        let inner = values.update(slot, value as usize);
        let first = instances(ranges, slot + 1, inner);
        let second = instances_of_values(ranges, slot, value + 1, values);
        law_impl_renders_instances(scope, template, decorated, ranges, slot + 1, inner, acc, depth);
        law_failed_impl_keeps_earlier_instances(
            scope,
            template,
            decorated,
            ranges,
            slot + 1,
            inner,
            acc,
            depth,
        );
        lemma_render_reach_concat(scope, template, decorated, first, second, acc, depth);
        match expand_slots(scope, template, decorated, ranges, slot + 1, inner, acc, depth) {
            Err(_) => {},
            Ok(text) => {
                lemma_values_reach(
                    scope,
                    template,
                    decorated,
                    ranges,
                    slot,
                    value + 1,
                    values,
                    text,
                    depth,
                );
            },
        }
    }
}

/// Where every instance of a template fails in the same way and no range is
/// empty, `@impl` fails in that way at the first instance, and the text
/// stays as it was.
pub proof fn law_failing_template_fails_at_once(
    scope: Scope,
    template: TemplateView,
    decorated: bool,
    ranges: Seq<ImplRange>,
    slot: int,
    values: Seq<usize>,
    acc: Seq<char>,
    depth: nat,
    failure: CompileFailureView,
)
    requires
        0 <= slot <= ranges.len(),
        forall|k: int| slot <= k < ranges.len() ==> (#[trigger] ranges[k]).first <= ranges[k].last,
        forall|bound: Seq<usize>|
            #[trigger] compile_object(
                scope,
                template.obj,
                decorated,
                Some(Binding { values: bound, params: template.params }),
                depth,
            ) == Err::<Seq<char>, CompileFailureView>(failure),
    ensures
        expand_slots(scope, template, decorated, ranges, slot, values, acc, depth) == Err::<
            Seq<char>,
            CompileFailureView,
        >(failure),
        slots_text(scope, template, decorated, ranges, slot, values, acc, depth) == acc,
    decreases ranges.len() - slot,
{
    if slot < ranges.len() {
        let first = ranges[slot].first;
        let inner = values.update(slot, first);
        law_failing_template_fails_at_once(
            scope,
            template,
            decorated,
            ranges,
            slot + 1,
            inner,
            acc,
            depth,
            failure,
        );
        assert(expand_values(
            scope,
            template,
            decorated,
            ranges,
            slot,
            first as int,
            values,
            acc,
            depth,
        ) == Err::<Seq<char>, CompileFailureView>(failure));
        assert(values_text(scope, template, decorated, ranges, slot, first as int, values, acc, depth)
            == acc);
    }
}

/// The value lists `a` and `b` agree before the slot `k`, and `a` has the
/// smaller value there.
pub open spec fn differ_at(a: Seq<usize>, b: Seq<usize>, k: int) -> bool {
    &&& 0 <= k < a.len()
    &&& agree_before(a, b, k)
    &&& a[k] < b[k]
}

/// `a` comes before `b` where the leftmost slot decides: at the first slot in
/// which they differ, `a` has the smaller value.  Only slots from `from` on
/// are looked at.
pub open spec fn comes_before(a: Seq<usize>, b: Seq<usize>, from: int) -> bool {
    exists|k: int| from <= k && #[trigger] differ_at(a, b, k)
}

/// The instances in `tuples` keep the values of `values` before `slot`, give
/// the slot `slot` a value of at least `least`, and stand in rising order.
pub open spec fn ordered_from(
    tuples: Seq<Seq<usize>>,
    values: Seq<usize>,
    slot: int,
    least: int,
) -> bool {
    &&& forall|i: int|
        0 <= i < tuples.len() ==> agree_before(values, #[trigger] tuples[i], slot) && (slot
            < values.len() ==> tuples[i][slot] >= least)
    &&& forall|i: int, j: int|
        0 <= i < j < tuples.len() ==> comes_before(#[trigger] tuples[i], #[trigger] tuples[j], slot)
}

/// The instances of the slots from `slot` on stand in rising order.
proof fn lemma_instances_ordered(ranges: Seq<ImplRange>, slot: int, values: Seq<usize>)
    requires
        0 <= slot <= ranges.len(),
        values.len() == ranges.len(),
    ensures
        ordered_from(instances(ranges, slot, values), values, slot, 0),
    decreases ranges.len() - slot, 1nat, 0nat,
{
    if slot >= ranges.len() {
    } else if ranges[slot].first > ranges[slot].last {
    } else {
        lemma_values_ordered(ranges, slot, ranges[slot].first as int, values);
    }
}

/// The instances of the values from `value` on of one slot stand in rising
/// order.
proof fn lemma_values_ordered(ranges: Seq<ImplRange>, slot: int, value: int, values: Seq<usize>)
    requires
        0 <= slot < ranges.len(),
        values.len() == ranges.len(),
        0 <= value,
    ensures
        ordered_from(instances_of_values(ranges, slot, value, values), values, slot, value),
    decreases ranges.len() - slot, 0nat, ranges[slot].last - value + 1,
{
    if value > ranges[slot].last {
    } else {
        let inner = values.update(slot, value as usize);
        let first = instances(ranges, slot + 1, inner);
        let second = instances_of_values(ranges, slot, value + 1, values);
        let all = first + second;
        lemma_instances_ordered(ranges, slot + 1, inner);
        lemma_values_ordered(ranges, slot, value + 1, values);
        assert forall|i: int| 0 <= i < all.len() implies agree_before(values, #[trigger] all[i], slot)
            && all[i][slot] >= value by {
            if i < first.len() {
                assert(all[i] == first[i]);
                assert(agree_before(inner, first[i], slot + 1));
                assert(first[i][slot] == inner[slot]);
            } else {
                assert(all[i] == second[i - first.len()]);
            }
        }
        assert forall|i: int, j: int| 0 <= i < j < all.len() implies comes_before(
            #[trigger] all[i],
            #[trigger] all[j],
            slot,
        ) by {
            if j < first.len() {
                assert(all[i] == first[i]);
                assert(all[j] == first[j]);
                assert(comes_before(first[i], first[j], slot + 1));
                let k = choose|k: int| slot + 1 <= k && #[trigger] differ_at(first[i], first[j], k);
                assert(differ_at(all[i], all[j], k));
            } else if i >= first.len() {
                assert(all[i] == second[i - first.len()]);
                assert(all[j] == second[j - first.len()]);
                assert(comes_before(second[i - first.len()], second[j - first.len()], slot));
            } else {
                assert(all[i] == first[i]);
                assert(all[j] == second[j - first.len()]);
                assert(agree_before(inner, first[i], slot + 1));
                assert(first[i][slot] == inner[slot]);
                assert(agree_before(values, second[j - first.len()], slot));
                assert(second[j - first.len()][slot] >= value + 1);
                assert(differ_at(all[i], all[j], slot));
            }
        }
    }
}

/// The instances of `@impl` are rendered with the leftmost parameter
/// changing slowest: of two instances, the one that has the smaller value in
/// the first slot in which they differ is rendered first.
pub proof fn law_leftmost_slot_is_slowest(
    ranges: Seq<ImplRange>,
    values: Seq<usize>,
    i: int,
    j: int,
)
    requires
        values.len() == ranges.len(),
        0 <= i < j < instances(ranges, 0, values).len(),
    ensures
        comes_before(instances(ranges, 0, values)[i], instances(ranges, 0, values)[j], 0),
{
    lemma_instances_ordered(ranges, 0, values);
}

/// The value list once all instances have been rendered: every slot from
/// `slot` on holds the last value of its range, up to the first range that is
/// empty; the slots from there on, and those before `slot`, are as in
/// `values`.
pub open spec fn settled(ranges: Seq<ImplRange>, slot: int, values: Seq<usize>) -> Seq<usize>
    decreases ranges.len() - slot,
{
    if slot < 0 || slot >= ranges.len() || ranges[slot].first > ranges[slot].last {
        values
    } else {
        settled(ranges, slot + 1, values.update(slot, ranges[slot].last))
    }
}

/// Settling keeps the values before `slot`, and a value that is set before
/// `slot` can as well be set afterwards.
proof fn lemma_settled_update(
    ranges: Seq<ImplRange>,
    slot: int,
    values: Seq<usize>,
    at: int,
    value: usize,
)
    requires
        0 <= at < slot,
        values.len() == ranges.len(),
    ensures
        agree_before(values, settled(ranges, slot, values), slot),
        settled(ranges, slot, values.update(at, value)) == settled(ranges, slot, values).update(
            at,
            value,
        ),
    decreases ranges.len() - slot,
{
    if slot >= ranges.len() || ranges[slot].first > ranges[slot].last {
    } else {
        let last = ranges[slot].last;
        assert(values.update(at, value).update(slot, last) =~= values.update(slot, last).update(
            at,
            value,
        ));
        lemma_settled_update(ranges, slot + 1, values.update(slot, last), at, value);
    }
}

/// Settling twice is settling once.
proof fn lemma_settled_twice(ranges: Seq<ImplRange>, slot: int, values: Seq<usize>)
    requires
        0 <= slot,
        values.len() == ranges.len(),
    ensures
        settled(ranges, slot, settled(ranges, slot, values)) == settled(ranges, slot, values),
    decreases ranges.len() - slot,
{
    if slot >= ranges.len() || ranges[slot].first > ranges[slot].last {
    } else {
        let last = ranges[slot].last;
        let once = settled(ranges, slot + 1, values.update(slot, last));
        lemma_settled_update(ranges, slot + 1, values.update(slot, last), slot, last);
        lemma_settled_twice(ranges, slot + 1, values.update(slot, last));
        // once already holds `last` at `slot`
        assert(values.update(slot, last).update(slot, last) =~= values.update(slot, last));
        assert(once.update(slot, last) == once);
    }
}

/// Where `@impl` does not fail, the value list ends up settled.
pub proof fn law_values_after_impl(
    scope: Scope,
    template: TemplateView,
    decorated: bool,
    ranges: Seq<ImplRange>,
    slot: int,
    values: Seq<usize>,
    acc: Seq<char>,
    depth: nat,
)
    requires
        0 <= slot <= ranges.len(),
        values.len() == ranges.len(),
        expand_slots(scope, template, decorated, ranges, slot, values, acc, depth) is Ok,
    ensures
        slots_values(scope, template, decorated, ranges, slot, values, acc, depth) == settled(
            ranges,
            slot,
            values,
        ),
    decreases ranges.len() - slot, 1nat, 0nat,
{
    if slot >= ranges.len() || ranges[slot].first > ranges[slot].last {
    } else {
        lemma_values_settle(
            scope,
            template,
            decorated,
            ranges,
            slot,
            ranges[slot].first as int,
            values,
            values,
            acc,
            depth,
        );
    }
}

/// `law_values_after_impl` for the values of one slot: `now` is the value
/// list as it stands, which settles as `values` does.
proof fn lemma_values_settle(
    scope: Scope,
    template: TemplateView,
    decorated: bool,
    ranges: Seq<ImplRange>,
    slot: int,
    value: int,
    values: Seq<usize>,
    now: Seq<usize>,
    acc: Seq<char>,
    depth: nat,
)
    requires
        0 <= slot < ranges.len(),
        values.len() == ranges.len(),
        now.len() == ranges.len(),
        ranges[slot].first <= value <= ranges[slot].last + 1,
        ranges[slot].first <= ranges[slot].last,
        settled(ranges, slot + 1, now.update(slot, ranges[slot].last)) == settled(
            ranges,
            slot,
            values,
        ),
        value > ranges[slot].last ==> now == settled(ranges, slot, values),
        expand_values(scope, template, decorated, ranges, slot, value, now, acc, depth) is Ok,
    ensures
        values_values(scope, template, decorated, ranges, slot, value, now, acc, depth) == settled(
            ranges,
            slot,
            values,
        ),
    decreases ranges.len() - slot, 0nat, ranges[slot].last - value + 1,
{
    let last = ranges[slot].last;
    if value > last {
    } else {
        let inner = now.update(slot, value as usize);
        let after = slots_values(scope, template, decorated, ranges, slot + 1, inner, acc, depth);
        match expand_slots(scope, template, decorated, ranges, slot + 1, inner, acc, depth) {
            Err(_) => {},
            Ok(text) => {
                law_values_after_impl(
                    scope,
                    template,
                    decorated,
                    ranges,
                    slot + 1,
                    inner,
                    acc,
                    depth,
                );
                assert(after == settled(ranges, slot + 1, inner));
                lemma_settled_update(ranges, slot + 1, inner, slot, last);
                lemma_settled_twice(ranges, slot + 1, inner);
                lemma_settled_twice(ranges, slot + 1, inner.update(slot, last));
                assert(inner.update(slot, last) =~= now.update(slot, last));
                // after.update(slot, last) settles as now.update(slot, last) does
                assert(settled(ranges, slot + 1, after.update(slot, last)) == settled(
                    ranges,
                    slot,
                    values,
                )) by {
                    lemma_settled_update(ranges, slot + 1, after, slot, last);
                    assert(settled(ranges, slot + 1, after) == after);
                    assert(after.update(slot, last) == settled(
                        ranges,
                        slot + 1,
                        inner.update(slot, last),
                    ));
                }
                if value == last {
                    assert(inner =~= now.update(slot, last));
                }
                assert(agree_before(now, after, slot));
                lemma_expand_values_frame(
                    scope,
                    template,
                    decorated,
                    ranges,
                    slot,
                    value + 1,
                    now,
                    after,
                    text,
                    depth,
                );
                lemma_values_settle(
                    scope,
                    template,
                    decorated,
                    ranges,
                    slot,
                    value + 1,
                    values,
                    after,
                    text,
                    depth,
                );
            },
        }
    }
}

} // verus!
