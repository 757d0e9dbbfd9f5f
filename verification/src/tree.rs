//! The tree that a fetch flattens.
//!
//! An adapter that lists the same children for the same reference every
//! time describes a tree below each reference. Whatever the order in
//! which the answers of a fetch come in, a fetch that completes gives
//! that tree, depth first.

use crate::thread::Variable;
use crate::variables::{
    child_slot, child_slots, expanded, first_with_token, FetchModel, Slot, ROOT_TOKEN,
};
use vstd::prelude::*;

verus! {

/// The variables `variables` and what lies below them, depth first from
/// `depth` on, as `answers` lists it, to `levels` levels below `depth`.
pub open spec fn forest_entries(
    answers: spec_fn(u64) -> Seq<Variable>,
    variables: Seq<Variable>,
    depth: usize,
    levels: nat,
) -> Seq<(usize, Variable)>
    decreases levels, variables.len(),
{
    if variables.len() == 0 {
        Seq::empty()
    } else {
        let last = variables.last();
        let below = if last.expandable() && levels > 0 {
            forest_entries(
                answers,
                answers(last.variables_reference),
                (depth + 1) as usize,
                (levels - 1) as nat,
            )
        } else {
            Seq::empty()
        };
        forest_entries(answers, variables.drop_last(), depth, levels).push((depth, last)) + below
    }
}

/// Whether nothing lies more than `levels` levels below `variables`.
pub open spec fn within(
    answers: spec_fn(u64) -> Seq<Variable>,
    variables: Seq<Variable>,
    levels: nat,
) -> bool
    decreases levels,
{
    forall|k: int|
        0 <= k < variables.len() && (#[trigger] variables[k]).expandable() ==> levels > 0
            && within(answers, answers(variables[k].variables_reference), (levels - 1) as nat)
}

/// The levels that are left below the depth `depth`, when `levels` are
/// left below `base`.
pub open spec fn levels_at(base: usize, levels: nat, depth: usize) -> nat {
    if base <= depth <= base + levels {
        (base + levels - depth) as nat
    } else {
        0
    }
}

/// What a slot stands for: its variable, and for a slot that is still
/// waiting, all that will come to stand below it.
pub open spec fn slot_expansion(
    answers: spec_fn(u64) -> Seq<Variable>,
    slot: Slot,
    base: usize,
    levels: nat,
) -> Seq<(usize, Variable)> {
    if slot.awaiting {
        seq![slot.entry()] + forest_entries(
            answers,
            answers(slot.variable.variables_reference),
            (slot.depth + 1) as usize,
            (levels_at(base, levels, slot.depth) - 1) as nat,
        )
    } else {
        seq![slot.entry()]
    }
}

/// What the slots of a fetch stand for, one after the other.
pub open spec fn expansion(
    answers: spec_fn(u64) -> Seq<Variable>,
    slots: Seq<Slot>,
    base: usize,
    levels: nat,
) -> Seq<(usize, Variable)>
    decreases slots.len(),
{
    if slots.len() == 0 {
        Seq::empty()
    } else {
        expansion(answers, slots.drop_last(), base, levels) + slot_expansion(
            answers,
            slots.last(),
            base,
            levels,
        )
    }
}

/// Whether what each waiting slot waits for lies within the levels that
/// are left at its depth.
pub open spec fn slots_within(
    answers: spec_fn(u64) -> Seq<Variable>,
    slots: Seq<Slot>,
    base: usize,
    levels: nat,
) -> bool {
    forall|i: int|
        0 <= i < slots.len() ==> {
            let slot = #[trigger] slots[i];
            &&& base <= slot.depth <= base + levels
            &&& slot.awaiting ==> levels_at(base, levels, slot.depth) > 0 && within(
                answers,
                answers(slot.variable.variables_reference),
                (levels_at(base, levels, slot.depth) - 1) as nat,
            )
        }
}

/// Whether a fetch is on its way to the tree that `answers` describes
/// below its reference.
pub open spec fn on_course(
    answers: spec_fn(u64) -> Seq<Variable>,
    model: FetchModel,
    levels: nat,
) -> bool {
    model.failure is None ==> {
        &&& within(answers, answers(model.reference), levels)
        &&& model.root_awaiting ==> model.slots.len() == 0
        &&& !model.root_awaiting ==> slots_within(answers, model.slots, model.depth, levels)
            && expansion(answers, model.slots, model.depth, levels) == forest_entries(
            answers,
            answers(model.reference),
            model.depth,
            levels,
        )
    }
}

/// The reference that the request `token` of a fetch asks about.
pub open spec fn reference_of(model: FetchModel, token: usize) -> u64 {
    if token == ROOT_TOKEN {
        model.reference
    } else {
        model.slots[model.position(token)].variable.variables_reference
    }
}

/// The fetch after the requests `tokens` have been answered, in this
/// order, each with what `answers` lists for its reference.
pub open spec fn delivered(
    answers: spec_fn(u64) -> Seq<Variable>,
    model: FetchModel,
    tokens: Seq<usize>,
) -> FetchModel
    decreases tokens.len(),
{
    if tokens.len() == 0 {
        model
    } else {
        let before = delivered(answers, model, tokens.drop_last());
        before.answered(tokens.last(), answers(reference_of(before, tokens.last())))
    }
}

proof fn lemma_expansion_joined(
    answers: spec_fn(u64) -> Seq<Variable>,
    a: Seq<Slot>,
    b: Seq<Slot>,
    base: usize,
    levels: nat,
)
    ensures
        expansion(answers, a + b, base, levels) == expansion(answers, a, base, levels) + expansion(
            answers,
            b,
            base,
            levels,
        ),
    decreases b.len(),
{
    if b.len() == 0 {
        assert(a + b =~= a);
        assert(expansion(answers, a, base, levels) + Seq::<(usize, Variable)>::empty()
            =~= expansion(answers, a, base, levels));
    } else {
        assert((a + b).drop_last() =~= a + b.drop_last());
        lemma_expansion_joined(answers, a, b.drop_last(), base, levels);
        assert(expansion(answers, a + b, base, levels) =~= expansion(answers, a, base, levels)
            + expansion(answers, b, base, levels));
    }
}

proof fn lemma_expansion_of_one(
    answers: spec_fn(u64) -> Seq<Variable>,
    slot: Slot,
    base: usize,
    levels: nat,
)
    ensures
        expansion(answers, seq![slot], base, levels) == slot_expansion(
            answers,
            slot,
            base,
            levels,
        ),
{
    assert(seq![slot].drop_last() =~= Seq::<Slot>::empty());
    assert(seq![slot].last() == slot);
    assert(expansion(answers, Seq::<Slot>::empty(), base, levels) =~= Seq::empty());
    assert(expansion(answers, seq![slot], base, levels) =~= slot_expansion(
        answers,
        slot,
        base,
        levels,
    ));
}

/// The slots of an answer stand for the variables of the answer and all
/// that lies below them.
proof fn lemma_children_expansion(
    answers: spec_fn(u64) -> Seq<Variable>,
    variables: Seq<Variable>,
    depth: usize,
    count: int,
    base: usize,
    levels: nat,
)
    requires
        base <= depth <= base + levels,
        within(answers, variables, levels_at(base, levels, depth)),
    ensures
        expansion(answers, child_slots(variables, depth, count), base, levels) == forest_entries(
            answers,
            variables,
            depth,
            levels_at(base, levels, depth),
        ),
        slots_within(answers, child_slots(variables, depth, count), base, levels),
    decreases variables.len(),
{
    let slots = child_slots(variables, depth, count);
    let left = levels_at(base, levels, depth);
    if variables.len() == 0 {
    } else {
        let last = variables.last();
        assert(slots.drop_last() =~= child_slots(variables.drop_last(), depth, count));
        assert(within(answers, variables.drop_last(), left)) by {
            assert forall|k: int|
                0 <= k < variables.drop_last().len() && (
                #[trigger] variables.drop_last()[k]).expandable() implies left > 0 && within(
                answers,
                answers(variables.drop_last()[k].variables_reference),
                (left - 1) as nat,
            ) by {
                assert(variables[k].expandable());
            }
        }
        lemma_children_expansion(answers, variables.drop_last(), depth, count, base, levels);
        assert(slots.last() == child_slot(last, depth, count, variables.len() - 1));
        if last.expandable() {
            assert(variables[variables.len() - 1].expandable());
            assert(left > 0);
        }
        assert(expansion(answers, slots, base, levels) =~= forest_entries(
            answers,
            variables,
            depth,
            left,
        ));
        assert forall|i: int| 0 <= i < slots.len() implies {
            let slot = #[trigger] slots[i];
            &&& base <= slot.depth <= base + levels
            &&& slot.awaiting ==> levels_at(base, levels, slot.depth) > 0 && within(
                answers,
                answers(slot.variable.variables_reference),
                (levels_at(base, levels, slot.depth) - 1) as nat,
            )
        } by {
            assert(slots[i] == child_slot(variables[i], depth, count, i));
            if slots[i].awaiting {
                assert(variables[i].expandable());
            }
        }
    }
}

/// A fetch without waiting slots stands for its entries.
proof fn lemma_expansion_when_settled(
    answers: spec_fn(u64) -> Seq<Variable>,
    slots: Seq<Slot>,
    base: usize,
    levels: nat,
)
    requires
        forall|i: int| 0 <= i < slots.len() ==> !slots[i].awaiting,
    ensures
        expansion(answers, slots, base, levels) == slots.map_values(|slot: Slot| slot.entry()),
    decreases slots.len(),
{
    if slots.len() == 0 {
        assert(expansion(answers, slots, base, levels) =~= slots.map_values(
            |slot: Slot| slot.entry(),
        ));
    } else {
        lemma_expansion_when_settled(answers, slots.drop_last(), base, levels);
        assert(!slots[slots.len() - 1].awaiting);
        assert(expansion(answers, slots, base, levels) =~= slots.map_values(
            |slot: Slot| slot.entry(),
        ));
    }
}

/// An answer that is what `answers` lists keeps a fetch on its course.
pub proof fn lemma_answer_keeps_course(
    answers: spec_fn(u64) -> Seq<Variable>,
    model: FetchModel,
    token: usize,
    levels: nat,
)
    requires
        on_course(answers, model, levels),
    ensures
        on_course(
            answers,
            model.answered(token, answers(reference_of(model, token))),
            levels,
        ),
{
    let variables = answers(reference_of(model, token));
    let after = model.answered(token, variables);
    if model.failure is Some || !model.expects(token) || !model.fits(token, variables.len()) {
    } else if token == ROOT_TOKEN {
        assert(levels_at(model.depth, levels, model.depth) == levels);
        lemma_children_expansion(answers, variables, model.depth, 0, model.depth, levels);
    } else {
        let slots = model.slots;
        let at = model.position(token);
        let witness = choose|p: int| first_with_token(slots, token, p) && slots[p].awaiting;
        assert(first_with_token(slots, token, at));
        assert(witness == at) by {
            if witness < at {
            } else if at < witness {
            }
        }
        let parent = slots[at];
        let left = levels_at(model.depth, levels, parent.depth);
        assert(left > 0);
        let depth = (parent.depth + 1) as usize;
        let before = slots.subrange(0, at);
        let behind = slots.subrange(at + 1, slots.len() as int);
        let settled = Slot { awaiting: false, ..parent };
        let children = child_slots(variables, depth, slots.len() as int);
        if variables.len() == 0 {
            assert(children =~= Seq::<Slot>::empty());
            assert(expansion(answers, children, model.depth, levels) =~= Seq::empty());
        } else {
            assert(depth == parent.depth + 1);
            assert(levels_at(model.depth, levels, depth) == left - 1);
            lemma_children_expansion(
                answers,
                variables,
                depth,
                slots.len() as int,
                model.depth,
                levels,
            );
        }
        assert(slots =~= before + seq![parent] + behind);
        assert(after.slots =~= before + seq![settled] + children + behind);
        lemma_expansion_joined(answers, before + seq![parent], behind, model.depth, levels);
        lemma_expansion_joined(answers, before, seq![parent], model.depth, levels);
        lemma_expansion_of_one(answers, parent, model.depth, levels);
        lemma_expansion_joined(
            answers,
            before + seq![settled] + children,
            behind,
            model.depth,
            levels,
        );
        lemma_expansion_joined(answers, before + seq![settled], children, model.depth, levels);
        lemma_expansion_joined(answers, before, seq![settled], model.depth, levels);
        lemma_expansion_of_one(answers, settled, model.depth, levels);
        assert(expansion(answers, after.slots, model.depth, levels) =~= expansion(
            answers,
            slots,
            model.depth,
            levels,
        ));
        assert forall|i: int| 0 <= i < after.slots.len() implies {
            let slot = #[trigger] after.slots[i];
            &&& model.depth <= slot.depth <= model.depth + levels
            &&& slot.awaiting ==> levels_at(model.depth, levels, slot.depth) > 0 && within(
                answers,
                answers(slot.variable.variables_reference),
                (levels_at(model.depth, levels, slot.depth) - 1) as nat,
            )
        } by {
            if i < at {
                assert(after.slots[i] == slots[i]);
            } else if i == at {
                assert(after.slots[i] == settled);
                assert(slots[at].depth == settled.depth);
            } else if i < at + 1 + variables.len() {
                assert(after.slots[i] == children[i - at - 1]);
            } else {
                assert(after.slots[i] == slots[i - variables.len()]);
            }
        }
    }
}

/// Answers that are what `answers` lists keep a fetch on its course,
/// whatever their order.
pub proof fn lemma_delivery_keeps_course(
    answers: spec_fn(u64) -> Seq<Variable>,
    model: FetchModel,
    tokens: Seq<usize>,
    levels: nat,
)
    requires
        on_course(answers, model, levels),
    ensures
        on_course(answers, delivered(answers, model, tokens), levels),
    decreases tokens.len(),
{
    if tokens.len() > 0 {
        lemma_delivery_keeps_course(answers, model, tokens.drop_last(), levels);
        lemma_answer_keeps_course(
            answers,
            delivered(answers, model, tokens.drop_last()),
            tokens.last(),
            levels,
        );
    }
}

/// When the adapter lists the same children for the same reference every
/// time, and nothing lies more than `levels` levels below the first
/// answer, then a fetch that is complete holds the tree below its
/// reference, depth first: every variable is followed by all that lies
/// below it and then by its next sibling, siblings in the order of their
/// answer. The order in which the answers came in makes no difference.
pub proof fn lemma_any_order_gives_the_tree(
    answers: spec_fn(u64) -> Seq<Variable>,
    reference: u64,
    depth: usize,
    tokens: Seq<usize>,
    levels: nat,
)
    requires
        within(answers, answers(reference), levels),
        delivered(answers, FetchModel::initial(reference, depth), tokens).complete(),
    ensures
        delivered(answers, FetchModel::initial(reference, depth), tokens).entries()
            == forest_entries(answers, answers(reference), depth, levels),
{
    let start = FetchModel::initial(reference, depth);
    let end = delivered(answers, start, tokens);
    lemma_delivery_keeps_course(answers, start, tokens, levels);
    lemma_delivered_keeps_identity(answers, start, tokens);
    lemma_expansion_when_settled(answers, end.slots, end.depth, levels);
}

/// Answers change neither the reference nor the depth of a fetch.
proof fn lemma_delivered_keeps_identity(
    answers: spec_fn(u64) -> Seq<Variable>,
    model: FetchModel,
    tokens: Seq<usize>,
)
    ensures
        delivered(answers, model, tokens).reference == model.reference,
        delivered(answers, model, tokens).depth == model.depth,
    decreases tokens.len(),
{
    if tokens.len() > 0 {
        lemma_delivered_keeps_identity(answers, model, tokens.drop_last());
    }
}

} // verus!
