//! The page elements of one window.

use vstd::prelude::*;

use crate::node::{fresh_node, fresh_nodes, share_node, share_nodes};
use crate::protocol::{ModuleParams, TerminalId};

verus! {

/// References to a window's own element and to those of its terminals.
#[derive(Debug)]
pub struct WindowRef {
    pub module: yew::NodeRef,
    pub inputs: Vec<yew::NodeRef>,
    pub outputs: Vec<yew::NodeRef>,
}

/// Which page elements a `WindowRef` refers to.
#[verifier::ext_equal]
pub struct WindowRefView {
    pub module: yew::NodeRef,
    pub inputs: Seq<yew::NodeRef>,
    pub outputs: Seq<yew::NodeRef>,
}

impl View for WindowRef {
    type V = WindowRefView;

    open spec fn view(&self) -> WindowRefView {
        WindowRefView { module: self.module, inputs: self.inputs@, outputs: self.outputs@ }
    }
}

impl WindowRefView {
    /// All of the references: that to the window, those to its inputs, those to its outputs.
    pub open spec fn all(self) -> Seq<yew::NodeRef> {
        seq![self.module] + self.inputs + self.outputs
    }

    /// Whether no page element can be taken for another: no two references are alike.
    pub open spec fn distinct(self) -> bool {
        self.all().no_duplicates()
    }

    /// Whether no page element can be taken for one of another window: they have no reference in
    /// common.
    pub open spec fn apart(self, other: WindowRefView) -> bool {
        forall|i: int, j: int|
            0 <= i < self.all().len() && 0 <= j < other.all().len() ==> #[trigger] self.all()[i]
                != #[trigger] other.all()[j]
    }

    /// Whether there is one reference for each terminal of such a module.
    pub open spec fn suits(self, module: ModuleParams) -> bool {
        self.inputs.len() == module.input_count() && self.outputs.len() == module.output_count()
    }

    /// The reference to a terminal of the window.
    pub open spec fn node(self, terminal: TerminalId) -> Option<yew::NodeRef> {
        match terminal {
            TerminalId::Input(input) => if input.1 < self.inputs.len() {
                Some(self.inputs[input.1 as int])
            } else {
                None
            },
            TerminalId::Output(output) => if output.1 < self.outputs.len() {
                Some(self.outputs[output.1 as int])
            } else {
                None
            },
        }
    }
}

impl Clone for WindowRef {
    fn clone(&self) -> (copy: Self)
        ensures
            copy@ == self@,
    {
        WindowRef {
            module: share_node(&self.module),
            inputs: share_nodes(&self.inputs),
            outputs: share_nodes(&self.outputs),
        }
    }
}

impl WindowRef {
    /// References for the window of such a module, each of them new. Those of other windows are not
    /// known here: that there is none in common with them is said where a workspace opens a window.
    pub fn for_module(module: &ModuleParams) -> (refs: WindowRef)
        ensures
            refs@.suits(*module),
            refs@.distinct(),
    {
        Self::for_module_besides(module, Vec::new())
    }

    /// References for the window of such a module, each of them new and none held already.
    pub(crate) fn for_module_besides(
        module: &ModuleParams,
        held: Vec<yew::NodeRef>,
    ) -> (refs: WindowRef)
        ensures
            refs@.suits(*module),
            refs@.distinct(),
            forall|i: int|
                0 <= i < refs@.all().len() ==> !held@.contains(#[trigger] refs@.all()[i]),
    {
        let ghost before = held@;
        let mut held = held;
        let own = fresh_node(&held);
        held.push(share_node(&own));
        let ghost with_own = held@;
        let inputs = fresh_nodes(module.input_count(), &mut held);
        let ghost with_inputs = held@;
        let outputs = fresh_nodes(module.output_count(), &mut held);
        proof {
            let all = seq![own] + inputs@ + outputs@;
            assert(before + all =~= held@);
            assert(with_own[before.len() as int] == own);
            assert forall|i: int| 0 <= i < all.len() implies !before.contains(
                #[trigger] all[i],
            ) by {
                if before.contains(all[i]) {
                    let k = choose|k: int| 0 <= k < before.len() && before[k] == all[i];
                    assert(with_own[k] == all[i]);
                    assert(with_inputs[k] == all[i]);
                }
            }
            assert forall|i: int, j: int| 0 <= i < j < all.len() implies all[i] != all[j] by {
                if j >= 1 + inputs@.len() {
                    assert(!with_inputs.contains(outputs@[j - 1 - inputs@.len()]));
                    if i < 1 + inputs@.len() {
                        assert(with_inputs[before.len() + i] == all[i]);
                    }
                } else {
                    assert(!with_own.contains(inputs@[j - 1]));
                }
            }
        }
        WindowRef { module: own, inputs, outputs }
    }

    /// The reference to a terminal of the window.
    pub fn node(&self, terminal: TerminalId) -> (node: Option<&yew::NodeRef>)
        ensures
            match node {
                Some(node) => self@.node(terminal) == Some(*node),
                None => self@.node(terminal) is None,
            },
    {
        match terminal {
            TerminalId::Input(input) => if input.1 < self.inputs.len() {
                Some(&self.inputs[input.1])
            } else {
                None
            },
            TerminalId::Output(output) => if output.1 < self.outputs.len() {
                Some(&self.outputs[output.1])
            } else {
                None
            },
        }
    }
}

/// New references for a window are one for itself and one for each terminal of such a module, no
/// two of them alike.
pub proof fn law_new_references_suit_the_module(
    module: ModuleParams,
    refs: WindowRef,
    inputs: usize,
    outputs: usize,
)
    requires
        call_ensures(WindowRef::for_module, (&module,), refs),
        call_ensures(ModuleParams::input_count, (&module,), inputs),
        call_ensures(ModuleParams::output_count, (&module,), outputs),
    ensures
        refs.inputs@.len() == inputs,
        refs.outputs@.len() == outputs,
        refs.inputs@.no_duplicates(),
        refs.outputs@.no_duplicates(),
        !refs.inputs@.contains(refs.module),
        !refs.outputs@.contains(refs.module),
        forall|i: int, j: int|
            0 <= i < refs.inputs@.len() && 0 <= j < refs.outputs@.len() ==> #[trigger]
            refs.inputs@[i] != #[trigger] refs.outputs@[j],
{
    lemma_distinct_parts(refs@);
}

/// References that are all different are so within each side, across the sides, and from that of
/// the window.
pub(crate) proof fn lemma_distinct_parts(refs: WindowRefView)
    requires
        refs.distinct(),
    ensures
        refs.inputs.no_duplicates(),
        refs.outputs.no_duplicates(),
        !refs.inputs.contains(refs.module),
        !refs.outputs.contains(refs.module),
        forall|i: int, j: int|
            0 <= i < refs.inputs.len() && 0 <= j < refs.outputs.len() ==> #[trigger] refs.inputs[i]
                != #[trigger] refs.outputs[j],
{
    let all = refs.all();
    let n = refs.inputs.len();
    assert(all[0] == refs.module);
    assert forall|i: int| 0 <= i < n implies #[trigger] refs.inputs[i] == all[1 + i] by {}
    assert forall|j: int| 0 <= j < refs.outputs.len() implies #[trigger] refs.outputs[j] == all[1
        + n + j] by {}
    assert forall|i: int, j: int|
        0 <= i < n && 0 <= j < n && i != j implies refs.inputs[i] != refs.inputs[j] by {
        assert(all[1 + i] != all[1 + j]);
    }
    assert forall|i: int, j: int|
        0 <= i < refs.outputs.len() && 0 <= j < refs.outputs.len() && i != j implies refs.outputs[i]
        != refs.outputs[j] by {
        assert(all[1 + n + i] != all[1 + n + j]);
    }
    assert forall|i: int, j: int| 0 <= i < n && 0 <= j < refs.outputs.len() implies #[trigger]
    refs.inputs[i] != #[trigger] refs.outputs[j] by {
        assert(all[1 + i] != all[1 + n + j]);
    }
    if refs.inputs.contains(refs.module) {
        let i = choose|i: int| 0 <= i < n && refs.inputs[i] == refs.module;
        assert(all[1 + i] != all[0]);
    }
    if refs.outputs.contains(refs.module) {
        let j = choose|j: int| 0 <= j < refs.outputs.len() && refs.outputs[j] == refs.module;
        assert(all[1 + n + j] != all[0]);
    }
}

/// A terminal is found by its index among those of its side, whatever module it says it is of.
pub proof fn law_terminals_are_found_by_index(
    refs: WindowRef,
    terminal: TerminalId,
    node: Option<&yew::NodeRef>,
)
    requires
        call_ensures(WindowRef::node, (&refs, terminal), node),
    ensures
        match terminal {
            TerminalId::Input(input) => {
                &&& node is Some <==> input.1 < refs.inputs@.len()
                &&& node is Some ==> *node.unwrap() == refs.inputs@[input.1 as int]
            },
            TerminalId::Output(output) => {
                &&& node is Some <==> output.1 < refs.outputs@.len()
                &&& node is Some ==> *node.unwrap() == refs.outputs@[output.1 as int]
            },
        },
{
}

/// A copy of a window's references refers to the same elements.
pub proof fn law_copied_references(refs: WindowRef, copy: WindowRef)
    requires
        call_ensures(WindowRef::clone, (&refs,), copy),
    ensures
        copy.module == refs.module,
        copy.inputs@ == refs.inputs@,
        copy.outputs@ == refs.outputs@,
{
}

} // verus!
