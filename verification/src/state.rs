//! The modules of the mixer and how they are wired, as last heard of.

use std::collections::BTreeMap;
use vstd::prelude::*;

use crate::order::{
    ascending_keys, key_order, keys_in_order, lemma_filter_step, lemma_filtered,
    lemma_take_contains, lists,
};
use crate::protocol::{
    Indication, InputId, ModuleId, ModuleParams, OutputId, WindowGeometry,
};

verus! {

/// The modules, their windows, what they report, and the connections between them.
///
/// Modules are filed under their numbers, connections under the key of the input that they feed:
/// an input has at most one connection, an output any number of them.
#[derive(Debug, PartialEq, Eq)]
pub struct State {
    pub modules: BTreeMap<usize, ModuleParams>,
    pub geometry: BTreeMap<usize, WindowGeometry>,
    pub indications: BTreeMap<usize, Indication>,
    pub connections: BTreeMap<(usize, usize), OutputId>,
}

/// What a `State` holds.
#[verifier::ext_equal]
pub struct StateView {
    pub modules: Map<usize, ModuleParams>,
    pub geometry: Map<usize, WindowGeometry>,
    pub indications: Map<usize, Indication>,
    pub connections: Map<(usize, usize), OutputId>,
}

impl View for State {
    type V = StateView;

    open spec fn view(&self) -> StateView {
        StateView {
            modules: self.modules@,
            geometry: self.geometry@,
            indications: self.indications@,
            connections: self.connections@,
        }
    }
}

/// Whether a connection comes from the given output.
pub open spec fn comes_from(
    connections: Map<(usize, usize), OutputId>,
    output: OutputId,
) -> spec_fn((usize, usize)) -> bool {
    |key: (usize, usize)| connections[key] == output
}

/// Whether a connection leads to or from the given module.
pub open spec fn touches(
    connections: Map<(usize, usize), OutputId>,
    module: ModuleId,
) -> spec_fn((usize, usize)) -> bool {
    |key: (usize, usize)| key.0 == module.0 || connections[key].module_id() == module
}

/// The connections but for those that `gone` picks.
pub open spec fn without(
    connections: Map<(usize, usize), OutputId>,
    gone: spec_fn((usize, usize)) -> bool,
) -> Map<(usize, usize), OutputId> {
    connections.remove_keys(connections.dom().filter(gone))
}

/// The input that is filed under a key.
pub open spec fn input_of_key(key: (usize, usize)) -> InputId {
    InputId(ModuleId(key.0), key.1)
}

impl StateView {
    /// The inputs that an output feeds, in ascending order.
    pub open spec fn fed_by(self, output: OutputId) -> Seq<InputId> {
        ascending_keys(self.connections.dom()).filter(
            comes_from(self.connections, output),
        ).map_values(|key: (usize, usize)| input_of_key(key))
    }

    /// The state with everything that belongs to a module taken out, its reports apart.
    pub open spec fn without_module(self, module: ModuleId) -> StateView {
        StateView {
            modules: self.modules.remove(module.0),
            geometry: self.geometry.remove(module.0),
            connections: without(self.connections, touches(self.connections, module)),
            ..self
        }
    }
}

/// Takes connections out.
fn take_out(connections: &mut BTreeMap<(usize, usize), OutputId>, keys: &Vec<(usize, usize)>)
    ensures
        final(connections)@ == old(connections)@.remove_keys(keys@.to_set()),
{
    let ghost before = connections@;
    let mut i: usize = 0;
    while i < keys.len()
        invariant
            i <= keys@.len(),
            connections@ == before.remove_keys(keys@.take(i as int).to_set()),
        decreases keys@.len() - i,
    {
        connections.remove(&keys[i]);
        proof {
            lemma_take_contains(keys@, i as int);
            assert(keys@.take(i + 1).to_set() =~= keys@.take(i as int).to_set().insert(
                keys@[i as int],
            ));
        }
        i += 1;
    }
    assert(keys@.take(keys@.len() as int) =~= keys@);
}

/// Taking out those of all keys that `gone` picks leaves the others.
proof fn lemma_picked_are_gone(
    connections: Map<(usize, usize), OutputId>,
    keys: Seq<(usize, usize)>,
    gone: spec_fn((usize, usize)) -> bool,
)
    requires
        lists(keys, connections.dom(), key_order()),
    ensures
        connections.remove_keys(keys.filter(gone).to_set()) == without(connections, gone),
{
    lemma_filtered(keys, gone);
    assert(keys.filter(gone).to_set() =~= connections.dom().filter(gone)) by {
        assert forall|k: (usize, usize)| #[trigger]
            keys.filter(gone).to_set().contains(k) <==> connections.dom().filter(gone).contains(
                k,
            ) by {
            assert(keys.filter(gone).contains(k) <==> keys.contains(k) && gone(k));
            assert(connections.dom().contains(k) <==> keys.contains(k));
        }
    }
}

impl State {
    /// A state without any module.
    pub fn new() -> (state: State)
        ensures
            state@ == (StateView {
                modules: Map::empty(),
                geometry: Map::empty(),
                indications: Map::empty(),
                connections: Map::empty(),
            }),
    {
        State {
            modules: BTreeMap::new(),
            geometry: BTreeMap::new(),
            indications: BTreeMap::new(),
            connections: BTreeMap::new(),
        }
    }

    /// Takes out every connection that comes from the output, and hands back their inputs.
    pub fn disconnect_output(&mut self, output: OutputId) -> (inputs: Vec<InputId>)
        ensures
            inputs@ == old(self)@.fed_by(output),
            final(self)@ == (StateView {
                connections: without(
                    old(self)@.connections,
                    comes_from(old(self)@.connections, output),
                ),
                ..old(self)@
            }),
    {
        let ghost gone = comes_from(self.connections@, output);
        let keys = keys_in_order(&self.connections);
        let mut picked: Vec<(usize, usize)> = Vec::new();
        let mut inputs: Vec<InputId> = Vec::new();
        let mut i: usize = 0;
        while i < keys.len()
            invariant
                i <= keys@.len(),
                gone == comes_from(self.connections@, output),
                lists(keys@, self.connections@.dom(), key_order()),
                picked@ == keys@.take(i as int).filter(gone),
                inputs@ == picked@.map_values(|key: (usize, usize)| input_of_key(key)),
            decreases keys@.len() - i,
        {
            let key = keys[i];
            proof {
                lemma_filter_step(keys@, gone, i as int);
                assert(keys@.contains(key));
                assert(self.connections@.dom().contains(key));
            }
            if let Some(source) = self.connections.get(&key) {
                if *source == output {
                    picked.push(key);
                    inputs.push(InputId(ModuleId(key.0), key.1));
                }
            }
            i += 1;
        }
        proof {
            assert(keys@.take(keys@.len() as int) =~= keys@);
            lemma_picked_are_gone(self.connections@, keys@, gone);
        }
        take_out(&mut self.connections, &picked);
        inputs
    }

    /// Takes out a module, its window and every connection to or from it.
    pub fn delete_module(&mut self, module: ModuleId)
        ensures
            final(self)@ == old(self)@.without_module(module),
    {
        let ghost gone = touches(self.connections@, module);
        let keys = keys_in_order(&self.connections);
        let mut picked: Vec<(usize, usize)> = Vec::new();
        let mut i: usize = 0;
        while i < keys.len()
            invariant
                i <= keys@.len(),
                gone == touches(self.connections@, module),
                lists(keys@, self.connections@.dom(), key_order()),
                picked@ == keys@.take(i as int).filter(gone),
            decreases keys@.len() - i,
        {
            let key = keys[i];
            proof {
                lemma_filter_step(keys@, gone, i as int);
                assert(keys@.contains(key));
                assert(self.connections@.dom().contains(key));
            }
            if let Some(source) = self.connections.get(&key) {
                if key.0 == module.0 || source.module_id() == module {
                    picked.push(key);
                }
            }
            i += 1;
        }
        proof {
            assert(keys@.take(keys@.len() as int) =~= keys@);
            lemma_picked_are_gone(self.connections@, keys@, gone);
        }
        self.modules.remove(&module.0);
        self.geometry.remove(&module.0);
        take_out(&mut self.connections, &picked);
    }
}

} // verus!
