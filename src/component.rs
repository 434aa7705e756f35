use vstd::prelude::*;
use crate::types::Address;

verus! {

/// An instance of a blueprint, with its encoded state.
#[derive(Debug, Clone)]
pub struct Component {
    blueprint: Address,
    name: String,
    state: Vec<u8>,
}

impl Component {
    pub closed spec fn blueprint_view(&self) -> (crate::types::AddressKind, Seq<u8>) {
        self.blueprint@
    }

    pub closed spec fn name_view(&self) -> Seq<char> {
        self.name@
    }

    pub closed spec fn state_view(&self) -> Seq<u8> {
        self.state@
    }

    pub fn new(blueprint: Address, name: String, state: Vec<u8>) -> (r: Component)
        ensures
            r.blueprint_view() == blueprint@,
            r.name_view() == name@,
            r.state_view() == state@,
    {
        Component { blueprint, name, state }
    }

    pub fn blueprint(&self) -> (r: Address)
        ensures
            r@ == self.blueprint_view(),
    {
        self.blueprint.duplicate()
    }

    pub fn name(&self) -> (r: &str)
        ensures
            r@ == self.name_view(),
    {
        self.name.as_str()
    }

    pub fn state(&self) -> (r: &[u8])
        ensures
            r@ == self.state_view(),
    {
        self.state.as_slice()
    }

    /// Replaces the state; the blueprint and name are kept.
    pub fn set_state(&mut self, new_state: Vec<u8>)
        ensures
            final(self).state_view() == new_state@,
            final(self).blueprint_view() == old(self).blueprint_view(),
            final(self).name_view() == old(self).name_view(),
    {
        self.state = new_state;
    }
}

} // verus!
