//! The agent's configuration: the ordered list of named key pairs.

use vstd::prelude::*;

use crate::key::{KeyPair, KeyPairModel};

verus! {

/// The key pairs the agent holds, in the order they were added.
pub struct Config {
    pub keys: Vec<KeyPair>,
}

impl View for Config {
    type V = Seq<KeyPairModel>;

    open spec fn view(&self) -> Seq<KeyPairModel> {
        self.keys@.map_values(|k: KeyPair| k@)
    }
}

impl Default for Config {
    fn default() -> (r: Config)
        ensures
            r@ == Seq::<KeyPairModel>::empty(),
    {
        let r = Config { keys: Vec::new() };
        assert(r@ =~= Seq::<KeyPairModel>::empty());
        r
    }
}

} // verus!
