//! The node's own record of where the chain stands.
use vstd::prelude::*;
use crate::appstate::{app_state_bytes, parse_app_state, AppState};
use crate::codec::max_field_len;

verus! {

/// Holds the chain state that the consensus host asks for when it syncs
/// with the node: the height of the last committed block and the
/// application hash after it.
#[derive(Debug, Clone, PartialEq, Eq, Default)]
pub struct ChainState {
    /// Last height.
    pub height: i64,
    /// Last accumulated application root hash.
    pub apphash: Vec<u8>,
}

impl ChainState {
    /// The state of a chain before its first block: height zero and no
    /// application hash.
    pub fn genesis() -> (s: Self)
        ensures
            s.height == 0,
            s.apphash@ == Seq::<u8>::empty(),
    {
        ChainState { height: 0, apphash: Vec::new() }
    }

    /// Encode the state for storage: height, then application hash.
    pub fn to_bytes(&self) -> (raw: Vec<u8>)
        requires
            self.apphash@.len() <= max_field_len(),
        ensures
            raw@ == app_state_bytes(self.height, self.apphash@),
    {
        let copy = AppState {
            height: self.height,
            hash: vstd::slice::slice_to_vec(self.apphash.as_slice()),
        };
        copy.to_bytes()
    }

    /// Decode a stored state; nothing where the bytes are no state's
    /// encoding.
    pub fn from_bytes(raw: &[u8]) -> (r: Option<ChainState>)
        ensures
            r.is_some() == parse_app_state(raw@).is_some(),
            r.is_some() ==> (r.unwrap().height, r.unwrap().apphash@) == parse_app_state(
                raw@,
            ).unwrap(),
    {
        match AppState::from_bytes(raw) {
            Some(s) => Some(ChainState { height: s.height, apphash: s.hash }),
            None => None,
        }
    }
}

} // verus!
