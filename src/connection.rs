//! Parameters of an incoming connection.
use vstd::prelude::*;
use crate::ids::{id_text, uuid_text};

verus! {

/// The query parameters a player connection may carry.
pub struct ConnectParams {
    pub player_name: Option<String>,
    pub is_gui: Option<bool>,
}

/// The name given to a player that did not choose one.
pub open spec fn default_name(fresh_id: u128) -> Seq<char> {
    "Player_"@ + uuid_text(fresh_id)
}

impl ConnectParams {
    /// The chosen player name, or `Player_` followed by the text of `fresh_id`.
    pub fn player_name_or_default(&self, fresh_id: u128) -> (r: String)
        ensures
            match self.player_name {
                Some(n) => r@ == n@,
                None => r@ == default_name(fresh_id),
            },
    {
        match &self.player_name {
            Some(n) => n.clone(),
            None => {
                let text = id_text(fresh_id);
                String::from_str("Player_").concat(text.as_str())
            },
        }
    }
}

} // verus!
