//! The persisted record and the process configuration.

use vstd::prelude::*;

verus! {

/// The mathematical value of an [`Item`]: every text field as a character
/// sequence. An absent optional field stays `None`.
#[verifier::ext_equal]
pub struct ItemModel {
    pub owner: Seq<char>,
    pub author: Seq<char>,
    pub title: Seq<char>,
    pub description: Option<Seq<char>>,
    pub date: Option<Seq<char>>,
    pub path: Seq<char>,
}

/// One structured record describing an archived artifact.
///
/// `path` is the artifact's filename, exactly as the name generator produced
/// it; it is never recomputed later.
pub struct Item {
    pub owner: String,
    pub author: String,
    pub title: String,
    pub description: Option<String>,
    pub date: Option<String>,
    pub path: String,
}

impl View for Item {
    type V = ItemModel;

    open spec fn view(&self) -> ItemModel {
        ItemModel {
            owner: self.owner@,
            author: self.author@,
            title: self.title@,
            description: match self.description {
                Some(ref d) => Some(d@),
                None => None,
            },
            date: match self.date {
                Some(ref d) => Some(d@),
                None => None,
            },
            path: self.path@,
        }
    }
}

/// The immutable process configuration, loaded once at startup.
pub struct Config {
    pub admins: Vec<i64>,
    pub bot_token: String,
    pub monolith_path: String,
    pub output_path: String,
    pub index_path: String,
}

} // verus!
