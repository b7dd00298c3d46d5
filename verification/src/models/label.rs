use vstd::prelude::*;

verus! {

/// A localization label with its translations: English from `labels.json`,
/// German and Chinese from `global.ini` files.
pub struct GameLabel {
    pub key: String,
    /// Translations keyed by locale, each locale once.
    pub translations: Vec<(String, String)>,
}

} // verus!
