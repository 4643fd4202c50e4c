use vstd::prelude::*;

use crate::text::str_equal;

verus! {

/// Languages for which a recognition model can be loaded.
#[derive(PartialEq, Eq, Structural, PartialOrd, Ord, Hash, Clone, Copy, Debug)]
pub enum ModelLanguage {
    ENGLISH,
    TURKISH,
    DUTCH,
}

/// The stored name of a language, as configuration rows and commands write it.
pub open spec fn language_name(l: ModelLanguage) -> Seq<char> {
    match l {
        ModelLanguage::ENGLISH => seq!['e', 'n', 'g', 'l', 'i', 's', 'h'],
        ModelLanguage::TURKISH => seq!['t', 'u', 'r', 'k', 'i', 's', 'h'],
        ModelLanguage::DUTCH => seq!['d', 'u', 't', 'c', 'h'],
    }
}

/// The language whose stored name is `s`, if any.
pub open spec fn parse_language(s: Seq<char>) -> Option<ModelLanguage> {
    if s == language_name(ModelLanguage::ENGLISH) {
        Some(ModelLanguage::ENGLISH)
    } else if s == language_name(ModelLanguage::TURKISH) {
        Some(ModelLanguage::TURKISH)
    } else if s == language_name(ModelLanguage::DUTCH) {
        Some(ModelLanguage::DUTCH)
    } else {
        None
    }
}

impl ModelLanguage {
    /// Reads a language from its stored name (`"english"`, `"turkish"`, `"dutch"`).
    pub fn from_str(s: &str) -> (r: Option<ModelLanguage>)
        ensures
            r == parse_language(s@),
    {
        proof {
            reveal_strlit("english");
            reveal_strlit("turkish");
            reveal_strlit("dutch");
        }
        assert("english"@ =~= language_name(ModelLanguage::ENGLISH));
        assert("turkish"@ =~= language_name(ModelLanguage::TURKISH));
        assert("dutch"@ =~= language_name(ModelLanguage::DUTCH));
        if str_equal(s, "english") {
            Some(ModelLanguage::ENGLISH)
        } else if str_equal(s, "turkish") {
            Some(ModelLanguage::TURKISH)
        } else if str_equal(s, "dutch") {
            Some(ModelLanguage::DUTCH)
        } else {
            None
        }
    }

    /// The stored name of this language.
    pub fn as_str(&self) -> (r: &'static str)
        ensures
            r@ == language_name(*self),
    {
        proof {
            reveal_strlit("english");
            reveal_strlit("turkish");
            reveal_strlit("dutch");
        }
        assert("english"@ =~= language_name(ModelLanguage::ENGLISH));
        assert("turkish"@ =~= language_name(ModelLanguage::TURKISH));
        assert("dutch"@ =~= language_name(ModelLanguage::DUTCH));
        match self {
            ModelLanguage::ENGLISH => "english",
            ModelLanguage::TURKISH => "turkish",
            ModelLanguage::DUTCH => "dutch",
        }
    }
}

} // verus!
