//! Localized labels keyed by the edition a record came from.

use vstd::prelude::*;

use crate::jsonout::spec_dec_nat;
use crate::lang::EditionLang;
use crate::locale::{get_locale_examples_string, spec_examples_string};

verus! {

/// Render the localized "n examples" label for an edition.
pub fn localize_examples_string(edition: EditionLang, n: usize) -> (r: String)
    ensures
        r@ == spec_examples_string(crate::lang::spec_edition_lang(edition), n as nat),
{
    let l = edition.lang();
    get_locale_examples_string(&l, n)
}

} // verus!
