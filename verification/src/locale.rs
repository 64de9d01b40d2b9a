//! Localized labels for the example counts shown inside generated entries.

use vstd::prelude::*;

use crate::jsonout::{spec_dec_nat, usize_string};
use crate::lang::Lang;

verus! {

/// The localized "n examples" label for a target language.
pub open spec fn spec_examples_string(l: Lang, n: nat) -> Seq<char> {
    if l == Lang::Zh || l == Lang::Ja {
        spec_dec_nat(n) + " \u{4f8b}"@
    } else if l == Lang::Fr {
        if n == 1 {
            "1 exemple"@
        } else {
            spec_dec_nat(n) + " exemples"@
        }
    } else if l == Lang::De {
        if n == 1 {
            "1 Beispiel"@
        } else {
            spec_dec_nat(n) + " Beispiele"@
        }
    } else if l == Lang::Es {
        if n == 1 {
            "1 ejemplo"@
        } else {
            spec_dec_nat(n) + " ejemplos"@
        }
    } else if l == Lang::Ru {
        if n == 1 {
            "1 \u{43f}\u{440}\u{438}\u{43c}\u{435}\u{440}"@
        } else {
            spec_dec_nat(n) + " \u{43f}\u{440}\u{438}\u{43c}\u{435}\u{440}\u{44b}"@
        }
    } else {
        if n == 1 {
            "1 example"@
        } else {
            spec_dec_nat(n) + " examples"@
        }
    }
}

/// Render the localized "n examples" label for the target language.
pub fn get_locale_examples_string(target_iso: &Lang, n: usize) -> (r: String)
    ensures
        r@ == spec_examples_string(*target_iso, n as nat),
{
    match target_iso {
        Lang::Zh | Lang::Ja => {
            let mut s = usize_string(n);
            s.append(" \u{4f8b}");
            s
        },
        Lang::Fr => examples_label(n, "1 exemple", " exemples"),
        Lang::De => examples_label(n, "1 Beispiel", " Beispiele"),
        Lang::Es => examples_label(n, "1 ejemplo", " ejemplos"),
        Lang::Ru => examples_label(
            n,
            "1 \u{43f}\u{440}\u{438}\u{43c}\u{435}\u{440}",
            " \u{43f}\u{440}\u{438}\u{43c}\u{435}\u{440}\u{44b}",
        ),
        _ => examples_label(n, "1 example", " examples"),
    }
}

fn examples_label(n: usize, one: &str, many_suffix: &str) -> (r: String)
    ensures
        n == 1 ==> r@ == one@,
        n != 1 ==> r@ == spec_dec_nat(n as nat) + many_suffix@,
{
    if n == 1 {
        one.to_owned()
    } else {
        let mut s = usize_string(n);
        s.append(many_suffix);
        s
    }
}

} // verus!
