//! Formulas: finding them on a page, recognising them, and their placeholders.

pub mod detector;
pub mod omml_latex;
pub mod placeholder;
pub mod recognizer;

use vstd::prelude::*;
use crate::converters::traits::{ConversionError, ExtractionContext};
use crate::model::Element;
use crate::text::to_owned_string;

verus! {

/// A step that adds what is known about an element.
pub trait ElementEnricher {
    fn enrich(&self, element: &mut Element, context: &mut ExtractionContext) -> Result<(), ConversionError>;
}

#[derive(Debug)]
pub struct ImageEnricher;

impl ElementEnricher for ImageEnricher {
    fn enrich(&self, element: &mut Element, context: &mut ExtractionContext) -> (r: Result<(), ConversionError>)
        ensures
            r.is_ok(),
            *final(element) == *old(element),
            *final(context) == *old(context),
    {
        Ok(())
    }
}

#[derive(Debug)]
pub struct ChartEnricher;

impl ElementEnricher for ChartEnricher {
    fn enrich(&self, element: &mut Element, context: &mut ExtractionContext) -> (r: Result<(), ConversionError>)
        ensures
            r.is_ok(),
            *final(element) == *old(element),
            *final(context) == *old(context),
    {
        Ok(())
    }
}

pub open spec fn has_extra(extra: Seq<(String, String)>, key: Seq<char>) -> bool {
    exists|i: int| 0 <= i < extra.len() && (#[trigger] extra[i]).0@ == key
}

#[derive(Debug)]
pub struct FormulaEnricher;

impl ElementEnricher for FormulaEnricher {
    /// Marks the formula's format as `unknown` where it has none yet.
    fn enrich(&self, element: &mut Element, context: &mut ExtractionContext) -> (r: Result<(), ConversionError>)
        ensures
            r.is_ok(),
            *final(context) == *old(context),
            has_extra(old(element).extra@, "format"@) ==> *final(element) == *old(element),
            !has_extra(old(element).extra@, "format"@) ==> {
                &&& final(element).extra@.len() == old(element).extra@.len() + 1
                &&& final(element).extra@.drop_last() == old(element).extra@
                &&& final(element).extra@.last().0@ == "format"@
                &&& final(element).extra@.last().1@ == "unknown"@
                &&& *final(element) == (Element { extra: final(element).extra, ..*old(element) })
            },
    {
        let mut found = false;
        let mut i: usize = 0;
        while i < element.extra.len()
            invariant
                i <= element.extra@.len(),
                found == has_extra(element.extra@.take(i as int), "format"@),
            decreases element.extra@.len() - i,
        {
            let k = crate::text::chars_of(element.extra[i].0.as_str());
            if crate::classifier::chars_eq(k.as_slice(), "format") {
                found = true;
            }
            proof {
                let t = element.extra@.take(i + 1);
                if has_extra(element.extra@.take(i as int), "format"@) {
                    let j = choose|j: int| 0 <= j < i && (#[trigger] element.extra@.take(i as int)[j]).0@ == "format"@;
                    assert(t[j] == element.extra@.take(i as int)[j]);
                }
                if has_extra(t, "format"@) && !has_extra(element.extra@.take(i as int), "format"@) {
                    let j = choose|j: int| 0 <= j < i + 1 && (#[trigger] t[j]).0@ == "format"@;
                    if j < i {
                        assert(element.extra@.take(i as int)[j] == t[j]);
                    }
                }
                if found {
                    if k@ == "format"@ {
                        assert(t[i as int].0@ == "format"@);
                    }
                }
            }
            i = i + 1;
        }
        assert(element.extra@.take(i as int) =~= element.extra@);
        if !found {
            element.extra.push((to_owned_string("format"), to_owned_string("unknown")));
            assert(element.extra@.drop_last() =~= old(element).extra@);
        }
        Ok(())
    }
}

} // verus!
