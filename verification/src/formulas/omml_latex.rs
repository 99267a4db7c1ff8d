//! Reading a Word (OMML) formula as text.

use vstd::prelude::*;
use crate::text::{chars_of, string_from_chars, trim};

verus! {

/// The characters of `s` outside markup tags (`<` up to the next `>`).
pub open spec fn text_outside_tags(s: Seq<char>, in_tag: bool) -> Seq<char>
    decreases s.len(),
{
    if s.len() == 0 {
        Seq::empty()
    } else {
        let c = s[0];
        let rest = s.drop_first();
        if in_tag {
            text_outside_tags(rest, c != '>')
        } else if c == '<' {
            text_outside_tags(rest, true)
        } else {
            seq![c] + text_outside_tags(rest, false)
        }
    }
}

/// The text of an OMML formula with its markup removed; nothing when only
/// whitespace remains.
pub fn omml_to_latex(omml: &str) -> (r: Option<String>)
    ensures
        r.is_some() == (trim(text_outside_tags(omml@, false)).len() > 0),
        r.is_some() ==> r.unwrap()@ == text_outside_tags(omml@, false),
{
    let v = chars_of(omml);
    let mut out: Vec<char> = Vec::new();
    let mut in_tag = false;
    let mut i: usize = 0;
    assert(v@.skip(0) =~= v@);
    assert(out@ + text_outside_tags(v@, false) =~= text_outside_tags(v@, false));
    while i < v.len()
        invariant
            i <= v@.len(),
            v@ == omml@,
            out@ + text_outside_tags(v@.skip(i as int), in_tag) == text_outside_tags(v@, false),
        decreases v@.len() - i,
    {
        let c = v[i];
        proof {
            let rest = v@.skip(i as int);
            assert(rest[0] == c);
            assert(rest.drop_first() =~= v@.skip(i + 1));
        }
        let ghost before = out@;
        let ghost was = in_tag;
        if in_tag {
            if c == '>' {
                in_tag = false;
            }
        } else if c == '<' {
            in_tag = true;
        } else {
            out.push(c);
            proof {
                assert(out@ + text_outside_tags(v@.skip(i + 1), false) =~= before + (seq![c]
                    + text_outside_tags(v@.skip(i + 1), false)));
            }
        }
        i = i + 1;
    }
    proof {
        assert(v@.skip(i as int).len() == 0);
        assert(out@ =~= out@ + text_outside_tags(v@.skip(i as int), in_tag));
    }
    if crate::text::chars_is_blank(out.as_slice()) {
        None
    } else {
        Some(string_from_chars(out.as_slice()))
    }
}

} // verus!
