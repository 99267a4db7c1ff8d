//! Trying converters one after another until one succeeds.
//!
//! Running a converter is the caller's part; this module holds the converters,
//! records each failed attempt and words the final failure.

use vstd::prelude::*;
use crate::converters::traits::{
    ConversionError, ConversionStageRecord, ConversionTarget, DocumentConverter, ExtractionContext,
};
use crate::text::{join, push_str_chars, string_from_chars, to_owned_string, views};

verus! {

pub struct ConversionPipeline {
    pub converters: Vec<Box<dyn DocumentConverter>>,
}

impl Default for ConversionPipeline {
    fn default() -> (p: Self)
        ensures
            p.converters@.len() == 0,
    {
        ConversionPipeline { converters: Vec::new() }
    }
}

impl ConversionPipeline {
    pub fn new(converters: Vec<Box<dyn DocumentConverter>>) -> (p: Self)
        ensures
            p.converters == converters,
    {
        ConversionPipeline { converters }
    }
}

/// Records an attempt that failed: the error among the warnings, and a step
/// `conversion_attempt_failed` of the converter with the error's code and the
/// target.
pub fn record_failed_attempt(
    context: &mut ExtractionContext,
    converter_name: &str,
    target: ConversionTarget,
    err: &ConversionError,
)
    requires
        err.metadata.wf(),
    ensures
        final(context).warnings@.len() == old(context).warnings@.len() + 1,
        final(context).warnings@.drop_last() == old(context).warnings@,
        final(context).warnings@.last().code@ == err.code@,
        final(context).warnings@.last().message@ == err.message@,
        final(context).warnings@.last().recoverable == err.recoverable,
        final(context).warnings@.last().metadata.wf(),
        final(context).warnings@.last().metadata@ == err.metadata@,
        final(context).stage_records@.len() == old(context).stage_records@.len() + 1,
        final(context).stage_records@.drop_last() == old(context).stage_records@,
        final(context).stage_records@.last().name@ == "conversion_attempt_failed"@,
        final(context).stage_records@.last().status@ == "warning"@,
        final(context).stage_records@.last().tool@ == converter_name@,
        final(context).stage_records@.last().metadata@ == map![
            "code"@ => err.code@,
            "target"@ => target.name_of(),
        ],
        final(context).errors == old(context).errors,
{
    context.push_warning(err.copy());
    let record = ConversionStageRecord::warning("conversion_attempt_failed", converter_name).with_meta(
        "code",
        err.code.clone(),
    ).with_meta("target", to_owned_string(target.as_str()));
    context.push_stage(record);
    proof {
        assert(context.warnings@.drop_last() =~= old(context).warnings@);
        assert(context.stage_records@.drop_last() =~= old(context).stage_records@);
        assert(context.stage_records@.last().metadata@ =~= map![
            "code"@ => err.code@,
            "target"@ => target.name_of(),
        ]);
    }
}

pub open spec fn describe_all(failures: Seq<ConversionError>) -> Seq<Seq<char>> {
    failures.map_values(|e: ConversionError| e.code@ + ": "@ + e.message@)
}

/// The error when no attempt succeeded: `CONVERTER_NOT_CONFIGURED`, telling that
/// no converter fitted, or listing each failure as `code: message`, joined by `; `.
pub fn fallback_error(failures: &Vec<ConversionError>) -> (e: ConversionError)
    ensures
        e.code@ == "CONVERTER_NOT_CONFIGURED"@,
        e.recoverable,
        e.metadata.wf(),
        e.metadata@ == Map::<Seq<char>, Seq<char>>::empty(),
        failures@.len() == 0 ==> e.message@
            == "Для данного документа не найден ни один подходящий конвертер."@,
        failures@.len() > 0 ==> e.message@ == "Все попытки fallback-конвертации завершились ошибкой: "@
            + join(describe_all(failures@), "; "@),
{
    if failures.len() == 0 {
        return ConversionError::new(
            "CONVERTER_NOT_CONFIGURED",
            to_owned_string("Для данного документа не найден ни один подходящий конвертер."),
        );
    }
    let mut parts: Vec<String> = Vec::new();
    let mut i: usize = 0;
    while i < failures.len()
        invariant
            i <= failures@.len(),
            views(parts@) == describe_all(failures@.take(i as int)),
        decreases failures@.len() - i,
    {
        let d = failures[i].describe();
        let ghost before = parts@;
        parts.push(d);
        proof {
            assert(views(parts@) =~= views(before).push(d@));
            assert(failures@.take(i + 1) =~= failures@.take(i as int).push(failures@[i as int]));
            assert(describe_all(failures@.take(i + 1)) =~= describe_all(failures@.take(i as int)).push(
                d@,
            ));
        }
        i = i + 1;
    }
    assert(failures@.take(i as int) =~= failures@);
    let summary = crate::text::join_strings(&parts, "; ");
    let mut m: Vec<char> = Vec::new();
    push_str_chars(&mut m, "Все попытки fallback-конвертации завершились ошибкой: ");
    push_str_chars(&mut m, summary.as_str());
    ConversionError::new("CONVERTER_NOT_CONFIGURED", string_from_chars(m.as_slice()))
}

/// Attempt `a` comes before attempt `b`: targets are tried in order, and for each
/// target the converters in order.
pub open spec fn attempt_before(a: (int, int), b: (int, int)) -> bool {
    a.0 < b.0 || (a.0 == b.0 && a.1 < b.1)
}

/// Attempt `p` comes after `after` (every attempt does when there is none).
pub open spec fn after_cursor(after: Option<(usize, usize)>, p: (int, int)) -> bool {
    match after {
        Some(a) => attempt_before((a.0 as int, a.1 as int), p),
        None => true,
    }
}

/// The converter at position `c` supports the conversion to the target at `t`.
pub open spec fn supported_at(supported: Seq<Vec<bool>>, t: int, c: int) -> bool {
    0 <= t < supported.len() && 0 <= c < supported[t]@.len() && supported[t]@[c]
}

/// The next conversion attempt after `after`: the first pair of a target (by its
/// position) and a converter (by its position) that supports it, trying the
/// targets in order and, for each, the converters in order; none when no later
/// pair is supported. `supported[t][c]` tells whether converter `c` supports
/// target `t`.
pub fn next_attempt(supported: &Vec<Vec<bool>>, after: Option<(usize, usize)>) -> (r: Option<(usize, usize)>)
    ensures
        match r {
            Some(p) => {
                &&& supported_at(supported@, p.0 as int, p.1 as int)
                &&& after_cursor(after, (p.0 as int, p.1 as int))
                &&& forall|t: int, c: int|
                    after_cursor(after, (t, c)) && attempt_before((t, c), (p.0 as int, p.1 as int))
                        ==> !#[trigger] supported_at(supported@, t, c)
            },
            None => forall|t: int, c: int| after_cursor(after, (t, c)) ==> !#[trigger] supported_at(supported@, t, c),
        },
{
    let n = supported.len();
    let (t0, c0): (usize, usize) = match after {
        None => (0, 0),
        Some(a) => if a.1 < usize::MAX {
            (a.0, a.1 + 1)
        } else {
            if a.0 < n {
                let row_len = supported[a.0].len();
                assert(supported@[a.0 as int]@.len() == row_len);
            }
            if a.0 < usize::MAX {
                (a.0 + 1, 0)
            } else {
                return None;
            }
        },
    };
    proof {
        assert forall|t: int, c: int| #[trigger] supported_at(supported@, t, c) implies
            (after_cursor(after, (t, c)) <==> !attempt_before((t, c), (t0 as int, c0 as int))) by {
            if let Some(a) = after {
                if a.1 == usize::MAX && t == a.0 {
                    assert(supported@[t]@.len() <= usize::MAX);
                }
            }
        }
    }
    let mut t: usize = t0;
    let mut c: usize = c0;
    while t < supported.len()
        invariant
            t0 <= t,
            t <= supported@.len() || t == t0,
            t == t0 ==> c == c0,
            t > t0 ==> c == 0,
            forall|t2: int, c2: int| #[trigger] supported_at(supported@, t2, c2) ==>
                (after_cursor(after, (t2, c2)) <==> !attempt_before((t2, c2), (t0 as int, c0 as int))),
            forall|t2: int, c2: int|
                !attempt_before((t2, c2), (t0 as int, c0 as int)) && attempt_before((t2, c2), (t as int, c as int))
                    ==> !#[trigger] supported_at(supported@, t2, c2),
        decreases supported@.len() - t,
    {
        let row = &supported[t];
        while c < row.len()
            invariant
                t < supported@.len(),
                t0 <= t,
                row == &supported@[t as int],
                t == t0 ==> c >= c0,
                forall|t2: int, c2: int| #[trigger] supported_at(supported@, t2, c2) ==>
                    (after_cursor(after, (t2, c2)) <==> !attempt_before((t2, c2), (t0 as int, c0 as int))),
                forall|t2: int, c2: int|
                    !attempt_before((t2, c2), (t0 as int, c0 as int)) && attempt_before((t2, c2), (t as int, c as int))
                        ==> !#[trigger] supported_at(supported@, t2, c2),
            decreases row@.len() - c,
        {
            if row[c] {
                assert(supported_at(supported@, t as int, c as int));
                return Some((t, c));
            }
            c = c + 1;
        }
        t = t + 1;
        c = 0;
    }
    None
}

} // verus!
