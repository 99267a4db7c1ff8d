//! Telling the language of a text: Russian, English or a mix of the two.

use vstd::prelude::*;
use crate::text::{chars_of, is_ascii_alpha, to_owned_string, trim, trim_chars, views};
use crate::unicode::{is_alphabetic, unicode_alphabetic};

verus! {

#[derive(Clone, Copy, Debug, PartialEq, Eq, Structural)]
pub enum LanguageDetectionSource {
    ConfigDefault,
    UserHint,
    FileMetadata,
    TextDetection,
    OcrModel,
    Extractor,
}

#[derive(Debug)]
pub struct DetectedLanguage {
    pub language: String,
    pub confidence_permille: u32,
    pub source: LanguageDetectionSource,
}

#[derive(Debug)]
pub struct LanguageInfo {
    pub primary: Option<String>,
    pub detected: Vec<DetectedLanguage>,
    pub hints: Vec<String>,
    pub is_mixed: bool,
    pub confidence_permille: Option<u32>,
}

impl Default for LanguageInfo {
    fn default() -> (i: Self)
        ensures
            i.primary.is_some() && i.primary.unwrap()@ == "ru"@,
            i.detected@.len() == 1,
            i.detected@[0].language@ == "ru"@,
            i.detected@[0].confidence_permille == 200,
            i.detected@[0].source == LanguageDetectionSource::ConfigDefault,
            views(i.hints@) == seq!["ru"@, "en"@],
            !i.is_mixed,
            i.confidence_permille == Some(200u32),
    {
        let mut detected: Vec<DetectedLanguage> = Vec::new();
        detected.push(
            DetectedLanguage {
                language: to_owned_string("ru"),
                confidence_permille: 200,
                source: LanguageDetectionSource::ConfigDefault,
            },
        );
        let mut hints: Vec<String> = Vec::new();
        hints.push(to_owned_string("ru"));
        hints.push(to_owned_string("en"));
        assert(views(hints@) =~= seq!["ru"@, "en"@]);
        LanguageInfo {
            primary: Some(to_owned_string("ru")),
            detected,
            hints,
            is_mixed: false,
            confidence_permille: Some(200),
        }
    }
}

/// A letter of the Cyrillic and Cyrillic Supplement blocks (U+0400 to U+052F).
pub open spec fn is_cyrillic(c: char) -> bool {
    0x0400 <= (c as u32) && (c as u32) <= 0x052F
}

pub open spec fn has_cyrillic(s: Seq<char>) -> bool {
    exists|i: int| 0 <= i < s.len() && is_cyrillic(#[trigger] s[i])
}

pub open spec fn has_latin(s: Seq<char>) -> bool {
    exists|i: int| 0 <= i < s.len() && is_ascii_alpha(#[trigger] s[i])
}

pub fn contains_cyrillic(text: &str) -> (r: bool)
    ensures
        r == has_cyrillic(text@),
{
    let v = chars_of(text);
    let mut i: usize = 0;
    while i < v.len()
        invariant
            i <= v@.len(),
            v@ == text@,
            forall|k: int| 0 <= k < i ==> !is_cyrillic(#[trigger] v@[k]),
        decreases v@.len() - i,
    {
        let u = v[i] as u32;
        if 0x0400 <= u && u <= 0x052F {
            return true;
        }
        i = i + 1;
    }
    false
}

pub fn contains_latin(text: &str) -> (r: bool)
    ensures
        r == has_latin(text@),
{
    let v = chars_of(text);
    let mut i: usize = 0;
    while i < v.len()
        invariant
            i <= v@.len(),
            v@ == text@,
            forall|k: int| 0 <= k < i ==> !is_ascii_alpha(#[trigger] v@[k]),
        decreases v@.len() - i,
    {
        let c = v[i];
        if ('a' <= c && c <= 'z') || ('A' <= c && c <= 'Z') {
            return true;
        }
        i = i + 1;
    }
    false
}

/// How many letters (characters with the `Alphabetic` property) a text has, and
/// how many of them are Cyrillic or ASCII Latin.
pub open spec fn letter_counts(s: Seq<char>) -> (nat, nat, nat)
    decreases s.len(),
{
    if s.len() == 0 {
        (0, 0, 0)
    } else {
        let p = letter_counts(s.drop_last());
        let c = s.last();
        if unicode_alphabetic(c) {
            (
                p.0 + 1,
                if is_cyrillic(c) { p.1 + 1 } else { p.1 },
                if is_ascii_alpha(c) { p.2 + 1 } else { p.2 },
            )
        } else {
            p
        }
    }
}

/// `part / whole` in permille, rounded down; 0 for no letters.
pub open spec fn ratio_permille(part: nat, whole: nat) -> nat {
    if whole == 0 {
        0
    } else {
        part * 1000 / whole
    }
}

fn count_letters(s: &[char]) -> (r: (usize, usize, usize))
    ensures
        r.0 as nat == letter_counts(s@).0,
        r.1 as nat == letter_counts(s@).1,
        r.2 as nat == letter_counts(s@).2,
        r.1 <= r.0,
        r.2 <= r.0,
        r.0 <= s@.len(),
{
    let mut letters: usize = 0;
    let mut cyr: usize = 0;
    let mut lat: usize = 0;
    let mut i: usize = 0;
    while i < s.len()
        invariant
            i <= s@.len(),
            letters <= i,
            cyr <= letters,
            lat <= letters,
            (letters as nat, cyr as nat, lat as nat) == letter_counts(s@.take(i as int)),
        decreases s@.len() - i,
    {
        proof {
            assert(s@.take(i + 1).drop_last() =~= s@.take(i as int));
        }
        let c = s[i];
        if is_alphabetic(c) {
            letters = letters + 1;
            let u = c as u32;
            if 0x0400 <= u && u <= 0x052F {
                cyr = cyr + 1;
            }
            if ('a' <= c && c <= 'z') || ('A' <= c && c <= 'Z') {
                lat = lat + 1;
            }
        }
        i = i + 1;
    }
    assert(s@.take(i as int) =~= s@);
    (letters, cyr, lat)
}

fn ratio(part: usize, whole: usize) -> (r: u32)
    requires
        part <= whole,
    ensures
        r as nat == ratio_permille(part as nat, whole as nat),
        r <= 1000,
{
    if whole == 0 {
        0
    } else {
        let p = part as u128;
        let w = whole as u128;
        proof {
            let pi = p as int;
            let wi = w as int;
            assert(pi * 1000 <= wi * 1000) by (nonlinear_arith)
                requires
                    pi <= wi,
            ;
            assert((pi * 1000) / wi <= 1000) by (nonlinear_arith)
                requires
                    pi * 1000 <= wi * 1000,
                    wi > 0,
            ;
        }
        ((p * 1000) / w) as u32
    }
}

/// The Cyrillic share of a text's letters, in permille.
pub fn cyrillic_ratio_permille(text: &str) -> (r: u32)
    ensures
        r as nat == ratio_permille(letter_counts(text@).1, letter_counts(text@).0),
{
    let v = chars_of(text);
    let c = count_letters(v.as_slice());
    ratio(c.1, c.0)
}

/// The ASCII Latin share of a text's letters, in permille.
pub fn latin_ratio_permille(text: &str) -> (r: u32)
    ensures
        r as nat == ratio_permille(letter_counts(text@).2, letter_counts(text@).0),
{
    let v = chars_of(text);
    let c = count_letters(v.as_slice());
    ratio(c.2, c.0)
}

/// Something that tells the language of a text.
pub trait LanguageDetector {
    fn detect(&self, text: &str, hints: &Vec<String>) -> LanguageInfo;
}

#[derive(Debug)]
pub struct HeuristicLanguageDetector {
    pub default_language: String,
    pub detect_min_chars: usize,
}

impl Default for HeuristicLanguageDetector {
    fn default() -> (d: Self)
        ensures
            d.default_language@ == "ru"@,
            d.detect_min_chars == 40,
    {
        HeuristicLanguageDetector { default_language: to_owned_string("ru"), detect_min_chars: 40 }
    }
}

pub open spec fn max_nat(a: nat, b: nat) -> nat {
    if a >= b {
        a
    } else {
        b
    }
}

/// One detected language.
pub open spec fn detected_is(d: DetectedLanguage, lang: Seq<char>, confidence: nat, source: LanguageDetectionSource) -> bool {
    d.language@ == lang && d.confidence_permille as nat == confidence && d.source == source
}

/// What the heuristic detector reports of `text` with the given hints.
pub open spec fn detected_info(
    default_language: Seq<char>,
    min_chars: nat,
    text: Seq<char>,
    hints: Seq<Seq<char>>,
    i: LanguageInfo,
) -> bool {
    let t = trim(text);
    let hints_out = if hints.len() == 0 {
        seq![default_language, "en"@]
    } else {
        hints
    };
    let counts = letter_counts(t);
    let cyr = has_cyrillic(t);
    let lat = has_latin(t);
    let ru = max_nat(ratio_permille(counts.1, counts.0), 350);
    let en = max_nat(ratio_permille(counts.2, counts.0), 350);
    &&& views(i.hints@) == hints_out
    &&& if t.len() == 0 || t.len() < min_chars || (!cyr && !lat) {
        &&& i.primary.is_some() && i.primary.unwrap()@ == default_language
        &&& i.detected@.len() == 1
        &&& detected_is(i.detected@[0], default_language, 200, LanguageDetectionSource::ConfigDefault)
        &&& !i.is_mixed
        &&& i.confidence_permille == Some(200u32)
    } else if cyr && lat {
        &&& i.primary.is_some() && i.primary.unwrap()@ == (if max_nat(20 * counts.1, 7 * counts.0)
            >= max_nat(20 * counts.2, 7 * counts.0) {
            "ru"@
        } else {
            "en"@
        })
        &&& i.detected@.len() == 2
        &&& detected_is(i.detected@[0], "ru"@, ru, LanguageDetectionSource::TextDetection)
        &&& detected_is(i.detected@[1], "en"@, en, LanguageDetectionSource::TextDetection)
        &&& i.is_mixed
        &&& i.confidence_permille.is_some() && i.confidence_permille.unwrap() as nat == max_nat(ru, en)
    } else if cyr {
        &&& i.primary.is_some() && i.primary.unwrap()@ == "ru"@
        &&& i.detected@.len() == 1
        &&& detected_is(
            i.detected@[0],
            "ru"@,
            max_nat(ratio_permille(counts.1, counts.0), 800),
            LanguageDetectionSource::TextDetection,
        )
        &&& !i.is_mixed
        &&& i.confidence_permille == Some(900u32)
    } else {
        &&& i.primary.is_some() && i.primary.unwrap()@ == "en"@
        &&& i.detected@.len() == 1
        &&& detected_is(
            i.detected@[0],
            "en"@,
            max_nat(ratio_permille(counts.2, counts.0), 800),
            LanguageDetectionSource::TextDetection,
        )
        &&& !i.is_mixed
        &&& i.confidence_permille == Some(900u32)
    }
}

fn copy_strings(v: &Vec<String>) -> (r: Vec<String>)
    ensures
        views(r@) == views(v@),
{
    let mut out: Vec<String> = Vec::new();
    let mut i: usize = 0;
    while i < v.len()
        invariant
            i <= v@.len(),
            views(out@) == views(v@.take(i as int)),
        decreases v@.len() - i,
    {
        let ghost before = out@;
        let c = v[i].clone();
        out.push(c);
        proof {
            assert(views(out@) =~= views(before).push(v@[i as int]@));
            assert(v@.take(i + 1) =~= v@.take(i as int).push(v@[i as int]));
            assert(views(v@.take(i + 1)) =~= views(v@.take(i as int)).push(v@[i as int]@));
        }
        i = i + 1;
    }
    assert(v@.take(i as int) =~= v@);
    out
}

fn one_language(lang: String, confidence: u32, source: LanguageDetectionSource) -> (v: Vec<DetectedLanguage>)
    ensures
        v@.len() == 1,
        v@[0].language == lang,
        v@[0].confidence_permille == confidence,
        v@[0].source == source,
{
    let mut v: Vec<DetectedLanguage> = Vec::new();
    v.push(DetectedLanguage { language: lang, confidence_permille: confidence, source });
    v
}

fn max_u32(a: u32, b: u32) -> (r: u32)
    ensures
        r as nat == max_nat(a as nat, b as nat),
{
    if a >= b {
        a
    } else {
        b
    }
}

impl LanguageDetector for HeuristicLanguageDetector {
    /// Short or letterless texts get the default language; otherwise Cyrillic
    /// letters mean Russian, ASCII Latin ones English, and both a mix whose
    /// leading language has the larger share.
    fn detect(&self, text: &str, hints: &Vec<String>) -> (i: LanguageInfo)
        ensures
            detected_info(self.default_language@, self.detect_min_chars as nat, text@, views(hints@), i),
    {
        let v = chars_of(text);
        let t = trim_chars(v.as_slice());
        let hint_vec: Vec<String> = if hints.len() == 0 {
            let mut h: Vec<String> = Vec::new();
            h.push(self.default_language.clone());
            h.push(to_owned_string("en"));
            assert(views(h@) =~= seq![self.default_language@, "en"@]);
            h
        } else {
            copy_strings(hints)
        };
        let ts = crate::text::string_from_chars(t.as_slice());
        let cyr = contains_cyrillic(ts.as_str());
        let lat = contains_latin(ts.as_str());
        if t.len() == 0 || t.len() < self.detect_min_chars || (!cyr && !lat) {
            return LanguageInfo {
                primary: Some(self.default_language.clone()),
                detected: one_language(
                    self.default_language.clone(),
                    200,
                    LanguageDetectionSource::ConfigDefault,
                ),
                hints: hint_vec,
                is_mixed: false,
                confidence_permille: Some(200),
            };
        }
        let counts = count_letters(t.as_slice());
        if cyr && lat {
            let ru = max_u32(ratio(counts.1, counts.0), 350);
            let en = max_u32(ratio(counts.2, counts.0), 350);
            let c20 = 20 * (counts.1 as u128);
            let l20 = 20 * (counts.2 as u128);
            let all7 = 7 * (counts.0 as u128);
            let ru_side = if c20 >= all7 {
                c20
            } else {
                all7
            };
            let en_side = if l20 >= all7 {
                l20
            } else {
                all7
            };
            let primary = if ru_side >= en_side {
                to_owned_string("ru")
            } else {
                to_owned_string("en")
            };
            let mut detected: Vec<DetectedLanguage> = Vec::new();
            detected.push(
                DetectedLanguage {
                    language: to_owned_string("ru"),
                    confidence_permille: ru,
                    source: LanguageDetectionSource::TextDetection,
                },
            );
            detected.push(
                DetectedLanguage {
                    language: to_owned_string("en"),
                    confidence_permille: en,
                    source: LanguageDetectionSource::TextDetection,
                },
            );
            return LanguageInfo {
                primary: Some(primary),
                detected,
                hints: hint_vec,
                is_mixed: true,
                confidence_permille: Some(max_u32(ru, en)),
            };
        }
        if cyr {
            let r = max_u32(ratio(counts.1, counts.0), 800);
            return LanguageInfo {
                primary: Some(to_owned_string("ru")),
                detected: one_language(to_owned_string("ru"), r, LanguageDetectionSource::TextDetection),
                hints: hint_vec,
                is_mixed: false,
                confidence_permille: Some(900),
            };
        }
        let r = max_u32(ratio(counts.2, counts.0), 800);
        LanguageInfo {
            primary: Some(to_owned_string("en")),
            detected: one_language(to_owned_string("en"), r, LanguageDetectionSource::TextDetection),
            hints: hint_vec,
            is_mixed: false,
            confidence_permille: Some(900),
        }
    }
}

} // verus!
