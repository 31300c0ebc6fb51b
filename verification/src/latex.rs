//! Text processing around the LaTeX label pipeline: converting LaTeX math to
//! Typst markup, wrapping it in a minimal Typst document, and locating the
//! `width="…pt"` / `height="…pt"` attributes of the SVG that Typst emits.

use vstd::prelude::*;
use vstd::string::*;
use crate::tex_tokens::{converter_may_panic, may_panic_converter};

verus! {

broadcast use vstd::string::group_string_axioms;

/// What the LaTeX-to-Typst converter makes of `tex`: the Typst math markup,
/// or an error message.
pub uninterp spec fn tex_to_typst(tex: Seq<char>) -> Result<Seq<char>, Seq<char>>;

/// Converts LaTeX math to Typst math markup with `tex2typst_rs::tex2typst`.
/// The contract claims only that the outcome, markup or message, is what the
/// converter makes of the input text: the same text always gives the same
/// outcome. What the converter produces for a given text is not stated.
///
/// The converter's parser panics on some input; `requires` leaves out the
/// inputs on which `converter_may_panic` says it may (see `tex_tokens`).
/// Not stated either: how deeply nested input may be before the recursive
/// parser exhausts the stack, which depends on the machine.
#[verifier::external_body]
fn convert_tex(tex: &str) -> (r: Result<String, String>)
    requires
        !converter_may_panic(tex@),
    ensures
        match r {
            Ok(markup) => tex_to_typst(tex@) == Ok::<Seq<char>, Seq<char>>(markup@),
            Err(message) => tex_to_typst(tex@) == Err::<Seq<char>, Seq<char>>(message@),
        },
{
    tex2typst_rs::tex2typst(tex)
}

/// The Typst source before the font size: page settings that shrink the page
/// to its content with a 1pt margin and no fill, then the start of the text
/// size setting.
pub const DOCUMENT_HEAD: &'static str = "\n        #set page(width: auto, height: auto, margin: 1pt, fill: none)\n        #set text(size: ";

/// The Typst source between the font size and the math.
pub const DOCUMENT_MIDDLE: &'static str = "pt)\n        $ ";

/// The Typst source after the math.
pub const DOCUMENT_TAIL: &'static str = " $\n        ";

/// The Typst document that typesets `math` inline at `font_size` points.
pub open spec fn typst_document(math: Seq<char>, font_size: Seq<char>) -> Seq<char> {
    DOCUMENT_HEAD@ + font_size + DOCUMENT_MIDDLE@ + math + DOCUMENT_TAIL@
}

/// The Typst document that typesets the Typst math markup `math` inline, at
/// the font size written in `font_size` (points).
pub fn typst_document_source(math: &str, font_size: &str) -> (doc: String)
    ensures
        doc@ == typst_document(math@, font_size@),
{
    let mut doc = String::from_str(DOCUMENT_HEAD);
    doc.append(font_size);
    doc.append(DOCUMENT_MIDDLE);
    doc.append(math);
    doc.append(DOCUMENT_TAIL);
    doc
}

/// The message for LaTeX that holds a pattern the converter may panic on.
pub const UNSUPPORTED_LATEX: &'static str = "Unsupported LaTeX: a prime after a superscript, an unclosed \\begin, or \\sqrt without an argument";

/// The Typst document for LaTeX math `latex` at the font size written in
/// `font_size`; or `UNSUPPORTED_LATEX` when `latex` holds a pattern the
/// converter may panic on; or else the converter's message when it cannot
/// translate the LaTeX.
pub fn latex_document_source(latex: &str, font_size: &str) -> (r: Result<String, String>)
    ensures
        converter_may_panic(latex@) ==> (r matches Err(e) && e@ == UNSUPPORTED_LATEX@),
        !converter_may_panic(latex@) ==> match tex_to_typst(latex@) {
            Ok(math) => r matches Ok(doc) && doc@ == typst_document(math, font_size@),
            Err(message) => r matches Err(e) && e@ == message,
        },
{
    if may_panic_converter(latex) {
        return Err(String::from_str(UNSUPPORTED_LATEX));
    }
    match convert_tex(latex) {
        Ok(math) => Ok(typst_document_source(math.as_str(), font_size)),
        Err(message) => Err(message),
    }
}

/// Whether `pat` occurs in `s` at position `i`.
pub open spec fn occurs_at(s: Seq<u8>, pat: Seq<u8>, i: int) -> bool {
    0 <= i && i + pat.len() <= s.len() && s.subrange(i, i + pat.len()) == pat
}

/// The first position at or after `from` where `pat` occurs in `s`.
pub open spec fn first_occurrence(s: Seq<u8>, pat: Seq<u8>, from: int) -> Option<int>
    decreases s.len() - from,
{
    if from < 0 || from + pat.len() > s.len() {
        None
    } else if occurs_at(s, pat, from) {
        Some(from)
    } else if from >= s.len() {
        None
    } else {
        first_occurrence(s, pat, from + 1)
    }
}

/// The byte range of the number in the first `attr="<number>pt"` of `svg`:
/// after the first `attr="`, up to the next `"`, provided the text there
/// ends in `pt` (which the range leaves out).
pub open spec fn pt_attr_range(svg: Seq<u8>, attr: Seq<u8>) -> Option<(int, int)> {
    let needle = attr + seq![61u8, 34u8];
    match first_occurrence(svg, needle, 0) {
        None => None,
        Some(at) => {
            let start = at + needle.len();
            match first_occurrence(svg, seq![34u8], start) {
                None => None,
                Some(end) => if end - start >= 2 && svg[end - 2] == 112u8 && svg[end - 1] == 116u8 {
                    Some((start, end - 2))
                } else {
                    None
                },
            }
        },
    }
}

/// An occurrence at `k` with none from `from` up to `k` is the first one
/// at or after `from`.
pub proof fn lemma_first_occurrence_at(s: Seq<u8>, pat: Seq<u8>, from: int, k: int)
    requires
        0 <= from <= k,
        occurs_at(s, pat, k),
        forall|i: int| from <= i < k ==> !#[trigger] occurs_at(s, pat, i),
    ensures
        first_occurrence(s, pat, from) == Some(k),
    decreases k - from,
{
    if from < k {
        assert(!occurs_at(s, pat, from));
        lemma_first_occurrence_at(s, pat, from + 1, k);
    }
}

/// The bytes of `attr="`.
pub open spec fn attr_open(attr: Seq<u8>) -> Seq<u8> {
    attr + seq![61u8, 34u8]
}

/// The bytes of `pt"`.
pub open spec fn pt_close() -> Seq<u8> {
    seq![112u8, 116u8, 34u8]
}

/// The number of an attribute is found whatever its length: in
/// `svg` = `p attr="v pt" q`, where `attr="` does not occur before the end
/// of `p` and `v` holds no quote, the range is exactly the bytes of `v`.
pub proof fn lemma_pt_attr_finds_value(svg: Seq<u8>, p: Seq<u8>, attr: Seq<u8>, v: Seq<u8>, q: Seq<u8>)
    requires
        svg == p + attr_open(attr) + v + pt_close() + q,
        forall|i: int| 0 <= i < p.len() ==> !#[trigger] occurs_at(svg, attr_open(attr), i),
        forall|i: int| 0 <= i < v.len() ==> #[trigger] v[i] != 34u8,
    ensures
        pt_attr_range(svg, attr) == Some((p.len() + attr.len() + 2int, p.len() + attr.len() + 2 + v.len() as int)),
{
    let needle = attr_open(attr);
    let at = p.len() as int;
    let start = at + needle.len();
    let end = start + v.len() + 2;
    assert(svg.subrange(at, at + needle.len()) =~= needle);
    lemma_first_occurrence_at(svg, needle, 0, at);
    assert forall|i: int| start <= i < end implies !#[trigger] occurs_at(svg, seq![34u8], i) by {
        assert(svg.subrange(i, i + 1)[0] == svg[i]);
        if i < start + v.len() {
            assert(svg[i] == v[i - start]);
        } else if i == start + v.len() {
            assert(svg[i] == 112u8);
        } else {
            assert(svg[i] == 116u8);
        }
    }
    assert(svg.subrange(end, end + 1) =~= seq![34u8]);
    lemma_first_occurrence_at(svg, seq![34u8], start, end);
    assert(svg[end - 2] == 112u8);
    assert(svg[end - 1] == 116u8);
}

/// Whether `pat` occurs in `s` at `i`.
fn occurs_at_exec(s: &[u8], pat: &[u8], i: usize) -> (b: bool)
    requires
        i + pat@.len() <= s@.len(),
    ensures
        b == occurs_at(s@, pat@, i as int),
{
    let n = s.len();
    let mut k: usize = 0;
    while k < pat.len()
        invariant
            n == s@.len(),
            i + pat@.len() <= s@.len(),
            k <= pat.len(),
            forall|j: int| 0 <= j < k ==> s@[i + j] == pat@[j],
        decreases pat.len() - k,
    {
        if s[i + k] != pat[k] {
            assert(s@.subrange(i as int, i + pat@.len())[k as int] != pat@[k as int]);
            return false;
        }
        k = k + 1;
    }
    assert(s@.subrange(i as int, i + pat@.len()) =~= pat@);
    true
}

/// The first position at or after `from` where `pat` occurs in `s`.
fn find_from(s: &[u8], pat: &[u8], from: usize) -> (r: Option<usize>)
    ensures
        match r {
            Some(i) => from <= i && i + pat@.len() <= s@.len() && first_occurrence(s@, pat@, from as int)
                == Some(i as int),
            None => first_occurrence(s@, pat@, from as int) is None,
        },
{
    if pat.len() > s.len() {
        return None;
    }
    let last = s.len() - pat.len();
    if from > last {
        return None;
    }
    let mut i = from;
    while i < last
        invariant
            last + pat@.len() == s@.len(),
            from <= i <= last,
            first_occurrence(s@, pat@, from as int) == first_occurrence(s@, pat@, i as int),
        decreases last - i,
    {
        if occurs_at_exec(s, pat, i) {
            return Some(i);
        }
        i = i + 1;
    }
    if occurs_at_exec(s, pat, i) {
        return Some(i);
    }
    proof {
        if i < s@.len() {
            assert(first_occurrence(s@, pat@, i as int) == first_occurrence(s@, pat@, i + 1));
        }
    }
    None
}

/// The byte range of the number in the first `attr="<number>pt"` of `svg`,
/// without the `pt`.
pub fn pt_attr_span(svg: &[u8], attr: &[u8]) -> (r: Option<(usize, usize)>)
    ensures
        match r {
            Some((start, stop)) => pt_attr_range(svg@, attr@) == Some((start as int, stop as int)),
            None => pt_attr_range(svg@, attr@) is None,
        },
{
    let mut needle: Vec<u8> = Vec::new();
    let mut k: usize = 0;
    while k < attr.len()
        invariant
            k <= attr.len(),
            needle@ == attr@.take(k as int),
        decreases attr.len() - k,
    {
        needle.push(attr[k]);
        k = k + 1;
        assert(needle@ =~= attr@.take(k as int));
    }
    needle.push(61u8);
    needle.push(34u8);
    assert(needle@ =~= attr@ + seq![61u8, 34u8]);
    let at = match find_from(svg, needle.as_slice(), 0) {
        Some(at) => at,
        None => return None,
    };
    if needle.len() > svg.len() - at {
        return None;
    }
    let start = at + needle.len();
    let quote: [u8; 1] = [34u8];
    assert(quote@ =~= seq![34u8]);
    let end = match find_from(svg, quote.as_slice(), start) {
        Some(end) => end,
        None => return None,
    };
    if end - start >= 2 && svg[end - 2] == 112u8 && svg[end - 1] == 116u8 {
        Some((start, end - 2))
    } else {
        None
    }
}

/// The bytes of `width`.
pub open spec fn width_attr() -> Seq<u8> {
    seq![119u8, 105u8, 100u8, 116u8, 104u8]
}

/// The bytes of `height`.
pub open spec fn height_attr() -> Seq<u8> {
    seq![104u8, 101u8, 105u8, 103u8, 104u8, 116u8]
}

/// The byte ranges of the numbers in the `width="…pt"` and `height="…pt"`
/// attributes of an SVG document, when both are there.
pub fn svg_dimension_spans(svg: &[u8]) -> (r: Option<((usize, usize), (usize, usize))>)
    ensures
        match r {
            Some((w, h)) => pt_attr_range(svg@, width_attr()) == Some((w.0 as int, w.1 as int))
                && pt_attr_range(svg@, height_attr()) == Some((h.0 as int, h.1 as int)),
            None => pt_attr_range(svg@, width_attr()) is None || pt_attr_range(svg@, height_attr()) is None,
        },
{
    let width: [u8; 5] = [119u8, 105u8, 100u8, 116u8, 104u8];
    let height: [u8; 6] = [104u8, 101u8, 105u8, 103u8, 104u8, 116u8];
    assert(width@ =~= width_attr());
    assert(height@ =~= height_attr());
    let w = match pt_attr_span(svg, width.as_slice()) {
        Some(w) => w,
        None => return None,
    };
    let h = match pt_attr_span(svg, height.as_slice()) {
        Some(h) => h,
        None => return None,
    };
    Some((w, h))
}

} // verus!