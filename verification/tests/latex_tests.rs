use qcdesigner::latex::{
    latex_document_source, pt_attr_span, svg_dimension_spans, typst_document_source, UNSUPPORTED_LATEX,
};
use qcdesigner::tex_tokens::{may_panic_converter, may_panic_on_tokens, TexTok, TexTokKind};

const HEAD: &str = "\n        #set page(width: auto, height: auto, margin: 1pt, fill: none)\n        #set text(size: ";

#[test]
fn document_wraps_math_inline_at_the_font_size() {
    let doc = typst_document_source("1/2", "24");
    assert_eq!(doc, format!("{}24pt)\n        $ 1/2 $\n        ", HEAD));
}

#[test]
fn latex_is_translated_before_wrapping() {
    let doc = latex_document_source("\\frac{1}{2}", "16").expect("translatable");
    assert_eq!(doc, format!("{}16pt)\n        $ 1/2 $\n        ", HEAD));
    let doc = latex_document_source("\\sqrt{2}", "12.5").expect("translatable");
    assert_eq!(doc, format!("{}12.5pt)\n        $ sqrt(2) $\n        ", HEAD));
}

#[test]
fn finds_the_pt_attribute() {
    let svg = br#"<svg class="typst-doc" viewBox="0 0 30 12" width="30.5pt" height="12pt" xmlns="x">"#;
    assert_eq!(pt_attr_span(svg, b"width"), Some((50, 54)));
    assert_eq!(&svg[50..54], b"30.5");
    let (w, h) = svg_dimension_spans(svg).expect("both there");
    assert_eq!(&svg[w.0..w.1], b"30.5");
    assert_eq!(&svg[h.0..h.1], b"12");
}

#[test]
fn attribute_without_pt_or_quote_is_not_a_dimension() {
    assert_eq!(pt_attr_span(b"<svg width=\"30px\">", b"width"), None);
    assert_eq!(pt_attr_span(b"<svg width=\"30pt", b"width"), None);
    assert_eq!(pt_attr_span(b"<svg height=\"3pt\">", b"width"), None);
    assert_eq!(svg_dimension_spans(b"<svg width=\"3pt\">"), None);
}

#[test]
fn only_the_first_attribute_counts() {
    let svg = b"<svg width=\"1pt\" width=\"2pt\">";
    assert_eq!(pt_attr_span(svg, b"width"), Some((12, 13)));
}

#[test]
fn untranslatable_latex_reports_the_converter_message() {
    match latex_document_source("a & b", "16") {
        Ok(doc) => panic!("unexpected document {:?}", doc),
        Err(message) => assert_eq!(message, "Unexpected & outside of an alignment"),
    }
}

#[test]
fn patterns_the_converter_panics_on_are_recognised() {
    assert!(may_panic_converter("x^2'"));
    assert!(may_panic_converter("x_1^2'"));
    assert!(may_panic_converter("x^{2}_1'"));
    assert!(may_panic_converter("\\begin{a}x"));
    assert!(may_panic_converter("{\\begin{a}}\\end{a}"));
    assert!(may_panic_converter("\\left(\\begin{a}\\right)\\end{a}"));
    assert!(may_panic_converter("\\sqrt[\\begin{a}]\\end{a}"));
    assert!(may_panic_converter("\\begin{a}\\begin{b}\\end{a}"));
    assert!(may_panic_converter("\\begin{a}\\sqrt \\end{a}"));
    assert!(may_panic_converter("x^\\frac{1}{2}'"));
    assert!(may_panic_converter("x^\\hat{a}'"));
    assert!(!may_panic_converter("x^\\hat a'"));
    assert!(may_panic_converter("x^{a}_{b}'"));
    assert!(may_panic_converter("\\sqrt"));
    assert!(may_panic_converter("{\\sqrt}"));
    assert!(may_panic_converter("\\sqrt[3]{\\sqrt]"));
    assert!(may_panic_converter("\\left(\\sqrt\\right)"));
    assert!(!may_panic_converter("x'^2"));
    assert!(!may_panic_converter("x_1'"));
    assert!(!may_panic_converter("\\sqrt{2}"));
    assert!(!may_panic_converter("\\sqrt x"));
    assert!(!may_panic_converter("\\sqrt[3]{x}"));
    assert!(!may_panic_converter("\\text{a}"));
    assert!(!may_panic_converter(""));
    assert!(!may_panic_converter("x^2 + f'(x)"));
    assert!(!may_panic_converter("x^2 '"));
    assert!(!may_panic_converter("x^ab'"));
    assert!(!may_panic_converter("U^\\dagger f'"));
    assert!(!may_panic_converter("\\begin{m}a\\end{m}"));
    assert!(!may_panic_converter("\\begin{pmatrix}1&0\\\\0&1\\end{pmatrix}"));
    assert!(!may_panic_converter("\\begin{a}{x}[y)\\end{a}"));
    assert!(!may_panic_converter("\\sqrt \\right)"));
    assert!(!may_panic_converter("\\text{\\begin}"));
}

#[test]
fn latex_the_converter_panics_on_is_refused() {
    for tex in ["x^2'", "\\begin{a}x", "\\begin{a}", "\\sqrt", "{\\sqrt}", "{\\begin{a}}\\end{a}"] {
        assert_eq!(latex_document_source(tex, "16"), Err(UNSUPPORTED_LATEX.to_string()), "{}", tex);
    }
}

#[test]
fn malformed_command_heads_give_errors() {
    for tex in ["\\text", "\\text x", "{\\text}", "\\operatorname", "\\end", "\\end{a}", "\\text{a", "\\sqrt[", "\\left("] {
        assert!(latex_document_source(tex, "16").is_err(), "{}", tex);
    }
    assert!(latex_document_source("\\text x{a}", "16").is_ok());
    assert!(latex_document_source("\\text{a}", "16").is_ok());
}

#[test]
fn no_short_input_panics_once_checked() {
    let pieces = [
        "x", "2", "^", "_", "'", "{", "}", "[", "]", " ", "\\sqrt", "\\frac", "\\text{b}", "\\text", "\\left(",
        "\\right)", "\\end{a}", "\\operatorname{f}", "&", "\\\\", "\\begin{a}",
    ];
    let n = pieces.len();
    let mut checked = 0usize;
    for a in 0..n {
        for b in 0..=n {
            for c in 0..=n {
                let mut tex = String::from(pieces[a]);
                if b < n {
                    tex.push_str(pieces[b]);
                }
                if c < n {
                    tex.push_str(pieces[c]);
                }
                let refused = may_panic_converter(&tex);
                match latex_document_source(&tex, "10") {
                    Err(message) if refused => assert_eq!(message, UNSUPPORTED_LATEX),
                    _ => assert!(!refused, "{}", tex),
                }
                checked += 1;
            }
        }
    }
    assert_eq!(checked, n * (n + 1) * (n + 1));
}

#[test]
fn no_four_piece_input_panics_once_checked() {
    let pieces = ["x", "^", "_", "'", "{", "}", "]", "\\sqrt", "\\right)", " ", "\\begin{a}", "\\end{a}", "\\hat"];
    let n = pieces.len();
    let mut checked = 0usize;
    for a in 0..n {
        for b in 0..=n {
            for c in 0..=n {
                for d in 0..=n {
                    let mut tex = String::from(pieces[a]);
                    for k in [b, c, d] {
                        if k < n {
                            tex.push_str(pieces[k]);
                        }
                    }
                    let refused = may_panic_converter(&tex);
                    match latex_document_source(&tex, "10") {
                        Err(message) if refused => assert_eq!(message, UNSUPPORTED_LATEX),
                        _ => assert!(!refused, "{}", tex),
                    }
                    checked += 1;
                }
            }
        }
    }
    assert_eq!(checked, n * (n + 1) * (n + 1) * (n + 1));
}

#[test]
fn environments_and_primes_are_translated() {
    let doc = latex_document_source("\\begin{pmatrix}1&0\\\\0&1\\end{pmatrix}", "16").expect("a matrix");
    assert!(doc.contains("mat"), "{}", doc);
    assert!(latex_document_source("\\begin{m}a\\end{m}", "16").is_ok());
    assert!(latex_document_source("x^2 + f'(x)", "16").is_ok());
    match latex_document_source("\\begin{a}x\\end{b}", "16") {
        Ok(doc) => panic!("unexpected document {:?}", doc),
        Err(message) => assert_eq!(message, "Mismatched \\begin and \\end environments"),
    }
}

fn token(kind: TexTokKind, value: &str) -> TexTok {
    TexTok { kind, value: value.to_string() }
}

#[test]
fn token_patterns_decide() {
    let sup = || token(TexTokKind::Control, "^");
    let two = || token(TexTokKind::Element, "2");
    let prime = || token(TexTokKind::Element, "'");
    let space = || token(TexTokKind::Space, " ");
    assert!(may_panic_on_tokens(&vec![sup(), two(), prime()]));
    assert!(!may_panic_on_tokens(&vec![sup(), two(), space(), prime()]));
    assert!(may_panic_on_tokens(&vec![token(TexTokKind::Command, "\\sqrt")]));
    assert!(!may_panic_on_tokens(&vec![token(TexTokKind::Command, "\\sqrt"), two()]));
    assert!(may_panic_on_tokens(&vec![token(TexTokKind::Command, "\\begin")]));
    assert!(may_panic_on_tokens(&vec![token(TexTokKind::Command, "\\text"), two(), space(), prime()]));
    assert!(!may_panic_on_tokens(&vec![sup()]));
    assert!(!may_panic_on_tokens(&vec![]));
}

#[test]
fn no_longer_input_panics_once_checked() {
    let pieces = [
        "x", "2", "^", "_", "'", "{", "}", "[", "]", " ", "\n", "\\sqrt", "\\frac", "\\hat", "\\text{b}", "\\left(",
        "\\left.", "\\right)", "\\begin{a}", "\\end{a}", "\\begin{b}", "\\end{b}", "&", "\\\\", "\\dagger", "%c\n",
    ];
    let mut state: u64 = 0x2545_f491_4f6c_dd1d;
    let mut refused = 0usize;
    for _ in 0..40000 {
        let mut tex = String::new();
        state = state.wrapping_mul(6364136223846793005).wrapping_add(1442695040888963407);
        let len = 1 + (state >> 60) as usize % 9;
        for _ in 0..len {
            state = state.wrapping_mul(6364136223846793005).wrapping_add(1442695040888963407);
            tex.push_str(pieces[(state >> 33) as usize % pieces.len()]);
        }
        let flagged = may_panic_converter(&tex);
        match latex_document_source(&tex, "10") {
            Err(message) if flagged => assert_eq!(message, UNSUPPORTED_LATEX),
            _ => assert!(!flagged, "{}", tex),
        }
        if flagged {
            refused += 1;
        }
    }
    assert!(refused < 40000);
}
