use trimark::compose::compose;
use trimark::markup::{escape, AttrVal, Writer};

fn count(haystack: &str, needle: &str) -> usize {
    haystack.matches(needle).count()
}

#[test]
fn escape_replaces_reserved_characters() {
    assert_eq!(escape("a<b&c\"d>e"), "a&lt;b&amp;c&quot;d&gt;e");
    assert_eq!(escape(""), "");
    assert_eq!(escape("plain"), "plain");
    assert_eq!(escape("&&"), "&amp;&amp;");
}

#[test]
fn writer_escapes_text_attributes() {
    let mut w = Writer::new();
    w.open_tag("root", &[("data", AttrVal::Text("a<b&c\"d>e"))]);
    w.close_tag();
    let s = w.finish();
    assert!(s.starts_with("<?xml"));
    assert!(s.contains("data=\"a&lt;b&amp;c&quot;d&gt;e\""));
    assert!(s.ends_with("</root>"));
}

#[test]
fn adversarial_attribute_round_trips_through_a_parser() {
    let original = "a<b&c\"d>e & more";
    let mut w = Writer::new();
    w.open_tag("root", &[("data", AttrVal::Text(original))]);
    w.close_tag();
    let s = w.finish();
    let doc = roxmltree::Document::parse(&s).expect("escaped document parses");
    let root = doc.root_element();
    assert_eq!(root.attribute("data"), Some(original));
}

#[test]
fn writer_nests_and_closes_in_reverse_order() {
    let mut w = Writer::new();
    w.open_tag("a", &[]);
    w.open_tag("b", &[("k", AttrVal::Pre("v"))]);
    w.empty_tag("c", &[]);
    w.close_tag();
    w.close_tag();
    let s = w.finish();
    assert_eq!(
        s,
        "<?xml version=\"1.0\" encoding=\"UTF-8\"?><a><b k=\"v\"><c/></b></a>"
    );
}

#[test]
fn document_has_expected_structure() {
    let s = compose(1_000_000, 950_000);
    assert!(s.starts_with("<?xml version=\"1.0\" encoding=\"UTF-8\"?><svg "));
    assert!(s.ends_with("</svg>"));
    assert!(s.contains("viewBox=\"0 0 1000 950\""));
    assert_eq!(count(&s, "<linearGradient"), 3);
    assert_eq!(count(&s, "<filter"), 1);
    assert_eq!(count(&s, "<circle"), 3);
    assert_eq!(count(&s, "<use"), 2);
    assert_eq!(count(&s, "id=\"t\""), 1);
    assert_eq!(count(&s, "href=\"#t\""), 2);
    assert_eq!(count(&s, "fill=\"url(#r)\""), 1);
    assert_eq!(count(&s, "fill=\"url(#g)\""), 1);
    assert_eq!(count(&s, "fill=\"url(#b)\""), 1);
    assert_eq!(count(&s, "<path"), 2);
    assert_eq!(count(&s, "<stop"), 6);
    assert_eq!(count(&s, "filter=\"url(#s)\""), 1);
}

#[test]
fn document_parses_and_counts_elements() {
    let s = compose(1_000_000, 950_000);
    let doc = roxmltree::Document::parse(&s).expect("document parses");
    let gradients: Vec<_> = doc
        .descendants()
        .filter(|n| n.has_tag_name("linearGradient"))
        .collect();
    assert_eq!(gradients.len(), 3);
    let mut ids: Vec<_> = gradients.iter().map(|n| n.attribute("id").unwrap()).collect();
    ids.sort();
    assert_eq!(ids, ["b", "g", "r"]);
    assert_eq!(doc.descendants().filter(|n| n.has_tag_name("filter")).count(), 1);
    let circles: Vec<_> = doc.descendants().filter(|n| n.has_tag_name("circle")).collect();
    assert_eq!(circles.len(), 3);
    let mut fills: Vec<_> = circles.iter().map(|n| n.attribute("fill").unwrap()).collect();
    fills.sort();
    assert_eq!(fills, ["url(#b)", "url(#g)", "url(#r)"]);
    for c in &circles {
        assert_eq!(c.attribute("r"), Some("170"));
    }
    let uses: Vec<_> = doc.descendants().filter(|n| n.has_tag_name("use")).collect();
    assert_eq!(uses.len(), 2);
    assert!(uses.iter().all(|n| n.attribute("href") == Some("#t")));
    assert!(uses.iter().any(|n| n.attribute("fill") == Some("#404040")));
    assert!(uses
        .iter()
        .any(|n| n.attribute("stroke") == Some("#FFF") && n.attribute("filter") == Some("url(#s)")));
    let paths: Vec<_> = doc.descendants().filter(|n| n.has_tag_name("path")).collect();
    assert_eq!(paths.len(), 2);
    for p in &paths {
        let d = p.attribute("d").unwrap();
        assert!(d.starts_with('M'));
        assert!(d.ends_with('Z'));
        assert!(d.chars().all(|c| c.is_ascii_digit() || "MLCZ.,- ".contains(c)));
    }
}

#[test]
fn composing_twice_is_byte_identical() {
    let a = compose(1_000_000, 950_000);
    let b = compose(1_000_000, 950_000);
    assert_eq!(a, b);
    let c = compose(1_000_000, 1_000_000);
    let d = compose(1_000_000, 1_000_000);
    assert_eq!(c, d);
    assert_ne!(a, c);
}

#[test]
fn square_canvas_variant_keeps_the_structure() {
    let s = compose(1_000_000, 1_000_000);
    assert!(s.contains("viewBox=\"0 0 1000 1000\""));
    assert_eq!(count(&s, "<linearGradient"), 3);
    assert_eq!(count(&s, "<circle"), 3);
    roxmltree::Document::parse(&s).expect("document parses");
}

#[test]
fn badge_circles_sit_at_rounded_positions() {
    // canvas 1000 x 950: center (500, 530); badge 0 at (500, 290),
    // badges 1 and 2 offset horizontally by 240 * sqrt(3) / 2 = 207.846097
    let s = compose(1_000_000, 950_000);
    assert!(s.contains("cx=\"500\" cy=\"290\""));
    assert!(s.contains("cx=\"707.846\" cy=\"650\""));
    assert!(s.contains("cx=\"292.154\" cy=\"650\""));
}
