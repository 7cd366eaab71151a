use sitemirror::extract::extract_links;

#[test]
fn categories_in_fixed_order() {
    let html = "<link href=\"s.css\"><script src=\"s.js\"></script>\
                <img src=\"i.png\"><a href=\"p.html\">x</a>";
    let links = extract_links(html);
    assert_eq!(links, vec!["p.html", "i.png", "s.js", "s.css"]);
}

#[test]
fn document_order_within_a_category() {
    let html = "<img src=\"1.png\"><p><img src=\"2.png\"></p><img src=\"3.png\">";
    let links = extract_links(html);
    assert_eq!(links, vec!["1.png", "2.png", "3.png"]);
}

#[test]
fn anchor_without_href_ignored() {
    let html = "<a name=\"top\">t</a><a href=\"p.html\">p</a>";
    let links = extract_links(html);
    assert_eq!(links, vec!["p.html"]);
}

#[test]
fn plain_text_yields_no_links() {
    let links = extract_links("just some text, no markup");
    assert!(links.is_empty());
}

#[test]
fn empty_document_yields_no_links() {
    let links = extract_links("");
    assert!(links.is_empty());
}
