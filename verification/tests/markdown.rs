use scraper::Html;
use scraper::Selector;
use webpage_scraper::markdown::join_pieces;
use webpage_scraper::markdown::level_of;
use webpage_scraper::markdown::render;
use webpage_scraper::markdown::trim_bounds;
use webpage_scraper::webpage::WebPage;

fn chars(s: &str) -> Vec<char> {
    s.chars().collect()
}

fn element(tag: &str, pieces: &[&str]) -> (String, Vec<String>) {
    (tag.to_string(), pieces.iter().map(|p| p.to_string()).collect())
}

fn markdown_by_scraper(html: &str) -> String {
    let fragment = Html::parse_fragment(html);
    let root = fragment.root_element();
    let headings = Selector::parse("h1, h2, h3, h4, h5, h6").unwrap();
    let texts = Selector::parse("p, div, span, article, section, main").unwrap();
    let mut markdown = String::new();
    for found in root.select(&headings).chain(root.select(&texts)) {
        let text = found.text().collect::<Vec<_>>().join(" ").trim().to_string();
        if text.is_empty() {
            continue;
        }
        let level = match found.value().name() {
            "h1" => 1,
            "h2" => 2,
            "h3" => 3,
            "h4" => 4,
            "h5" => 5,
            "h6" => 6,
            _ => 0,
        };
        if level > 0 {
            markdown.push_str(&"#".repeat(level));
            markdown.push(' ');
        }
        markdown.push_str(&text);
        markdown.push_str("\n\n");
    }
    markdown.trim().to_string().replace("\n\n\n", "\n\n")
}

#[test]
fn trim_bounds_cut_whitespace_at_both_ends() {
    assert_eq!(trim_bounds(&chars("  a b  ")), (2, 5));
    assert_eq!(trim_bounds(&chars("a")), (0, 1));
    assert_eq!(trim_bounds(&chars("\u{3000}a\u{00A0}\n")), (1, 2));
    assert_eq!(trim_bounds(&chars("   ")), (3, 3));
    assert_eq!(trim_bounds(&chars("")), (0, 0));
}

#[test]
fn pieces_are_joined_by_single_spaces() {
    let pieces = |list: &[&str]| list.iter().map(|p| p.to_string()).collect::<Vec<_>>();
    assert_eq!(join_pieces(&pieces(&[])), chars(""));
    assert_eq!(join_pieces(&pieces(&["a"])), chars("a"));
    assert_eq!(join_pieces(&pieces(&["a", "b"])), chars("a b"));
    assert_eq!(join_pieces(&pieces(&["a ", "", " b"])), chars("a    b"));
    assert_eq!(join_pieces(&pieces(&["", ""])), chars(" "));
}

#[test]
fn only_h1_to_h6_are_headings() {
    assert_eq!(level_of("h1"), 1);
    assert_eq!(level_of("h2"), 2);
    assert_eq!(level_of("h3"), 3);
    assert_eq!(level_of("h4"), 4);
    assert_eq!(level_of("h5"), 5);
    assert_eq!(level_of("h6"), 6);
    assert_eq!(level_of("h0"), 0);
    assert_eq!(level_of("h7"), 0);
    assert_eq!(level_of("H1"), 0);
    assert_eq!(level_of("h"), 0);
    assert_eq!(level_of("h10"), 0);
    assert_eq!(level_of("p"), 0);
    assert_eq!(level_of(""), 0);
}

#[test]
fn elements_become_blocks() {
    let elements = vec![
        element("h2", &["  A ", "b  "]),
        element("p", &[""]),
        element("span", &["  ", "\n"]),
        element("div", &["x\n\n\n\ny"]),
        element("h6", &["end"]),
    ];
    assert_eq!(render(&elements), "## A  b\n\nx\n\n\ny\n\n###### end");
}

#[test]
fn rendering_collapses_triple_line_feeds_from_the_left() {
    assert_eq!(render(&vec![element("p", &["a\n\n\nb"])]), "a\n\nb");
    assert_eq!(render(&vec![element("p", &["a\n\n\n\n\nb"])]), "a\n\n\n\nb");
    assert_eq!(render(&vec![element("p", &["a\n\n\n\n\n\nb"])]), "a\n\n\n\nb");
    assert_eq!(render(&vec![element("p", &["a\n"]), element("p", &["\n\nb"])]), "a\n\nb");
}

#[test]
fn nothing_renders_to_nothing() {
    assert_eq!(render(&Vec::new()), "");
    assert_eq!(render(&vec![element("p", &[]), element("h1", &["  "])]), "");
}

#[test]
fn headings_come_before_text_blocks() {
    let html = "<div><p>First <b>bold</b> words.</p><h1>Title</h1></div><h3> Sub </h3><span>tail</span>";
    assert_eq!(
        WebPage::html_to_simple_markdown(html),
        "# Title\n\n### Sub\n\nFirst  bold  words. Title\n\nFirst  bold  words.\n\ntail"
    );
}

#[test]
fn plain_markdown_agrees_with_the_same_walk_over_scraper() {
    let samples = [
        "",
        "plain text without elements",
        "<p>one</p>",
        "<h1>T</h1><p>a</p><p>b</p>",
        "<article><h2>Head</h2><section><p>x</p><p> </p><div>y<span>z</span></div></section></article>",
        "<main>\n\n\n<p>spaced\n\n\n\nout</p>\n\n\n</main>",
        "<ul><li>not taken</li></ul><h4>caf\u{00E9}\u{00A0}</h4>",
        "<table><tr><td><p>cell</p></td></tr></table><h5>five</h5><h6>six</h6>",
        "<p>unclosed <div>nested <span>deep",
        "<script>var p = '<p>no</p>';</script><p>yes</p>",
    ];
    for sample in samples {
        assert_eq!(
            WebPage::html_to_simple_markdown(sample),
            markdown_by_scraper(sample),
            "{:?}",
            sample
        );
    }
}
