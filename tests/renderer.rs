use rustpad::ui::renderer::{HighlightedRegion, HighlightedStyle, Renderer};

fn style(color: &str) -> HighlightedStyle {
    HighlightedStyle { color: color.to_string(), bold: false, italic: false }
}

#[test]
fn render_line_splits_around_regions() {
    let r = Renderer::new();
    let regions = vec![
        HighlightedRegion { start: 0, end: 2, style: style("#f00") },
        HighlightedRegion { start: 5, end: 7, style: style("#0f0") },
    ];
    let line = r.render_line("fn main()", &regions).unwrap();
    let segs = line.get_segments();
    let texts: Vec<&str> = segs.iter().map(|s| s.text.as_str()).collect();
    assert_eq!(texts, vec!["fn", " ma", "in", "()"]);
    assert!(segs[0].style.is_some());
    assert!(segs[1].style.is_none());
    assert_eq!(segs[2].style.as_ref().unwrap().color, "#0f0");
    assert!(segs[3].style.is_none());
}

#[test]
fn render_line_refuses_bad_regions() {
    let r = Renderer::new();
    let overlapping = vec![
        HighlightedRegion { start: 0, end: 3, style: style("a") },
        HighlightedRegion { start: 2, end: 4, style: style("b") },
    ];
    assert!(r.render_line("abcdef", &overlapping).is_none());
    let past_end = vec![HighlightedRegion { start: 1, end: 9, style: style("a") }];
    assert!(r.render_line("abc", &past_end).is_none());
    let inside_char = vec![HighlightedRegion { start: 0, end: 1, style: style("a") }];
    assert!(r.render_line("é", &inside_char).is_none());
    assert_eq!(r.render_line("plain", &vec![]).unwrap().get_segments().len(), 1);
    assert_eq!(r.render_line("", &vec![]).unwrap().get_segments().len(), 0);
}
