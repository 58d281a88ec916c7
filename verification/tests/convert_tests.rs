use mdsite::classify::{classify_line, segment_document, LineClass, SegmentKind};
use mdsite::convert::convert;
use mdsite::rewrite::rewrite;

#[test]
fn no_fence_single_formatted_segment() {
    let segs = segment_document("just *some* text");
    assert_eq!(segs.len(), 1);
    assert!(matches!(segs[0].kind, SegmentKind::Formatted));
    assert_eq!(segs[0].text.as_str(), "just *some* text");
    assert_eq!(convert("hello").as_str(), "<p>hello</p>");
}

#[test]
fn fences_alternate_kinds() {
    let segs = segment_document("a```b```c");
    assert_eq!(segs.len(), 3);
    assert!(matches!(segs[0].kind, SegmentKind::Formatted));
    assert!(matches!(segs[1].kind, SegmentKind::Literal));
    assert!(matches!(segs[2].kind, SegmentKind::Formatted));
    assert_eq!(segs[1].text.as_str(), "b");
}

#[test]
fn bold_element() {
    assert_eq!(convert("**bold**").as_str(), "<p><strong>bold</strong></p>");
}

#[test]
fn italic_element() {
    assert_eq!(convert("*italic*").as_str(), "<p><i>italic</i></p>");
}

#[test]
fn bold_rule_runs_before_italic_rule() {
    // the doubled markers are consumed by the bold rule; the leftover single
    // markers fall to the italic rule
    assert_eq!(convert("***x***").as_str(), "<p><strong><i>x</strong></i></p>");
    assert_eq!(
        convert("***bold italic*** mix").as_str(),
        "<p><strong><i>bold italic</strong></i> mix</p>"
    );
}

#[test]
fn underline_element() {
    assert_eq!(convert("__under__").as_str(), "<p><u>under</u></p>");
}

#[test]
fn heading_level_one() {
    assert_eq!(convert("# Title").as_str(), "<h1>Title</h1>");
}

#[test]
fn heading_level_two() {
    assert_eq!(convert("## Two").as_str(), "<h2>Two</h2>");
}

#[test]
fn plain_line_is_paragraph() {
    assert_eq!(convert("Title").as_str(), "<p>Title</p>");
}

#[test]
fn anchor_element() {
    assert_eq!(
        convert("[A](http://x)").as_str(),
        "<p><a href=\"http://x\">A</a></p>"
    );
}

#[test]
fn literal_segment_is_never_rewritten() {
    // heading marks, emphasis markers and link syntax all pass through
    assert_eq!(
        convert("```\n# not a heading **x**\n```").as_str(),
        "<pre><code><p># not a heading **x**</p></code></pre>"
    );
    assert_eq!(
        convert("```\n[label](target)\n```").as_str(),
        "<pre><code><p>[label](target)</p></code></pre>"
    );
}

#[test]
fn odd_fence_count_reads_tail_as_literal() {
    assert_eq!(
        convert("a```b").as_str(),
        "<p>a</p><pre><code><p>b</p></code></pre>"
    );
}

#[test]
fn inline_fence_inside_sentence() {
    assert_eq!(
        convert("code: ```let x = 1;``` done").as_str(),
        "<p>code:</p><pre><code><p>let x = 1;</p></code></pre><p>done</p>"
    );
}

#[test]
fn empty_document_converts_to_nothing() {
    assert_eq!(convert("").as_str(), "");
}

#[test]
fn unclosed_bold_marker_passes_to_italic_rule() {
    assert_eq!(convert("**x").as_str(), "<p><i></i>x</p>");
}

#[test]
fn hash_without_whitespace_is_a_paragraph() {
    assert_eq!(convert("#x").as_str(), "<p>#x</p>");
}

#[test]
fn seven_hashes_do_not_match_the_heading_rule() {
    assert_eq!(convert("####### seven").as_str(), "<p>####### seven</p>");
}

#[test]
fn lone_hash_is_a_paragraph() {
    assert_eq!(convert("#").as_str(), "<p>#</p>");
}

#[test]
fn surrounding_whitespace_is_trimmed() {
    assert_eq!(convert("   spaced   ").as_str(), "<p>spaced</p>");
}

#[test]
fn multi_line_document() {
    assert_eq!(
        convert("# Hi\n\nSome **text**.").as_str(),
        "<h1>Hi</h1><br><p>Some <strong>text</strong>.</p>"
    );
}

#[test]
fn link_label_ends_at_first_closing_bracket() {
    // the first `]` is not followed by `(`, so nothing matches
    assert_eq!(convert("[a]b](x)").as_str(), "<p>[a]b](x)</p>");
}

#[test]
fn rewrite_chain_on_bare_lines() {
    assert_eq!(rewrite("# T").as_str(), "<h1>T</h1>");
    assert_eq!(rewrite("**b**").as_str(), "<strong>b</strong>");
    assert_eq!(rewrite("plain").as_str(), "plain");
}

#[test]
fn level_zero_heading_quirk_in_the_bare_rule() {
    // the heading rule itself permits zero hash marks before the whitespace;
    // the degenerate level-0 tag is kept deliberately
    assert_eq!(rewrite(" x").as_str(), "<h0>x</h0>");
}

#[test]
fn classify_blank_heading_paragraph() {
    assert!(matches!(classify_line("   "), LineClass::Blank));
    match classify_line("  ## Two  ") {
        LineClass::Heading { level, text } => {
            assert_eq!(level, 2);
            assert_eq!(text.as_str(), "Two");
        }
        _ => panic!("expected a heading"),
    }
    match classify_line("plain words") {
        LineClass::Paragraph { text } => assert_eq!(text.as_str(), "plain words"),
        _ => panic!("expected a paragraph"),
    }
    assert!(matches!(classify_line("#x"), LineClass::Paragraph { .. }));
}
