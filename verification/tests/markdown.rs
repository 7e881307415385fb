use book_studio_ui::conversation::AiMessageRole;
use book_studio_ui::display_markdown::{
    assistant_display_markdown, checked_display, has_no_active_content, image_label,
    literal_markdown, literal_message, parse_gfm, rewrite, visible_text, MarkdownNode, NodeKind,
    Rewrite,
};
use book_studio_ui::sidebar_display::selectable_message_text;
use markdown::mdast::Node;
use markdown::{to_mdast, ParseOptions};

fn display_tree(markdown: &str) -> MarkdownNode {
    let display = assistant_display_markdown(markdown);
    let tree = parse_gfm(&display).unwrap();
    assert!(has_no_active_content(&tree), "unsafe display: {display}");
    tree
}

fn outside_tree(markdown: &str) -> Node {
    to_mdast(markdown, &ParseOptions::gfm()).unwrap()
}

#[test]
fn preserves_markdown_structure_and_code_verbatim() {
    let content = "# 标题\n\n**粗体**、*强调*、~~删除~~ 和 `a < b`。\n\n> 引用\n\n1. 有序\n2. 第二项\n\n- 无序\n- [x] 已完成\n\n| 名称 | 值 |\n| --- | --- |\n| 示例 | 42 |\n\n---\n\n```python\n    print('[link](file:///secret)')\n    # <img src=https://example.test/tracker>\n```\n";
    assert_eq!(assistant_display_markdown(content), content);
    display_tree(content);
    let tree = outside_tree(&assistant_display_markdown(content));
    let children = tree.children().unwrap();
    assert!(children.iter().any(|node| matches!(node, Node::Heading(_))));
    assert!(children.iter().any(|node| matches!(node, Node::Blockquote(_))));
    assert!(children.iter().any(|node| matches!(node, Node::Table(_))));
    assert!(children.iter().any(|node| matches!(node, Node::Code(_))));
}

#[test]
fn links_and_autolinks_keep_labels_without_navigation() {
    let content = "[中文 **标签**](file:///C:/private.txt) [命令](shell:AppsFolder) [脚本](javascript:alert(1))\n\n<https://example.test/path> https://example.test/path www.example.test user@example.test\n\n[完整引用][ref] [ref][] [ref]\n\n[ref]: https://example.test/reference\n";
    let tree = display_tree(content);
    let text = visible_text(&tree);
    for label in [
        "中文 标签",
        "命令",
        "脚本",
        "https://example.test/path",
        "www.example.test",
        "user@example.test",
        "完整引用",
        "ref",
    ] {
        assert!(text.contains(label), "missing label: {label}; {text}");
    }
    assert!(!text.contains("file:///C:/private.txt"));
    assert!(!text.contains("shell:AppsFolder"));
}

#[test]
fn remote_and_local_images_keep_alt_without_loading() {
    let content = "![网络图片](https://example.test/tracker) ![本地图片](file:///C:/private.png) ![数据图片](data:image/png;base64,AAAA) ![参考图片][image]\n\n[![有链接的图片](https://example.test/image)](https://example.test/link) ![](https://example.test/empty)\n\n[image]: https://example.test/ref\n";
    let text = visible_text(&display_tree(content));
    for label in [
        "网络图片",
        "本地图片",
        "数据图片",
        "参考图片",
        "有链接的图片",
        "（图片）",
    ] {
        assert!(text.contains(label), "missing alt: {label}; {text}");
    }
    assert!(!text.contains("private.png"));
    assert!(!text.contains("base64"));
}

#[test]
fn raw_html_is_visible_literal_text() {
    let content = "<div>\n<img src=\"https://example.test/tracker\">\n<a href=\"file:///C:/private\">原始链接</a>\n<script>alert('x')</script>\n</div>\n\n行内 <img src='https://example.test/inline'> 和 <b>文字</b>。";
    let text = visible_text(&display_tree(content));
    assert!(text.contains("<img src=\"https://example.test/tracker\">"));
    assert!(text.contains("<script>alert('x')</script>"));
    assert!(text.contains("<b>文字</b>"));
}

#[test]
fn labels_cannot_become_html_or_markdown_when_decoded() {
    let content = "[&lt;img src=x&gt;](https://example.test) ![https://example.test](x) [www.example.test](x) [user@example.test](x) [\u{4e2d}\\[evil\\]\\(file:///x\\)](x)";
    let text = visible_text(&display_tree(content));
    assert!(text.contains("<img src=x>"));
    assert!(text.contains("https://example.test"));
    assert!(text.contains("中[evil](file:///x)"));
}

#[test]
fn streaming_prefixes_remain_safe_and_completed_code_keeps_its_contents() {
    let content = "# 回复\r\n\r\n[说明](https://example.test)\r\n\r\n```html\r\n<img src=\"https://example.test/code\">\r\n```\r\n\r\n![图片](https://example.test/image)";
    for (offset, _) in content.char_indices() {
        display_tree(&content[..offset]);
    }
    display_tree(content);
    let tree = outside_tree(&assistant_display_markdown(content));
    let code = tree
        .children()
        .unwrap()
        .iter()
        .find_map(|node| match node {
            Node::Code(code) => Some(code),
            _ => None,
        })
        .unwrap();
    assert_eq!(code.lang.as_deref(), Some("html"));
    assert_eq!(code.value, "<img src=\"https://example.test/code\">");
}

#[test]
fn literal_fallback_cannot_activate_markdown() {
    let content = "    <img src=x>\n[link](file:///x)\n![image](https://example.test)\nwww.example.test user@example.test\n\n``````\n<script>\n``````";
    assert!(has_no_active_content(&parse_gfm(&literal_message(content)).unwrap()));
    let tree = outside_tree(&literal_message(content));
    assert_eq!(tree.children().unwrap().len(), 1);
    let Node::Code(code) = &tree.children().unwrap()[0] else {
        panic!("the complete fallback must remain a single literal code block");
    };
    assert_eq!(code.value, content);
}

fn leaf(kind: NodeKind, text: &str, span: Option<(usize, usize)>) -> MarkdownNode {
    MarkdownNode { kind, text: text.to_string(), span, children: None }
}

#[test]
fn a_tree_decides_what_is_rewritten() {
    let content = "a <b> c";
    let inert = leaf(NodeKind::Plain, "a", Some((0, 7)));
    assert!(matches!(rewrite(content, &Some(inert)), Rewrite::Keep));
    assert!(matches!(rewrite(content, &None), Rewrite::Literal));
    let html = MarkdownNode {
        kind: NodeKind::Plain,
        text: String::new(),
        span: Some((0, 7)),
        children: Some(vec![leaf(NodeKind::Html, "<b>", Some((2, 5)))]),
    };
    match rewrite(content, &Some(html)) {
        Rewrite::Check(display) => assert_eq!(display, format!("a {} c", literal_markdown("<b>"))),
        _ => panic!("the tag is to be shown literally"),
    }
    // A part of which nobody knows where it stands cannot be replaced.
    let lost = leaf(NodeKind::Html, "<b>", None);
    assert!(matches!(rewrite(content, &Some(lost)), Rewrite::Literal));
}

#[test]
fn a_display_that_is_still_active_is_shown_literally() {
    let active = leaf(NodeKind::Link, "", Some((0, 1)));
    let inert = leaf(NodeKind::Plain, "x", Some((0, 1)));
    assert_eq!(
        checked_display("raw", "shown".to_string(), &Some(active)),
        literal_message("raw")
    );
    assert_eq!(checked_display("raw", "shown".to_string(), &None), literal_message("raw"));
    assert_eq!(checked_display("raw", "shown".to_string(), &Some(inert)), "shown");
}

#[test]
fn literal_text_escapes_what_could_be_markup() {
    assert_eq!(visible_text(&parse_gfm(&literal_markdown("*a* <b> [c]")).unwrap()), "*a* <b> [c]");
    assert_eq!(image_label(""), "（图片）");
    assert!(!literal_markdown("<").contains('<'));
    assert!(literal_message("``` ````").starts_with("`````"));
}

#[test]
fn a_display_is_made_once_for_a_message() {
    let mut cache = None;
    let link = "[说明](https://example.test)";
    let shown = selectable_message_text(&mut cache, AiMessageRole::Assistant, link);
    assert_eq!(shown, assistant_display_markdown(link));
    assert!(!shown.contains("](https://example.test)"));
    let again = selectable_message_text(&mut cache, AiMessageRole::Assistant, link);
    assert_eq!(again, shown);
    let user = selectable_message_text(&mut cache, AiMessageRole::User, link);
    assert_eq!(user, "<p>[说明](https://example.test)</p>");
}

#[test]
fn showing_a_shown_answer_again_changes_nothing() {
    for content in [
        "plain *text*",
        "[说明](https://example.test) and ![图](x)",
        "<div>\n<script>x</script>\n</div>\n\n[a][b]\n\n[b]: https://example.test",
        "``` \n<img src=x>",
    ] {
        let once = assistant_display_markdown(content);
        assert_eq!(assistant_display_markdown(&once), once);
        let block = literal_message(content);
        assert_eq!(assistant_display_markdown(&block), block);
    }
}

#[test]
fn literal_text_is_decoded_to_itself() {
    assert_eq!(literal_markdown("&a#1;"), "&#38;a&#35;1&#59;");
    for text in ["&#38;", "!\"#$%&'()*+,-./:;<=>?@[\\]^_`{|}~", "中文 & [x](y)"] {
        assert_eq!(visible_text(&parse_gfm(&literal_markdown(text)).unwrap()), text);
    }
}

#[test]
fn a_block_of_code_holds_whatever_it_is_given() {
    for content in [
        "",
        "\n",
        "> [a](b)",
        "- [a](b)\n- <b>",
        "1. ![x](y)",
        "[^1]: <i>x</i>\n[^1]",
        "[a]: https://example.test\n[a]",
        "```\n[a](b)\n```",
        "~~~\n[a](b)\n~~~",
        "  ``\n\t``` \n[a](b)",
        "````\r[a](b)\r```` \r<b>",
        "\u{0}\u{feff}<b>\u{2028}[a](b)",
        "---\ntitle: x\n---\n<script>",
        "| [a](b) | www.example.test |\n| --- | --- |",
        "text ``` text\n``` ```` `",
        "\n> ```\n> [a](b)\n",
    ] {
        let block = literal_message(content);
        assert!(has_no_active_content(&parse_gfm(&block).unwrap()), "{block}");
        assert_eq!(assistant_display_markdown(&block), block);
        let tree = outside_tree(&block);
        assert_eq!(tree.children().unwrap().len(), 1, "{block}");
        assert!(matches!(tree.children().unwrap()[0], Node::Code(_)), "{block}");
    }
}
