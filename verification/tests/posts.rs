use andy::date::{date_from_parsed, date_or_text, format_date, Timestamp};
use andy::error::BlogPostError;
use andy::frontmatter::{parse_frontmatter, parse_header, split_frontmatter};
use andy::highlight::{outcome_from, SyntaxHighlightRegistry};
use andy::markdown::{
    code_block_events, highlight_code_blocks, render_markdown, CodeBlockKind, MarkdownEvent,
};
use andy::post::{find_by_slug, insert_by_date, BlogPost};
use andy::text::{chars_of, find_char, find_delimiter, piece, range_is, trim_bounds, whitespace};

const SYNTAX_POST: &str = "---
title: Syntax Test Post
date: 2024-03-01T15:00:00Z
description: Testing syntax highlighting
slug: syntax-test
---

# Testing Syntax Highlighting

Here's a Rust code block:

```rust
fn main() {
    println!(\"Hello, world!\");
}
```

And JavaScript:

```javascript
console.log(\"Hello, world!\");
```
";

fn post_text(title: &str, date: &str, slug: &str) -> String {
    format!(
        "---\ntitle: {}\ndate: {}\ndescription: About {}\nslug: {}\n---\nBody of {}\n",
        title, date, title, slug, slug
    )
}

fn strip_markup(html: &str) -> String {
    let mut out = String::new();
    let mut in_tag = false;
    for c in html.chars() {
        if c == '<' {
            in_tag = true;
        } else if c == '>' {
            in_tag = false;
        } else if !in_tag {
            out.push(c);
        }
    }
    out.replace("&quot;", "\"")
        .replace("&lt;", "<")
        .replace("&gt;", ">")
        .replace("&#39;", "'")
        .replace("&amp;", "&")
}

#[test]
fn test_blog_post_creation_and_rendering() {
    let registry = SyntaxHighlightRegistry::new();
    let files = vec![Ok(SYNTAX_POST.to_string())];
    let posts = BlogPost::get_all_posts(&registry, &files);
    let test_post = posts.iter().find(|p| p.slug == "syntax-test").expect("Test post not found");
    assert_eq!(test_post.title, "Syntax Test Post");
    assert_eq!(test_post.description, "Testing syntax highlighting");
    assert!(test_post.html_content.contains("<pre"));
    assert!(test_post.html_content.contains("code-rust"));
    assert!(test_post.html_content.contains("code-javascript"));
}

#[test]
fn complete_header_gives_its_values() {
    let registry = SyntaxHighlightRegistry::new();
    let text = "---\n  title:   Test Post  \ndate: 2024-03-01T12:00:00Z\ndescription: A test post\nslug: test-post\n---\n\nTest post content.\n";
    let post = BlogPost::from_file(&registry, text).unwrap();
    assert_eq!(post.title, "Test Post");
    assert_eq!(post.description, "A test post");
    assert_eq!(post.slug, "test-post");
    assert_eq!(post.date, Timestamp { seconds: 1709294400, nanos: 0 });
    assert_eq!(post.content, "\n\nTest post content.\n");
    assert_eq!(post.html_content, "<p>Test post content.</p>\n");
}

#[test]
fn date_is_moved_to_utc() {
    assert_eq!(
        Timestamp::parse("2024-03-01T12:00:00+02:00").unwrap(),
        Timestamp { seconds: 1709287200, nanos: 0 }
    );
    assert_eq!(
        Timestamp::parse("1970-01-01T00:00:01.5Z").unwrap(),
        Timestamp { seconds: 1, nanos: 500_000_000 }
    );
    assert_eq!(
        Timestamp::parse("1969-12-31T23:59:59Z").unwrap(),
        Timestamp { seconds: -1, nanos: 0 }
    );
}

#[test]
fn dates_are_shown_long() {
    assert_eq!(format_date("2024-03-01T12:00:00Z"), "March  1, 2024");
    assert_eq!(format_date("2024-03-01T00:30:00+02:00"), "February 29, 2024");
    assert_eq!(format_date("1999-12-31T23:59:59.999Z"), "December 31, 1999");
    assert_eq!(format_date("not-a-date"), "not-a-date");
    assert_eq!(format_date(""), "");
    assert_eq!(date_or_text("x", Some("y".to_string())), "y");
    assert_eq!(date_or_text("x", None), "x");
}

#[test]
fn parser_outcome_becomes_header_outcome() {
    let t = Timestamp { seconds: 7, nanos: 9 };
    assert_eq!(date_from_parsed(Ok(t)).unwrap(), t);
    match date_from_parsed(Err("bad".to_string())) {
        Err(BlogPostError::FrontmatterParse(message)) => assert_eq!(message, "Invalid date: bad"),
        other => panic!("unexpected outcome: {:?}", other),
    }
}

#[test]
fn slug_lookup_finds_the_first() {
    let registry = SyntaxHighlightRegistry::new();
    let files = vec![
        Ok(post_text("A", "2023-01-01T00:00:00Z", "a")),
        Ok(post_text("B", "2023-01-02T00:00:00Z", "same")),
        Ok(post_text("C", "2023-01-03T00:00:00Z", "same")),
    ];
    let posts = BlogPost::get_all_posts(&registry, &files);
    assert_eq!(find_by_slug(&posts, "same"), Some(0));
    assert_eq!(posts[0].title, "C");
    assert_eq!(find_by_slug(&posts, "a"), Some(2));
    assert_eq!(find_by_slug(&posts, "missing"), None);
    assert_eq!(find_by_slug(&Vec::new(), "a"), None);
}

#[test]
fn later_instants_come_after() {
    let a = Timestamp { seconds: 10, nanos: 5 };
    let b = Timestamp { seconds: 10, nanos: 6 };
    let c = Timestamp { seconds: 11, nanos: 0 };
    assert!(b.after(&a));
    assert!(c.after(&b));
    assert!(!a.after(&b));
    assert!(!a.after(&a));
}

#[test]
fn each_missing_key_is_named() {
    let lines = [
        ("title", "title: A"),
        ("date", "date: 2024-03-01T12:00:00Z"),
        ("description", "description: B"),
        ("slug", "slug: c"),
    ];
    for (missing, _) in lines.iter() {
        let header: String =
            lines.iter().filter(|(k, _)| k != missing).map(|(_, l)| format!("{}\n", l)).collect();
        match parse_header(&header) {
            Err(BlogPostError::MissingField(field)) => assert_eq!(&field, missing),
            other => panic!("unexpected outcome: {:?}", other.map(|_| ())),
        }
    }
}

#[test]
fn first_missing_key_wins() {
    match parse_header("slug: only") {
        Err(BlogPostError::MissingField(field)) => assert_eq!(field, "title"),
        other => panic!("unexpected outcome: {:?}", other.map(|_| ())),
    }
    match parse_header("") {
        Err(BlogPostError::MissingField(field)) => assert_eq!(field, "title"),
        other => panic!("unexpected outcome: {:?}", other.map(|_| ())),
    }
}

#[test]
fn unparsable_date_is_a_header_error() {
    let text = "---\ntitle: A\ndate: not-a-date\ndescription: B\nslug: c\n---\nbody";
    match parse_frontmatter(text) {
        Err(BlogPostError::FrontmatterParse(message)) => {
            assert!(message.starts_with("Invalid date: "));
            assert!(message.len() > "Invalid date: ".len());
        },
        other => panic!("unexpected outcome: {:?}", other.map(|_| ())),
    }
}

#[test]
fn unparsable_date_comes_before_missing_keys() {
    match parse_header("date: yesterday\n") {
        Err(BlogPostError::FrontmatterParse(message)) => {
            assert!(message.starts_with("Invalid date: "))
        },
        other => panic!("unexpected outcome: {:?}", other.map(|_| ())),
    }
}

#[test]
fn fewer_than_two_delimiters_fail() {
    for text in ["", "no delimiter at all", "---\ntitle: A\n", "title: A\n---", "--- --", "-----"] {
        match split_frontmatter(text) {
            Err(BlogPostError::FrontmatterParse(message)) => {
                assert_eq!(message, "Invalid frontmatter format")
            },
            other => panic!("unexpected outcome for {:?}: {:?}", text, other.map(|_| ())),
        }
    }
}

#[test]
fn two_delimiters_split() {
    let (header, body) = split_frontmatter("---\ntitle: A\n---\nbody").unwrap();
    assert_eq!(header, "\ntitle: A\n");
    assert_eq!(body, "\nbody");
    let (header, body) = split_frontmatter("before---h---").unwrap();
    assert_eq!(header, "h");
    assert_eq!(body, "");
    let (header, body) = split_frontmatter("------").unwrap();
    assert_eq!(header, "");
    assert_eq!(body, "");
}

#[test]
fn delimiters_in_the_body_survive() {
    let text = "---\ntitle: A\n---\none\n\n---\n\ntwo --- three\n----\n";
    let (header, body) = split_frontmatter(text).unwrap();
    assert_eq!(header, "\ntitle: A\n");
    assert_eq!(body, "\none\n\n---\n\ntwo --- three\n----\n");
}

#[test]
fn delimiter_as_first_body_line() {
    let text = "---\ntitle: A\n---\n---\nrest";
    let (header, body) = split_frontmatter(text).unwrap();
    assert_eq!(header, "\ntitle: A\n");
    assert_eq!(body, "\n---\nrest");
}

#[test]
fn header_lines_are_read_loosely() {
    let header = "\n\nno separator here\nauthor: somebody\nTitle: wrong case\ntitle: first\r\ntitle: second: with colon \n  date :2024-03-01T12:00:00Z\ndescription:\nslug:\u{a0}s\u{3000}\n";
    let meta = parse_header(header).unwrap();
    assert_eq!(meta.title, "second: with colon");
    assert_eq!(meta.date, Timestamp { seconds: 1709294400, nanos: 0 });
    assert_eq!(meta.description, "");
    assert_eq!(meta.slug, "s");
}

#[test]
fn non_ascii_values_are_kept() {
    let text = "---\ntitle: Čaj — 茶\ndate: 2024-03-01T12:00:00Z\ndescription: é\nslug: caj\n---\nžluťoučký";
    let (meta, body) = parse_frontmatter(text).unwrap();
    assert_eq!(meta.title, "Čaj — 茶");
    assert_eq!(meta.description, "é");
    assert_eq!(body, "\nžluťoučký");
}

#[test]
fn text_helpers() {
    assert!(whitespace(' ') && whitespace('\t') && whitespace('\n') && whitespace('\r'));
    assert!(whitespace('\u{85}') && whitespace('\u{2003}') && whitespace('\u{3000}'));
    assert!(!whitespace('a') && !whitespace('-') && !whitespace('\u{200b}'));
    for c in (0u32..0x3100).filter_map(char::from_u32) {
        assert_eq!(whitespace(c), c.is_whitespace());
    }
    let chars = chars_of("  a-b: c---d ");
    assert_eq!(chars.len(), 13);
    assert_eq!(trim_bounds(&chars, 0, 13), (2, 12));
    assert_eq!(trim_bounds(&chars, 0, 2), (2, 2));
    assert_eq!(find_char(&chars, ':', 0, 13), 5);
    assert_eq!(find_char(&chars, ':', 6, 13), 13);
    assert_eq!(find_delimiter(&chars, 0), 8);
    assert_eq!(find_delimiter(&chars, 9), 13);
    assert!(range_is(&chars, 2, 5, "a-b"));
    assert!(!range_is(&chars, 2, 5, "a-c"));
    assert!(!range_is(&chars, 2, 6, "a-b"));
    assert_eq!(piece("žába skáče", 1, 4), "ába");
}

#[test]
fn messages_name_the_kind() {
    assert_eq!(
        BlogPostError::FrontmatterParse("x".to_string()).message(),
        "Failed to parse frontmatter: x"
    );
    assert_eq!(
        BlogPostError::MissingField("slug".to_string()).message(),
        "Missing required field: slug"
    );
    assert_eq!(
        BlogPostError::SyntaxHighlighting("y".to_string()).message(),
        "Syntax highlighting error: y"
    );
    let io = std::io::Error::new(std::io::ErrorKind::NotFound, "gone");
    assert_eq!(BlogPostError::Io(io).message(), "IO error: gone");
}

#[test]
fn known_language_becomes_one_fragment() {
    let registry = SyntaxHighlightRegistry::new();
    let code = "fn main() {\n    println!(\"<Hello> & bye\");\n}\n";
    let events = vec![
        MarkdownEvent::Other(0),
        MarkdownEvent::StartCodeBlock(CodeBlockKind::Fenced("rust".to_string())),
        MarkdownEvent::Text("fn main() {\n".to_string()),
        MarkdownEvent::Text("    println!(\"<Hello> & bye\");\n}\n".to_string()),
        MarkdownEvent::EndCodeBlock,
        MarkdownEvent::Other(1),
    ];
    let out = highlight_code_blocks(&registry, &events);
    assert_eq!(out.len(), 3);
    assert!(matches!(out[0], MarkdownEvent::Other(0)));
    assert!(matches!(out[2], MarkdownEvent::Other(1)));
    match &out[1] {
        MarkdownEvent::Html(html) => {
            assert!(html.starts_with("<pre class=\"code-block code-rust\"><code><pre style="));
            assert!(html.ends_with("</pre>\n</code></pre>"));
            assert_eq!(strip_markup(html), format!("\n{}\n", code));
        },
        other => panic!("unexpected event: {:?}", other),
    }
}

#[test]
fn grammar_is_found_by_extension_too() {
    let registry = SyntaxHighlightRegistry::new();
    let by_extension = registry.highlight("rs", "let x = 1;\n").unwrap().unwrap();
    let by_name = registry.highlight("Rust", "let x = 1;\n").unwrap().unwrap();
    assert_eq!(by_extension, by_name);
    assert!(by_name.starts_with("<pre style=\"background-color:#2b303b;\">\n<span"));
    assert!(by_name.ends_with("</span></pre>\n"));
    assert_eq!(strip_markup(&by_name), "\nlet x = 1;\n\n");
    assert!(matches!(registry.highlight("no-such-language", "let x = 1;\n"), Ok(None)));
    assert!(matches!(registry.highlight("", "let x = 1;\n"), Ok(None)));
}

#[test]
fn common_languages_highlight() {
    let registry = SyntaxHighlightRegistry::new();
    let sample = "fn main() { let x = \"1 < 2\"; } // done\n# title\n<a href='x'>y</a>\n";
    for token in ["rs", "js", "py", "c", "html", "sh"] {
        match registry.highlight(token, sample) {
            Ok(Some(markup)) => {
                assert!(markup.starts_with("<pre style="), "token {}", token);
                assert_eq!(strip_markup(&markup), format!("\n{}\n", sample), "token {}", token);
            },
            other => panic!("unexpected outcome for {}: {:?}", token, other),
        }
    }
}

#[test]
fn registry_holds_the_selected_theme() {
    let registry = SyntaxHighlightRegistry::new();
    assert_eq!(registry.theme_name(), "base16-ocean.dark");
    let theme = &syntect::highlighting::ThemeSet::load_defaults().themes["base16-ocean.dark"];
    let background = theme.settings.background.unwrap();
    let markup = registry.highlight("rs", "x\n").unwrap().unwrap();
    assert!(markup.starts_with(&format!(
        "<pre style=\"background-color:#{:02x}{:02x}{:02x};\">",
        background.r, background.g, background.b
    )));
    assert!(markup.starts_with("<pre style=\"background-color:#2b303b;\">"));
}

#[test]
fn lookup_outcomes_are_sorted() {
    assert_eq!(outcome_from(Some(Ok("<b>".to_string()))).unwrap(), Some("<b>".to_string()));
    assert_eq!(outcome_from(None).unwrap(), None);
    match outcome_from(Some(Err("regex".to_string()))) {
        Err(BlogPostError::SyntaxHighlighting(cause)) => assert_eq!(cause, "regex"),
        other => panic!("unexpected outcome: {:?}", other),
    }
}

#[test]
fn unknown_or_absent_language_stays_plain() {
    let registry = SyntaxHighlightRegistry::new();
    for (kind, lang) in [
        (CodeBlockKind::Fenced("no-such-language".to_string()), "no-such-language"),
        (CodeBlockKind::Fenced(String::new()), ""),
        (CodeBlockKind::Indented, ""),
    ] {
        let events = vec![
            MarkdownEvent::StartCodeBlock(kind),
            MarkdownEvent::Text("a <b> &\n".to_string()),
            MarkdownEvent::Text("  c\n".to_string()),
            MarkdownEvent::EndCodeBlock,
        ];
        let out = highlight_code_blocks(&registry, &events);
        assert_eq!(out.len(), 3);
        match &out[0] {
            MarkdownEvent::StartCodeBlock(CodeBlockKind::Fenced(l)) => assert_eq!(l, lang),
            MarkdownEvent::StartCodeBlock(CodeBlockKind::Indented) => assert_eq!(lang, ""),
            other => panic!("unexpected event: {:?}", other),
        }
        match &out[1] {
            MarkdownEvent::Text(text) => assert_eq!(text, "a <b> &\n  c\n"),
            other => panic!("unexpected event: {:?}", other),
        }
        assert!(matches!(out[2], MarkdownEvent::EndCodeBlock));
    }
}

#[test]
fn events_outside_code_blocks_pass_in_order() {
    let registry = SyntaxHighlightRegistry::new();
    let events = vec![
        MarkdownEvent::Other(3),
        MarkdownEvent::Text("plain".to_string()),
        MarkdownEvent::Html("<b>".to_string()),
        MarkdownEvent::Other(1),
    ];
    let out = highlight_code_blocks(&registry, &events);
    assert_eq!(out.len(), 4);
    assert!(matches!(out[0], MarkdownEvent::Other(3)));
    assert!(matches!(&out[1], MarkdownEvent::Text(t) if t == "plain"));
    assert!(matches!(&out[2], MarkdownEvent::Html(t) if t == "<b>"));
    assert!(matches!(out[3], MarkdownEvent::Other(1)));
}

#[test]
fn finished_block_is_written_by_its_outcome() {
    let out = code_block_events("rust", "x", Some("<span>x</span>".to_string()));
    assert_eq!(out.len(), 1);
    assert!(matches!(&out[0], MarkdownEvent::Html(h)
        if h == "<pre class=\"code-block code-rust\"><code><span>x</span></code></pre>"));
    let out = code_block_events("rust", "x", None);
    assert_eq!(out.len(), 3);
    assert!(matches!(&out[0], MarkdownEvent::StartCodeBlock(CodeBlockKind::Fenced(l)) if l == "rust"));
    assert!(matches!(&out[1], MarkdownEvent::Text(t) if t == "x"));
    assert!(matches!(out[2], MarkdownEvent::EndCodeBlock));
    let out = code_block_events("", "x", None);
    assert!(matches!(out[0], MarkdownEvent::StartCodeBlock(CodeBlockKind::Indented)));
}

#[test]
fn markdown_renders_as_without_highlighting_outside_known_blocks() {
    let registry = SyntaxHighlightRegistry::new();
    let body = "# Title\n\nSome *text* & <b>html</b>.\n\n---\n\n```nolang\na < b\n```\n\n    indented\n\n```\nbare\n```\n";
    let mut plain = String::new();
    pulldown_cmark::html::push_html(&mut plain, pulldown_cmark::Parser::new(body));
    assert_eq!(render_markdown(&registry, body), plain);
    assert!(plain.contains("<h1>Title</h1>"));
    assert!(plain.contains("<pre><code class=\"language-nolang\">a &lt; b\n</code></pre>"));
}

#[test]
fn known_block_renders_highlighted() {
    let registry = SyntaxHighlightRegistry::new();
    let html = render_markdown(&registry, "before\n\n```rust\nlet x = 1;\n```\n\nafter\n");
    assert!(html.starts_with("<p>before</p>\n<pre class=\"code-block code-rust\"><code><pre style="));
    assert!(html.ends_with("</code></pre>\n<p>after</p>\n"));
    assert!(!html.contains("language-rust"));
}

#[test]
fn listing_leaves_out_failures_and_orders_by_date() {
    let registry = SyntaxHighlightRegistry::new();
    let files = vec![
        Ok(post_text("Old", "2023-01-01T00:00:00Z", "old")),
        Ok("no header at all".to_string()),
        Err(BlogPostError::Io(std::io::Error::new(std::io::ErrorKind::NotFound, "gone"))),
        Ok(post_text("New", "2024-06-01T00:00:00Z", "new")),
        Ok("---\ntitle: No date\ndescription: d\nslug: s\n---\nbody".to_string()),
        Ok(post_text("Middle", "2023-06-01T08:00:00+02:00", "middle")),
        Ok(post_text("Bad", "not-a-date", "bad")),
        Ok(post_text("Middle too", "2023-06-01T06:00:00Z", "middle-too")),
    ];
    let posts = BlogPost::get_all_posts(&registry, &files);
    let slugs: Vec<&str> = posts.iter().map(|p| p.slug.as_str()).collect();
    assert_eq!(slugs, vec!["new", "middle", "middle-too", "old"]);
    assert_eq!(posts[0].content, "\nBody of new\n");
    assert_eq!(posts[0].html_content, "<p>Body of new</p>\n");
}

#[test]
fn listing_of_nothing_is_empty() {
    let registry = SyntaxHighlightRegistry::new();
    assert!(BlogPost::get_all_posts(&registry, &Vec::new()).is_empty());
}

#[test]
fn listing_twice_gives_the_same() {
    let registry = SyntaxHighlightRegistry::new();
    let files = vec![
        Ok(post_text("A", "2023-01-01T00:00:00Z", "a")),
        Ok(SYNTAX_POST.to_string()),
        Ok(post_text("B", "2023-01-01T00:00:00Z", "b")),
    ];
    let first = BlogPost::get_all_posts(&registry, &files);
    let second = BlogPost::get_all_posts(&SyntaxHighlightRegistry::new(), &files);
    assert_eq!(first, second);
    assert_eq!(first.len(), 3);
}

#[test]
fn insertion_keeps_the_order() {
    let registry = SyntaxHighlightRegistry::new();
    let make = |slug: &str, date: &str| {
        BlogPost::from_file(&registry, &post_text(slug, date, slug)).unwrap()
    };
    let mut posts = Vec::new();
    insert_by_date(&mut posts, make("b", "2024-01-02T00:00:00Z"));
    insert_by_date(&mut posts, make("d", "2024-01-01T00:00:00Z"));
    insert_by_date(&mut posts, make("a", "2024-01-03T00:00:00Z"));
    insert_by_date(&mut posts, make("c", "2024-01-02T00:00:00Z"));
    let slugs: Vec<&str> = posts.iter().map(|p| p.slug.as_str()).collect();
    assert_eq!(slugs, vec!["a", "b", "c", "d"]);
}
