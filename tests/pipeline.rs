use blog::error::BlogError;
use blog::front_matter::{find_delim, parse_metadata, split_front_matter};
use blog::render::{plan_code_blocks, render_markdown, Highlighter, Piece, Step};
use blog::repository::{
    collect_metadata, is_markdown_path, markdown_paths, post_matches, resolve_link, PostFile,
};
use blog::slug::{derive_slug, hyphenate_spaces};

fn post(title: &str, date: &str, summary: &str, body: &str) -> String {
    format!("---\ntitle: {}\ndate: {}\nsummary: {}\n---\n{}", title, date, summary, body)
}

fn file(path: &str, contents: &str) -> PostFile {
    PostFile { path: path.to_string(), contents: contents.to_string() }
}

#[test]
fn slug_of_hello_world() {
    assert_eq!(derive_slug("Hello World", "2024-01-01"), "hello-world-2024-01-01");
}

#[test]
fn slug_is_stable_across_calls() {
    let a = derive_slug("Hello World", "2024-01-01");
    let b = derive_slug("Hello World", "2024-01-01");
    assert_eq!(a, b);
}

#[test]
fn slug_keeps_punctuation_and_double_spaces() {
    assert_eq!(derive_slug("Rust's  Way!", "d"), "rust's--way!-d");
    assert_eq!(derive_slug("ÄB C", "x y"), "äb-c-x y");
}

#[test]
fn hyphenate_only_touches_spaces() {
    assert_eq!(hyphenate_spaces(" a b\tc "), "-a-b\tc-");
    assert_eq!(hyphenate_spaces(""), "");
}

#[test]
fn delimiters_are_found_in_order() {
    assert_eq!(find_delim("ab---cd---", 0), Some(2));
    assert_eq!(find_delim("ab---cd---", 5), Some(7));
    assert_eq!(find_delim("ab--cd", 0), None);
}

#[test]
fn front_matter_block_is_between_delimiters() {
    match split_front_matter("---\ntitle: a\n---\nbody") {
        Ok(h) => assert_eq!(h, "\ntitle: a\n"),
        Err(_) => panic!("expected a front-matter block"),
    }
}

#[test]
fn parse_full_metadata() {
    let m = parse_metadata(&post("Hello World", "2024-01-01", "A first post", "# Hi")).ok().unwrap();
    assert_eq!(m.title, "Hello World");
    assert_eq!(m.date, "2024-01-01");
    assert_eq!(m.summary, "A first post");
    assert_eq!(m.link, "hello-world-2024-01-01");
}

#[test]
fn missing_summary_is_a_metadata_error() {
    let r = parse_metadata("---\ntitle: Hello\ndate: 2024-01-01\n---\nbody");
    assert!(matches!(r, Err(BlogError::Metadata(_))));
}

#[test]
fn mistyped_title_is_a_metadata_error() {
    let r = parse_metadata("---\ntitle: [a, b]\ndate: 2024-01-01\nsummary: s\n---\nbody");
    assert!(matches!(r, Err(BlogError::Metadata(_))));
}

#[test]
fn one_delimiter_is_malformed() {
    let r = parse_metadata("---\ntitle: Hello\ndate: 2024-01-01\nsummary: s\n");
    assert!(matches!(r, Err(BlogError::MalformedDocument)));
}

#[test]
fn no_delimiter_is_malformed() {
    assert!(matches!(parse_metadata("just text"), Err(BlogError::MalformedDocument)));
}

#[test]
fn only_markdown_files_are_listed() {
    let paths = vec!["blog/notes.txt".to_string(), "blog/post.md".to_string()];
    assert_eq!(markdown_paths(&paths), vec!["blog/post.md".to_string()]);
}

#[test]
fn markdown_extension_is_exact() {
    assert!(is_markdown_path("blog/a.md"));
    assert!(is_markdown_path("blog/a.b.md"));
    assert!(!is_markdown_path("blog/.md"));
    assert!(!is_markdown_path("blog/a.MD"));
    assert!(!is_markdown_path("blog/a.mdx"));
    assert!(!is_markdown_path("md"));
}

#[test]
fn listing_parses_every_file_in_order() {
    let files = vec![
        file("blog/b.md", &post("Second", "2024-02-02", "two", "")),
        file("blog/a.md", &post("First", "2024-01-01", "one", "")),
    ];
    let ms = collect_metadata(&files).ok().unwrap();
    assert_eq!(ms.len(), 2);
    assert_eq!(ms[0].link, "second-2024-02-02");
    assert_eq!(ms[1].link, "first-2024-01-01");
}

#[test]
fn listing_fails_on_one_bad_file() {
    let files = vec![
        file("blog/a.md", &post("First", "2024-01-01", "one", "")),
        file("blog/b.md", "no front matter"),
    ];
    assert!(matches!(collect_metadata(&files), Err(BlogError::MalformedDocument)));
}

#[test]
fn listing_of_nothing_is_empty() {
    assert_eq!(collect_metadata(&Vec::new()).ok().unwrap().len(), 0);
}

#[test]
fn link_resolves_to_its_post() {
    let files = vec![
        file("blog/a.md", &post("First", "2024-01-01", "one", "")),
        file("blog/b.md", &post("Second Post", "2024-02-02", "two", "")),
    ];
    let path = resolve_link(&files, "second-post-2024-02-02").ok().unwrap();
    assert_eq!(path, "blog/b.md");
    let m = parse_metadata(&files[1].contents).ok().unwrap();
    assert_eq!(m.link, "second-post-2024-02-02");
}

#[test]
fn colliding_slugs_resolve_to_the_first() {
    let files = vec![
        file("blog/x.md", &post("Same", "2024-01-01", "one", "")),
        file("blog/y.md", &post("same", "2024-01-01", "two", "")),
    ];
    assert_eq!(resolve_link(&files, "same-2024-01-01").ok().unwrap(), "blog/x.md");
}

#[test]
fn unknown_link_is_not_found() {
    let files = vec![file("blog/a.md", &post("First", "2024-01-01", "one", ""))];
    assert!(matches!(resolve_link(&files, "nope"), Err(BlogError::NotFound)));
}

#[test]
fn bad_file_before_match_fails_resolution() {
    let files = vec![
        file("blog/bad.md", "---\ntitle: t\n---\n"),
        file("blog/a.md", &post("First", "2024-01-01", "one", "")),
    ];
    assert!(matches!(resolve_link(&files, "first-2024-01-01"), Err(BlogError::Metadata(_))));
}

#[test]
fn code_block_becomes_one_step() {
    let pieces = vec![
        Piece::Other,
        Piece::CodeStart(Some("rust".to_string())),
        Piece::Text("fn main() {\n".to_string()),
        Piece::Text("}\n".to_string()),
        Piece::CodeEnd,
        Piece::Text("after".to_string()),
    ];
    let plan = plan_code_blocks(&pieces);
    assert_eq!(plan.len(), 3);
    assert!(matches!(plan[0], Step::Pass(0)));
    match &plan[1] {
        Step::Highlight(Some(lang), code) => {
            assert_eq!(lang, "rust");
            assert_eq!(code, "fn main() {\n}\n");
        }
        _ => panic!("expected a highlighting step"),
    }
    assert!(matches!(plan[2], Step::Pass(5)));
}

#[test]
fn indented_block_has_no_language() {
    let pieces = vec![Piece::CodeStart(None), Piece::Text("x".to_string()), Piece::CodeEnd];
    let plan = plan_code_blocks(&pieces);
    assert_eq!(plan.len(), 1);
    assert!(matches!(&plan[0], Step::Highlight(None, c) if c == "x"));
}

#[test]
fn rust_block_renders_one_highlighted_container() {
    let hl = Highlighter::load().ok().unwrap();
    let body = "Intro\n\n```rust\nfn main() {\n    println!(\"hi\");\n}\n```\n";
    let html = render_markdown(body, &hl).ok().unwrap();
    assert!(!html.contains("```"));
    assert_eq!(html.matches("<pre").count(), 1);
    assert!(!html.contains("<code"));
    assert!(html.contains("<p>Intro</p>"));
    assert!(html.contains("main"));
}

#[test]
fn unknown_language_falls_back_to_plain_text() {
    let hl = Highlighter::load().ok().unwrap();
    let body = "```nosuchlanguage\nsome words\n```\n";
    let html = render_markdown(body, &hl).ok().unwrap();
    assert_eq!(html.matches("<pre").count(), 1);
    assert!(html.contains("some words"));
}

#[test]
fn front_matter_is_not_rendered() {
    let hl = Highlighter::load().ok().unwrap();
    let html = render_markdown(&post("T", "d", "s", "# Heading\n"), &hl).ok().unwrap();
    assert!(html.contains("<h1>Heading</h1>"));
    assert!(!html.contains("summary"));
}

#[test]
fn highlight_wraps_code() {
    let hl = Highlighter::load().ok().unwrap();
    let html = hl.highlight("let x = 1;\n", &Some("rs".to_string())).ok().unwrap();
    assert!(html.starts_with("<pre"));
    assert!(html.contains("let"));
}

#[test]
fn errors_describe_themselves() {
    assert_eq!(BlogError::NotFound.describe(), "Not Found");
    assert_eq!(BlogError::Io("gone".to_string()).describe(), "gone");
}

fn render(body: &str) -> String {
    let hl = Highlighter::load().ok().unwrap();
    render_markdown(body, &hl).ok().unwrap()
}

#[test]
fn numeric_date_is_read_as_text() {
    let m = parse_metadata("---\ntitle: Hello\ndate: 2024\nsummary: s\n---\nbody").ok().unwrap();
    assert_eq!(m.date, "2024");
    assert_eq!(m.link, "hello-2024");
}

#[test]
fn scalar_fields_are_read_verbatim() {
    let m = parse_metadata("---\ntitle: 1984\ndate: 20240101\nsummary: true\n---\n").ok().unwrap();
    assert_eq!(m.title, "1984");
    assert_eq!(m.date, "20240101");
    assert_eq!(m.summary, "true");
}

#[test]
fn empty_summary_is_accepted() {
    let m = parse_metadata("---\ntitle: T\ndate: D\nsummary:\n---\n").ok().unwrap();
    assert_eq!(m.summary, "");
}

#[test]
fn extra_list_field_is_ignored() {
    let m = parse_metadata("---\ntitle: T\ndate: D\nsummary: S\ntags: [a, b]\n---\n").ok().unwrap();
    assert_eq!(m.link, "t-D");
}

#[test]
fn missing_summary_names_the_field() {
    match parse_metadata("---\ntitle: T\ndate: D\n---\n") {
        Err(BlogError::Metadata(c)) => assert_eq!(c, "summary: missing field"),
        _ => panic!("expected a metadata error"),
    }
}

#[test]
fn post_matches_compares_slugs() {
    let c = post("Hello World", "2024-01-01", "s", "");
    assert!(matches!(post_matches(&c, "hello-world-2024-01-01"), Ok(true)));
    assert!(matches!(post_matches(&c, "other"), Ok(false)));
    assert!(matches!(post_matches("nothing", "x"), Err(BlogError::MalformedDocument)));
}

#[test]
fn metadata_error_cause_is_stable() {
    let a = parse_metadata("---\ntitle: Hello\n---\nbody");
    let b = parse_metadata("---\ntitle: Hello\n---\nbody");
    match (a, b) {
        (Err(BlogError::Metadata(x)), Err(BlogError::Metadata(y))) => {
            assert_eq!(x, y);
            assert!(x.starts_with("date: "));
        }
        _ => panic!("expected metadata errors"),
    }
}

#[test]
fn page_without_code_passes_through() {
    assert_eq!(
        render("# Title\n\nSome *text* and ~~gone~~\n"),
        "<h1>Title</h1>\n<p>Some <em>text</em> and <del>gone</del></p>\n"
    );
}

#[test]
fn front_matter_block_is_skipped() {
    assert_eq!(render("---\ntitle: T\ndate: D\nsummary: S\n---\nHello\n"), "<p>Hello</p>\n");
}

#[test]
fn unknown_token_renders_like_no_token() {
    let a = render("```nosuchlang\nabc\n```\n");
    let b = render("```\nabc\n```\n");
    assert_eq!(a, b);
    assert!(a.starts_with("<pre style=\"background-color:#2b303b;\">"));
    assert!(a.contains("abc"));
}

#[test]
fn indented_block_is_plain_text() {
    assert_eq!(render("    let x = 1;\n"), render("```\nlet x = 1;\n```\n"));
}

#[test]
fn blocks_are_highlighted_in_order() {
    let h = render("```\nA\n```\n\nB\n\n```\nC\n```\n");
    assert_eq!(h.matches("<pre style=\"background-color:#2b303b;\">").count(), 2);
    assert!(!h.contains("<pre><code"));
    let a = h.find('A').unwrap();
    let b = h.find("<p>B</p>").unwrap();
    let c = h.find('C').unwrap();
    assert!(a < b && b < c);
    let first = &h[..b];
    assert!(!first.contains('C'));
    assert!(!h[b..].contains('A'));
}

#[test]
fn rendering_is_deterministic() {
    let body = "Text\n\n```rust\nfn f() {}\n```\n";
    assert_eq!(render(body), render(body));
}
