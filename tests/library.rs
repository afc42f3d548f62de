use http_file_uploader::client::{
    artifact_url, make_clipboard_command, make_existing_mimes_command, listed_words, parse_existing_mimes,
    upload_url,
};
use http_file_uploader::markdown::{find_description, is_describing, markdown_title_and_description, split_lines, strip_heading_marker};
use http_file_uploader::naming::{generate, is_base_name, make_artifact_name, name_from_draws, NameRegistry, MAX_NAME_ATTEMPTS, WORDS_PER_LIST};
use http_file_uploader::render::{render_html, render_markdown};
use http_file_uploader::retention::{RetentionTask, RETENTION_SECS};
use http_file_uploader::route::{bearer_header, is_authorized, is_valid_ext, parse_upload_segment, upload_route};
use http_file_uploader::serve::{file_extension, postprocess_for, PostProcess};
use http_file_uploader::sniff::{guess_ext_from_bytes, PrefixBuffer, PREFIX_BUDGET, TEXT_EXT, UNKNOWN_EXT};
use http_file_uploader::store::{EphemeralStore, ShutdownCoordinator, ShutdownPhase};

fn strings(v: &[&str]) -> Vec<String> {
    v.iter().map(|s| s.to_string()).collect()
}

#[test]
fn valid_extensions() {
    assert!(is_valid_ext("txt"));
    assert!(is_valid_ext("A1b2C"));
    assert!(!is_valid_ext(""));
    assert!(!is_valid_ext("abcdef"));
    assert!(!is_valid_ext("t-t"));
    assert!(!is_valid_ext("tär"));
}

#[test]
fn upload_segment_parsing() {
    assert_eq!(parse_upload_segment("upload.txt"), Some("txt".to_string()));
    assert_eq!(parse_upload_segment("upload.png"), Some("png".to_string()));
    assert_eq!(parse_upload_segment("upload.12345"), Some("12345".to_string()));
    assert_eq!(parse_upload_segment("upload."), None);
    assert_eq!(parse_upload_segment("upload"), None);
    assert_eq!(parse_upload_segment("upload.tar.gz"), None);
    assert_eq!(parse_upload_segment("upload.toolong"), None);
    assert_eq!(parse_upload_segment("uploads.txt"), None);
    assert_eq!(parse_upload_segment("Upload.txt"), None);
}

#[test]
fn bearer_token_is_exact() {
    assert_eq!(bearer_header("test"), "Bearer test");
    assert!(is_authorized(Some("Bearer test"), "test"));
    assert!(!is_authorized(Some("bearer test"), "test"));
    assert!(!is_authorized(Some("Bearer test "), "test"));
    assert!(!is_authorized(Some("Bearer tes"), "test"));
    assert!(!is_authorized(None, "test"));
}

#[test]
fn upload_route_accepts_authorized_post() {
    let seg = strings(&["upload.txt"]);
    assert_eq!(upload_route(true, &seg, Some("Bearer test"), "test"), Some("txt".to_string()));
    assert_eq!(upload_route(false, &seg, Some("Bearer test"), "test"), None);
    let nested = strings(&["upload.txt", "more"]);
    assert_eq!(upload_route(true, &nested, Some("Bearer test"), "test"), None);
}

#[test]
fn unauthorized_upload_looks_like_unmatched_route() {
    let seg = strings(&["upload.txt"]);
    let unmatched = strings(&["nothing-here"]);
    let unmatched_answer = upload_route(true, &unmatched, Some("Bearer test"), "test");
    assert_eq!(upload_route(true, &seg, Some("Bearer wrong"), "test"), unmatched_answer);
    assert_eq!(upload_route(true, &seg, None, "test"), unmatched_answer);
    assert_eq!(unmatched_answer, None);
}

#[test]
fn artifact_names() {
    assert!(is_base_name("swift-otter"));
    assert!(!is_base_name(""));
    assert!(!is_base_name("a.b"));
    assert!(!is_base_name("Swift"));
    assert_eq!(make_artifact_name("swift-otter", "png"), "swift-otter.png");
}

#[test]
fn names_from_draws() {
    assert_eq!(name_from_draws(0, 0), "amber-otter");
    assert_eq!(name_from_draws(19, 0), "swift-otter");
    assert_eq!(name_from_draws(31, 31), "hazy-moose");
    assert_eq!(WORDS_PER_LIST, 32);
    for _ in 0..20 {
        let g = generate();
        let (a, n) = g.split_once('-').unwrap();
        assert!(!a.is_empty() && !n.is_empty());
        assert!(is_base_name(&g));
    }
}

#[test]
fn generate_unique_on_empty_registry_succeeds() {
    let mut reg = NameRegistry::new();
    let name = reg.generate_unique("md").unwrap();
    assert!(name.ends_with(".md"));
    assert_eq!(reg.len(), 1);
}

#[test]
fn claim_refuses_live_name() {
    let mut reg = NameRegistry::new();
    assert_eq!(reg.claim("swift-otter", "png"), Some("swift-otter.png".to_string()));
    assert_eq!(reg.claim("swift-otter", "png"), None);
    assert_eq!(reg.claim("swift-otter", "txt"), Some("swift-otter.txt".to_string()));
    assert_eq!(reg.claim("bad.base", "txt"), None);
    assert_eq!(reg.len(), 2);
    assert!(reg.contains("swift-otter.png"));
    reg.release("swift-otter.png");
    assert!(!reg.contains("swift-otter.png"));
    assert!(reg.contains("swift-otter.txt"));
    assert_eq!(reg.claim("swift-otter", "png"), Some("swift-otter.png".to_string()));
}

#[test]
fn generated_names_are_unique_and_well_formed() {
    let mut reg = NameRegistry::new();
    let mut names: Vec<String> = Vec::new();
    for _ in 0..50 {
        if let Some(name) = reg.generate_unique("txt") {
            names.push(name);
        }
    }
    assert!(names.len() >= 40);
    for (i, a) in names.iter().enumerate() {
        let (base, ext) = a.rsplit_once('.').unwrap();
        assert_eq!(ext, "txt");
        assert!(is_base_name(base));
        assert!(base.contains('-'));
        for b in names.iter().skip(i + 1) {
            assert_ne!(a, b);
        }
    }
    assert_eq!(reg.len(), names.len());
    assert_eq!(MAX_NAME_ATTEMPTS, 10);
}

#[test]
fn sniff_known_formats() {
    assert_eq!(guess_ext_from_bytes(b"hello world"), TEXT_EXT);
    assert_eq!(guess_ext_from_bytes("héllo".as_bytes()), "txt");
    let png = [0x89u8, 0x50, 0x4E, 0x47, 0x0D, 0x0A, 0x1A, 0x0A, 0, 0, 0, 0x0D];
    assert_eq!(guess_ext_from_bytes(&png), "png");
    let gif = b"GIF89a\x01\x00\x01\x00";
    assert_eq!(guess_ext_from_bytes(gif), "gif");
    assert_eq!(guess_ext_from_bytes(&[0xffu8, 0x00, 0xfe, 0x80]), UNKNOWN_EXT);
    assert_eq!(guess_ext_from_bytes(&[0xc3u8]), "bin");
}

#[test]
fn prefix_buffer_short_input_is_whole() {
    let mut p = PrefixBuffer::with_budget(16);
    assert_eq!(p.room(), 16);
    p.offer(b"hello ");
    p.offer(b"world");
    assert!(!p.is_done());
    p.offer(b"");
    assert!(p.is_done());
    assert!(p.reached_end());
    assert_eq!(p.prefix().as_slice(), b"hello world");
    assert_eq!(p.classify(), "txt");
    assert_eq!(p.into_prefix().len(), 11);
}

#[test]
fn prefix_buffer_long_input_stops_at_budget() {
    let input: Vec<u8> = (0..10u8).collect();
    let mut p = PrefixBuffer::with_budget(4);
    let mut pos = 0;
    while !p.is_done() {
        let take = std::cmp::min(3, p.room());
        p.offer(&input[pos..pos + take]);
        pos += take;
    }
    assert!(!p.reached_end());
    assert_eq!(p.prefix().len(), 4);
    let mut out = p.into_prefix();
    out.extend_from_slice(&input[pos..]);
    assert_eq!(out, input);
}

#[test]
fn default_budget_is_one_mebibyte() {
    let p = PrefixBuffer::new();
    assert_eq!(PREFIX_BUDGET, 1024 * 1024);
    assert_eq!(p.room(), PREFIX_BUDGET);
}

#[test]
fn lines_are_split_like_str_lines() {
    assert_eq!(split_lines("a\r\nb\n\nc"), strings(&["a", "b", "", "c"]));
    assert_eq!(split_lines("a\n"), strings(&["a"]));
    assert_eq!(split_lines(""), Vec::<String>::new());
    assert_eq!(split_lines("\n"), strings(&[""]));
    assert_eq!(split_lines("x\r"), strings(&["x\r"]));
}

#[test]
fn description_skips_blank_and_image_lines() {
    assert!(!is_describing("   \t"));
    assert!(!is_describing("![logo](logo.png)"));
    assert!(is_describing("text"));
    let lines = strings(&["", "![img](a.png)", "one", "  ", "two", "\u{a0}"]);
    assert_eq!(find_description(&lines), "one\ntwo");
    let many: Vec<String> = (1..=12).map(|i| format!("line {i}")).collect();
    let expected: Vec<String> = (1..=10).map(|i| format!("line {i}")).collect();
    assert_eq!(find_description(&many), expected.join("\n"));
    assert_eq!(find_description(&Vec::new()), "");
}

#[test]
fn markdown_title_from_heading() {
    let (title, description) =
        markdown_title_and_description("notes.md", "intro\n# My Title\n![img](x)\nfirst\n\nsecond");
    assert_eq!(title, "My Title");
    assert_eq!(description, "first\nsecond");
    assert_eq!(strip_heading_marker("# # Deep"), "# Deep");
    assert_eq!(strip_heading_marker("#  spaced"), " spaced");
    assert_eq!(strip_heading_marker("## Two"), "## Two");
    let (nested, _) = markdown_title_and_description("n.md", "# # Foo\nbody");
    assert_eq!(nested, "# Foo");
}

#[test]
fn markdown_title_falls_back_to_file_name() {
    let (title, description) = markdown_title_and_description("swift-otter.md", "no heading\n## sub\ntext");
    assert_eq!(title, "swift-otter.md");
    assert_eq!(description, "no heading\n## sub\ntext");
}

#[test]
fn markdown_page_carries_title() {
    let page = render_markdown("swift-otter.md", "# Hello\nworld");
    assert!(page.contains("<title>Hello</title>"));
    assert!(page.contains("content=\"world\""));
    assert!(page.contains("# Hello\nworld"));
    let plain = render_markdown("swift-otter.md", "world");
    assert!(plain.contains("<title>swift-otter.md</title>"));
}

#[test]
fn html_fragment_is_wrapped() {
    let page = render_html("page.html", "<p>hi</p>");
    assert!(page.starts_with("<!DOCTYPE html>"));
    assert!(page.contains("<title>page.html</title>"));
    assert!(page.contains("rgb(31, 31, 31)"));
    assert!(page.contains("<pre><p>hi</p></pre>"));
}

#[test]
fn html_document_is_themed_in_place() {
    let doc = "<html><head><style>body{background-color:#ffffff;color:#000000;font-family:monospace}</style></head><body>x</body></html>";
    let page = render_html("doc.html", doc);
    assert!(page.starts_with("<html><head>\n<meta charset=\"utf-8\">"));
    assert!(page.contains("<title>doc.html</title>"));
    assert!(page.contains("background-color:#121212;"));
    assert!(!page.contains("background-color:#ffffff;"));
    assert!(page.contains("color:#ffffff;"));
    assert!(!page.contains("color:#000000;"));
    assert!(page.contains("font-family: 'Hack Nerd Font', 'Hack', monospace}</style></head>"));
    assert!(!page.contains("rgb(31, 31, 31)"));
    assert!(page.ends_with("<body>x</body></html>"));
}

#[test]
fn extensions_of_file_names() {
    assert_eq!(file_extension("a.md"), Some("md".to_string()));
    assert_eq!(file_extension("a.b.html"), Some("html".to_string()));
    assert_eq!(file_extension("a."), Some("".to_string()));
    assert_eq!(file_extension(".md"), None);
    assert_eq!(file_extension("noext"), None);
    assert_eq!(file_extension(".."), None);
    assert_eq!(postprocess_for("x.md"), Some(PostProcess::Markdown));
    assert_eq!(postprocess_for("x.html"), Some(PostProcess::Html));
    assert_eq!(postprocess_for("x.txt"), Some(PostProcess::Verbatim));
    assert_eq!(postprocess_for("x.HTML"), Some(PostProcess::Verbatim));
    assert_eq!(postprocess_for("x"), None);
}

#[test]
fn retention_window() {
    assert_eq!(RETENTION_SECS, 7 * 24 * 60 * 60);
    let task = RetentionTask::new("swift-otter.txt", 1000, RETENTION_SECS);
    assert_eq!(task.name(), "swift-otter.txt");
    assert_eq!(task.due(), 1000 + 604800);
    assert!(!task.is_due(1000));
    assert!(!task.is_due(1000 + 604799));
    assert!(task.is_due(1000 + 604800));
    assert_eq!(task.wait_secs(1000), 604800);
    assert_eq!(task.wait_secs(2_000_000), 0);
    let late = RetentionTask::new("x.txt", u64::MAX - 5, 10);
    assert_eq!(late.due(), u64::MAX);
}

#[test]
fn retention_fire_releases_name() {
    let mut reg = NameRegistry::new();
    let name = reg.claim("calm-newt", "txt").unwrap();
    reg.claim("calm-yak", "txt").unwrap();
    let task = RetentionTask::new(&name, 0, RETENTION_SECS);
    assert!(reg.contains(&name));
    task.fire(&mut reg);
    assert!(!reg.contains(&name));
    assert!(reg.contains("calm-yak.txt"));
    task.fire(&mut reg);
    assert_eq!(reg.len(), 1);
}

#[test]
fn store_shutdown_is_idempotent() {
    let dir = tempfile::tempdir().unwrap();
    let path = dir.path().to_path_buf();
    let mut store = EphemeralStore::new(dir);
    assert!(store.is_available());
    assert_eq!(store.dir().unwrap().path(), path.as_path());
    assert_eq!(store.dir().unwrap().path(), store.dir().unwrap().path());
    let first = store.take_for_shutdown();
    assert!(first.is_some());
    assert!(!store.is_available());
    assert!(store.dir().is_none());
    assert!(store.take_for_shutdown().is_none());
    let taken = first.unwrap();
    assert_eq!(taken.path(), path.as_path());
    taken.close().unwrap();
    assert!(!path.exists());
}

#[test]
fn first_trigger_wins() {
    let dir = tempfile::tempdir().unwrap();
    let mut store = EphemeralStore::new(dir);
    let mut c = ShutdownCoordinator::new();
    assert_eq!(c.phase(), ShutdownPhase::Serving);
    assert!(c.trigger("signal"));
    assert!(!c.trigger("interrupt"));
    assert_eq!(c.reason(), Some("signal"));
    assert_eq!(c.phase(), ShutdownPhase::Draining);
    let taken = c.drain(&mut store);
    assert!(taken.is_some());
    assert_eq!(c.phase(), ShutdownPhase::Stopped);
    assert!(!store.is_available());
    assert!(!c.trigger("terminate"));
    assert_eq!(c.reason(), Some("signal"));
}

#[test]
fn upload_urls() {
    assert_eq!(upload_url("http://localhost:8080/", "txt"), "http://localhost:8080/upload.txt");
    assert_eq!(upload_url("http://localhost:8080", "png"), "http://localhost:8080/upload.png");
    assert_eq!(upload_url("http://h//", "md"), "http://h/upload.md");
    assert_eq!(artifact_url("http://localhost:8080/", "swift-otter.txt"), "http://localhost:8080/swift-otter.txt");
}

#[test]
fn clipboard_commands() {
    assert_eq!(make_existing_mimes_command(), ("wl-paste", &["--list-types"][..]));
    let (prog, args) = make_clipboard_command("image/png");
    assert_eq!(prog, "wl-paste");
    assert_eq!(args, vec!["--type", "image/png"]);
}

#[test]
fn clipboard_mime_list() {
    let out = "  text/plain;charset=utf-8\nimage/png\tbogus \n TEXT\n";
    assert_eq!(listed_words(out), strings(&["text/plain;charset=utf-8", "image/png", "bogus", "TEXT"]));
    let mimes = parse_existing_mimes(out.to_string());
    assert_eq!(mimes, strings(&["text/plain;charset=utf-8", "image/png"]));
    assert!(parse_existing_mimes(String::new()).is_empty());
}

#[test]
fn upload_scenario_txt() {
    let token = "test";
    let header = bearer_header(token);
    let segments = strings(&["upload.txt"]);
    let ext = upload_route(true, &segments, Some(&header), token).unwrap();
    let mut reg = NameRegistry::new();
    let name = reg.generate_unique(&ext).unwrap();
    assert!(name.ends_with(".txt"));
    assert!(reg.contains(&name));
    assert_eq!(postprocess_for(&name), Some(PostProcess::Verbatim));
    assert_eq!(artifact_url("http://localhost:8080/", &name), format!("http://localhost:8080/{name}"));
}
