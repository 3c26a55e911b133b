use std::path::Path;
use terminar_core::process::{
    extract_binary_from_first_arg, extract_binary_name_from_cmdline, get_listed_cmdline,
    get_process_cmdline, looks_like_version, needs_cmdline, resolve_process_cwd,
    resolve_process_name, resolve_process_name_from_path, resolve_process_name_raw,
};
use terminar_core::text::{
    char_is_white_space, file_name, join_path, parent, split_whitespace, str_eq, trim,
};

#[test]
fn test_resolve_process_name_returns_none_for_nonexistent_pid() {
    let raw = resolve_process_name_raw(None, None);
    let result = resolve_process_name(raw.as_deref(), None);
    assert!(result.is_none());
}

#[test]
fn test_resolve_process_name_returns_name_for_pid_1() {
    let raw = resolve_process_name_raw(Some("systemd\n"), Some(b"/sbin/init\0"));
    let result = resolve_process_name(raw.as_deref(), None);
    assert!(result.is_some());
    let name = result.unwrap();
    assert!(!name.is_empty());
    assert_eq!(name, "systemd");
    let raw = resolve_process_name_from_path(Some(b"/sbin/launchd"), None);
    assert_eq!(resolve_process_name(raw.as_deref(), None).unwrap(), "launchd");
}

#[test]
fn test_extract_binary_name_extracts_gemini() {
    let cmdline = "/usr/local/bin/node /usr/local/bin/gemini";
    let result = extract_binary_name_from_cmdline(cmdline);
    assert_eq!(result, Some("gemini".to_string()));
}

#[test]
fn test_extract_binary_name_returns_none_for_empty() {
    assert!(extract_binary_name_from_cmdline("").is_none());
}

#[test]
fn test_extract_binary_name_returns_none_for_single_arg() {
    assert!(extract_binary_name_from_cmdline("/usr/local/bin/node").is_none());
}

#[test]
fn test_extract_binary_name_handles_flags() {
    let cmdline = "node --inspect /usr/local/bin/gemini";
    let result = extract_binary_name_from_cmdline(cmdline);
    assert_eq!(result, Some("gemini".to_string()));
}

#[test]
fn test_extract_binary_from_first_arg_claude() {
    let cmdline = "/usr/local/bin/gemini --config /tmp/foo";
    let result = extract_binary_from_first_arg(cmdline);
    assert_eq!(result, Some("gemini".to_string()));
}

#[test]
fn test_looks_like_version() {
    assert!(looks_like_version("2.1.29"));
    assert!(looks_like_version("1.0.0"));
    assert!(!looks_like_version("gemini"));
    assert!(!looks_like_version("node"));
    assert!(!looks_like_version(""));
}

#[test]
fn version_like_names() {
    assert!(looks_like_version("1.0.0-beta"));
    assert!(looks_like_version("3."));
    assert!(!looks_like_version("v1.0"));
    assert!(!looks_like_version("42"));
    assert!(!looks_like_version("1.0 beta"));
    assert!(!looks_like_version("1.0_1"));
    assert!(!looks_like_version("1.é"));
    assert!(!looks_like_version(".1"));
}

#[test]
fn scripts_of_interpreters() {
    let name = |line| extract_binary_name_from_cmdline(line);
    assert_eq!(
        name("/usr/bin/python3 /usr/local/bin/aider"),
        Some("aider".to_string())
    );
    assert_eq!(name("node ./scripts/build.js"), Some("build.js".to_string()));
    assert_eq!(name("node -a --b"), None);
    assert_eq!(name("node /"), None);
    assert_eq!(name("node .."), None);
    assert_eq!(name("node dir/"), Some("dir".to_string()));
    assert_eq!(name("  python \t x.py  --flag"), Some("x.py".to_string()));
}

#[test]
fn first_arguments() {
    let name = |line| extract_binary_from_first_arg(line);
    assert_eq!(name(""), None);
    assert_eq!(name("   "), None);
    assert_eq!(name("/opt/tool/2.1.29"), None);
    assert_eq!(name("/"), None);
    assert_eq!(name("vim"), Some("vim".to_string()));
}

#[test]
fn names_are_refined_by_the_command_line() {
    let name = |raw, line| resolve_process_name(Some(raw), line);
    assert_eq!(
        name("node", Some("/usr/bin/node /usr/bin/gemini")),
        Some("gemini".to_string())
    );
    assert_eq!(name("node", Some("/usr/bin/node")), Some("node".to_string()));
    assert_eq!(name("node", None), Some("node".to_string()));
    assert_eq!(
        name("2.1.29", Some("/usr/local/bin/gemini --x")),
        Some("gemini".to_string())
    );
    assert_eq!(
        name("2.1.29", Some("/opt/2.1.29")),
        Some("2.1.29".to_string())
    );
    assert_eq!(name("vim", Some("vim file.txt")), Some("vim".to_string()));
    assert_eq!(resolve_process_name(None, Some("x y")), None);
}

#[test]
fn the_command_line_is_needed_for_some_names_only() {
    for name in [
        "node", "python", "python3", "ruby", "perl", "java", "deno", "bun", "1.2",
    ] {
        assert!(needs_cmdline(name), "{}", name);
    }
    assert!(!needs_cmdline("vim"));
    assert!(!needs_cmdline("python2"));
}

#[test]
fn raw_names_from_proc() {
    assert_eq!(
        resolve_process_name_raw(Some(" bash\n"), None),
        Some("bash".to_string())
    );
    assert_eq!(
        resolve_process_name_raw(Some("\n"), Some(b"/usr/bin/top\0-d\0")),
        Some("top".to_string())
    );
    assert_eq!(
        resolve_process_name_raw(None, Some(b"/usr/bin/top")),
        Some("top".to_string())
    );
    assert_eq!(resolve_process_name_raw(None, Some(b"")), None);
    assert_eq!(resolve_process_name_raw(None, Some(b"\0x")), None);
    assert_eq!(resolve_process_name_raw(None, Some(b"\xff\0")), None);
    assert_eq!(resolve_process_name_raw(Some(""), None), None);
}

#[test]
fn raw_names_from_paths() {
    let name = |path, short| resolve_process_name_from_path(path, short);
    assert_eq!(
        name(Some(b"/usr/local/bin/node"), Some(b"other")),
        Some("node".to_string())
    );
    assert_eq!(
        name(Some(b"/opt/gemini/2.1.29"), Some(b"gemini")),
        Some("gemini".to_string())
    );
    assert_eq!(name(Some(b"/opt/gemini/2.1.29"), None), None);
    assert_eq!(name(Some(b"\xff"), Some(b"x")), None);
    assert_eq!(name(Some(b"/"), Some(b"x")), None);
    assert_eq!(name(None, Some(b"x")), Some("x".to_string()));
    assert_eq!(name(None, Some(b"\xff")), None);
    assert_eq!(name(None, None), None);
}

#[test]
fn command_lines() {
    assert_eq!(
        get_process_cmdline(b"node\0--inspect\0\0a b\0"),
        Some("node --inspect a b".to_string())
    );
    assert_eq!(get_process_cmdline(b"x"), Some("x".to_string()));
    assert_eq!(get_process_cmdline(b""), None);
    assert_eq!(get_process_cmdline(b"\0\0"), None);
    assert_eq!(
        get_process_cmdline(b"a\xff\0"),
        Some("a\u{fffd}".to_string())
    );
    assert_eq!(
        get_listed_cmdline(b" vim file \n"),
        Some("vim file".to_string())
    );
    assert_eq!(get_listed_cmdline(b" \n"), None);
}

#[test]
fn working_directories() {
    assert_eq!(
        resolve_process_cwd(b"/home/me\0garbage\xff"),
        Some("/home/me".to_string())
    );
    assert_eq!(resolve_process_cwd(b"/x"), Some("/x".to_string()));
    assert_eq!(resolve_process_cwd(b"\0/x"), None);
    assert_eq!(resolve_process_cwd(b""), None);
    assert_eq!(resolve_process_cwd(b"/\xff\0"), None);
}

#[test]
fn file_names_are_those_of_the_standard_library() {
    for path in [
        "", "/", "//", ".", "..", "./", "../", "a", "a/", "a//", "a/.", "a/./", "a/..", "a/../",
        "/a", "/a/b", "/a//b/", "a/b/.", "/.", "/..", "./a", "./.", "...", ".a", "a.", "a/ b",
        "é/ü", "a/.//./", ". ", "-/",
    ] {
        let expected = Path::new(path).file_name().map(|n| n.to_str().unwrap());
        assert_eq!(file_name(path), expected, "{:?}", path);
    }
}

/// All short paths made of these characters.
fn short_paths() -> Vec<String> {
    let mut all = vec![String::new()];
    let mut last = all.clone();
    for _ in 0..7 {
        let mut longer = Vec::new();
        for path in &last {
            for c in ['/', '.', 'é'] {
                longer.push(format!("{}{}", path, c));
            }
        }
        all.extend(longer.clone());
        last = longer;
    }
    all
}

#[test]
fn parents_are_those_of_the_standard_library() {
    assert_eq!(parent("/tmp/history/s.history"), Some("/tmp/history"));
    assert_eq!(parent("f"), Some(""));
    assert_eq!(parent("./f"), Some("."));
    assert_eq!(parent("/f"), Some("/"));
    assert_eq!(parent("/"), None);
    for path in short_paths() {
        let expected = Path::new(&path).parent().map(|p| p.to_str().unwrap());
        assert_eq!(parent(&path), expected, "{:?}", path);
        let expected = Path::new(&path).file_name().map(|n| n.to_str().unwrap());
        assert_eq!(file_name(&path), expected, "{:?}", path);
    }
}

#[test]
fn white_space_is_that_of_the_standard_library() {
    for u in 0..=0x10ffffu32 {
        if let Some(c) = char::from_u32(u) {
            assert_eq!(char_is_white_space(c), c.is_whitespace(), "{:x}", u);
        }
    }
}

#[test]
fn words_are_those_of_the_standard_library() {
    for text in [
        "", " ", "a", " a", "a ", "a b", "\ta\u{a0}b\u{2003}c\n", "é  ü", "\u{3000}x",
    ] {
        assert_eq!(
            split_whitespace(text),
            text.split_whitespace().collect::<Vec<_>>()
        );
        assert_eq!(trim(text), text.trim());
    }
}

#[test]
fn strings_are_compared_by_their_characters() {
    assert!(str_eq("", ""));
    assert!(str_eq("é", "é"));
    assert!(!str_eq("a", "b"));
    assert!(!str_eq("a", "ab"));
    assert_eq!(join_path("a", "/b"), "/b");
    assert_eq!(join_path("a", ""), "a/");
}
