use valor::loader::{Progress, Step, ENTRY_POINT};
use valor::text::{pad_char, same_text, space_char, trim, trim_leading_slashes};
use valor::wire::{decode_plugin, describe, encode_plugins, read_plugin, Member};
use valor::{DynLoader, LoadError, Opened, Plugin};

fn native(name: &str, path: Option<&str>, prefix: Option<&str>) -> Plugin {
    Plugin::Native {
        name: name.to_string(),
        path: path.map(str::to_string),
        prefix: prefix.map(str::to_string),
    }
}

#[test]
fn trim_cuts_slashes_and_spaces() {
    assert_eq!(trim("/foo/"), "foo");
    assert_eq!(trim(" / foo/bar / "), "foo/bar");
    assert_eq!(trim("foo"), "foo");
    assert_eq!(trim("a b"), "a b");
    assert_eq!(trim("//"), "");
    assert_eq!(trim(" "), "");
    assert_eq!(trim(""), "");
    assert_eq!(trim("\tfoo\n"), "foo");
    assert_eq!(trim("\r\n /\u{a0}a\tb\u{3000}/\u{2028}"), "a\tb");
    assert_eq!(trim("\u{b}\u{c}\u{85}x\u{1680}\u{2000}\u{200a}\u{2029}\u{202f}\u{205f}"), "x");
    assert_eq!(trim("\u{200b}x\u{feff}"), "\u{200b}x\u{feff}");
    assert_eq!(trim("/é/"), "é");
    assert!(pad_char('/') && pad_char(' ') && pad_char('\t') && pad_char('\n') && !pad_char('a'));
}

#[test]
fn white_space_is_what_unicode_says() {
    for code in 0u32..0x3100 {
        if let Some(c) = char::from_u32(code) {
            assert_eq!(space_char(c), c.is_whitespace(), "U+{:04X}", code);
            assert_eq!(pad_char(c), c == '/' || c.is_whitespace(), "U+{:04X}", code);
        }
    }
    assert!(!space_char('\u{feff}') && !space_char('\u{10ffff}'));
}

#[test]
fn leading_slashes_are_cut() {
    assert_eq!(trim_leading_slashes("///a/b/"), "a/b/");
    assert_eq!(trim_leading_slashes("a"), "a");
    assert_eq!(trim_leading_slashes("/"), "");
    assert_eq!(trim_leading_slashes(""), "");
    assert_eq!(trim_leading_slashes(" /a"), " /a");
    assert!(same_text("ab", "ab") && !same_text("ab", "abc") && !same_text("ab", "ba"));
}

#[test]
fn name_of_each_variant() {
    assert_eq!(Plugin::BuiltIn { name: "b".to_string(), prefix: None }.name(), "b");
    assert_eq!(native("n", None, None).name(), "n");
    let web = Plugin::Web { name: "w".to_string(), url: "http://x/y.js".to_string(), prefix: None };
    assert_eq!(web.name(), "w");
    assert_eq!(web.prefix(), "w");
    assert_eq!(Plugin::Dummy.name(), "dummy");
    assert_eq!(Plugin::Dummy.prefix(), "dummy");
}

#[test]
fn prefix_is_the_override_or_the_name() {
    assert_eq!(native("name", None, None).prefix(), "name");
    assert_eq!(native("name", Some("./lib.so"), None).prefix(), "name");
    assert_eq!(native("name", None, Some("mount")).prefix(), "mount");
    assert_eq!(native("name", None, Some("/mount/ ")).prefix(), "mount");
    assert_eq!(native("name", None, Some(" /a/b/ ")).prefix(), "a/b");
    assert_eq!(native("/name/", None, None).prefix(), "name");
}

#[test]
fn prefix_has_no_white_space_at_its_ends() {
    assert_eq!(native("name", None, Some("\tb")).prefix(), "b");
    assert_eq!(native("name", None, Some("\n/ a b /\r\n")).prefix(), "a b");
    assert_eq!(native("\tname\n", None, None).prefix(), "name");
    assert_eq!(native("name", None, Some("\t\n")).prefix(), "name");
    assert_eq!(native("name", None, Some("\u{a0}/x/\u{2003}")).prefix(), "x");
}

#[test]
fn empty_override_falls_back_to_the_name() {
    assert_eq!(native("name", None, Some("")).prefix(), "name");
    assert_eq!(native("name", None, Some("/")).prefix(), "name");
    assert_eq!(native("name", None, Some(" / / ")).prefix(), "name");
    assert_eq!(native(" name ", None, Some("//")).prefix(), "name");
}

#[test]
fn plugin_from_a_name() {
    let plugin = Plugin::from("health");
    assert_eq!(plugin.name(), "health");
    assert_eq!(plugin.prefix(), "_health");
    assert!(matches!(plugin, Plugin::BuiltIn { .. }));
}

#[test]
fn plugin_from_name_and_prefix() {
    let plugin = Plugin::from(("registry", "/_plugins/"));
    assert_eq!(plugin.name(), "registry");
    assert_eq!(plugin.prefix(), "_plugins");
}

#[test]
fn clone_keeps_every_field() {
    let plugin = native("n", Some("p"), Some("q"));
    let copy = plugin.clone();
    assert!(matches!(
        copy,
        Plugin::Native { ref name, path: Some(ref path), prefix: Some(ref prefix) }
            if name == "n" && path == "p" && prefix == "q"
    ));
    let web = Plugin::Web { name: "w".to_string(), url: "u".to_string(), prefix: None };
    assert!(matches!(web.duplicate(), Plugin::Web { ref name, ref url, prefix: None } if name == "w" && url == "u"));
    assert!(matches!(Plugin::Dummy.clone(), Plugin::Dummy));
}

fn opens_as(plugin: &Plugin, opened: Opened<u8>) -> (Result<u8, LoadError>, Vec<String>) {
    let mut asked = Vec::new();
    let result = DynLoader::load(plugin, |path| {
        asked.push(path);
        opened
    });
    (result, asked)
}

#[test]
fn load_of_a_missing_library_is_not_found() {
    let plugin = native("echo", Some("./nowhere.so"), None);
    let (result, asked) = opens_as(&plugin, Opened::Missing);
    assert_eq!(result, Err(LoadError::NotFound));
    assert_eq!(asked, vec!["./nowhere.so".to_string()]);
}

#[test]
fn load_of_a_library_without_entry_point_is_bad_format() {
    let plugin = native("echo", None, Some("mount"));
    let (result, asked) = opens_as(&plugin, Opened::NoEntryPoint);
    assert_eq!(result, Err(LoadError::BadFormat));
    assert_eq!(asked, vec!["echo".to_string()]);
}

#[test]
fn load_gives_the_handler_of_the_library() {
    let plugin = native("echo", Some("./echo.so"), None);
    let (result, asked) = opens_as(&plugin, Opened::Ready(7));
    assert_eq!(result, Ok(7));
    assert_eq!(asked, vec!["./echo.so".to_string()]);
}

#[test]
fn load_of_another_variant_is_not_supported_and_opens_nothing() {
    let others = [
        Plugin::BuiltIn { name: "./echo.so".to_string(), prefix: None },
        Plugin::Web { name: "./echo.so".to_string(), url: "http://x/".to_string(), prefix: None },
        Plugin::Dummy,
    ];
    for plugin in others.iter() {
        let (result, asked) = opens_as(plugin, Opened::Ready(7));
        assert_eq!(result, Err(LoadError::NotSupported));
        assert!(asked.is_empty());
    }
}

#[test]
fn web_plugin_is_made_from_an_absolute_url() {
    let plugin = Plugin::web("w", "https://x.org/w.js", Some("/mount/")).unwrap();
    assert_eq!(
        plugin,
        Plugin::Web {
            name: "w".to_string(),
            url: "https://x.org/w.js".to_string(),
            prefix: Some("/mount/".to_string()),
        }
    );
    assert_eq!(plugin.prefix(), "mount");
    let plain = Plugin::web("w", "https://x.org/w.js", None).unwrap();
    assert_eq!(plain.prefix(), "w");
    assert_eq!(Plugin::web("w", "w.js", None), None);
    assert_eq!(Plugin::web("w", "", Some("m")), None);
    assert_eq!(Plugin::web("w", "//x.org/w.js", None), None);
    let text = encode_plugins(&vec![plain.clone()]).unwrap();
    assert_eq!(decode_plugin(&text[1..text.len() - 1]), Some(plain));
}

#[test]
fn native_loader_asks_for_the_path_or_the_name() {
    assert_eq!(DynLoader::library(&native("echo", Some("./echo.so"), None)), Ok("./echo.so".to_string()));
    assert_eq!(DynLoader::library(&native("echo", None, Some("e"))), Ok("echo".to_string()));
    assert!(matches!(
        DynLoader::next(&native("echo", Some("./echo.so"), None), Progress::Asked),
        Step::Open(ref path) if path == "./echo.so"
    ));
    assert!(matches!(
        DynLoader::next(&native("echo", None, None), Progress::Asked),
        Step::Open(ref path) if path == "echo"
    ));
}

#[test]
fn native_loader_missing_file_is_not_found() {
    let plugin = native("echo", Some("./nowhere.so"), None);
    assert!(matches!(DynLoader::next(&plugin, Progress::Opened(false)), Step::Fail(LoadError::NotFound)));
    assert!(matches!(DynLoader::next(&plugin, Progress::Opened(true)), Step::Resolve));
}

#[test]
fn native_loader_missing_entry_point_is_bad_format() {
    let plugin = native("echo", None, None);
    assert!(matches!(DynLoader::next(&plugin, Progress::Resolved(false)), Step::Fail(LoadError::BadFormat)));
    assert!(matches!(DynLoader::next(&plugin, Progress::Resolved(true)), Step::Invoke));
    assert_eq!(ENTRY_POINT, "get_request_handler");
}

#[test]
fn native_loader_supports_native_plugins_only() {
    let others = [
        Plugin::BuiltIn { name: "b".to_string(), prefix: None },
        Plugin::Web { name: "w".to_string(), url: "u".to_string(), prefix: None },
        Plugin::Dummy,
    ];
    for plugin in others.iter() {
        assert_eq!(DynLoader::library(plugin), Err(LoadError::NotSupported));
        for progress in [Progress::Asked, Progress::Opened(true), Progress::Opened(false), Progress::Resolved(true), Progress::Resolved(false)] {
            assert!(matches!(DynLoader::next(plugin, progress), Step::Fail(LoadError::NotSupported)));
        }
    }
}

#[test]
fn descriptor_members() {
    let pairs = |plugin: &Plugin| -> Vec<(String, String)> { describe(plugin) };
    let own = |items: &[(&str, &str)]| -> Vec<(String, String)> {
        items.iter().map(|(k, v)| (k.to_string(), v.to_string())).collect()
    };
    assert_eq!(
        pairs(&native("n", Some("p"), Some("q"))),
        own(&[("type", "native"), ("name", "n"), ("path", "p"), ("prefix", "q")])
    );
    assert_eq!(pairs(&native("n", None, None)), own(&[("type", "native"), ("name", "n")]));
    assert_eq!(
        pairs(&Plugin::BuiltIn { name: "b".to_string(), prefix: Some("_b".to_string()) }),
        own(&[("type", "built_in"), ("name", "b"), ("prefix", "_b")])
    );
    assert_eq!(
        pairs(&Plugin::Web { name: "w".to_string(), url: "http://x".to_string(), prefix: None }),
        own(&[("type", "web_worker"), ("name", "w"), ("url", "http://x")])
    );
    assert_eq!(pairs(&Plugin::Dummy), own(&[("type", "dummy")]));
}

#[test]
fn descriptors_are_written_as_a_json_array() {
    let list = vec![native("n", Some("./n.so"), None), Plugin::Dummy];
    let text = String::from_utf8(encode_plugins(&list).unwrap()).unwrap();
    assert_eq!(text, r#"[{"name":"n","path":"./n.so","type":"native"},{"type":"dummy"}]"#);
    assert_eq!(encode_plugins(&Vec::new()).unwrap(), b"[]".to_vec());
    let quoted = vec![native("a\"b", None, None)];
    let text = String::from_utf8(encode_plugins(&quoted).unwrap()).unwrap();
    assert_eq!(text, r#"[{"name":"a\"b","type":"native"}]"#);
}

#[test]
fn descriptor_is_read_from_json() {
    let plugin = decode_plugin(br#"{"type":"native","name":"n","path":"./n.so","prefix":"m"}"#).unwrap();
    assert!(matches!(
        plugin,
        Plugin::Native { ref name, path: Some(ref path), prefix: Some(ref prefix) }
            if name == "n" && path == "./n.so" && prefix == "m"
    ));
    let plugin = decode_plugin(br#" { "name" : "n", "extra": [1, 2], "path": null, "type" : "native" } "#).unwrap();
    assert!(matches!(plugin, Plugin::Native { ref name, path: None, prefix: None } if name == "n"));
    let plugin = decode_plugin(br#"{"type":"built_in","name":"b"}"#).unwrap();
    assert!(matches!(plugin, Plugin::BuiltIn { ref name, prefix: None } if name == "b"));
    let plugin = decode_plugin(br#"{"type":"web_worker","name":"w","url":"http://x/y.js"}"#).unwrap();
    assert!(matches!(plugin, Plugin::Web { ref name, ref url, prefix: None } if name == "w" && url == "http://x/y.js"));
    assert!(matches!(decode_plugin(br#"{"type":"dummy"}"#), Some(Plugin::Dummy)));
}

#[test]
fn bad_descriptors_are_refused() {
    let bad: [&[u8]; 12] = [
        b"",
        b"{",
        b"null",
        b"\"native\"",
        b"[{\"type\":\"native\",\"name\":\"n\"}]",
        br#"{"name":"n"}"#,
        br#"{"type":"native"}"#,
        br#"{"type":"Native","name":"n"}"#,
        br#"{"type":"native","name":null}"#,
        br#"{"type":"native","name":"n","path":3}"#,
        br#"{"type":"native","name":"n","prefix":{}}"#,
        br#"{"type":"web_worker","name":"w"}"#,
    ];
    for body in bad.iter() {
        assert!(decode_plugin(body).is_none(), "{}", String::from_utf8_lossy(body));
    }
}

#[test]
fn the_last_member_of_a_name_counts() {
    let members = vec![
        ("type".to_string(), Member::Text("dummy".to_string())),
        ("name".to_string(), Member::Other),
        ("type".to_string(), Member::Text("native".to_string())),
        ("name".to_string(), Member::Text("n".to_string())),
        ("path".to_string(), Member::Null),
    ];
    assert!(matches!(read_plugin(&members), Some(Plugin::Native { ref name, path: None, prefix: None }) if name == "n"));
    assert!(read_plugin(&Vec::new()).is_none());
    assert!(read_plugin(&vec![("type".to_string(), Member::Null)]).is_none());
}

#[test]
fn written_descriptors_are_read_back() {
    let plugins = vec![
        native("n", Some("p"), Some("q")),
        native("n", None, None),
        Plugin::BuiltIn { name: "b".to_string(), prefix: Some("_b".to_string()) },
        Plugin::Web { name: "w".to_string(), url: "https://x.org/w.js".to_string(), prefix: None },
        Plugin::Dummy,
    ];
    for plugin in plugins.iter() {
        let text = encode_plugins(&vec![plugin.clone()]).unwrap();
        let object = &text[1..text.len() - 1];
        let back = decode_plugin(object).unwrap();
        assert_eq!(describe(&back), describe(plugin));
        assert_eq!(&back, plugin);
    }
}

#[test]
fn web_worker_needs_an_absolute_url() {
    assert!(decode_plugin(br#"{"type":"web_worker","name":"w","url":"https://x.org/w.js"}"#).is_some());
    assert!(decode_plugin(br#"{"type":"web_worker","name":"w","url":"w.js"}"#).is_none());
    assert!(decode_plugin(br#"{"type":"web_worker","name":"w","url":""}"#).is_none());
    assert!(decode_plugin(br#"{"type":"web_worker","name":"w","url":"/a/b"}"#).is_none());
    assert!(decode_plugin(br#"{"type":"native","name":"w","url":"w.js"}"#).is_some());
}

#[test]
fn descriptors_are_compared_by_their_texts() {
    assert_eq!(native("n", Some("p"), None), native("n", Some("p"), None));
    assert_ne!(native("n", Some("p"), None), native("n", None, None));
    assert_ne!(native("n", None, Some("q")), native("n", None, Some("r")));
    assert_ne!(native("n", None, None), native("m", None, None));
    assert_ne!(native("n", None, None), Plugin::BuiltIn { name: "n".to_string(), prefix: None });
    assert_eq!(Plugin::Dummy, Plugin::Dummy);
    assert_eq!(Plugin::from("a"), Plugin::from(("a", "_a")));
    let web = |url: &str| Plugin::Web { name: "w".to_string(), url: url.to_string(), prefix: None };
    assert_eq!(web("u"), web("u"));
    assert_ne!(web("u"), web("v"));
}
