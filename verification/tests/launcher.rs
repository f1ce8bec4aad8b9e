use dban::launcher::{
    app_entry, drag_path_info, file_stem, hash_path, icon_data_url, icon_file_name, icon_script,
    is_launcher_path, keeps_app_path, launch_outcome, plan_launch, ps_escape,
};
use std::hash::{Hash, Hasher};

#[test]
fn launches_only_executables_and_shortcuts() {
    assert!(is_launcher_path("C:\\Apps\\Foo.EXE"));
    assert!(is_launcher_path("C:/Users/me/Desktop/Tool.lnk"));
    assert!(is_launcher_path("C:\\Apps\\foo.exe\\"));
    assert!(is_launcher_path("C:\\Apps\\foo.exe\\."));
    assert!(is_launcher_path("..exe"));
    assert!(!is_launcher_path(".exe"));
    assert!(!is_launcher_path("C:\\Apps\\notes.txt"));
    assert!(!is_launcher_path("C:\\Apps\\exe"));
    assert!(!is_launcher_path("C:\\Apps\\foo.exe\\.."));
    assert!(!is_launcher_path("C:\\Apps\\foo.exe.bak"));
    assert!(!is_launcher_path(""));
}

#[test]
fn file_stems_follow_the_last_dot() {
    assert_eq!(file_stem("C:\\Apps\\My App.exe"), Some("My App".to_string()));
    assert_eq!(file_stem("C:\\Apps\\archive.tar.gz"), Some("archive.tar".to_string()));
    assert_eq!(file_stem("C:\\Apps\\.hidden"), Some(".hidden".to_string()));
    assert_eq!(file_stem("C:notes.exe"), Some("notes".to_string()));
    assert_eq!(file_stem("C:\\"), None);
    assert_eq!(file_stem("a/.."), None);
}

#[test]
fn drag_info_and_added_paths() {
    let d = drag_path_info("C:\\a.exe", true, false);
    assert!(d.is_file && !d.is_directory && d.can_add_app);
    let d = drag_path_info("C:\\a.exe", false, true);
    assert!(!d.can_add_app);
    let d = drag_path_info("C:\\a.png", true, false);
    assert!(!d.can_add_app);
    assert!(keeps_app_path("x.LNK", true));
    assert!(!keeps_app_path("x.LNK", false));
}

#[test]
fn hashes_paths_like_the_standard_hasher() {
    let path = "C:\\Apps\\Foo.exe";
    let mut h = std::collections::hash_map::DefaultHasher::new();
    path.hash(&mut h);
    let expected = format!("{:016x}", h.finish());
    assert_eq!(hash_path(path), expected);
    assert_eq!(hash_path(path).len(), 16);
    assert_ne!(hash_path(path), hash_path("C:\\Apps\\Bar.exe"));
}

#[test]
fn entries_carry_id_name_path_and_icon() {
    let e = app_entry("C:\\Apps\\Foo.exe", "data:x".to_string());
    assert_eq!(e.id, format!("app-{}", hash_path("C:\\Apps\\Foo.exe")));
    assert_eq!(e.name, "Foo");
    assert_eq!(e.path, "C:\\Apps\\Foo.exe");
    assert_eq!(e.icon, "data:x");
    let e = app_entry("C:\\", String::new());
    assert_eq!(e.name, "应用");
}

#[test]
fn escapes_single_quotes_for_powershell() {
    assert_eq!(ps_escape("it's"), "it''s");
    assert_eq!(ps_escape("''"), "''''");
    assert_eq!(ps_escape("plain"), "plain");
}

#[test]
fn icon_script_embeds_escaped_paths() {
    let s = icon_script("C:\\O'Brien\\a.exe", "C:\\icons\\x-j.png");
    assert!(s.starts_with("$ErrorActionPreference='SilentlyContinue'\n$p='C:\\O''Brien\\a.exe'\n"));
    assert!(s.contains("$i.ToBitmap().Save('C:\\icons\\x-j.png', [System.Drawing.Imaging.ImageFormat]::Png)"));
    assert!(s.ends_with("    break\n  }\n}"));
    assert_eq!(icon_file_name("a"), format!("{}-j.png", hash_path("a")));
}

#[test]
fn icon_data_urls_are_base64() {
    assert_eq!(icon_data_url(b"abc"), "data:image/png;base64,YWJj");
    assert_eq!(icon_data_url(b"ab"), "data:image/png;base64,YWI=");
    assert_eq!(icon_data_url(b""), "data:image/png;base64,");
}

#[test]
fn launch_checks_and_parameters() {
    assert_eq!(plan_launch("C:\\a.exe", false, None, false), Err("应用路径不存在".to_string()));
    assert_eq!(plan_launch("C:\\a.txt", true, None, false), Err("只允许启动 .exe 或 .lnk 文件".to_string()));
    assert_eq!(plan_launch("C:\\a.exe", true, Some("C:\\b c.txt"), false), Err("文件不存在或不可访问".to_string()));
    assert_eq!(plan_launch("C:\\a.exe", true, None, false), Ok(None));
    assert_eq!(
        plan_launch("C:\\a.exe", true, Some("C:\\b c.txt"), true),
        Ok(Some("\"C:\\b c.txt\"".to_string()))
    );
}

#[test]
fn shell_codes_up_to_32_are_failures() {
    assert_eq!(launch_outcome(33), Ok(()));
    assert_eq!(launch_outcome(2), Err("Windows 无法启动该应用（错误码 2）".to_string()));
    assert_eq!(launch_outcome(-5), Err("Windows 无法启动该应用（错误码 -5）".to_string()));
    assert_eq!(launch_outcome(32), Err("Windows 无法启动该应用（错误码 32）".to_string()));
}

#[test]
fn windows_path_prefixes_are_not_file_names() {
    assert!(!is_launcher_path("\\\\srv\\sh.exe"));
    assert!(!is_launcher_path("//srv/sh.exe"));
    assert!(is_launcher_path("\\\\srv\\sh\\a.exe"));
    assert!(is_launcher_path("//srv/sh/a.exe"));
    assert!(!is_launcher_path("\\\\.\\app.exe"));
    assert!(is_launcher_path("\\\\.\\C:\\x\\app.exe"));
    assert!(is_launcher_path("\\\\?\\C:\\a\\b.EXE"));
    assert!(!is_launcher_path("\\\\?\\C:\\a\\b.exe\\."));
    assert!(!is_launcher_path("\\\\?\\UNC\\srv\\sh.lnk"));
    assert_eq!(file_stem("\\\\?\\UNC\\srv\\share"), None);
    assert_eq!(file_stem("\\\\?\\UNC\\srv\\share\\tool.lnk"), Some("tool".to_string()));
    assert_eq!(file_stem("\\\\?\\D:\\a/b.exe"), Some("a/b".to_string()));
    assert_eq!(file_stem("\\\\srv"), Some("srv".to_string()));
    assert_eq!(file_stem("C:app.exe"), Some("app".to_string()));
    assert!(is_launcher_path("C:app.exe"));
}
