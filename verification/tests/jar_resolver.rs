use mozcomp::replacements::ReplacementMap;
use mozcomp::text::to_chars;
use mozcomp::utils::jar_resolver::{
    build_chrome_url, parse_content_accessible_files, parse_file_line, parse_file_list,
    parse_jar_file, parse_mozbuild_file, parse_registration_line, ChromeRegistration,
    IfdefConfig, JarResolver, JarResolverError, ManifestFile,
};

const JAR: &str = "\
# a comment
browser.jar:
% skin browser classic/1.0 %skin/classic/browser/
% content global %content/global/ contentaccessible=yes
  skin/classic/browser/monitor.png (monitor.png)
* skin/classic/browser/starred.png (starred.png)
#ifdef ANDROID
  skin/classic/browser/android.png (android.png)
#endif
#ifndef ANDROID
  skin/classic/browser/desktop.png (/toolkit/desktop.png)
#endif
  content/global/panel.mjs  (widgets/panel.mjs)
  skin/classic/browser/base.css
  unregistered/x.png (x.png)
";

fn jar(path: &str, content: &str) -> ManifestFile {
    ManifestFile { path: String::from(path), content: Some(String::from(content)) }
}

fn resolver(content: &str, flags: Option<Vec<(String, bool)>>) -> Result<JarResolver, JarResolverError> {
    JarResolver::new("", "", &vec![jar("browser/themes/jar.mn", content)], &vec![], flags)
}

fn registrations(lines: &[&str]) -> Vec<ChromeRegistration> {
    let mut regs = Vec::new();
    for line in lines {
        parse_registration_line(line, &mut regs);
    }
    regs
}

#[test]
fn jar_manifest_maps_registered_files() {
    let r = resolver(JAR, None).unwrap();
    assert_eq!(
        r.resolve_path("chrome://browser/skin/monitor.png").unwrap(),
        "browser/themes/monitor.png"
    );
    assert_eq!(
        r.resolve_path("chrome://global/content/panel.mjs").unwrap(),
        "browser/themes/widgets/panel.mjs"
    );
    assert_eq!(r.resolve_path("chrome://browser/skin/base.css").unwrap(), "browser/themes/base.css");
    assert_eq!(r.resolve_path("chrome://browser/skin/desktop.png").unwrap(), "toolkit/desktop.png");
    assert!(matches!(
        r.resolve_path("chrome://browser/skin/starred.png"),
        Err(JarResolverError::NoMappingFound(u)) if u == "chrome://browser/skin/starred.png"
    ));
}

#[test]
fn conditional_manifest_with_default_flags() {
    let r = resolver(JAR, None).unwrap();
    assert!(matches!(
        r.resolve_path("chrome://browser/skin/android.png"),
        Err(JarResolverError::NoMappingFound(_))
    ));
    assert!(r.resolve_path("chrome://browser/skin/desktop.png").is_ok());
}

#[test]
fn conditional_manifest_with_overridden_flag() {
    let r = resolver(JAR, Some(vec![(String::from("ANDROID"), true)])).unwrap();
    assert_eq!(
        r.resolve_path("chrome://browser/skin/android.png").unwrap(),
        "browser/themes/android.png"
    );
    assert!(matches!(
        r.resolve_path("chrome://browser/skin/desktop.png"),
        Err(JarResolverError::NoMappingFound(_))
    ));
}

#[test]
fn nested_conditions_are_conjoined() {
    let content = "\
a.jar:
% skin a classic/1.0 %skin/a/
#ifdef MOZILLA_OFFICIAL
#ifdef ANDROID
  skin/a/inner.png (inner.png)
#endif
  skin/a/outer.png (outer.png)
#endif
#ifdef ANDROID
#ifdef MOZILLA_OFFICIAL
  skin/a/hidden.png (hidden.png)
#endif
  skin/a/hidden2.png (hidden2.png)
#endif
  skin/a/after.png (after.png)
";
    let r = JarResolver::new("", "", &vec![jar("jar.mn", content)], &vec![], None).unwrap();
    assert!(r.resolve_path("chrome://a/skin/inner.png").is_err());
    assert_eq!(r.resolve_path("chrome://a/skin/outer.png").unwrap(), "outer.png");
    assert!(r.resolve_path("chrome://a/skin/hidden.png").is_err());
    assert!(r.resolve_path("chrome://a/skin/hidden2.png").is_err());
    assert_eq!(r.resolve_path("chrome://a/skin/after.png").unwrap(), "after.png");
}

#[test]
fn unknown_flag_is_an_error() {
    let r = resolver("a.jar:\n#ifdef  NO_SUCH_FLAG \n#endif\n", None);
    assert!(matches!(r, Err(JarResolverError::UnknownIfdefCondition(n)) if n == "NO_SUCH_FLAG"));
    let r = resolver("#ifndef OTHER\n", None);
    assert!(matches!(r, Err(JarResolverError::UnknownIfdefCondition(n)) if n == "OTHER"));
    let known = resolver("#ifdef OTHER\n#endif\n", Some(vec![(String::from("OTHER"), false)]));
    assert!(known.is_ok());
}

#[test]
fn unmatched_endif_is_an_error() {
    assert!(matches!(resolver("#endif\n", None), Err(JarResolverError::UnmatchedEndif)));
    assert!(matches!(
        resolver("#ifdef ANDROID\n#endif\n#endif\n", None),
        Err(JarResolverError::UnmatchedEndif)
    ));
}

#[test]
fn file_line_without_file_name_is_an_error() {
    let content = "a.jar:\n% skin a classic/1.0 %skin/a/\n  skin/a/..\n";
    assert!(matches!(resolver(content, None), Err(JarResolverError::InvalidChromeUrl(d)) if d == "skin/a/.."));
}

#[test]
fn missing_manifests_are_passed_over() {
    let files = vec![
        ManifestFile { path: String::from("missing/jar.mn"), content: None },
        jar("browser/themes/jar.mn", JAR),
    ];
    let builds = vec![ManifestFile { path: String::from("missing/moz.build"), content: None }];
    let r = JarResolver::new("", "", &files, &builds, None).unwrap();
    assert!(r.resolve_path("chrome://browser/skin/monitor.png").is_ok());
}

#[test]
fn registrations_of_later_manifests_see_earlier_ones() {
    let first = jar("a/jar.mn", "a.jar:\n% skin pkg classic/1.0 %skin/pkg/\n");
    let second = jar("b/jar.mn", "b.jar:\n  skin/pkg/x.css (x.css)\n");
    let r = JarResolver::new("root", "", &vec![first, second], &vec![], None).unwrap();
    assert_eq!(r.resolve_path("chrome://pkg/skin/x.css").unwrap(), "root/b/x.css");
}

#[test]
fn paths_are_relative_to_the_working_directory() {
    let r = JarResolver::new("/work/tree", "/work", &vec![jar("browser/jar.mn", JAR)], &vec![], None)
        .unwrap();
    assert_eq!(r.resolve_path("chrome://browser/skin/monitor.png").unwrap(), "tree/browser/monitor.png");
}

#[test]
fn internal_urls() {
    let r = resolver("", None).unwrap();
    assert!(r.is_internal_url("chrome://a/b"));
    assert!(r.is_internal_url("resource://a/b"));
    assert!(!r.is_internal_url("./chrome://a"));
    assert!(!r.is_internal_url("https://a/b"));
    assert!(matches!(
        r.resolve_path("./a.mjs"),
        Err(JarResolverError::InvalidChromeUrl(u)) if u == "./a.mjs"
    ));
}

#[test]
fn registration_lines() {
    let regs = registrations(&[
        "% skin browser classic/1.0 %skin/classic/browser/ flag=1 other",
        "% content global %content/global/ contentaccessible=yes",
        "% locale browser en-US",
        "% content short",
        "no percent here at all",
    ]);
    assert_eq!(regs.len(), 2);
    assert_eq!(regs[0].registration_type, "skin");
    assert_eq!(regs[0].package_name, "browser");
    assert_eq!(regs[0].provider_name, "classic/1.0");
    assert_eq!(regs[0].path, "%skin/classic/browser/");
    assert_eq!(regs[0].flags, vec!["flag=1", "other"]);
    assert_eq!(regs[1].registration_type, "content");
    assert_eq!(regs[1].package_name, "global");
    assert_eq!(regs[1].provider_name, "");
    assert_eq!(regs[1].path, "%content/global/");
    assert_eq!(regs[1].flags, vec!["contentaccessible=yes"]);
}

#[test]
fn a_registration_replaces_the_one_for_its_type_and_package() {
    let regs = registrations(&[
        "% skin a one %skin/one/",
        "% skin b one %skin/b/",
        "% skin a two %skin/two/",
    ]);
    assert_eq!(regs.len(), 2);
    assert_eq!(regs[0].package_name, "a");
    assert_eq!(regs[0].path, "%skin/two/");
    assert_eq!(regs[1].package_name, "b");
}

#[test]
fn chrome_urls() {
    let regs = registrations(&[
        "% skin browser classic/1.0 %skin/classic/browser/",
        "% skin global classic/1.0 %skin/classic/",
        "% content global %content/global/",
    ]);
    assert_eq!(
        build_chrome_url("skin/classic/browser/a/b.png", &regs),
        Some(String::from("chrome://browser/skin/a/b.png"))
    );
    assert_eq!(
        build_chrome_url("skin/classic/other.png", &regs),
        Some(String::from("chrome://global/skin/other.png"))
    );
    assert_eq!(
        build_chrome_url("content/global/x.mjs", &regs),
        Some(String::from("chrome://global/content/x.mjs"))
    );
    assert_eq!(build_chrome_url("locale/en-US/x.ftl", &regs), None);
    assert_eq!(build_chrome_url("skin/modern/x.png", &regs), None);
    assert_eq!(build_chrome_url("", &regs), None);
}

#[test]
fn file_lines() {
    let regs = registrations(&["% skin browser classic/1.0 %skin/classic/browser/"]);
    let mut map = ReplacementMap::new();
    parse_file_line("  skin/classic/browser/a.png  ( img/a.png ) ", "dir", "root", "", &mut map, &regs)
        .unwrap();
    parse_file_line("skin/classic/browser/b.png", "dir", "root", "", &mut map, &regs).unwrap();
    parse_file_line("skin/classic/browser/c.png (/abs/c.png)", "dir", "root", "", &mut map, &regs)
        .unwrap();
    parse_file_line("skin/classic/browser/d.png )x(", "dir", "root", "", &mut map, &regs).unwrap();
    parse_file_line("elsewhere/e.png (e.png)", "dir", "root", "", &mut map, &regs).unwrap();
    assert_eq!(map.get("chrome://browser/skin/a.png").unwrap(), "root/dir/img/a.png");
    assert_eq!(map.get("chrome://browser/skin/b.png").unwrap(), "root/dir/b.png");
    assert_eq!(map.get("chrome://browser/skin/c.png").unwrap(), "root/abs/c.png");
    assert_eq!(map.get("chrome://browser/skin/d.png )x(").unwrap(), "root/dir/d.png )x(");
    assert!(!map.contains_key("chrome://browser/skin/e.png"));
    let err = parse_file_line("skin/classic/browser/..", "dir", "root", "", &mut map, &regs);
    assert!(matches!(err, Err(JarResolverError::InvalidChromeUrl(_))));
}

#[test]
fn parse_jar_file_keeps_what_was_read_before_an_error() {
    let mut map = ReplacementMap::new();
    let mut regs = Vec::new();
    let config = IfdefConfig::defaults();
    let content = "a.jar:\n% skin a classic/1.0 %skin/a/\n  skin/a/x.png\n#endif\n  skin/a/y.png\n";
    let r = parse_jar_file(content, "d/jar.mn", "", "", &mut map, &mut regs, &config);
    assert!(matches!(r, Err(JarResolverError::UnmatchedEndif)));
    assert_eq!(map.get("chrome://a/skin/x.png").unwrap(), "d/x.png");
    assert!(!map.contains_key("chrome://a/skin/y.png"));
    assert_eq!(regs.len(), 1);
}

#[test]
fn file_lines_need_a_jar() {
    let content = "% skin a classic/1.0 %skin/a/\n  skin/a/x.png\nskin.jar:\n  skin/a/y.png\n";
    let r = resolver(content, None).unwrap();
    assert!(r.resolve_path("chrome://a/skin/x.png").is_err());
    assert!(r.resolve_path("chrome://a/skin/y.png").is_ok());
}

#[test]
fn default_flags() {
    let config = IfdefConfig::defaults();
    assert_eq!(config.get("MOZILLA_OFFICIAL"), Some(true));
    assert_eq!(config.get("RELEASE_OR_BETA"), Some(true));
    assert_eq!(config.get("ANDROID"), Some(false));
    assert_eq!(config.get("MOZ_GLEAN_ANDROID"), Some(false));
    assert_eq!(config.get("MOZ_FENNEC"), Some(false));
    assert_eq!(config.get("XP_MACOSX"), Some(false));
    assert_eq!(config.get("XP_WIN"), None);
    let chosen = IfdefConfig::with_overrides(&Some(vec![
        (String::from("ANDROID"), true),
        (String::from("XP_WIN"), false),
        (String::from("ANDROID"), false),
    ]));
    assert_eq!(chosen.get("ANDROID"), Some(false));
    assert_eq!(chosen.get("XP_WIN"), Some(false));
    assert_eq!(chosen.get("MOZILLA_OFFICIAL"), Some(true));
}

#[test]
fn file_lists() {
    let mut map = ReplacementMap::new();
    parse_file_list(" \"a/one.css\", 'two.svg' ,, \"\" , three.js", "toolkit/themes", "root", "", &mut map);
    assert_eq!(
        map.get("resource://content-accessible/one.css").unwrap(),
        "root/toolkit/themes/a/one.css"
    );
    assert_eq!(map.get("resource://content-accessible/two.svg").unwrap(), "root/toolkit/themes/two.svg");
    assert_eq!(
        map.get("resource://content-accessible/three.js").unwrap(),
        "root/toolkit/themes/three.js"
    );
}

#[test]
fn content_accessible_lists() {
    let lines: Vec<Vec<char>> = ["X += [", "  'a.css',", "  'b.css',", "]", "'c.css'"]
        .iter()
        .map(|l| to_chars(l))
        .collect();
    let mut map = ReplacementMap::new();
    let next = parse_content_accessible_files(&lines, 0, "d", "", "", &mut map);
    assert_eq!(next, 4);
    assert!(map.contains_key("resource://content-accessible/a.css"));
    assert!(map.contains_key("resource://content-accessible/b.css"));
    assert!(!map.contains_key("resource://content-accessible/c.css"));
    let mut one_line = ReplacementMap::new();
    let next = parse_content_accessible_files(&lines, 4, "d", "", "", &mut one_line);
    assert_eq!(next, 5);
    assert!(one_line.is_empty());
}

#[test]
fn build_descriptions() {
    let content = "\
DIRS += ['widgets']
CONTENT_ACCESSIBLE_FILES += ['inline.css', \"also.css\"]
CONTENT_ACCESSIBLE_FILES.icons += []
CONTENT_ACCESSIBLE_FILES +=
    [
    'first.svg',
    'sub/second.svg',
]
OTHER = ['not.css']
CONTENT_ACCESSIBLE_FILES = [ 'open.css',
  'close.css' ]
TRAILING = 1
CONTENT_ACCESSIBLE_FILES = [ 'left.css',
  'skipped.css' ] + ['right.css']
";
    let mut map = ReplacementMap::new();
    parse_mozbuild_file(content, "toolkit/moz.build", "", "", &mut map);
    for name in ["inline.css", "also.css", "first.svg", "second.svg", "open.css", "close.css"] {
        assert!(map.contains_key(&format!("resource://content-accessible/{}", name)), "{}", name);
    }
    assert_eq!(map.get("resource://content-accessible/second.svg").unwrap(), "toolkit/sub/second.svg");
    assert!(!map.contains_key("resource://content-accessible/not.css"));
    assert!(map.contains_key("resource://content-accessible/left.css"));
    assert!(map.contains_key("resource://content-accessible/right.css"));
    assert!(!map.contains_key("resource://content-accessible/skipped.css"));
}

#[test]
fn build_descriptions_feed_the_resolver() {
    let builds = vec![ManifestFile {
        path: String::from("toolkit/moz.build"),
        content: Some(String::from("CONTENT_ACCESSIBLE_FILES += ['a/tokens.css']\n")),
    }];
    let r = JarResolver::new("", "", &vec![], &builds, None).unwrap();
    assert_eq!(
        r.resolve_path("resource://content-accessible/tokens.css").unwrap(),
        "toolkit/a/tokens.css"
    );
}
