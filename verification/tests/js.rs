use mozcomp::dependencies::js::{check_parse, DependencyVisitor};
use mozcomp::errors::{DependencyError, TransformError};
use mozcomp::replacements::ReplacementMap;
use mozcomp::transform::js::normalize_tabs;
use mozcomp::transform::js;
use mozcomp::patterns::Captured;
use mozcomp::transform::js_transform::css_inline_transform::{
    is_html_tag, process_expression, process_statement, text_without_inlined_links,
    CssInlineTransformer, ExpressionKind, Operand, StatementKind,
};
use mozcomp::transform::js_transform::icon_template_import::{
    split_fragment, FragmentPlan, IconTemplateImportTransformer, TemplateFragment,
};
use mozcomp::transform::js_transform::import_css_transform::ImportCssTransformer;
use mozcomp::transform::js_transform::url_transform::UrlTransformer;

fn map(pairs: &[(&str, &str)]) -> ReplacementMap {
    let mut m = ReplacementMap::new();
    for (k, v) in pairs {
        m.insert(String::from(*k), String::from(*v));
    }
    m
}

fn names(v: &[&str]) -> Vec<String> {
    v.iter().map(|s| String::from(*s)).collect()
}

fn fragment(text: &str, tail: bool) -> TemplateFragment {
    TemplateFragment { cooked: Some(String::from(text)), tail }
}

#[test]
fn script_references_are_collected_in_order() {
    let mut v = DependencyVisitor::new();
    v.visit_import_declaration("./util.mjs");
    v.visit_import_declaration("");
    v.visit_string_literal("chrome://global/skin/icons/a.svg");
    v.visit_string_literal("resource://gre/x.mjs");
    v.visit_string_literal("plain text");
    v.visit_template_element(
        "<link rel=\"stylesheet\" href=\"s.css\"><img src=\"icon.svg\"><a href='https://h/a.html'>",
    );
    assert_eq!(
        v.into_dependencies(),
        vec![
            "./util.mjs",
            "chrome://global/skin/icons/a.svg",
            "resource://gre/x.mjs",
            "s.css",
            "s.css",
            "icon.svg"
        ]
    );
}

#[test]
fn stylesheet_links_in_templates() {
    let mut v = DependencyVisitor::new();
    v.extract_css_links_from_html(
        "<link rel='stylesheet' href=' chrome://global/skin/a.css '/>\n<link href=\"no-rel.css\">\
         <link rel=\"stylesheet\" type=\"text/css\" href=\"b.css\">",
    );
    assert_eq!(v.dependencies, vec!["chrome://global/skin/a.css", "b.css"]);
}

#[test]
fn asset_references_in_templates() {
    let mut v = DependencyVisitor::new();
    v.extract_any_link_from_html(
        "<img src=\"a.svg\"><moz-button iconsrc = 'chrome://global/skin/b.svg'>\
         <a href=\"http://h/c.html\"><a href=\"https://h/d.html\"><a href=\"www.h.org/e.html\">\
         <img src=\"no-extension\"><script src=\"resource://x/f.js\">",
    );
    assert_eq!(
        v.dependencies,
        vec!["a.svg", "chrome://global/skin/b.svg", "www.h.org/e.html", "resource://x/f.js"]
    );
}

#[test]
fn parser_reports_for_extraction() {
    assert!(check_parse(false, &vec![]).is_ok());
    assert!(matches!(check_parse(true, &vec![]), Err(DependencyError::JsPanicParse)));
    assert!(matches!(check_parse(true, &names(&["x"])), Err(DependencyError::JsPanicParse)));
    assert!(matches!(
        check_parse(false, &names(&["Unexpected token", "second"])),
        Err(DependencyError::JsParse { message }) if message == "Parser errors: Unexpected token"
    ));
}

#[test]
fn parser_reports_for_transformation() {
    assert!(js::check_parse(false, &vec![]).is_ok());
    assert!(matches!(js::check_parse(true, &names(&["x"])), Err(TransformError::JsPanicParse)));
    assert!(matches!(
        js::check_parse(false, &names(&["Identifier `a` has already been declared", "second"])),
        Err(TransformError::JsParse { message })
            if message == "Semantic errors: Identifier `a` has already been declared"
    ));
}

#[test]
fn tabs_become_two_spaces() {
    assert_eq!(normalize_tabs("a {\n\tb;\n\t\tc;\n}"), "a {\n  b;\n    c;\n}");
    assert_eq!(normalize_tabs("no tabs"), "no tabs");
    assert_eq!(normalize_tabs(""), "");
}

#[test]
fn import_sources_are_rewritten() {
    let m = map(&[("./util.mjs", "../../dependencies/util.mjs"), ("x/lit.all.mjs", "y")]);
    let t = UrlTransformer::new(&m);
    assert_eq!(
        t.enter_import_declaration("./util.mjs").unwrap(),
        Some(String::from("../../dependencies/util.mjs"))
    );
    assert_eq!(t.enter_import_declaration("x/lit.all.mjs").unwrap(), Some(String::from("y")));
    assert!(matches!(
        t.enter_import_declaration("./other.mjs"),
        Err(TransformError::ReplacementNotFound { import }) if import == "./other.mjs"
    ));
}

#[test]
fn the_lit_import_stays() {
    let with_entry = map(&[("lit.all.mjs", "../never.mjs")]);
    assert_eq!(UrlTransformer::new(&with_entry).enter_import_declaration("lit.all.mjs").unwrap(), None);
    let empty = ReplacementMap::new();
    assert_eq!(UrlTransformer::new(&empty).enter_import_declaration("lit.all.mjs").unwrap(), None);
}

#[test]
fn css_is_imported_once() {
    let mut t = ImportCssTransformer::new();
    assert!(!t.enter_import_declaration("./util.mjs", &names(&[])));
    assert!(t.enter_import_declaration("../vendor/lit.all.mjs", &names(&["html", "LitElement"])));
    assert!(!t.enter_import_declaration("lit.all.mjs", &names(&["html"])));
    assert!(!t.enter_import_declaration("lit.all.mjs", &names(&[])));
    t.build();
    assert!(!t.enter_import_declaration("lit.all.mjs", &names(&["html", "css"])));
    assert!(!t.enter_import_declaration("lit.all.mjs", &names(&["html"])));
    t.build();
    assert!(!t.enter_import_declaration("lit.all.mjs.map", &names(&[])));
    assert!(t.enter_import_declaration("lit.all.mjs", &names(&[])));
}

#[test]
fn link_tags_of_inlined_stylesheets_leave_the_template() {
    let inlines = map(&[("s.css", "a { color: red; }"), ("t.css", "b {}")]);
    let mut t = CssInlineTransformer::new(&inlines);
    t.enter_class();
    assert_eq!(
        t.process_fragment("\n  <link rel=\"stylesheet\" href=\"s.css\">\n  <div>x</div>"),
        Some(String::from("\n  <div>x</div>"))
    );
    assert_eq!(t.process_fragment("<link rel=\"stylesheet\" href=\"unknown.css\"><p>"), None);
    assert_eq!(t.process_fragment("<div>no link</div>"), None);
    assert_eq!(t.process_fragment("<link rel=\"icon\" href=\"s.css\">"), None);
    assert_eq!(
        t.process_fragment("<link href=\"t.css\" rel=\"stylesheet\" /><p>"),
        Some(String::from("<p>"))
    );
    assert_eq!(t.process_fragment("<link rel='stylesheet' href='s.css'>"), Some(String::new()));
    let field = t.add_styles_property(Some("MozLitElement")).unwrap();
    assert_eq!(field.base_class, Some(String::from("MozLitElement")));
    assert_eq!(field.css, "/* From s.css */\na { color: red; }\n/* From t.css */\nb {}\n");
    assert!(t.build());
}

#[test]
fn component_with_inlined_stylesheet_gets_one_field() {
    let inlines = map(&[("s.css", "a{}")]);
    let mut t = CssInlineTransformer::new(&inlines);
    t.enter_class();
    let mut quasis = vec![
        Some(String::from("<link rel=\"stylesheet\" href=\"s.css\"><b>")),
        None,
        Some(String::from("</b>")),
    ];
    assert!(t.process_html_template(&mut quasis));
    assert_eq!(quasis, vec![Some(String::from("<b>")), None, Some(String::from("</b>"))]);
    let mut second = vec![Some(String::from("<i></i>"))];
    assert!(!t.process_html_template(&mut second));
    let field = t.add_styles_property(None).unwrap();
    assert_eq!(field.base_class, None);
    assert_eq!(field.css, "/* From s.css */\na{}\n");
    assert!(t.build());
    t.enter_class();
    let mut other = vec![Some(String::from("<p>plain</p>"))];
    assert!(!t.process_html_template(&mut other));
    assert!(t.add_styles_property(Some("Base")).is_none());
    assert!(t.build());
}

#[test]
fn without_a_changed_template_no_field_is_made() {
    let inlines = map(&[("s.css", "a{}")]);
    let mut t = CssInlineTransformer::new(&inlines);
    t.enter_class();
    assert_eq!(t.process_fragment("<div></div>"), None);
    assert!(t.add_styles_property(None).is_none());
    assert!(!t.build());
    let none = ReplacementMap::new();
    let mut empty = CssInlineTransformer::new(&none);
    empty.enter_class();
    assert_eq!(empty.process_fragment("<link rel=\"stylesheet\" href=\"s.css\">"), None);
    assert!(empty.add_styles_property(None).is_none());
}

#[test]
fn link_tag_helpers() {
    let inlines = map(&[("a.css", "a{}")]);
    let t = CssInlineTransformer::new(&inlines);
    assert_eq!(
        t.extract_href_from_link_tag("<p><link rel=\"stylesheet\" href=\"a.css\"><link href='b.css'>"),
        Some(String::from("a.css"))
    );
    assert_eq!(t.extract_href_from_link_tag("<a href=\"a.css\">"), None);
    assert_eq!(
        t.remove_link_tag("<link rel=\"stylesheet\" href=\"a.css\">  \n<p><link rel='stylesheet'/>x"),
        "<p><link rel='stylesheet'/>x"
    );
    assert_eq!(t.remove_link_tag("<link rel=\"icon\" href=\"a.css\">"), "<link rel=\"icon\" href=\"a.css\">");
    assert_eq!(t.remove_link_tag("no tag"), "no tag");
}

#[test]
fn every_inlined_link_of_a_fragment_is_cut() {
    let inlines = map(&[("s.css", "a{}"), ("t.css", "b{}")]);
    let mut t = CssInlineTransformer::new(&inlines);
    t.enter_class();
    assert_eq!(
        t.process_fragment(
            "<link rel=\"stylesheet\" href=\"t.css\">\n<b><link rel=\"stylesheet\" href=\"s.css\"> </b>\
             <link rel=\"stylesheet\" href=\"t.css\">end"
        ),
        Some(String::from("<b></b>end"))
    );
    let field = t.add_styles_property(None).unwrap();
    assert_eq!(field.css, "/* From t.css */\nb{}\n/* From s.css */\na{}\n");
}

#[test]
fn a_later_inlined_link_is_cut_and_other_links_stay() {
    let inlines = map(&[("s.css", "a{}")]);
    let mut t = CssInlineTransformer::new(&inlines);
    t.enter_class();
    assert_eq!(
        t.process_fragment(
            "<link rel=\"stylesheet\" href=\"other.css\"><p><link rel=\"stylesheet\" href=\"s.css\"></p>"
        ),
        Some(String::from("<link rel=\"stylesheet\" href=\"other.css\"><p></p>"))
    );
    assert_eq!(
        t.process_fragment(
            "<link rel=\"stylesheet\" href=\"s.css\"><p><link rel=\"stylesheet\" href=\"other.css\"> </p>"
        ),
        Some(String::from("<p><link rel=\"stylesheet\" href=\"other.css\"> </p>"))
    );
    assert_eq!(t.process_fragment("<link rel=\"stylesheet\"><link rel=\"stylesheet\" href=\"o.css\">"), None);
    let field = t.add_styles_property(None).unwrap();
    assert_eq!(field.css, "/* From s.css */\na{}\n");
}

#[test]
fn links_are_cut_given_their_matches() {
    let inlines = map(&[("s.css", "a{}")]);
    let tag = |before: &str, text: &str, after: &str| Captured {
        before: String::from(before),
        groups: vec![Some(String::from(text))],
        after: String::from(after),
    };
    let tags = vec![tag("ab", "<1>", "cd<2>ef"), tag("ab<1>cd", "<2>", "ef")];
    let cut_first = vec![Some(String::from("s.css")), Some(String::from("x.css"))];
    let cut_second = vec![None, Some(String::from("s.css"))];
    let cut_both = vec![Some(String::from("s.css")), Some(String::from("s.css"))];
    let cut_none = vec![Some(String::from("x.css"))];
    assert_eq!(text_without_inlined_links(&inlines, &tags, &cut_first), Some(String::from("abcd<2>ef")));
    assert_eq!(text_without_inlined_links(&inlines, &tags, &cut_second), Some(String::from("ab<1>cdef")));
    assert_eq!(text_without_inlined_links(&inlines, &tags, &cut_both), Some(String::from("abcdef")));
    assert_eq!(text_without_inlined_links(&inlines, &tags, &cut_none), None);
    assert_eq!(text_without_inlined_links(&inlines, &vec![], &cut_both), None);
    let mut t = CssInlineTransformer::new(&inlines);
    t.enter_class();
    assert_eq!(t.cut_inlined_links(&tags, &cut_none), None);
    assert!(t.add_styles_property(None).is_none());
    assert_eq!(t.cut_inlined_links(&tags, &cut_both), Some(String::from("abcdef")));
    assert_eq!(t.add_styles_property(None).unwrap().css, "/* From s.css */\na{}\n");
}

fn describe(plan: &FragmentPlan) -> Vec<String> {
    match plan {
        FragmentPlan::Keep => vec![String::from("keep")],
        FragmentPlan::Split { pieces, replacements } => {
            let mut out = Vec::new();
            for (k, piece) in pieces.iter().enumerate() {
                out.push(format!("{}|{}", piece.cooked.clone().unwrap(), piece.tail));
                if k < replacements.len() {
                    out.push(format!("${{{}}}", replacements[k]));
                }
            }
            assert_eq!(pieces.len(), replacements.len() + 1);
            out
        }
    }
}

#[test]
fn asset_reference_in_template() {
    let m = map(&[("icon.svg", "../assets/icon.svg")]);
    let mut t = IconTemplateImportTransformer::new(&m);
    let plans = t.process_html_template(&vec![fragment("<img src=\"icon.svg\">", true)]);
    assert_eq!(plans.len(), 1);
    assert_eq!(describe(&plans[0]), vec!["<img src=\"|false", "${../assets/icon.svg}", "\">|true"]);
    assert!(t.build());
}

#[test]
fn fragments_are_split_at_every_replaceable_attribute() {
    let m = map(&[("b.svg", "../assets/b.svg"), ("c.svg", "../assets/c.svg")]);
    let mut t = IconTemplateImportTransformer::new(&m);
    let quasis = vec![
        fragment("<p class=\"", false),
        fragment("\"><img src=\"a.svg\"><moz-button iconsrc='b.svg'></moz-button><img src=\"c.svg\">", false),
        TemplateFragment { cooked: None, tail: false },
        fragment("<img src = \"c.svg\" alt=\"\"><img src=\"z.svg\">", true),
    ];
    let plans: Vec<Vec<String>> = t.process_html_template(&quasis).iter().map(describe).collect();
    assert_eq!(plans[0], vec!["keep"]);
    assert_eq!(
        plans[1],
        vec![
            "\"><img src=\"a.svg\"><moz-button src=\"|false",
            "${../assets/b.svg}",
            "\"></moz-button><img src=\"|false",
            "${../assets/c.svg}",
            "\">|false",
        ]
    );
    assert_eq!(plans[2], vec!["keep"]);
    assert_eq!(
        plans[3],
        vec!["<img src=\"|false", "${../assets/c.svg}", "\" alt=\"\"><img src=\"z.svg\">|true"]
    );
    assert!(t.build());
}

#[test]
fn fragments_are_split_given_their_matches() {
    let m = map(&[("b.svg", "B"), ("c.svg", "C")]);
    let attribute = |before: &str, text: &str, value: &str, after: &str| Captured {
        before: String::from(before),
        groups: vec![Some(String::from(text)), Some(String::from("src")), Some(String::from(value))],
        after: String::from(after),
    };
    let matches = vec![
        attribute("<a ", "src='a.svg'", "a.svg", "> <b src='b.svg'> <c src='c.svg'>!"),
        attribute("<a src='a.svg'> <b ", "src='b.svg'", "b.svg", "> <c src='c.svg'>!"),
        attribute("<a src='a.svg'> <b src='b.svg'> <c ", "src='c.svg'", "c.svg", ">!"),
    ];
    let split = split_fragment(&m, &matches).unwrap();
    assert_eq!(split.pieces, vec!["<a src='a.svg'> <b src=\"", "\"> <c src=\"", "\">!"]);
    assert_eq!(split.replacements, vec!["B", "C"]);
    assert!(split_fragment(&m, &matches[..1].iter().map(|c| Captured {
        before: c.before.clone(),
        groups: c.groups.clone(),
        after: c.after.clone(),
    }).collect()).is_none());
    assert!(split_fragment(&m, &vec![]).is_none());
}

#[test]
fn templates_without_replaceable_attributes_stay() {
    let m = map(&[("icon.svg", "../assets/icon.svg")]);
    let mut t = IconTemplateImportTransformer::new(&m);
    let plans = t.process_html_template(&vec![fragment("<img src=\"other.svg\" href=\"icon.svg\">", true)]);
    assert_eq!(plans.len(), 1);
    assert!(matches!(plans[0], FragmentPlan::Keep));
    assert!(!t.build());
    assert!(t.replace_src_with_url_expression("<img src=\"other.svg\">").is_none());
    assert!(t.process_html_template(&vec![]).is_empty());
}

#[test]
fn string_literals_with_replacements() {
    let m = map(&[("chrome://global/skin/icons/a.svg", "../../assets/a.svg")]);
    let mut t = IconTemplateImportTransformer::new(&m);
    assert_eq!(t.replacement_for("plain"), None);
    assert!(!t.build());
    assert_eq!(
        t.replacement_for("chrome://global/skin/icons/a.svg"),
        Some(String::from("../../assets/a.svg"))
    );
    assert!(t.build());
    assert_eq!(t.replacement_for("plain"), None);
    assert!(t.build());
}

#[test]
fn statements_and_expressions_that_are_walked() {
    assert_eq!(process_statement(StatementKind::Return), vec![Operand::ReturnValue]);
    assert_eq!(process_statement(StatementKind::VariableDeclaration), vec![Operand::Initializers]);
    assert_eq!(process_statement(StatementKind::Expression), vec![Operand::Statement]);
    assert!(process_statement(StatementKind::Other).is_empty());
    assert_eq!(process_expression(ExpressionKind::TaggedTemplate, Some("html")), vec![Operand::Template]);
    assert!(process_expression(ExpressionKind::TaggedTemplate, Some("css")).is_empty());
    assert!(process_expression(ExpressionKind::TaggedTemplate, None).is_empty());
    assert_eq!(
        process_expression(ExpressionKind::Conditional, None),
        vec![Operand::Test, Operand::Consequent, Operand::Alternate]
    );
    assert_eq!(process_expression(ExpressionKind::Binary, None), vec![Operand::Left, Operand::Right]);
    assert_eq!(process_expression(ExpressionKind::Logical, None), vec![Operand::Left, Operand::Right]);
    assert_eq!(process_expression(ExpressionKind::Assignment, Some("html")), vec![Operand::Right]);
    assert_eq!(process_expression(ExpressionKind::Call, None), vec![Operand::Arguments]);
    assert!(process_expression(ExpressionKind::Other, Some("html")).is_empty());
    assert!(is_html_tag("html"));
    assert!(!is_html_tag("html2"));
    assert!(!is_html_tag(""));
}

#[test]
fn removing_link_tags_can_put_one_together() {
    let inlines = map(&[("s.css", "a{}")]);
    let mut t = CssInlineTransformer::new(&inlines);
    t.enter_class();
    let text = "<li<link rel=\"stylesheet\" href=\"s.css\">nk rel=\"stylesheet\" href=\"s.css\">";
    assert_eq!(
        t.process_fragment(text),
        Some(String::from("<link rel=\"stylesheet\" href=\"s.css\">"))
    );
}
