use dfm::error::DeployError;
use dfm::link::{decide_link, LinkAction, TargetKind};
use dfm::paths::{extension, file_stem, join, strip_root};
use dfm::plan::{is_template, plan_run, plan_step, Layout, TEMPLATE_EXTENSION};
use dfm::scan::{select_files, EntryKind, ScanEntry};
use dfm::values::{has_partial_call, render_source, resolve_values, values_for_plan, Renderer, ValuesTable};

fn p(parts: &[&str]) -> Vec<String> {
    parts.iter().map(|s| s.to_string()).collect()
}

fn layout() -> Layout {
    Layout {
        input: p(&["home"]),
        output: p(&["out"]),
        home: p(&["/", "users", "me"]),
        marker: TEMPLATE_EXTENSION.to_string(),
    }
}

fn entry(parts: &[&str], kind: EntryKind) -> ScanEntry {
    ScanEntry { path: p(parts), kind }
}

#[test]
fn extension_follows_path_rules() {
    assert_eq!(extension("conf.hbs"), Some("hbs".to_string()));
    assert_eq!(extension("a.b.hbs"), Some("hbs".to_string()));
    assert_eq!(extension("foo."), Some("".to_string()));
    assert_eq!(extension(".bashrc"), None);
    assert_eq!(extension(".."), None);
    assert_eq!(extension("plain"), None);
    assert_eq!(extension(""), None);
}

#[test]
fn file_stem_drops_last_extension_only() {
    assert_eq!(file_stem("foo.conf.hbs"), "foo.conf");
    assert_eq!(file_stem("conf.hbs"), "conf");
    assert_eq!(file_stem(".bashrc"), ".bashrc");
    assert_eq!(file_stem(".."), "..");
    assert_eq!(file_stem("plain"), "plain");
}

#[test]
fn strip_root_and_join() {
    assert_eq!(strip_root(&p(&["home", "a", "b"]), &p(&["home"])), Some(p(&["a", "b"])));
    assert_eq!(strip_root(&p(&["other", "a"]), &p(&["home"])), None);
    assert_eq!(strip_root(&p(&["home"]), &p(&["home", "a"])), None);
    assert_eq!(join(&p(&["out"]), &p(&["a", "b"])), p(&["out", "a", "b"]));
}

#[test]
fn classifier_matches_marker_case_sensitively() {
    assert!(is_template(&p(&["home", "conf.hbs"]), "hbs"));
    assert!(is_template(&p(&["home", "x", "foo.conf.hbs"]), "hbs"));
    assert!(!is_template(&p(&["home", "conf.HBS"]), "hbs"));
    assert!(!is_template(&p(&["home", ".hbs"]), "hbs"));
    assert!(!is_template(&p(&["home", "hbs"]), "hbs"));
    assert!(!is_template(&p(&["home", "a.hbs.bak"]), "hbs"));
    assert!(!is_template(&p(&["home", "a.txt"]), "hbs"));
    assert!(!is_template(&p(&[]), "hbs"));
}

#[test]
fn scan_keeps_exactly_the_regular_files() {
    let entries = vec![
        entry(&["home"], EntryKind::Directory),
        entry(&["home", "a.txt"], EntryKind::Regular),
        entry(&["home", "sub"], EntryKind::Directory),
        entry(&["home", "sub", "b.hbs"], EntryKind::Regular),
        entry(&["home", "sock"], EntryKind::Special),
    ];
    let files = select_files(&entries).unwrap();
    assert_eq!(files, vec![p(&["home", "a.txt"]), p(&["home", "sub", "b.hbs"])]);
}

#[test]
fn scan_of_empty_walk_is_empty() {
    assert_eq!(select_files(&vec![]).unwrap(), Vec::<Vec<String>>::new());
}

#[test]
fn scan_fails_on_unreadable_entry() {
    let entries = vec![
        entry(&["home", "a.txt"], EntryKind::Regular),
        entry(&["home", "dangling"], EntryKind::Unreadable),
    ];
    assert_eq!(select_files(&entries), Err(DeployError::Traversal));
}

#[test]
fn copy_step_mirrors_relative_path() {
    let step = plan_step(&p(&["home", "x", "y", "a.txt"]), &layout()).unwrap();
    assert_eq!(step.source, p(&["home", "x", "y", "a.txt"]));
    assert_eq!(step.output, p(&["out", "x", "y", "a.txt"]));
    assert_eq!(step.link, p(&["/", "users", "me", "x", "y", "a.txt"]));
    assert!(!step.render);
}

#[test]
fn render_step_strips_only_the_marker() {
    let step = plan_step(&p(&["home", "cfg", "foo.conf.hbs"]), &layout()).unwrap();
    assert_eq!(step.output, p(&["out", "cfg", "foo.conf"]));
    assert_eq!(step.link, p(&["/", "users", "me", "cfg", "foo.conf"]));
    assert!(step.render);
}

#[test]
fn step_outside_root_is_refused() {
    assert!(matches!(plan_step(&p(&["elsewhere", "a.txt"]), &layout()), Err(DeployError::OutsideRoot)));
    assert!(matches!(plan_step(&p(&["home"]), &layout()), Err(DeployError::OutsideRoot)));
    let files = vec![p(&["home", "a.txt"]), p(&["elsewhere", "b.txt"])];
    assert!(matches!(plan_run(&files, &layout()), Err(DeployError::OutsideRoot)));
}

#[test]
fn scenario_plain_file_needs_no_values() {
    let plan = plan_run(&vec![p(&["home", "a.txt"])], &layout()).unwrap();
    assert!(!plan.needs_values);
    assert_eq!(plan.steps.len(), 1);
    assert_eq!(plan.steps[0].output, p(&["out", "a.txt"]));
    assert_eq!(plan.steps[0].link, p(&["/", "users", "me", "a.txt"]));
    assert!(!plan.steps[0].render);
    assert!(matches!(values_for_plan(&plan, None), Ok(None)));
    assert!(matches!(values_for_plan(&plan, Some("not = = toml")), Ok(None)));
}

#[test]
fn scenario_template_rendered_with_values() {
    let plan = plan_run(&vec![p(&["home", "conf.hbs"])], &layout()).unwrap();
    assert!(plan.needs_values);
    assert_eq!(plan.steps[0].output, p(&["out", "conf"]));
    assert_eq!(plan.steps[0].link, p(&["/", "users", "me", "conf"]));
    let values = values_for_plan(&plan, Some("name = \"x\"")).unwrap().unwrap();
    let renderer = Renderer::new();
    assert_eq!(render_source(&renderer, "name={{name}}", &values), Ok("name=x".to_string()));
}

#[test]
fn scenario_template_without_values_file() {
    let plan = plan_run(&vec![p(&["home", "conf.hbs"])], &layout()).unwrap();
    assert!(matches!(values_for_plan(&plan, None), Err(DeployError::ConfigMissing)));
    assert!(matches!(resolve_values(None), Err(DeployError::ConfigMissing)));
}

#[test]
fn scenario_stale_file_is_replaced() {
    assert_eq!(decide_link(TargetKind::File), Ok(LinkAction::ReplaceFile));
}

#[test]
fn link_decisions_for_each_kind() {
    assert_eq!(decide_link(TargetKind::Absent), Ok(LinkAction::Create));
    assert_eq!(decide_link(TargetKind::Symlink), Ok(LinkAction::ReplaceFile));
    assert_eq!(decide_link(TargetKind::EmptyDir), Ok(LinkAction::ReplaceDir));
    assert_eq!(decide_link(TargetKind::NonEmptyDir), Err(DeployError::UnsafeOverwrite));
}

#[test]
fn malformed_values_document_is_parse_error() {
    assert!(matches!(ValuesTable::parse("name = "), Err(DeployError::ConfigParse)));
    assert!(matches!(resolve_values(Some("[broken")), Err(DeployError::ConfigParse)));
    assert!(ValuesTable::parse("").is_ok());
}

#[test]
fn nested_values_are_rendered() {
    let values = ValuesTable::parse("[user]\nname = \"ada\"\nshell = \"zsh\"\n").unwrap();
    let renderer = Renderer::new();
    let out = render_source(&renderer, "{{user.name}} uses {{user.shell}}", &values);
    assert_eq!(out, Ok("ada uses zsh".to_string()));
}

#[test]
fn rendering_does_not_escape_html() {
    let values = ValuesTable::parse("v = \"<a & b>\"").unwrap();
    let renderer = Renderer::new();
    assert_eq!(render_source(&renderer, "{{v}}", &values), Ok("<a & b>".to_string()));
}

#[test]
fn rendering_is_repeatable() {
    let values = ValuesTable::parse("name = \"x\"\nn = 3").unwrap();
    let renderer = Renderer::new();
    let first = render_source(&renderer, "{{name}}-{{n}}", &values);
    let second = render_source(&renderer, "{{name}}-{{n}}", &values);
    assert_eq!(first, Ok("x-3".to_string()));
    assert_eq!(first, second);
}

#[test]
fn broken_template_is_template_error() {
    let values = ValuesTable::parse("name = \"x\"").unwrap();
    let renderer = Renderer::new();
    assert_eq!(render_source(&renderer, "{{#if name}}open", &values), Err(DeployError::Template));
}

#[test]
fn replanning_gives_the_same_steps() {
    let files = vec![p(&["home", "a.txt"]), p(&["home", "d", "conf.hbs"])];
    let first = plan_run(&files, &layout()).unwrap();
    let second = plan_run(&files, &layout()).unwrap();
    assert_eq!(first.needs_values, second.needs_values);
    for (a, b) in first.steps.iter().zip(second.steps.iter()) {
        assert_eq!(a.output, b.output);
        assert_eq!(a.link, b.link);
        assert_eq!(a.render, b.render);
    }
}

#[test]
fn error_messages_are_distinct() {
    let all = [
        DeployError::ConfigMissing,
        DeployError::ConfigParse,
        DeployError::Traversal,
        DeployError::OutsideRoot,
        DeployError::Template,
        DeployError::UnsafeOverwrite,
    ];
    for (i, a) in all.iter().enumerate() {
        for b in all.iter().skip(i + 1) {
            assert_ne!(a.message(), b.message());
        }
    }
}

#[test]
fn partial_calls_are_detected() {
    assert!(has_partial_call("{{> header}}"));
    assert!(has_partial_call("a {{~ > header}} b"));
    assert!(has_partial_call("{{#> layout}}x{{/layout}}"));
    assert!(has_partial_call("{{ # \n> layout}}"));
    assert!(!has_partial_call("{{name}} > {{other}}"));
    assert!(!has_partial_call("a > b { { > c"));
    assert!(!has_partial_call("{{#if x}}y{{/if}}"));
    assert!(!has_partial_call(""));
}

#[test]
fn self_calling_partial_is_refused() {
    let values = ValuesTable::parse("name = \"x\"").unwrap();
    let renderer = Renderer::new();
    let template = "{{#*inline \"a\"}}{{> a}}{{/inline}}{{> a}}";
    assert_eq!(render_source(&renderer, template, &values), Err(DeployError::Template));
}

#[test]
fn scan_keeps_walk_order() {
    let entries = vec![
        entry(&["home", "z"], EntryKind::Regular),
        entry(&["home", "d"], EntryKind::Directory),
        entry(&["home", "d", "a"], EntryKind::Regular),
        entry(&["home", "m"], EntryKind::Regular),
    ];
    let files = select_files(&entries).unwrap();
    assert_eq!(files, vec![p(&["home", "z"]), p(&["home", "d", "a"]), p(&["home", "m"])]);
}
