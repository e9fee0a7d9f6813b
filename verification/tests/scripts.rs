use command_core::event_parser::EventRegistry;
use command_core::line_parser::parse_script;
use command_core::manager::{normalize_name, LoadScriptsResult, ScriptManager};
use command_core::registry::events::TriggerRegistry;
use command_core::vars::{csv_escape, parse_csv_line, GlobalVars, VarValue};

#[test]
fn parse_script_sections() {
    let src = "\
options:
    prefix: [S]

variables:
    {count} = 0

function greet(p: player):
    send \"hi\" to p

command /ban <player> [<reason:text>]:
    aliases: /b, banish
    permission: mod.ban
    trigger:
        send \"banned\" to player

on join:
    send \"welcome\"
";
    let script = parse_script(src).unwrap();
    assert_eq!(script.options.len(), 1);
    assert_eq!(script.options[0].key, "prefix");
    assert_eq!(script.options[0].value_raw, "[S]");
    assert_eq!(script.variables.len(), 1);
    assert_eq!(script.variables[0].key_raw, "{count}");
    assert_eq!(script.variables[0].value_raw, "0");
    assert_eq!(script.functions.len(), 1);
    assert_eq!(script.functions[0].name, "greet");
    assert_eq!(script.functions[0].params.len(), 1);
    assert_eq!(script.functions[0].params[0].name, "p");
    assert_eq!(script.functions[0].params[0].ty.as_deref(), Some("player"));
    assert_eq!(script.commands.len(), 1);
    let cmd = &script.commands[0];
    assert_eq!(cmd.name, "ban");
    assert_eq!(cmd.aliases, vec!["b".to_string(), "banish".to_string()]);
    assert_eq!(cmd.permission.as_deref(), Some("mod.ban"));
    assert_eq!(cmd.args.len(), 2);
    assert_eq!(cmd.args[0].name, "player");
    assert!(!cmd.args[0].optional);
    assert_eq!(cmd.args[1].name, "reason");
    assert_eq!(cmd.args[1].ty.as_deref(), Some("text"));
    assert!(cmd.args[1].optional);
    assert_eq!(cmd.trigger.statements.len(), 1);
    assert_eq!(script.triggers.len(), 1);
    assert_eq!(script.triggers[0].header.raw, "join");
}

#[test]
fn parse_script_if_else_nesting() {
    let src = "\
on join:
    if a:
        one
    else if b:
        two
    else:
        three
";
    let script = parse_script(src).unwrap();
    assert_eq!(script.triggers.len(), 1);
    let body = &script.triggers[0].body;
    assert_eq!(body.statements.len(), 1);
    match &body.statements[0] {
        command_core::ast::Stmt::If { condition_raw, then_block, else_block, .. } => {
            assert_eq!(condition_raw, "a");
            assert_eq!(then_block.statements.len(), 1);
            let eb = else_block.as_ref().unwrap();
            assert_eq!(eb.statements.len(), 1);
            match &eb.statements[0] {
                command_core::ast::Stmt::If { condition_raw, else_block, .. } => {
                    assert_eq!(condition_raw, "b");
                    assert!(else_block.is_some());
                }
                other => panic!("expected nested if, got {other:?}"),
            }
        }
        other => panic!("expected if, got {other:?}"),
    }
}

#[test]
fn parse_script_rejects_bad_indent() {
    let err = parse_script("    floating\n").unwrap_err();
    match err {
        command_core::line_parser::LineParseError::UnexpectedIndent { line } => {
            assert_eq!(line, 1)
        }
        other => panic!("unexpected error {other:?}"),
    }
    let err2 = parse_script("on join:\n    a\n        deeper\n").unwrap_err();
    match err2 {
        command_core::line_parser::LineParseError::IndentMismatch { line } => {
            assert_eq!(line, 3)
        }
        other => panic!("unexpected error {other:?}"),
    }
}

#[test]
fn event_registry_resolves_aliases_and_patterns() {
    let reg = EventRegistry::new();
    assert_eq!(reg.parse_header("join").unwrap().event_name, "player join");
    assert_eq!(reg.parse_header("ON  JOIN").unwrap().event_name, "player join");
    assert_eq!(reg.parse_header("quit").unwrap().event_name, "player leave");
    let step = reg.parse_header("stepping on stone").unwrap();
    assert_eq!(step.event_name, "player step on");
    assert_eq!(step.args, vec!["stone".to_string()]);
    let step2 = reg.parse_header("Stepping  on STONE").unwrap();
    assert_eq!(step2.event_name, "player step on");
    assert_eq!(step2.args, vec!["stone".to_string()]);
    let mv = reg.parse_header("player move").unwrap();
    assert_eq!(mv.event_name, "player move");
    let rot = reg.parse_header("entity rotate").unwrap();
    assert_eq!(rot.event_name, "entity rotate");
    assert!(reg.parse_header("no such event").is_none());
}

#[test]
fn trigger_registry_groups_by_event() {
    let src = "\
on join:
    a

on quit:
    b

on join:
    c
";
    let mut script = parse_script(src).unwrap();
    let reg = EventRegistry::new();
    command_core::event_parser::attach_events(&mut script, &reg);
    let loaded = command_core::script::Script::from_ast(
        command_core::script::ScriptSource::Inline { name: "t".to_string() },
        script,
    );
    let mut triggers = TriggerRegistry::new();
    let n = triggers.replace_all_triggers_from_scripts(&vec![loaded]);
    assert_eq!(n, 3);
    assert_eq!(triggers.get_triggers("player join").len(), 2);
    assert_eq!(triggers.get_triggers("player leave").len(), 1);
    assert_eq!(triggers.get_triggers("player chat").len(), 0);
}

#[test]
fn global_vars_map_semantics() {
    let mut vars = GlobalVars::new();
    assert!(!vars.has_global("x"));
    vars.set_global("x", VarValue::Bool(true));
    vars.set_global("y", VarValue::Str("hello".to_string()));
    assert!(vars.has_global("x"));
    match vars.get_global("y").unwrap() {
        VarValue::Str(s) => assert_eq!(s, "hello"),
        other => panic!("unexpected value {other:?}"),
    }
    vars.set_global("x", VarValue::Num(42));
    match vars.get_global("x").unwrap() {
        VarValue::Num(bits) => assert_eq!(*bits, 42),
        other => panic!("unexpected value {other:?}"),
    }
    vars.del_global("x");
    assert!(!vars.has_global("x"));
    assert!(vars.has_global("y"));
}

#[test]
fn csv_escape_and_parse() {
    assert_eq!(csv_escape("plain"), "plain");
    assert_eq!(csv_escape("a,b"), "\"a,b\"");
    assert_eq!(csv_escape("say \"hi\""), "\"say \"\"hi\"\"\"");
    assert_eq!(
        parse_csv_line("a,\"b,c\",\"d\"\"e\""),
        vec!["a".to_string(), "b,c".to_string(), "d\"e".to_string()]
    );
    assert_eq!(parse_csv_line(""), vec!["".to_string()]);
}

#[test]
fn manager_tracks_statuses() {
    let mut m = ScriptManager::with_dir("scripts".to_string());
    assert_eq!(m.scripts_dir(), "scripts");
    let listing = vec!["a.sk".to_string(), "-b.sk".to_string(), "c.txt.sk".to_string()];
    assert_eq!(m.sync_from_disk(&listing), 3);
    let mut all = m.all_script_names();
    all.sort();
    assert_eq!(all, vec!["a.sk".to_string(), "b.sk".to_string(), "c.txt.sk".to_string()]);
    let mut disabled = m.disabled_script_names();
    disabled.sort();
    assert_eq!(disabled, vec!["b.sk".to_string()]);
    assert!(m.load("a").is_ok());
    assert!(m.info("a.sk").unwrap().loaded);
    assert!(m.load("b.sk").is_err(), "a disabled script must not load");
    m.mark_error("a", "boom".to_string());
    let info = m.info("a").unwrap();
    assert!(!info.loaded);
    assert_eq!(info.error.as_deref(), Some("boom"));
    assert!(m.unload("a").is_ok());
    assert!(m.unload("nope").is_err());
    assert!(m.reload("a").is_ok());
}

#[test]
fn manager_reload_all_applies_results() {
    let mut m = ScriptManager::with_dir("scripts".to_string());
    let reg = EventRegistry::new();
    let (good, errs) = command_core::loader::parse_script_file(
        "on join:\n    send\n",
        "scripts/good.sk".to_string(),
        &reg,
    )
    .unwrap();
    assert!(errs.is_empty());
    let loaded = LoadScriptsResult { scripts: vec![good], errors: vec![] };
    let mut events = TriggerRegistry::new();
    let listing = vec!["good.sk".to_string()];
    let report = m.reload_all(&listing, loaded, &mut events).unwrap();
    assert_eq!(report.trigger_count, 1);
    assert!(m.info("good.sk").unwrap().loaded);
    assert_eq!(events.get_triggers("player join").len(), 1);
}

#[test]
fn loader_flags_unknown_effects() {
    let reg = EventRegistry::new();
    let (_script, errors) = command_core::loader::parse_script_file(
        "on join:\n    send hi\n    frobnicate x\n    wait 1\n",
        "scripts/t.sk".to_string(),
        &reg,
    )
    .unwrap();
    assert_eq!(errors.len(), 1);
    assert!(errors[0].message.contains("frobnicate"));
    assert_eq!(errors[0].line, 3);
}

#[test]
fn diagnostics_render() {
    let err = command_core::diagnostics::SkriptError::new(
        "plugins/skrs/scripts/t.sk",
        3,
        5,
        "    oops here",
        "Unknown effect: oops",
    )
    .with_help("Check spelling.");
    let lines = err.render_lines();
    assert_eq!(lines.len(), 5);
    assert_eq!(lines[0], "Error in t.sk line 3:");
    assert_eq!(lines[1], "Unknown effect: oops");
    assert_eq!(lines[2], "      oops here");
    assert_eq!(lines[3], "      ^");
    assert_eq!(lines[4], "Help: Check spelling.");
}

#[test]
fn var_token_parsing() {
    let token: Vec<char> = " {_x} ".chars().collect();
    let inner = command_core::effects::parse_var_token(&token).unwrap();
    assert_eq!(inner.iter().collect::<String>(), "_x");
    let not_braced: Vec<char> = "plain".chars().collect();
    assert!(command_core::effects::parse_var_token(&not_braced).is_none());
    let too_short: Vec<char> = "{}".chars().collect();
    assert!(command_core::effects::parse_var_token(&too_short).is_none());
}

#[test]
fn manager_normalizes_names() {
    assert_eq!(normalize_name("Test"), "test.sk");
    assert_eq!(normalize_name("-Test.SK"), "test.sk");
    assert_eq!(normalize_name("  demo.sk  "), "demo.sk");
    assert_eq!(normalize_name(""), ".sk");
}
