use command_core::ast::{Block, CommandArg, CommandDef, Span};
use command_core::banlist::{BannedPlayerEntry, BannedPlayerList};
use command_core::commands::tempban::parse_duration_seconds;
use command_core::net::{offline_uuid, EncryptionError};
use sha2::Digest;

#[test]
fn duration_suffixes() {
    assert_eq!(parse_duration_seconds("10s"), Some(10));
    assert_eq!(parse_duration_seconds("5m"), Some(300));
    assert_eq!(parse_duration_seconds("2h"), Some(7200));
    assert_eq!(parse_duration_seconds("1d"), Some(86400));
    // no suffix means days
    assert_eq!(parse_duration_seconds("3"), Some(259200));
    assert_eq!(parse_duration_seconds(" 10s "), Some(10));
    assert_eq!(parse_duration_seconds("0s"), Some(0));
    assert_eq!(parse_duration_seconds("-1d"), Some(-86400));
    assert_eq!(parse_duration_seconds(""), None);
    assert_eq!(parse_duration_seconds("x"), None);
    assert_eq!(parse_duration_seconds("10w"), None);
    assert_eq!(parse_duration_seconds("2H"), Some(7200));
    assert_eq!(parse_duration_seconds("d"), None);
}

#[test]
fn ban_list_matches_and_expires() {
    let mut list = BannedPlayerList::new();
    list.banned_players.push(BannedPlayerEntry {
        name: "Alice".to_string(),
        uuid: 1,
        source: "console".to_string(),
        expires: Some(100),
        reason: "griefing".to_string(),
    });
    list.banned_players.push(BannedPlayerEntry {
        name: "Bob".to_string(),
        uuid: 2,
        source: "console".to_string(),
        expires: None,
        reason: "spam".to_string(),
    });
    // name matching is case-insensitive
    let hit = list.get_entry("ALICE", 99, 50).unwrap();
    assert_eq!(hit.reason, "griefing");
    // uuid matching works with a different name
    let hit = list.get_entry("someone", 2, 50).unwrap();
    assert_eq!(hit.reason, "spam");
    // after expiry the temporary entry is dropped, the permanent one stays
    assert!(list.get_entry("alice", 1, 200).is_none());
    assert_eq!(list.banned_players.len(), 1);
    assert!(list.get_entry("bob", 2, 200).is_some());
}

#[test]
fn offline_uuid_matches_direct_computation() {
    let name = "Notch";
    let expected =
        uuid::Uuid::from_slice(&sha2::Sha256::digest(name)[..16]).unwrap();
    assert_eq!(offline_uuid(name).unwrap(), expected);
    // different names give different digests
    assert_ne!(offline_uuid("Notch").unwrap(), offline_uuid("notch").unwrap());
}

#[test]
fn command_trees_render_usage() {
    let ban = command_core::commands::ban::init_command_tree();
    assert_eq!(ban.names, vec!["ban".to_string()]);
    assert_eq!(ban.usage(), "ban <player> | ban <player> <reason>");
    let banip = command_core::commands::banip::init_command_tree();
    assert_eq!(banip.names, vec!["ban-ip".to_string()]);
    assert_eq!(banip.usage(), "ban-ip <ip> | ban-ip <ip> <reason>");
    let tempban = command_core::commands::tempban::init_command_tree();
    assert_eq!(
        tempban.usage(),
        "tempban <target> <duration> | tempban <target> <duration> <reason>"
    );
}

#[test]
fn encryption_error_messages() {
    assert_eq!(
        EncryptionError::FailedDecrypt.message(),
        "failed to decrypt shared secret"
    );
    assert_eq!(
        EncryptionError::SharedWrongLength.message(),
        "shared secret has the wrong length"
    );
}

#[test]
fn skript_management_tree_usage() {
    let t = command_core::commands::skript::build_skript_command_tree();
    assert_eq!(t.names, vec!["skript".to_string(), "sk".to_string()]);
    assert_eq!(
        t.usage(),
        "skript | skript list | skript reload | skript disable <script> | skript enable <script>"
    );
}

#[test]
fn script_command_tree_chains_arguments() {
    let cmd = CommandDef {
        name: "warp".to_string(),
        args: vec![
            CommandArg { name: "place".to_string(), ty: None, optional: false },
            CommandArg { name: "speed".to_string(), ty: None, optional: true },
        ],
        aliases: vec!["w".to_string()],
        permission: Some("op".to_string()),
        trigger: Block { statements: vec![] },
        span: Span { line: 1, col: 1 },
    };
    let tree = command_core::commands::script_commands::script_command_tree(&cmd);
    assert_eq!(tree.names, vec!["warp".to_string(), "w".to_string()]);
    assert_eq!(tree.usage(), "warp <arg1> | warp <arg1> <arg2>");
    assert_eq!(
        command_core::commands::script_commands::command_permission_node(&cmd),
        "skript:command.op"
    );
    let open = CommandDef {
        name: "hello".to_string(),
        args: vec![],
        aliases: vec![],
        permission: None,
        trigger: Block { statements: vec![] },
        span: Span { line: 1, col: 1 },
    };
    assert_eq!(
        command_core::commands::script_commands::command_permission_node(&open),
        "skript:command.hello"
    );
    let tree2 = command_core::commands::script_commands::script_command_tree(&open);
    assert_eq!(tree2.usage(), "hello");
}

#[test]
fn effect_registry_knows_builtins_and_aliases() {
    let mut reg = command_core::registry::effects::EffectsRegistry::new();
    command_core::registry::effects::register_all_effects(&mut reg);
    for name in [
        "send", "set", "delete", "clear", "broadcast", "replace", "add", "give", "increase",
        "remove", "subtract", "reduce", "decrease", "reset",
    ] {
        assert!(reg.get_effect(name), "missing effect {name}");
    }
    assert!(!reg.get_effect("frobnicate"));
}
