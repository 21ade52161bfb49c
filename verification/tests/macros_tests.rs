use yapper::keyed::KeyedList;
use yapper::macros::{
    macro_delay_ms, macros_from_documents, CanonicalMacroFile, LegacyMacroCommandFile,
    LegacyMacroFile, Macro, MacroCommand, MacroManager,
};

fn cmd(text: &str, delay_ms: u64) -> MacroCommand {
    MacroCommand { text: text.to_string(), delay_ms }
}

#[test]
fn test_save_uses_canonical_format() {
    let macro_file = CanonicalMacroFile::from_macro(Macro {
        name: "reset".to_string(),
        description: "Reset modem".to_string(),
        commands: vec![
            MacroCommand {
                text: "AT+RST".to_string(),
                delay_ms: 0,
            },
            MacroCommand {
                text: "AT".to_string(),
                delay_ms: 250,
            },
        ],
    });

    assert_eq!(macro_file.delay_ms, Some(250));
    assert_eq!(
        macro_file.commands,
        vec!["AT+RST".to_string(), "AT".to_string()]
    );
}

#[test]
fn canonical_entry_reads_back_with_shared_delay() {
    let entry = CanonicalMacroFile {
        name: "reset".to_string(),
        description: "Reset modem".to_string(),
        commands: vec!["AT+RST".to_string(), "AT".to_string()],
        delay_ms: Some(500),
    };
    let m = entry.into_macro();
    assert_eq!(m.commands.len(), 2);
    assert_eq!(m.commands[0].text, "AT+RST");
    assert_eq!(m.commands[0].delay_ms, 0);
    assert_eq!(m.commands[1].delay_ms, 500);
}

#[test]
fn shared_delay_rules() {
    assert_eq!(macro_delay_ms(&[]), None);
    assert_eq!(macro_delay_ms(&[cmd("a", 0)]), None);
    assert_eq!(macro_delay_ms(&[cmd("a", 5), cmd("b", 5)]), None);
    assert_eq!(macro_delay_ms(&[cmd("a", 0), cmd("b", 5), cmd("c", 6)]), None);
    assert_eq!(macro_delay_ms(&[cmd("a", 0), cmd("b", 5), cmd("c", 5)]), Some(5));
}

#[test]
fn save_and_read_back_round_trip() {
    let m = Macro {
        name: "wifi".to_string(),
        description: String::new(),
        commands: vec![cmd("AT+CWMODE=1", 0), cmd("AT+CWJAP", 750), cmd("AT", 750)],
    };
    let back = CanonicalMacroFile::from_macro(m.clone()).into_macro();
    assert_eq!(back.name, m.name);
    assert_eq!(back.commands.len(), 3);
    for (a, b) in back.commands.iter().zip(m.commands.iter()) {
        assert_eq!(a.text, b.text);
        assert_eq!(a.delay_ms, b.delay_ms);
    }
}

#[test]
fn documents_prefer_canonical_then_legacy() {
    let legacy = vec![(
        "wifi".to_string(),
        LegacyMacroFile {
            description: "Bring WiFi up".to_string(),
            commands: vec![
                LegacyMacroCommandFile { text: "AT+CWMODE=1".to_string(), delay_ms: None },
                LegacyMacroCommandFile {
                    text: "AT+CWJAP=\"ssid\",\"pass\"".to_string(),
                    delay_ms: Some(750),
                },
            ],
        },
    )];
    let list = macros_from_documents(Some(Vec::new()), Some(legacy)).unwrap();
    let wifi = list.get("wifi").unwrap();
    assert_eq!(wifi.commands.len(), 2);
    assert_eq!(wifi.commands[0].delay_ms, 0);
    assert_eq!(wifi.commands[1].delay_ms, 750);

    let canonical = vec![CanonicalMacroFile {
        name: "reset".to_string(),
        description: String::new(),
        commands: vec!["AT+RST".to_string()],
        delay_ms: None,
    }];
    let list = macros_from_documents(Some(canonical), None).unwrap();
    assert!(list.get("reset").is_some());
    assert!(macros_from_documents(None, None).is_none());
    assert!(macros_from_documents(Some(Vec::new()), None).is_none());
}

#[test]
fn manager_keeps_macros_by_name() {
    let mut mgr = MacroManager::new_in_memory();
    mgr.save_macro(Macro { name: "b".to_string(), description: String::new(), commands: vec![] });
    mgr.save_macro(Macro { name: "a".to_string(), description: String::new(), commands: vec![] });
    let names: Vec<&str> = mgr.list().iter().map(|m| m.name.as_str()).collect();
    assert_eq!(names, vec!["a", "b"]);
    assert!(mgr.get("a").is_some());
    mgr.remove("a");
    assert!(mgr.get("a").is_none());
    assert_eq!(mgr.list().len(), 1);
}

#[test]
fn reload_creates_examples_for_a_missing_file() {
    let mut mgr = MacroManager::with_path(Some("/tmp/yapper-macros-test.toml".to_string()));
    mgr.reload(None);
    assert_eq!(mgr.get("reset").unwrap().commands[0].text, "reset");
    assert_eq!(mgr.get("version").unwrap().description, "Query firmware version");

    let mut replacement: KeyedList<Macro> = KeyedList::new();
    replacement.insert(
        "only".to_string(),
        Macro { name: "only".to_string(), description: String::new(), commands: vec![] },
    );
    mgr.reload(Some(Some(replacement)));
    assert_eq!(mgr.list().len(), 1);
    mgr.reload(Some(None));
    assert_eq!(mgr.list().len(), 1);

    let mut memory = MacroManager::new_in_memory();
    memory.reload(None);
    assert!(memory.list().is_empty());
}
