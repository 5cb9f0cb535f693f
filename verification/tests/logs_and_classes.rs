use rblx_godot::classes::ClassTag;
use rblx_godot::enums::MessageType;
use rblx_godot::log_service::LogService;

#[test]
fn log_history_keeps_every_entry_in_order() {
    let mut l = LogService::new();
    assert_eq!(l.history_len(), 0);
    l.log_message(String::from("hello"), 10);
    l.log_info(String::from("loaded"), 20);
    l.log_warn(String::from("slow frame"), 30);
    l.log_err(String::from("boom"), 40);
    assert_eq!(l.history_len(), 4);
    assert_eq!(
        l.history_entry(0),
        (String::from("hello"), MessageType::MessageOutput, 10)
    );
    assert_eq!(
        l.history_entry(1),
        (String::from("loaded"), MessageType::MessageInfo, 20)
    );
    assert_eq!(
        l.history_entry(2),
        (String::from("slow frame"), MessageType::MessageWarning, 30)
    );
    assert_eq!(
        l.history_entry(3),
        (String::from("boom"), MessageType::MessageError, 40)
    );
}

#[test]
fn clear_logs_forgets_the_history() {
    let mut l = LogService::new();
    l.log_message(String::from("one"), 1);
    l.log_message(String::from("two"), 2);
    l.clear_logs();
    assert_eq!(l.history_len(), 0);
    l.log_message(String::from("three"), 3);
    assert_eq!(l.history_len(), 1);
}

#[test]
fn class_names() {
    assert_eq!(ClassTag::DataModel.get_class_name(), "DataModel");
    assert_eq!(ClassTag::LocalScript.get_class_name(), "LocalScript");
}

#[test]
fn class_membership_follows_the_hierarchy() {
    assert!(ClassTag::Script.is_a("Object"));
    assert!(ClassTag::Script.is_a("Instance"));
    assert!(ClassTag::Script.is_a("LuaSourceContainer"));
    assert!(ClassTag::Script.is_a("BaseScript"));
    assert!(ClassTag::Script.is_a("Script"));
    assert!(!ClassTag::Script.is_a("LocalScript"));
    assert!(ClassTag::LocalScript.is_a("Script"));
    assert!(ClassTag::LocalScript.is_a("LocalScript"));
    assert!(ClassTag::ModuleScript.is_a("LuaSourceContainer"));
    assert!(!ClassTag::ModuleScript.is_a("BaseScript"));
    assert!(ClassTag::DataModel.is_a("ServiceProvider"));
    assert!(ClassTag::Workspace.is_a("PVInstance"));
    assert!(ClassTag::Workspace.is_a("Model"));
    assert!(!ClassTag::LogService.is_a("Workspace"));
    assert!(!ClassTag::DataModel.is_a(""));
}
