use ollama_sdk::registry::RegistryError;
use ollama_sdk::registry::ToolRegistry;

#[test]
fn register_and_lookup() {
    let mut reg: ToolRegistry<u32> = ToolRegistry::new();
    assert_eq!(reg.len(), 0);
    assert!(reg.register_tool("adder".to_string(), 1).is_ok());
    assert_eq!(reg.len(), 1);
    assert_eq!(reg.get_tool("adder"), Some(&1));
    assert_eq!(reg.get_tool("missing"), None);
}

#[test]
fn second_registration_under_same_name_fails_and_first_stays() {
    let mut reg: ToolRegistry<u32> = ToolRegistry::new();
    assert!(reg.register_tool("adder".to_string(), 1).is_ok());
    let second = reg.register_tool("adder".to_string(), 2);
    assert_eq!(second, Err(RegistryError::Conflict));
    assert_eq!(reg.len(), 1);
    assert_eq!(reg.get_tool("adder"), Some(&1));
}

#[test]
fn unregister_removes_exactly_the_named_tool() {
    let mut reg: ToolRegistry<u32> = ToolRegistry::new();
    assert!(reg.register_tool("a".to_string(), 1).is_ok());
    assert!(reg.register_tool("b".to_string(), 2).is_ok());
    assert!(reg.unregister_tool("a").is_ok());
    assert_eq!(reg.get_tool("a"), None);
    assert_eq!(reg.get_tool("b"), Some(&2));
    assert_eq!(reg.len(), 1);
}

#[test]
fn unregister_of_absent_name_fails_and_changes_nothing() {
    let mut reg: ToolRegistry<u32> = ToolRegistry::new();
    assert!(reg.register_tool("a".to_string(), 1).is_ok());
    assert_eq!(reg.unregister_tool("b"), Err(RegistryError::NotFound));
    assert_eq!(reg.get_tool("a"), Some(&1));
    assert_eq!(reg.len(), 1);
}

#[test]
fn name_can_be_reused_after_unregistration() {
    let mut reg: ToolRegistry<u32> = ToolRegistry::new();
    assert!(reg.register_tool("a".to_string(), 1).is_ok());
    assert!(reg.unregister_tool("a").is_ok());
    assert!(reg.register_tool("a".to_string(), 3).is_ok());
    assert_eq!(reg.get_tool("a"), Some(&3));
}
