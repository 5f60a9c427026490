use scene_core::capability::{
    default_module_names, env_module_source, CapabilityBridge, CapabilityError, SceneEnv,
};

#[test]
fn duplicate_registration_is_a_conflict_not_an_override() {
    let mut bridge: CapabilityBridge<u32> = CapabilityBridge::new();
    bridge.register(String::from("~system/EngineApi"), 1).expect("fresh name");
    let err = bridge.register(String::from("~system/EngineApi"), 2).expect_err("duplicate");
    assert_eq!(err, CapabilityError::Conflict);
    // The first binding still stands.
    assert_eq!(*bridge.resolve(&String::from("~system/EngineApi")).expect("bound"), 1);
}

#[test]
fn unknown_capability_fails_closed() {
    let bridge: CapabilityBridge<u32> = CapabilityBridge::new();
    assert_eq!(
        bridge.resolve(&String::from("fs")).expect_err("nothing registered"),
        CapabilityError::UnknownCapability,
    );
}

#[test]
fn import_of_an_unregistered_module_is_invalid() {
    let mut bridge: CapabilityBridge<u32> = CapabilityBridge::new();
    let names = default_module_names();
    assert_eq!(names.len(), 19);
    assert_eq!(names[0], "~scene.js");
    assert_eq!(names[18], "env");
    for (i, name) in names.into_iter().enumerate() {
        bridge.register(name, i as u32).expect("the default names are distinct");
    }
    assert!(bridge.resolve_module(&String::from("~system/EngineApi")).is_ok());
    assert!(bridge.resolve_module(&String::from("env")).is_ok());
    assert_eq!(
        bridge
            .resolve_module(&String::from("../../etc/passwd"))
            .expect_err("outside the closed set"),
        CapabilityError::InvalidModule,
    );
}

#[test]
fn a_default_may_be_replaced_exactly_once() {
    let mut bridge: CapabilityBridge<u32> = CapabilityBridge::new();
    bridge.register(String::from("fetch"), 1).expect("default installed");
    bridge.replace_default(String::from("fetch"), 2).expect("first replacement");
    assert_eq!(*bridge.resolve(&String::from("fetch")).expect("bound"), 2);
    let err = bridge.replace_default(String::from("fetch"), 3).expect_err("second replacement");
    assert_eq!(err, CapabilityError::Conflict);
    assert_eq!(*bridge.resolve(&String::from("fetch")).expect("bound"), 2);
}

#[test]
fn replacing_a_name_absent_from_the_defaults_is_allowed() {
    let mut bridge: CapabilityBridge<u32> = CapabilityBridge::new();
    bridge.replace_default(String::from("extra"), 7).expect("allowed");
    assert_eq!(*bridge.resolve(&String::from("extra")).expect("bound"), 7);
    assert!(bridge.replace_default(String::from("extra"), 8).is_err());
}

#[test]
fn env_module_hides_the_environment_unless_allowed() {
    assert_eq!(
        env_module_source(&SceneEnv { enable_know_env: false, testing_enable: false }),
        "module.exports = {}",
    );
    assert_eq!(
        env_module_source(&SceneEnv { enable_know_env: false, testing_enable: true }),
        "module.exports = {}",
    );
    assert_eq!(
        env_module_source(&SceneEnv { enable_know_env: true, testing_enable: true }),
        "module.exports = {\"enable_know_env\":true,\"testing_enable\":true}",
    );
    assert_eq!(
        env_module_source(&SceneEnv { enable_know_env: true, testing_enable: false }),
        "module.exports = {\"enable_know_env\":true,\"testing_enable\":false}",
    );
}
