use prism_engine::supervisor::{decimal_of, ProcessSupervisor, StartError};

#[test]
fn missing_executable_is_not_found() {
    let supervisor = ProcessSupervisor::new();
    let r = supervisor.plan_start(
        false,
        true,
        "llama-server".to_string(),
        "model.gguf".to_string(),
        8080,
        "backend".to_string(),
    );
    assert!(matches!(r, Err(StartError::NotFound)));
}

#[test]
fn missing_model_is_not_found() {
    let supervisor = ProcessSupervisor::new();
    let r = supervisor.plan_start(
        true,
        false,
        "llama-server".to_string(),
        "model.gguf".to_string(),
        8080,
        "backend".to_string(),
    );
    assert!(matches!(r, Err(StartError::NotFound)));
}

#[test]
fn plan_binds_model_port_and_library_path() {
    let supervisor = ProcessSupervisor::new();
    let plan = supervisor
        .plan_start(
            true,
            true,
            "/opt/backend/llama-server".to_string(),
            "/opt/backend/models/model.gguf".to_string(),
            8080,
            "/opt/backend".to_string(),
        )
        .unwrap_or_else(|_| panic!("plan_start failed with both files present"));
    assert_eq!(plan.executable, "/opt/backend/llama-server");
    assert_eq!(
        plan.args,
        vec![
            "-m".to_string(),
            "/opt/backend/models/model.gguf".to_string(),
            "--port".to_string(),
            "8080".to_string(),
        ]
    );
    assert_eq!(plan.env_name, "DYLD_LIBRARY_PATH");
    assert_eq!(plan.env_value, "/opt/backend");
}

#[test]
fn terminate_twice_is_harmless() {
    let mut supervisor = ProcessSupervisor::new();
    supervisor.register(4242);
    assert!(supervisor.has_active());
    assert_eq!(supervisor.terminate(), Some(4242));
    assert!(!supervisor.has_active());
    assert_eq!(supervisor.terminate(), None);
    assert!(!supervisor.has_active());
}

#[test]
fn terminate_with_no_active_process_is_a_no_op() {
    let mut supervisor = ProcessSupervisor::new();
    assert_eq!(supervisor.terminate(), None);
    assert!(!supervisor.has_active());
}

#[test]
fn decimal_rendering() {
    assert_eq!(decimal_of(0), "0");
    assert_eq!(decimal_of(7), "7");
    assert_eq!(decimal_of(80), "80");
    assert_eq!(decimal_of(8080), "8080");
    assert_eq!(decimal_of(65535), "65535");
}
