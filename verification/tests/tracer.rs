use load_balance::tracer::TracerSettings;

#[test]
fn defaults_when_nothing_is_given() {
    let s = TracerSettings::resolve(None, None);
    assert_eq!(s.service_name, "default service");
    assert_eq!(s.endpoint, "http://0.0.0.0:4317");
    assert_eq!(s.log_path, "logs/default service.log");
}

#[test]
fn given_values_are_kept() {
    let s = TracerSettings::resolve(Some("Client_service"), Some("http://0.0.0.0:8080"));
    assert_eq!(s.service_name, "Client_service");
    assert_eq!(s.endpoint, "http://0.0.0.0:8080");
    assert_eq!(s.log_path, "logs/Client_service.log");
}
