use tracker::config::{server_port, AppEnv};

#[test]
fn app_env_from_setting() {
    assert_eq!(AppEnv::from_setting(Some("prod".to_string())), AppEnv::Prod);
    assert_eq!(AppEnv::from_setting(Some("dev".to_string())), AppEnv::Dev);
    assert_eq!(AppEnv::from_setting(Some("PROD".to_string())), AppEnv::Dev);
    assert_eq!(AppEnv::from_setting(Some("".to_string())), AppEnv::Dev);
    assert_eq!(AppEnv::from_setting(None), AppEnv::Dev);
}

#[test]
fn app_env_names() {
    assert_eq!(AppEnv::Dev.as_str(), "dev");
    assert_eq!(AppEnv::Prod.as_str(), "prod");
}

#[test]
fn app_env_name_selects_itself() {
    for e in [AppEnv::Dev, AppEnv::Prod] {
        assert_eq!(AppEnv::from_setting(Some(e.as_str().to_string())), e);
    }
}

#[test]
fn port_default_and_parse() {
    assert_eq!(server_port(None), Some(8080));
    assert_eq!(server_port(Some("3000".to_string())), Some(3000));
    assert_eq!(server_port(Some("+80".to_string())), Some(80));
    assert_eq!(server_port(Some("0065535".to_string())), Some(65535));
}

#[test]
fn port_refusals() {
    for s in ["", "+", "-1", "65536", " 80", "80 ", "8o", "1_000"] {
        assert_eq!(server_port(Some(s.to_string())), None, "{:?}", s);
    }
}
