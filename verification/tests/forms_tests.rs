use susshi::config::TunnelConfig;
use susshi::forms::{ScpFormField, TunnelForm, TunnelFormField, TunnelOverlayState};
use susshi::i18n::{strings_en, strings_fr};

fn valid_form() -> TunnelForm {
    TunnelForm {
        label: "PG".into(),
        local_port: "5433".into(),
        remote_host: "127.0.0.1".into(),
        remote_port: "5432".into(),
        focus: TunnelFormField::Label,
        editing_index: None,
        error: String::new(),
    }
}

#[test]
fn tests_tunnel_form_form_validate_ok() {
    let cfg = valid_form().validate(&strings_fr()).unwrap();
    assert_eq!(cfg.local_port, 5433);
    assert_eq!(cfg.remote_host, "127.0.0.1");
    assert_eq!(cfg.remote_port, 5432);
    assert_eq!(cfg.label, "PG");
}

#[test]
fn tests_tunnel_form_form_validate_bad_local_port() {
    let mut f = valid_form();
    f.local_port = "abc".into();
    assert!(f.validate(&strings_fr()).is_err());
    f.local_port = "0".into();
    assert!(f.validate(&strings_fr()).is_err());
    f.local_port = "65536".into();
    assert!(f.validate(&strings_fr()).is_err());
}

#[test]
fn tests_tunnel_form_form_validate_empty_remote_host() {
    let mut f = valid_form();
    f.remote_host = "   ".into();
    let err = f.validate(&strings_fr()).unwrap_err();
    assert!(err.contains("obligatoire"));
}

#[test]
fn tests_tunnel_form_form_validate_bad_remote_port() {
    let mut f = valid_form();
    f.remote_port = "not_a_port".into();
    assert!(f.validate(&strings_fr()).is_err());
}

#[test]
fn tests_tunnel_form_tunnel_form_field_cycle_forward() {
    assert_eq!(TunnelFormField::Label.next(), TunnelFormField::LocalPort);
    assert_eq!(TunnelFormField::LocalPort.next(), TunnelFormField::RemoteHost);
    assert_eq!(TunnelFormField::RemoteHost.next(), TunnelFormField::RemotePort);
    assert_eq!(TunnelFormField::RemotePort.next(), TunnelFormField::Label);
}

#[test]
fn tests_tunnel_form_tunnel_form_field_cycle_backward() {
    assert_eq!(TunnelFormField::Label.prev(), TunnelFormField::RemotePort);
    assert_eq!(TunnelFormField::RemotePort.prev(), TunnelFormField::RemoteHost);
}

#[test]
fn tests_tunnel_form_tunnel_form_char_filters_non_digits_for_ports() {
    let mut f = valid_form();
    f.focus = TunnelFormField::LocalPort;
    f.local_port = "543".into();
    let mut form_state = TunnelOverlayState::Form(f);
    if let TunnelOverlayState::Form(ref mut form) = form_state {
        let old_len = form.local_port.len();
        if !'x'.is_ascii_digit() {
        } else {
            form.local_port.push('x');
        }
        assert_eq!(form.local_port.len(), old_len);
    }
}

#[test]
fn tests_tunnel_form_new_edit_form_prefilled() {
    let cfg = TunnelConfig {
        local_port: 8080,
        remote_host: "db.local".into(),
        remote_port: 3306,
        label: "MySQL".into(),
    };
    let form = TunnelForm::new_edit(2, &cfg);
    assert_eq!(form.editing_index, Some(2));
    assert_eq!(form.local_port, "8080");
    assert_eq!(form.remote_host, "db.local");
    assert_eq!(form.label, "MySQL");
}

#[test]
fn app_form_validate_ok() {
    let cfg = valid_form().validate(&strings_fr()).unwrap();
    assert_eq!(cfg.local_port, 5433);
    assert_eq!(cfg.remote_host, "127.0.0.1");
    assert_eq!(cfg.remote_port, 5432);
    assert_eq!(cfg.label, "PG");
}

#[test]
fn app_form_validate_bad_local_port() {
    let mut f = valid_form();
    f.local_port = "abc".into();
    assert!(f.validate(&strings_fr()).is_err());
    f.local_port = "0".into();
    assert!(f.validate(&strings_fr()).is_err());
    f.local_port = "65536".into();
    assert!(f.validate(&strings_fr()).is_err());
}

#[test]
fn app_form_validate_empty_remote_host() {
    let mut f = valid_form();
    f.remote_host = "   ".into();
    let err = f.validate(&strings_fr()).unwrap_err();
    assert!(err.contains("obligatoire"));
}

#[test]
fn app_form_validate_bad_remote_port() {
    let mut f = valid_form();
    f.remote_port = "not_a_port".into();
    assert!(f.validate(&strings_fr()).is_err());
}

#[test]
fn app_tunnel_form_field_cycle_forward() {
    assert_eq!(TunnelFormField::Label.next(), TunnelFormField::LocalPort);
    assert_eq!(TunnelFormField::LocalPort.next(), TunnelFormField::RemoteHost);
    assert_eq!(TunnelFormField::RemoteHost.next(), TunnelFormField::RemotePort);
    assert_eq!(TunnelFormField::RemotePort.next(), TunnelFormField::Label);
}

#[test]
fn app_tunnel_form_field_cycle_backward() {
    assert_eq!(TunnelFormField::Label.prev(), TunnelFormField::RemotePort);
    assert_eq!(TunnelFormField::RemotePort.prev(), TunnelFormField::RemoteHost);
}

#[test]
fn app_tunnel_form_char_filters_non_digits_for_ports() {
    let mut f = valid_form();
    f.focus = TunnelFormField::LocalPort;
    f.local_port = "543".into();
    f.type_char('x');
    assert_eq!(f.local_port, "543");
    f.type_char('4');
    assert_eq!(f.local_port, "5434");
}

#[test]
fn app_new_edit_form_prefilled() {
    let cfg = TunnelConfig {
        local_port: 8080,
        remote_host: "db.local".into(),
        remote_port: 3306,
        label: "MySQL".into(),
    };
    let form = TunnelForm::new_edit(2, &cfg);
    assert_eq!(form.editing_index, Some(2));
    assert_eq!(form.local_port, "8080");
    assert_eq!(form.remote_host, "db.local");
    assert_eq!(form.label, "MySQL");
}

#[test]
fn form_validate_trims_fields_and_accepts_plus_sign() {
    let mut f = valid_form();
    f.local_port = " +5433 ".into();
    f.remote_host = "  db  ".into();
    f.label = " PG ".into();
    let cfg = f.validate(&strings_en()).unwrap();
    assert_eq!(cfg.local_port, 5433);
    assert_eq!(cfg.remote_host, "db");
    assert_eq!(cfg.label, "PG");
}

#[test]
fn form_validate_errors_in_field_order() {
    let mut f = valid_form();
    f.local_port = "x".into();
    f.remote_host = "".into();
    let err = f.validate(&strings_en()).unwrap_err();
    assert_eq!(err, strings_en().tunnel_form_local_port_invalid);
    f.local_port = "22".into();
    let err = f.validate(&strings_en()).unwrap_err();
    assert_eq!(err, strings_en().tunnel_form_remote_host_empty);
    f.remote_host = "h".into();
    f.remote_port = "0".into();
    let err = f.validate(&strings_en()).unwrap_err();
    assert_eq!(err, strings_en().tunnel_form_remote_port_invalid);
}

#[test]
fn type_char_appends_to_label_and_clears_error() {
    let mut f = valid_form();
    f.error = "bad".into();
    f.type_char('x');
    assert_eq!(f.label, "PGx");
    assert!(f.error.is_empty());
}

#[test]
fn current_buf_mut_edits_focused_field() {
    let mut f = valid_form();
    f.focus = TunnelFormField::RemoteHost;
    f.current_buf_mut().push('9');
    assert_eq!(f.remote_host, "127.0.0.19");
    assert_eq!(f.label, "PG");
}

#[test]
fn new_empty_form_is_blank() {
    let f = TunnelForm::new_empty();
    assert!(f.label.is_empty() && f.local_port.is_empty() && f.remote_host.is_empty());
    assert_eq!(f.focus, TunnelFormField::Label);
    assert_eq!(f.editing_index, None);
}

#[test]
fn tunnel_field_next_then_prev_is_identity() {
    for f in [
        TunnelFormField::Label,
        TunnelFormField::LocalPort,
        TunnelFormField::RemoteHost,
        TunnelFormField::RemotePort,
    ] {
        assert_eq!(f.next().prev(), f);
        assert_eq!(f.prev().next(), f);
        assert_eq!(f.next().next().next().next(), f);
    }
}

#[test]
fn scp_field_cycles() {
    assert_eq!(ScpFormField::Local.next(), ScpFormField::Remote);
    assert_eq!(ScpFormField::Remote.next(), ScpFormField::Local);
    assert_eq!(ScpFormField::Local.prev(), ScpFormField::Remote);
}

#[test]
fn edit_form_then_validate_gives_tunnel_back() {
    let cfg = TunnelConfig {
        local_port: 65535,
        remote_host: "db.internal".into(),
        remote_port: 1,
        label: "Postgres replica".into(),
    };
    let form = TunnelForm::new_edit(3, &cfg);
    assert_eq!(form.local_port, "65535");
    assert_eq!(form.remote_port, "1");
    assert_eq!(form.editing_index, Some(3));
    let back = form.validate(&strings_en()).unwrap();
    assert_eq!(back.local_port, cfg.local_port);
    assert_eq!(back.remote_host, cfg.remote_host);
    assert_eq!(back.remote_port, cfg.remote_port);
    assert_eq!(back.label, cfg.label);
}
