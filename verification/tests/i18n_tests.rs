use susshi::i18n::{fmt, get_strings, Lang};

#[test]
fn fr_and_en_differ_on_key_strings() {
    let fr = get_strings(Lang::Fr);
    let en = get_strings(Lang::En);
    assert_ne!(fr.error_title, en.error_title);
    assert_ne!(fr.panel_servers, en.panel_servers);
    assert_ne!(fr.status_normal, en.status_normal);
}

#[test]
fn fmt_single_arg() {
    assert_eq!(fmt("Copié : {}", &["ssh root@host"]), "Copié : ssh root@host");
}

#[test]
fn fmt_two_args() {
    assert_eq!(fmt("{} / {} serveurs", &["3", "10"]), "3 / 10 serveurs");
}

#[test]
fn fmt_three_args() {
    assert_eq!(fmt("{} / {} correspondent à '{}'", &["2", "5", "web"]), "2 / 5 correspondent à 'web'");
}

#[test]
fn fmt_extra_args_and_missing_args() {
    assert_eq!(fmt("a {}", &["1", "2"]), "a 1");
    assert_eq!(fmt("{} and {}", &["x"]), "x and {}");
    assert_eq!(fmt("{}", &["{}", "y"]), "{}");
}

#[test]
fn french_texts_are_french() {
    let fr = get_strings(Lang::Fr);
    assert!(fr.tunnel_form_remote_host_empty.contains("obligatoire"));
}

#[test]
fn fmt_argument_holding_placeholder_is_not_refilled() {
    assert_eq!(fmt("{} and {}", &["{}", "x"]), "{} and x");
}

#[test]
fn fmt_leaves_placeholders_without_argument() {
    assert_eq!(fmt("{} / {}", &["1"]), "1 / {}");
    assert_eq!(fmt("{{}}", &["a", "b"]), "{a}");
}
