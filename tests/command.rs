use binding_tool::command::cert_param;
use binding_tool::confirm::{reply_is_approval, text_is_yes};
use binding_tool::text::split_once;
use binding_tool::{ArgsCommandHandler, BindingConfirmers, CaCertsCommandHandler, Command, FetchConfig};

#[test]
fn command_given_a_binding_args_outputs() {
    let tmppath = "/tmp/some-root";
    let out = ArgsCommandHandler {}.output(tmppath, true, 1, true, false);
    assert_eq!(
        out.unwrap(),
        format!("--volume {tmppath}:/bindings --env SERVICE_BINDING_ROOT=/bindings")
    );
}

#[test]
fn args_outputs_nothing_without_bindings() {
    let h = ArgsCommandHandler {};
    assert_eq!(h.output("/r", false, 3, true, false).unwrap(), "");
    assert_eq!(h.output("/r", true, 0, false, true).unwrap(), "");
    assert!(h.output("/r", true, 2, true, true).is_none());
    assert!(h.output("/r", true, 2, false, false).is_none());
}

#[test]
fn command_names() {
    assert!(matches!(Command::from_name("add"), Some(Command::Add(_))));
    assert!(matches!(Command::from_name("delete"), Some(Command::Delete(_))));
    assert!(matches!(Command::from_name("ca-certs"), Some(Command::CaCerts(_))));
    assert!(matches!(
        Command::from_name("dependency-mapping"),
        Some(Command::DependencyMapping(_))
    ));
    assert!(matches!(Command::from_name("args"), Some(Command::Args(_))));
    assert!(Command::from_name("help").is_none());
}

#[test]
fn cert_params_name_keys_after_files() {
    let certs = vec!["/etc/ssl/my.pem".to_string(), "/".to_string(), "..".to_string()];
    let params = CaCertsCommandHandler {}.cert_params(&certs);
    assert_eq!(params, vec!["my.pem=@/etc/ssl/my.pem", "cert-1=@/", "cert-2=@.."]);
}

#[test]
fn cert_params_index_has_many_digits() {
    let mut certs = vec!["a.pem".to_string(); 12];
    certs[11] = "/".to_string();
    let params = CaCertsCommandHandler {}.cert_params(&certs);
    assert_eq!(params[11], "cert-11=@/");
}

#[test]
fn confirmers_decide() {
    assert!(BindingConfirmers::Always.confirm(None));
    assert!(!BindingConfirmers::Never.confirm(Some("yes")));
    assert!(BindingConfirmers::Console.confirm(Some("yes\n")));
    assert!(BindingConfirmers::Console.confirm(Some("  Y ")));
    assert!(!BindingConfirmers::Console.confirm(Some("yep")));
    assert!(!BindingConfirmers::Console.confirm(None));
    assert!(BindingConfirmers::Console.is_interactive());
    assert!(!BindingConfirmers::Always.is_interactive());
}

#[test]
fn replies_are_trimmed_and_lowercased() {
    assert!(reply_is_approval(Some("YES")));
    assert!(reply_is_approval(Some("\ty\r\n")));
    assert!(!reply_is_approval(Some("")));
    assert!(!reply_is_approval(Some("n")));
}

#[test]
fn split_once_at_first() {
    assert_eq!(split_once("a=b=c", '='), Some(("a", "b=c")));
    assert_eq!(split_once("=x", '='), Some(("", "x")));
    assert_eq!(split_once("abc", '='), None);
    assert_eq!(split_once("é=ü", '='), Some(("é", "ü")));
}

#[test]
fn fetch_config_defaults() {
    let c = FetchConfig::new();
    assert_eq!(c.max_simultaneous, 5);
    assert_eq!(c.connect_timeout_secs, 5);
    assert_eq!(c.read_timeout_secs, 5);
    assert!(c.request_timeout_secs.is_none());
    assert!(c.proxy.is_none());
}

#[test]
fn cert_param_from_file_name() {
    assert_eq!(cert_param(0, "/a/b.pem", Some("b.pem".to_string())), "b.pem=@/a/b.pem");
    assert_eq!(cert_param(107, "/", None), "cert-107=@/");
}

#[test]
fn yes_text() {
    assert!(text_is_yes("y"));
    assert!(text_is_yes("yes"));
    assert!(!text_is_yes("Y"));
    assert!(!text_is_yes("ye"));
}
