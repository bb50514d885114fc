use gofile_dl::client::{
    client_settings, proxy_vars, resolve_proxy_url, settings_with_proxy, ClientError,
    ClientSettings, USER_AGENT,
};
use gofile_dl::programs::{locate, which_node, which_npm, Program};

fn vars(values: [Option<&str>; 4]) -> Vec<Option<String>> {
    values.iter().map(|value| value.map(|text| text.to_string())).collect()
}

fn check_usual(settings: &ClientSettings) {
    assert_eq!(settings.user_agent, USER_AGENT);
    assert!(settings.user_agent.starts_with("Mozilla/5.0 "));
    assert_eq!(settings.referer, "https://gofile.io/");
    assert_eq!(settings.connect_timeout_secs, 30);
    assert_eq!(settings.redirect_limit, 10);
    assert_eq!(settings.tcp_keepalive_secs, 60);
    assert!(settings.http1_only);
}

#[test]
fn proxy_variables_have_an_order() {
    assert_eq!(proxy_vars(), ["HTTPS_PROXY", "https_proxy", "ALL_PROXY", "all_proxy"]);
}

#[test]
fn the_command_line_names_the_proxy() {
    let set = vars([Some("http://env"), None, None, None]);
    assert_eq!(resolve_proxy_url(Some(" http://cli "), &set).unwrap(), "http://cli");
    assert_eq!(resolve_proxy_url(Some("  "), &set).unwrap(), "http://env");
    assert_eq!(resolve_proxy_url(None, &set).unwrap(), "http://env");
}

#[test]
fn the_first_variable_that_is_set_names_the_proxy() {
    let set = vars([None, None, Some(" http://all "), Some("http://last")]);
    assert_eq!(resolve_proxy_url(None, &set).unwrap(), "http://all");
    let blank_first = vars([Some(" "), Some("http://hidden"), None, None]);
    assert_eq!(resolve_proxy_url(None, &blank_first), None);
    assert_eq!(resolve_proxy_url(None, &vars([None, None, None, None])), None);
    assert_eq!(resolve_proxy_url(Some(""), &vars([None, None, None, None])), None);
}

#[test]
fn settings_without_a_proxy() {
    let settings = client_settings(None, &vars([None; 4])).unwrap();
    check_usual(&settings);
    assert!(settings.proxy.is_none());
    assert!(settings_with_proxy(None).unwrap().proxy.is_none());
}

#[test]
fn settings_with_a_proxy_that_can_be_used() {
    for url in [
        "http://127.0.0.1:7890",
        "socks5://localhost",
        "socks5h://é.example?q#f",
        "proxy.example:8080",
    ] {
        let settings = client_settings(Some(url), &vars([None; 4])).unwrap();
        check_usual(&settings);
        assert!(settings.proxy.is_some(), "{url}");
    }
}

#[test]
fn settings_with_a_proxy_that_cannot_be_used() {
    let res = client_settings(None, &vars([None, Some(" http:// "), None, None]));
    match res {
        Err(error) => {
            assert_eq!(error.message(), "invalid proxy URL http://");
            let ClientError::InvalidProxy { url, source } = error;
            assert_eq!(url, "http://");
            assert!(source.is_builder());
        }
        Ok(_) => panic!("a proxy without a host"),
    }
}

#[test]
fn the_parsing_of_the_proxy_decides() {
    let good = reqwest::Proxy::all("http://x");
    assert!(settings_with_proxy(Some(("http://x".to_string(), good))).unwrap().proxy.is_some());
    let bad = reqwest::Proxy::all("http://");
    match settings_with_proxy(Some(("name".to_string(), bad))) {
        Err(ClientError::InvalidProxy { url, .. }) => assert_eq!(url, "name"),
        Ok(_) => panic!("a proxy that was refused"),
    }
}

#[test]
fn a_variable_names_the_program() {
    let var = Some(" /my node".to_string());
    assert_eq!(which_node(var, &vec![true, true, true]).unwrap(), " /my node");
    let var = Some("/my/npm".to_string());
    assert_eq!(which_npm(var, &vec![false; 3]).unwrap(), "/my/npm");
}

#[test]
fn the_first_place_with_a_file_has_the_program() {
    let blank = Some("  ".to_string());
    assert_eq!(which_node(blank, &vec![true, true, true]).unwrap(), "/opt/homebrew/bin/node");
    assert_eq!(which_node(None, &vec![false, true, true]).unwrap(), "/usr/local/bin/node");
    assert_eq!(which_npm(None, &vec![false, false, true]).unwrap(), "/usr/bin/npm");
    assert_eq!(which_npm(None, &vec![false, true, false]).unwrap(), "/usr/local/bin/npm");
    assert_eq!(locate(Program::Npm, None, &vec![true]).unwrap(), "/opt/homebrew/bin/npm");
}

#[test]
fn a_program_can_be_missing() {
    assert_eq!(which_node(None, &vec![false; 3]), Err(Program::Node));
    assert_eq!(which_npm(Some(String::new()), &vec![false; 3]), Err(Program::Npm));
    assert_eq!(
        Program::Node.missing_message(),
        "node not found; install Node.js or set NODE"
    );
    assert_eq!(
        Program::Npm.missing_message(),
        "npm not found; install Node.js or set NPM"
    );
    assert_eq!((Program::Node.var(), Program::Npm.var()), ("NODE", "NPM"));
}

#[test]
fn programs_have_three_candidates() {
    assert_eq!(
        Program::Node.candidates(),
        ["/opt/homebrew/bin/node", "/usr/local/bin/node", "/usr/bin/node"]
    );
    assert_eq!(
        Program::Npm.candidates(),
        ["/opt/homebrew/bin/npm", "/usr/local/bin/npm", "/usr/bin/npm"]
    );
}
