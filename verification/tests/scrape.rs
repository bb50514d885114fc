use gofile_dl::programs::Program;
use gofile_dl::scrape::{
    chosen_script, default_scrape_script, Scrape, ScrapeAction, ScrapeError, ScrapeEvent,
    ScrapeStep,
};

fn start(password: Option<&str>) -> Scrape {
    let (scrape, action) = Scrape::start(
        "/app/scripts/s.mjs".to_string(),
        "https://gofile.io/d/abc".to_string(),
        password.map(|text| text.to_string()),
        None,
    );
    match action {
        ScrapeAction::CheckFile(path) => assert_eq!(path, "/app/scripts/s.mjs"),
        other => panic!("{other:?}"),
    }
    assert_eq!(scrape.step(), ScrapeStep::CheckingScript);
    scrape
}

fn found(at: usize) -> ScrapeEvent {
    ScrapeEvent::Found { var: None, present: (0..3).map(|i| i == at).collect() }
}

fn running(password: Option<&str>) -> Scrape {
    let mut scrape = start(password);
    scrape.advance(ScrapeEvent::IsFile(true));
    scrape.advance(ScrapeEvent::IsDir(true));
    scrape.advance(found(0));
    assert_eq!(scrape.step(), ScrapeStep::Running);
    scrape
}

fn output(success: bool, stdout: &[u8], stderr: &[u8]) -> ScrapeEvent {
    ScrapeEvent::Output {
        success,
        status: "exit status: 1".to_string(),
        stdout: stdout.to_vec(),
        stderr: stderr.to_vec(),
    }
}

fn error(action: ScrapeAction) -> String {
    match action {
        ScrapeAction::Fail(error) => error.message(),
        other => panic!("{other:?}"),
    }
}

#[test]
fn the_script_comes_with_the_program() {
    assert_eq!(default_scrape_script("/app"), "/app/scripts/scrape_gofile.mjs");
    assert_eq!(chosen_script(None, "/app"), "/app/scripts/scrape_gofile.mjs");
    assert_eq!(chosen_script(Some("./mine.mjs".to_string()), "/app"), "./mine.mjs");
}

#[test]
fn reads_with_modules_in_place() {
    let mut scrape = start(None);
    match scrape.advance(ScrapeEvent::IsFile(true)) {
        ScrapeAction::CheckDir { dir, below } => {
            assert_eq!(dir, "/app/scripts");
            assert_eq!(below, "node_modules/puppeteer-core");
        }
        other => panic!("{other:?}"),
    }
    assert!(matches!(
        scrape.advance(ScrapeEvent::IsDir(true)),
        ScrapeAction::Find(Program::Node)
    ));
    match scrape.advance(found(2)) {
        ScrapeAction::Run { program, args, vars } => {
            assert_eq!(program, "/usr/bin/node");
            assert_eq!(args, ["/app/scripts/s.mjs", "https://gofile.io/d/abc"]);
            assert_eq!(vars, []);
        }
        other => panic!("{other:?}"),
    }
    match scrape.advance(output(true, " {\"root\": {\"name\": \"é\"}}\n".as_bytes(), b"noise")) {
        ScrapeAction::Done(json) => assert_eq!(json, "{\"root\": {\"name\": \"é\"}}"),
        other => panic!("{other:?}"),
    }
    assert_eq!(scrape.step(), ScrapeStep::Ended);
}

#[test]
fn installs_modules_that_are_missing() {
    let mut scrape = start(None);
    scrape.advance(ScrapeEvent::IsFile(true));
    assert!(matches!(
        scrape.advance(ScrapeEvent::IsDir(false)),
        ScrapeAction::Find(Program::Npm)
    ));
    match scrape.advance(found(1)) {
        ScrapeAction::Install { program, args, dir } => {
            assert_eq!(program, "/usr/local/bin/npm");
            assert_eq!(args, ["install"]);
            assert_eq!(dir, "/app/scripts");
        }
        other => panic!("{other:?}"),
    }
    assert!(matches!(
        scrape.advance(ScrapeEvent::Installed(true)),
        ScrapeAction::Find(Program::Node)
    ));
    assert!(matches!(scrape.advance(found(0)), ScrapeAction::Run { .. }));
    assert!(matches!(
        scrape.advance(output(true, b"{}", b"")),
        ScrapeAction::Done(_)
    ));
}

#[test]
fn the_system_may_say_where_the_script_lies() {
    let begin = |dir: Option<&str>| {
        Scrape::start_in(
            "C:\\s.mjs".to_string(),
            dir.map(|text| text.to_string()),
            "u".to_string(),
            None,
            None,
        )
    };
    let (mut scrape, action) = begin(Some("C:\\"));
    assert!(matches!(action, ScrapeAction::CheckFile(path) if path == "C:\\s.mjs"));
    match scrape.advance(ScrapeEvent::IsFile(true)) {
        ScrapeAction::CheckDir { dir, .. } => assert_eq!(dir, "C:\\"),
        other => panic!("{other:?}"),
    }
    scrape.advance(ScrapeEvent::IsDir(false));
    match scrape.advance(found(0)) {
        ScrapeAction::Install { dir, .. } => assert_eq!(dir, "C:\\"),
        other => panic!("{other:?}"),
    }
    let (mut scrape, _) = begin(None);
    assert_eq!(
        error(scrape.advance(ScrapeEvent::IsFile(false))),
        "scrape script not found at C:\\s.mjs; run npm install in ."
    );
}

#[test]
fn the_password_is_an_argument_unless_it_is_empty() {
    for (password, count) in [(None, 2), (Some(""), 2), (Some(" "), 3), (Some("pw"), 3)] {
        let mut scrape = start(password);
        scrape.advance(ScrapeEvent::IsFile(true));
        scrape.advance(ScrapeEvent::IsDir(true));
        match scrape.advance(found(0)) {
            ScrapeAction::Run { args, .. } => {
                assert_eq!(args.len(), count);
                if count == 3 {
                    assert_eq!(args[2], password.unwrap());
                }
            }
            other => panic!("{other:?}"),
        }
    }
}

#[test]
fn the_path_of_the_browser_is_a_variable_of_the_script() {
    for given in ["/opt/chrome", ""] {
        let (mut scrape, _) = Scrape::start(
            "/app/s.mjs".to_string(),
            "u".to_string(),
            Some("pw".to_string()),
            Some(given.to_string()),
        );
        scrape.advance(ScrapeEvent::IsFile(true));
        scrape.advance(ScrapeEvent::IsDir(true));
        match scrape.advance(found(0)) {
            ScrapeAction::Run { args, vars, .. } => {
                assert_eq!(args, ["/app/s.mjs", "u", "pw"]);
                assert_eq!(vars, [("CHROME_PATH".to_string(), given.to_string())]);
            }
            other => panic!("{other:?}"),
        }
    }
}

#[test]
fn output_that_is_not_text_keeps_its_flaw() {
    for (bytes, flaw) in [
        (b"ab\xffc".to_vec(), "invalid utf-8 sequence of 1 bytes from index 2"),
        (b"a\xe2\x82".to_vec(), "incomplete utf-8 byte sequence from index 1"),
    ] {
        match running(None).advance(output(true, &bytes, b"")) {
            ScrapeAction::Fail(ScrapeError::NotUtf8 { source }) => {
                assert_eq!(source, String::from_utf8(bytes).unwrap_err().utf8_error());
                assert_eq!(source.to_string(), flaw);
            }
            other => panic!("{other:?}"),
        }
    }
}

#[test]
fn fails_without_the_script() {
    let mut scrape = start(None);
    assert_eq!(
        error(scrape.advance(ScrapeEvent::IsFile(false))),
        "scrape script not found at /app/scripts/s.mjs; run npm install in /app/scripts"
    );
    let (mut scrape, _) = Scrape::start("/".to_string(), "u".to_string(), None, None);
    assert_eq!(
        error(scrape.advance(ScrapeEvent::IsFile(false))),
        "scrape script not found at /; run npm install in ."
    );
}

#[test]
fn fails_without_the_programs() {
    let mut scrape = start(None);
    scrape.advance(ScrapeEvent::IsFile(true));
    scrape.advance(ScrapeEvent::IsDir(false));
    assert_eq!(error(scrape.advance(found(9))), "npm not found; install Node.js or set NPM");
    let mut scrape = start(None);
    scrape.advance(ScrapeEvent::IsFile(true));
    scrape.advance(ScrapeEvent::IsDir(true));
    assert_eq!(error(scrape.advance(found(9))), "node not found; install Node.js or set NODE");
}

#[test]
fn fails_with_the_package_manager() {
    for (event, message) in [
        (
            ScrapeEvent::Installed(false),
            "npm install failed in /app/scripts; install puppeteer-core manually",
        ),
        (ScrapeEvent::NotRun, "failed to run npm install in /app/scripts"),
    ] {
        let mut scrape = start(None);
        scrape.advance(ScrapeEvent::IsFile(true));
        scrape.advance(ScrapeEvent::IsDir(false));
        scrape.advance(found(0));
        assert_eq!(scrape.step(), ScrapeStep::Installing);
        assert_eq!(error(scrape.advance(event)), message);
    }
}

#[test]
fn fails_with_the_script() {
    assert_eq!(
        error(running(None).advance(ScrapeEvent::NotRun)),
        "failed to run scrape script /app/scripts/s.mjs"
    );
    assert_eq!(
        error(running(None).advance(output(false, b"o\xffut", b"err"))),
        "share page scrape failed (exit exit status: 1)\nstdout:\no\u{fffd}ut\nstderr:\nerr"
    );
    let action = running(None).advance(output(true, b"\xff", b""));
    assert!(matches!(action, ScrapeAction::Fail(ScrapeError::NotUtf8 { .. })));
    assert_eq!(error(action), "scrape script stdout is not utf-8");
}
