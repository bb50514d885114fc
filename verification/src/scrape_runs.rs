//! What holds of every reading of a share, from the first step to the last.

use crate::programs::{located, Program};
use crate::scrape::{
    lossy_text, script_place, utf8_flaw, ActionView, ErrorView, EventView, ScrapeAction,
    ScrapeError, ScrapeEvent, ScrapeStep, ScrapeView,
};
use crate::text::trimmed;
use vstd::prelude::*;
use vstd::string::*;
use vstd::utf8::*;

verus! {

/// What a reading is about stays the same from step to step.
pub proof fn law_reading_keeps_its_subject(view: ScrapeView, event: EventView)
    ensures
        view.next(event).0.script == view.script,
        view.next(event).0.script_dir == view.script_dir,
        view.next(event).0.share_url == view.share_url,
        view.next(event).0.password == view.password,
        view.next(event).0.chrome_path == view.chrome_path,
{
}

/// The script gets its own path, the link to the share and, where it has a character at all, the
/// password, each unchanged, and nothing else. Of variables it gets the path of the browser, where
/// one was given, and nothing else.
pub proof fn law_script_gets_link_and_password(view: ScrapeView, event: EventView)
    requires
        view.accepts(event),
        view.next(event).1 is Run,
    ensures
        view.next(event).1->Run_args.len() == (if view.password is Some && view.password->0.len()
            > 0 {
            3nat
        } else {
            2nat
        }),
        view.next(event).1->Run_args[0] == view.script,
        view.next(event).1->Run_args[1] == view.share_url,
        view.password is Some && view.password->0.len() > 0 ==> view.next(event).1->Run_args[2]
            == view.password->0,
        view.chrome_path is None ==> view.next(event).1->vars.len() == 0,
        view.chrome_path matches Some(path) ==> view.next(event).1->vars.len() == 1 && view.next(
            event,
        ).1->vars[0] == ("CHROME_PATH"@, path),
{
}

/// Whether the answer `event` is one that a reading at `step` cannot go on with: there is no script,
/// a program is nowhere to be found or did not run or failed, or the output is not text.
pub open spec fn is_bad_news(step: ScrapeStep, event: EventView) -> bool {
    match event {
        EventView::IsFile(there) => !there,
        EventView::IsDir(_) => false,
        EventView::Found { var, present } => located(
            if step == ScrapeStep::FindingNpm {
                Program::Npm
            } else {
                Program::Node
            },
            var,
            present,
        ) is None,
        EventView::NotRun => true,
        EventView::Installed(success) => !success,
        EventView::Output { success, status, stdout, stderr } => !success || !valid_utf8(stdout),
    }
}

/// A reading fails on bad news, and on nothing else; it is then over, and tells what the news was.
pub proof fn law_reading_fails_on_bad_news_alone(view: ScrapeView, event: EventView)
    requires
        view.accepts(event),
    ensures
        view.next(event).1 is Fail <==> is_bad_news(view.step, event),
        is_bad_news(view.step, event) ==> view.next(event).0.step == ScrapeStep::Ended,
        is_bad_news(view.step, event) ==> ({
            let dir = match view.script_dir {
                Some(dir) => dir,
                None => "."@,
            };
            match event {
                EventView::IsFile(_) => view.next(event).1->Fail_0 == (ErrorView::ScriptMissing {
                    script: view.script,
                    dir,
                }),
                EventView::Found { .. } => view.next(event).1->Fail_0 == ErrorView::ProgramMissing(
                    if view.step == ScrapeStep::FindingNpm {
                        Program::Npm
                    } else {
                        Program::Node
                    },
                ),
                EventView::NotRun => view.next(event).1->Fail_0 == (if view.step
                    == ScrapeStep::Installing {
                    ErrorView::InstallNotRun { dir }
                } else {
                    ErrorView::ScriptNotRun { script: view.script }
                }),
                EventView::Installed(_) => view.next(event).1->Fail_0
                    == (ErrorView::InstallFailed { dir }),
                EventView::Output { success, status, stdout, stderr } => view.next(event).1->Fail_0
                    == (if success {
                    ErrorView::NotUtf8 { source: utf8_flaw(stdout) }
                } else {
                    ErrorView::ScriptFailed {
                        status,
                        stdout: lossy_text(stdout),
                        stderr: lossy_text(stderr),
                    }
                }),
                EventView::IsDir(_) => true,
            }
        }),
{
    reveal_strlit(".");
    assert("."@ =~= seq!['.']);
}

/// What answers are taken at each step.
pub proof fn law_answers_to_each_step(view: ScrapeView, event: EventView)
    ensures
        view.step == ScrapeStep::CheckingScript ==> (view.accepts(event) <==> event is IsFile && (
        view.script_dir is Some || event == EventView::IsFile(false))),
        view.step == ScrapeStep::CheckingModules ==> (view.accepts(event) <==> event is IsDir),
        view.step == ScrapeStep::FindingNpm || view.step == ScrapeStep::FindingNode ==> (
        view.accepts(event) <==> event is Found),
        view.step == ScrapeStep::Installing ==> (view.accepts(event) <==> event is Installed
            || event is NotRun),
        view.step == ScrapeStep::Running ==> (view.accepts(event) <==> event is Output
            || event is NotRun),
        view.step == ScrapeStep::Ended ==> !view.accepts(event),
{
}

/// A share is read through its script: where the script is there, its modules are there or are
/// installed (`npm` tells where the package manager is), the interpreter is found and the script
/// succeeds, the reading gives what the script wrote, without white space at its ends, whatever the
/// script, the link, the password and the output are.
pub proof fn law_share_is_read_through_its_script(
    start: ScrapeView,
    npm: Option<(Option<Seq<char>>, Seq<bool>)>,
    node_var: Option<Seq<char>>,
    node_present: Seq<bool>,
    status: Seq<char>,
    stdout: Seq<u8>,
    stderr: Seq<u8>,
)
    requires
        start.step == ScrapeStep::CheckingScript,
        start.script_dir is Some,
        npm matches Some((var, present)) ==> located(Program::Npm, var, present) is Some,
        located(Program::Node, node_var, node_present) is Some,
        valid_utf8(stdout),
    ensures
        ({
            let first = EventView::IsFile(true);
            let (there, look) = start.next(first);
            let second = EventView::IsDir(npm is None);
            let (looked, find) = there.next(second);
            &&& start.accepts(first) && there.accepts(second)
            &&& look == (ActionView::CheckDir {
                dir: start.script_dir->0,
                below: "node_modules/puppeteer-core"@,
            })
            &&& npm is None ==> find == ActionView::Find(Program::Node) && runs_to_its_end(
                looked,
                node_var,
                node_present,
                status,
                stdout,
                stderr,
            )
            &&& npm matches Some((var, present)) ==> ({
                let third = EventView::Found { var, present };
                let (placed, install) = looked.next(third);
                let fourth = EventView::Installed(true);
                let (installed, next) = placed.next(fourth);
                &&& find == ActionView::Find(Program::Npm)
                &&& looked.accepts(third) && placed.accepts(fourth)
                &&& install == (ActionView::Install {
                    program: located(Program::Npm, var, present)->0,
                    args: seq!["install"@],
                    dir: start.script_dir->0,
                })
                &&& next == ActionView::Find(Program::Node)
                &&& runs_to_its_end(installed, node_var, node_present, status, stdout, stderr)
            })
        }),
{
}

/// Whether a reading that looks for the interpreter runs the script with it, and gives what the
/// script wrote.
pub open spec fn runs_to_its_end(
    view: ScrapeView,
    var: Option<Seq<char>>,
    present: Seq<bool>,
    status: Seq<char>,
    stdout: Seq<u8>,
    stderr: Seq<u8>,
) -> bool {
    let found = EventView::Found { var, present };
    let (running, run) = view.next(found);
    let output = EventView::Output { success: true, status, stdout, stderr };
    let (ended, done) = running.next(output);
    &&& view.accepts(found) && running.accepts(output)
    &&& run is Run && run->Run_program == located(Program::Node, var, present)->0
    &&& done == ActionView::Done(trimmed(decode_utf8(stdout)))
    &&& ended.step == ScrapeStep::Ended
}

/// The messages about failures hold what they tell of, whole and unchanged.
pub proof fn law_messages_hold_what_they_tell(
    script: Seq<char>,
    dir: Seq<char>,
    status: Seq<char>,
    stdout: Seq<char>,
    stderr: Seq<char>,
    source: std::str::Utf8Error,
)
    ensures
        (ErrorView::ScriptMissing { script, dir }).text() == "scrape script not found at "@ + script
            + "; run npm install in "@ + dir,
        ErrorView::ProgramMissing(Program::Node).text()
            == "node not found; install Node.js or set NODE"@,
        ErrorView::ProgramMissing(Program::Npm).text()
            == "npm not found; install Node.js or set NPM"@,
        (ErrorView::InstallNotRun { dir }).text() == "failed to run npm install in "@ + dir,
        (ErrorView::InstallFailed { dir }).text() == "npm install failed in "@ + dir
            + "; install puppeteer-core manually"@,
        (ErrorView::ScriptNotRun { script }).text() == "failed to run scrape script "@ + script,
        (ErrorView::ScriptFailed { status, stdout, stderr }).text()
            == "share page scrape failed (exit "@ + status + ")\nstdout:\n"@ + stdout
            + "\nstderr:\n"@ + stderr,
        (ErrorView::NotUtf8 { source }).text() == "scrape script stdout is not utf-8"@,
        script_place() == "scripts/scrape_gofile.mjs"@,
{
}

/// The models of answers and actions show all that they hold.
pub proof fn law_models_of_readings(
    event: ScrapeEvent,
    action: ScrapeAction,
    error: ScrapeError,
)
    ensures
        event matches ScrapeEvent::IsFile(there) ==> event@ == EventView::IsFile(there),
        event matches ScrapeEvent::IsDir(there) ==> event@ == EventView::IsDir(there),
        event matches ScrapeEvent::Installed(success) ==> event@ == EventView::Installed(success),
        event is NotRun ==> event@ == EventView::NotRun,
        event matches ScrapeEvent::Found { var, present } ==> event@ is Found
            && event@->present == present@ && (event@->var is Some <==> var is Some) && (var is Some
            ==> event@->var->0 == var->0@),
        event matches ScrapeEvent::Output { success, status, stdout, stderr } ==> event@ == (
        EventView::Output { success, status: status@, stdout: stdout@, stderr: stderr@ }),
        action matches ScrapeAction::CheckFile(path) ==> action@ == ActionView::CheckFile(path@),
        action matches ScrapeAction::CheckDir { dir, below } ==> action@ == (ActionView::CheckDir {
            dir: dir@,
            below: below@,
        }),
        action matches ScrapeAction::Find(program) ==> action@ == ActionView::Find(program),
        action matches ScrapeAction::Install { program, args, dir } ==> action@ is Install
            && action@->Install_program == program@ && action@->Install_dir == dir@
            && action@->Install_args.len() == args@.len() && forall|i: int|
            0 <= i < args@.len() ==> #[trigger] action@->Install_args[i] == args@[i]@,
        action matches ScrapeAction::Run { program, args, vars } ==> action@ is Run
            && action@->Run_program == program@ && action@->Run_args.len() == args@.len() && (
        forall|i: int| 0 <= i < args@.len() ==> #[trigger] action@->Run_args[i] == args@[i]@)
            && action@->vars.len() == vars@.len() && forall|i: int|
            0 <= i < vars@.len() ==> #[trigger] action@->vars[i] == (vars@[i].0@, vars@[i].1@),
        action matches ScrapeAction::Done(json) ==> action@ == ActionView::Done(json@),
        action matches ScrapeAction::Fail(error) ==> action@ == ActionView::Fail(error@),
        error matches ScrapeError::ScriptMissing { script, dir } ==> error@ == (
        ErrorView::ScriptMissing { script: script@, dir: dir@ }),
        error matches ScrapeError::ProgramMissing(program) ==> error@ == ErrorView::ProgramMissing(
            program,
        ),
        error matches ScrapeError::InstallNotRun { dir } ==> error@ == (ErrorView::InstallNotRun {
            dir: dir@,
        }),
        error matches ScrapeError::InstallFailed { dir } ==> error@ == (ErrorView::InstallFailed {
            dir: dir@,
        }),
        error matches ScrapeError::ScriptNotRun { script } ==> error@ == (ErrorView::ScriptNotRun {
            script: script@,
        }),
        error matches ScrapeError::ScriptFailed { status, stdout, stderr } ==> error@ == (
        ErrorView::ScriptFailed { status: status@, stdout: stdout@, stderr: stderr@ }),
        error matches ScrapeError::NotUtf8 { source } ==> error@ == (ErrorView::NotUtf8 { source }),
{
}

} // verus!
