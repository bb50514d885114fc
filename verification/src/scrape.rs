//! Reading the tree of a share through the scrape script, one step at a time.

use crate::paths::{join_path, joined, parent, parent_dir};
use crate::programs::{located, which_node, which_npm, Program};
use crate::text::{string_view, texts, trim, trimmed};
use vstd::prelude::*;
use vstd::string::*;
use vstd::utf8::*;

verus! {

/// `std::str::Utf8Error`, which says where bytes cease to be UTF-8.
#[verifier::external_type_specification]
#[verifier::external_body]
pub struct ExUtf8Error(std::str::Utf8Error);

/// What `String::from_utf8` of std finds wrong with bytes that are not valid UTF-8.
pub uninterp spec fn utf8_flaw(bytes: Seq<u8>) -> std::str::Utf8Error;

/// What `String::from_utf8_lossy` of std makes of bytes.
pub uninterp spec fn lossy_text(bytes: Seq<u8>) -> Seq<char>;

/// `String::from_utf8` of std: the text that `bytes` encode, if they are valid UTF-8. What is wrong
/// with them otherwise is a function of `bytes`, which `utf8_flaw` names.
#[verifier::external_body]
fn utf8_text(bytes: Vec<u8>) -> (res: Result<String, std::str::Utf8Error>)
    ensures
        res is Ok == valid_utf8(bytes@),
        res matches Ok(text) ==> text@ == decode_utf8(bytes@),
        res matches Err(error) ==> error == utf8_flaw(bytes@),
{
    match String::from_utf8(bytes) {
        Ok(text) => Ok(text),
        Err(error) => Err(error.utf8_error()),
    }
}

/// `String::from_utf8_lossy` of std: the text that `bytes` encode, with a replacement character
/// wherever they are not valid UTF-8. The result is a function of `bytes`, which `lossy_text`
/// names; where there is nothing to replace, it is the text.
#[verifier::external_body]
fn utf8_lossy(bytes: &Vec<u8>) -> (res: String)
    ensures
        res@ == lossy_text(bytes@),
        valid_utf8(bytes@) ==> res@ == decode_utf8(bytes@),
{
    String::from_utf8_lossy(bytes).into_owned()
}

/// Where the scrape script lies below the directory of the program.
pub open spec fn script_place() -> Seq<char> {
    "scripts/scrape_gofile.mjs"@
}

/// The scrape script that comes with the program, whose directory is `program_dir`.
pub fn default_scrape_script(program_dir: &str) -> (res: String)
    ensures
        res@ == joined(program_dir@, script_place()),
{
    join_path(program_dir, "scripts/scrape_gofile.mjs")
}

/// The scrape script to use: the one that was asked for, or the one that comes with the program.
pub fn chosen_script(scrape_script: Option<String>, program_dir: &str) -> (res: String)
    ensures
        res@ == match string_view(scrape_script) {
            Some(script) => script,
            None => joined(program_dir@, script_place()),
        },
{
    match scrape_script {
        Some(script) => script,
        None => default_scrape_script(program_dir),
    }
}

/// Why the tree of a share could not be read.
#[derive(Debug)]
pub enum ScrapeError {
    /// There is no file at the path of the script.
    ScriptMissing {
        /// The path of the script.
        script: String,
        /// The directory of the script.
        dir: String,
    },
    /// A program is not installed.
    ProgramMissing(Program),
    /// The package manager could not be started.
    InstallNotRun {
        /// The directory of the script.
        dir: String,
    },
    /// The package manager failed.
    InstallFailed {
        /// The directory of the script.
        dir: String,
    },
    /// The script could not be started.
    ScriptNotRun {
        /// The path of the script.
        script: String,
    },
    /// The script failed.
    ScriptFailed {
        /// How the script ended.
        status: String,
        /// What the script wrote to its output.
        stdout: String,
        /// What the script wrote to its error output.
        stderr: String,
    },
    /// The output of the script is not text.
    NotUtf8 {
        /// What is wrong with it.
        source: std::str::Utf8Error,
    },
}

/// The model of a failure.
pub enum ErrorView {
    ScriptMissing { script: Seq<char>, dir: Seq<char> },
    ProgramMissing(Program),
    InstallNotRun { dir: Seq<char> },
    InstallFailed { dir: Seq<char> },
    ScriptNotRun { script: Seq<char> },
    ScriptFailed { status: Seq<char>, stdout: Seq<char>, stderr: Seq<char> },
    NotUtf8 { source: std::str::Utf8Error },
}

impl View for ScrapeError {
    type V = ErrorView;

    open spec fn view(&self) -> ErrorView {
        match *self {
            ScrapeError::ScriptMissing { script, dir } => ErrorView::ScriptMissing {
                script: script@,
                dir: dir@,
            },
            ScrapeError::ProgramMissing(program) => ErrorView::ProgramMissing(program),
            ScrapeError::InstallNotRun { dir } => ErrorView::InstallNotRun { dir: dir@ },
            ScrapeError::InstallFailed { dir } => ErrorView::InstallFailed { dir: dir@ },
            ScrapeError::ScriptNotRun { script } => ErrorView::ScriptNotRun { script: script@ },
            ScrapeError::ScriptFailed { status, stdout, stderr } => ErrorView::ScriptFailed {
                status: status@,
                stdout: stdout@,
                stderr: stderr@,
            },
            ScrapeError::NotUtf8 { source } => ErrorView::NotUtf8 { source },
        }
    }
}

impl ErrorView {
    /// The message for the user, without the source.
    pub open spec fn text(self) -> Seq<char> {
        match self {
            ErrorView::ScriptMissing { script, dir } => "scrape script not found at "@ + script
                + "; run npm install in "@ + dir,
            ErrorView::ProgramMissing(program) => program.missing_text(),
            ErrorView::InstallNotRun { dir } => "failed to run npm install in "@ + dir,
            ErrorView::InstallFailed { dir } => "npm install failed in "@ + dir
                + "; install puppeteer-core manually"@,
            ErrorView::ScriptNotRun { script } => "failed to run scrape script "@ + script,
            ErrorView::ScriptFailed { status, stdout, stderr } => "share page scrape failed (exit "@
                + status + ")\nstdout:\n"@ + stdout + "\nstderr:\n"@ + stderr,
            ErrorView::NotUtf8 { source } => "scrape script stdout is not utf-8"@,
        }
    }
}

impl ScrapeError {
    /// The message for the user, without the source.
    pub fn message(&self) -> (res: String)
        ensures
            res@ == self@.text(),
    {
        let mut message = String::new();
        match self {
            ScrapeError::ScriptMissing { script, dir } => {
                message.append("scrape script not found at ");
                message.append(script.as_str());
                message.append("; run npm install in ");
                message.append(dir.as_str());
            },
            ScrapeError::ProgramMissing(program) => {
                message = program.missing_message();
            },
            ScrapeError::InstallNotRun { dir } => {
                message.append("failed to run npm install in ");
                message.append(dir.as_str());
            },
            ScrapeError::InstallFailed { dir } => {
                message.append("npm install failed in ");
                message.append(dir.as_str());
                message.append("; install puppeteer-core manually");
            },
            ScrapeError::ScriptNotRun { script } => {
                message.append("failed to run scrape script ");
                message.append(script.as_str());
            },
            ScrapeError::ScriptFailed { status, stdout, stderr } => {
                message.append("share page scrape failed (exit ");
                message.append(status.as_str());
                message.append(")\nstdout:\n");
                message.append(stdout.as_str());
                message.append("\nstderr:\n");
                message.append(stderr.as_str());
            },
            ScrapeError::NotUtf8 { .. } => {
                message.append("scrape script stdout is not utf-8");
            },
        }
        assert(message@ =~= self@.text());
        message
    }
}

/// How far the reading of a share has come.
#[derive(Clone, Copy, Debug, PartialEq, Eq, Structural)]
pub enum ScrapeStep {
    /// Is there a script?
    CheckingScript,
    /// Does the script have its modules?
    CheckingModules,
    /// Where is the package manager?
    FindingNpm,
    /// The package manager runs.
    Installing,
    /// Where is the interpreter?
    FindingNode,
    /// The script runs.
    Running,
    /// The reading is over.
    Ended,
}

/// The reading of a share.
pub struct Scrape {
    script: String,
    script_dir: Option<String>,
    share_url: String,
    password: Option<String>,
    chrome_path: Option<String>,
    step: ScrapeStep,
}

/// The model of the reading of a share.
#[verifier::ext_equal]
pub struct ScrapeView {
    pub script: Seq<char>,
    pub script_dir: Option<Seq<char>>,
    pub share_url: Seq<char>,
    pub password: Option<Seq<char>>,
    pub chrome_path: Option<Seq<char>>,
    pub step: ScrapeStep,
}

impl View for Scrape {
    type V = ScrapeView;

    closed spec fn view(&self) -> ScrapeView {
        ScrapeView {
            script: self.script@,
            script_dir: string_view(self.script_dir),
            share_url: self.share_url@,
            password: string_view(self.password),
            chrome_path: string_view(self.chrome_path),
            step: self.step,
        }
    }
}

/// What was found out, or what became of a program.
#[derive(Debug)]
pub enum ScrapeEvent {
    /// Whether there is a file at the path.
    IsFile(bool),
    /// Whether there is a directory at the path.
    IsDir(bool),
    /// What is known of the place of a program: its variable, and whether there is a file at each
    /// of its candidates.
    Found {
        /// The value of the variable.
        var: Option<String>,
        /// Whether there is a file, candidate by candidate.
        present: Vec<bool>,
    },
    /// The program could not be started.
    NotRun,
    /// The package manager ended, with success or not.
    Installed(bool),
    /// The script ended.
    Output {
        /// Whether it ended with success.
        success: bool,
        /// How it ended, in words.
        status: String,
        /// What it wrote to its output.
        stdout: Vec<u8>,
        /// What it wrote to its error output.
        stderr: Vec<u8>,
    },
}

/// The model of an event.
pub enum EventView {
    IsFile(bool),
    IsDir(bool),
    Found { var: Option<Seq<char>>, present: Seq<bool> },
    NotRun,
    Installed(bool),
    Output { success: bool, status: Seq<char>, stdout: Seq<u8>, stderr: Seq<u8> },
}

impl View for ScrapeEvent {
    type V = EventView;

    open spec fn view(&self) -> EventView {
        match *self {
            ScrapeEvent::IsFile(there) => EventView::IsFile(there),
            ScrapeEvent::IsDir(there) => EventView::IsDir(there),
            ScrapeEvent::Found { var, present } => EventView::Found {
                var: string_view(var),
                present: present@,
            },
            ScrapeEvent::NotRun => EventView::NotRun,
            ScrapeEvent::Installed(success) => EventView::Installed(success),
            ScrapeEvent::Output { success, status, stdout, stderr } => EventView::Output {
                success,
                status: status@,
                stdout: stdout@,
                stderr: stderr@,
            },
        }
    }
}

/// What is to be done next.
#[derive(Debug)]
pub enum ScrapeAction {
    /// Find out whether there is a file.
    CheckFile(String),
    /// Find out whether there is a directory.
    CheckDir {
        /// The directory to look in.
        dir: String,
        /// Where to look below it.
        below: String,
    },
    /// Find out what is known of the place of a program.
    Find(Program),
    /// Run the package manager.
    Install {
        /// The package manager.
        program: String,
        /// Its arguments.
        args: Vec<String>,
        /// Where to run it.
        dir: String,
    },
    /// Run the script.
    Run {
        /// The interpreter.
        program: String,
        /// Its arguments.
        args: Vec<String>,
        /// The environment variables that it gets besides those of this process, each with its
        /// value.
        vars: Vec<(String, String)>,
    },
    /// The tree was read: this is its JSON.
    Done(String),
    /// The tree could not be read.
    Fail(ScrapeError),
}

/// The model of an action.
pub enum ActionView {
    CheckFile(Seq<char>),
    CheckDir { dir: Seq<char>, below: Seq<char> },
    Find(Program),
    Install { program: Seq<char>, args: Seq<Seq<char>>, dir: Seq<char> },
    Run { program: Seq<char>, args: Seq<Seq<char>>, vars: Seq<(Seq<char>, Seq<char>)> },
    Done(Seq<char>),
    Fail(ErrorView),
}

/// The models of variables with their values.
pub open spec fn var_views(vars: Seq<(String, String)>) -> Seq<(Seq<char>, Seq<char>)> {
    vars.map_values(|var: (String, String)| (var.0@, var.1@))
}

impl View for ScrapeAction {
    type V = ActionView;

    open spec fn view(&self) -> ActionView {
        match *self {
            ScrapeAction::CheckFile(path) => ActionView::CheckFile(path@),
            ScrapeAction::CheckDir { dir, below } => ActionView::CheckDir {
                dir: dir@,
                below: below@,
            },
            ScrapeAction::Find(program) => ActionView::Find(program),
            ScrapeAction::Install { program, args, dir } => ActionView::Install {
                program: program@,
                args: texts(args@),
                dir: dir@,
            },
            ScrapeAction::Run { program, args, vars } => ActionView::Run {
                program: program@,
                args: texts(args@),
                vars: var_views(vars@),
            },
            ScrapeAction::Done(json) => ActionView::Done(json@),
            ScrapeAction::Fail(error) => ActionView::Fail(error@),
        }
    }
}

/// The arguments of the package manager.
pub open spec fn install_args() -> Seq<Seq<char>> {
    seq!["install"@]
}

impl ScrapeView {
    /// The reading at another step.
    pub open spec fn at(self, step: ScrapeStep) -> ScrapeView {
        ScrapeView { step, ..self }
    }

    /// The directory of the script, as far as it has one.
    pub open spec fn dir(self) -> Seq<char> {
        match self.script_dir {
            Some(dir) => dir,
            None => seq!['.'],
        }
    }

    /// The arguments of the interpreter: the script, the link to the share, and the password where
    /// there is one.
    pub open spec fn args(self) -> Seq<Seq<char>> {
        match self.password {
            Some(password) if password.len() > 0 => seq![self.script, self.share_url, password],
            _ => seq![self.script, self.share_url],
        }
    }

    /// The variables that the interpreter gets: `CHROME_PATH`, where the path of a browser was given.
    pub open spec fn vars(self) -> Seq<(Seq<char>, Seq<char>)> {
        match self.chrome_path {
            Some(path) => seq![("CHROME_PATH"@, path)],
            None => seq![],
        }
    }

    /// Whether `event` answers what is being done. A script that was found lies in a directory.
    pub open spec fn accepts(self, event: EventView) -> bool {
        match self.step {
            ScrapeStep::CheckingScript => event matches EventView::IsFile(there) && (there
                ==> self.script_dir is Some),
            ScrapeStep::CheckingModules => event is IsDir,
            ScrapeStep::FindingNpm => event is Found,
            ScrapeStep::Installing => event is Installed || event is NotRun,
            ScrapeStep::FindingNode => event is Found,
            ScrapeStep::Running => event is Output || event is NotRun,
            ScrapeStep::Ended => false,
        }
    }

    /// The end of the reading, with `error`.
    pub open spec fn failed(self, error: ErrorView) -> (ScrapeView, ActionView) {
        (self.at(ScrapeStep::Ended), ActionView::Fail(error))
    }

    /// What follows from `event`: how far the reading has come then, and what is to be done next.
    pub open spec fn next(self, event: EventView) -> (ScrapeView, ActionView) {
        match (self.step, event) {
            (ScrapeStep::CheckingScript, EventView::IsFile(true)) => (
                self.at(ScrapeStep::CheckingModules),
                ActionView::CheckDir { dir: self.dir(), below: "node_modules/puppeteer-core"@ },
            ),
            (ScrapeStep::CheckingScript, _) => self.failed(
                ErrorView::ScriptMissing { script: self.script, dir: self.dir() },
            ),
            (ScrapeStep::CheckingModules, EventView::IsDir(true)) => (
                self.at(ScrapeStep::FindingNode),
                ActionView::Find(Program::Node),
            ),
            (ScrapeStep::CheckingModules, _) => (
                self.at(ScrapeStep::FindingNpm),
                ActionView::Find(Program::Npm),
            ),
            (ScrapeStep::FindingNpm, EventView::Found { var, present }) => match located(
                Program::Npm,
                var,
                present,
            ) {
                Some(program) => (
                    self.at(ScrapeStep::Installing),
                    ActionView::Install { program, args: install_args(), dir: self.dir() },
                ),
                None => self.failed(ErrorView::ProgramMissing(Program::Npm)),
            },
            (ScrapeStep::Installing, EventView::Installed(true)) => (
                self.at(ScrapeStep::FindingNode),
                ActionView::Find(Program::Node),
            ),
            (ScrapeStep::Installing, EventView::Installed(false)) => self.failed(
                ErrorView::InstallFailed { dir: self.dir() },
            ),
            (ScrapeStep::Installing, _) => self.failed(
                ErrorView::InstallNotRun { dir: self.dir() },
            ),
            (ScrapeStep::FindingNode, EventView::Found { var, present }) => match located(
                Program::Node,
                var,
                present,
            ) {
                Some(program) => (
                    self.at(ScrapeStep::Running),
                    ActionView::Run { program, args: self.args(), vars: self.vars() },
                ),
                None => self.failed(ErrorView::ProgramMissing(Program::Node)),
            },
            (ScrapeStep::Running, EventView::Output { success, status, stdout, stderr }) => if !success {
                self.failed(
                    ErrorView::ScriptFailed {
                        status,
                        stdout: lossy_text(stdout),
                        stderr: lossy_text(stderr),
                    },
                )
            } else if !valid_utf8(stdout) {
                self.failed(ErrorView::NotUtf8 { source: utf8_flaw(stdout) })
            } else {
                (self.at(ScrapeStep::Ended), ActionView::Done(trimmed(decode_utf8(stdout))))
            },
            (_, _) => self.failed(ErrorView::ScriptNotRun { script: self.script }),
        }
    }
}

impl Scrape {
    /// Starts the reading of the share at `share_url` through `script`, with the password of the
    /// share and the path of the browser where they were given.
    ///
    /// The path of the script has `/` between its components. `start_in` is for systems whose paths
    /// follow other rules.
    pub fn start(
        script: String,
        share_url: String,
        password: Option<String>,
        chrome_path: Option<String>,
    ) -> (res: (Scrape, ScrapeAction))
        ensures
            res.0@ == (ScrapeView {
                script: script@,
                script_dir: parent(script@),
                share_url: share_url@,
                password: string_view(password),
                chrome_path: string_view(chrome_path),
                step: ScrapeStep::CheckingScript,
            }),
            res.1@ == ActionView::CheckFile(script@),
    {
        let script_dir = parent_dir(script.as_str());
        Scrape::start_in(script, script_dir, share_url, password, chrome_path)
    }

    /// Starts the reading of the share at `share_url` through `script`, which lies in `script_dir`
    /// by the rules of the system: there is none for a path without a parent.
    pub fn start_in(
        script: String,
        script_dir: Option<String>,
        share_url: String,
        password: Option<String>,
        chrome_path: Option<String>,
    ) -> (res: (Scrape, ScrapeAction))
        ensures
            res.0@ == (ScrapeView {
                script: script@,
                script_dir: string_view(script_dir),
                share_url: share_url@,
                password: string_view(password),
                chrome_path: string_view(chrome_path),
                step: ScrapeStep::CheckingScript,
            }),
            res.1@ == ActionView::CheckFile(script@),
    {
        let path = script.clone();
        let step = ScrapeStep::CheckingScript;
        (
            Scrape { script, script_dir, share_url, password, chrome_path, step },
            ScrapeAction::CheckFile(path),
        )
    }

    fn dir(&self) -> (res: String)
        ensures
            res@ == self@.dir(),
    {
        match &self.script_dir {
            Some(dir) => dir.clone(),
            None => {
                let mut here = String::new();
                here.push('.');
                assert(here@ =~= seq!['.']);
                here
            },
        }
    }

    fn args(&self) -> (res: Vec<String>)
        ensures
            texts(res@) == self@.args(),
    {
        let mut args: Vec<String> = vec![self.script.clone(), self.share_url.clone()];
        if let Some(password) = &self.password {
            if !password.as_str().is_empty() {
                args.push(password.clone());
            }
        }
        assert(texts(args@) =~= self@.args());
        args
    }

    fn vars(&self) -> (res: Vec<(String, String)>)
        ensures
            var_views(res@) == self@.vars(),
    {
        let mut vars: Vec<(String, String)> = Vec::new();
        if let Some(path) = &self.chrome_path {
            vars.push(("CHROME_PATH".to_owned(), path.clone()));
        }
        assert(var_views(vars@) =~= self@.vars());
        vars
    }

    fn fail(&mut self, error: ScrapeError) -> (action: ScrapeAction)
        ensures
            (final(self)@, action@) == old(self)@.failed(error@),
    {
        self.step = ScrapeStep::Ended;
        ScrapeAction::Fail(error)
    }

    /// How far the reading has come.
    pub fn step(&self) -> (res: ScrapeStep)
        ensures
            res == self@.step,
    {
        self.step
    }

    /// Takes the answer to what was being done, and says what is to be done next.
    ///
    /// What a script that failed wrote is reported as it is where it is valid UTF-8.
    pub fn advance(&mut self, event: ScrapeEvent) -> (action: ScrapeAction)
        requires
            old(self)@.accepts(event@),
        ensures
            (final(self)@, action@) == old(self)@.next(event@),
            event matches ScrapeEvent::Output { success, status, stdout, stderr } ==> (
            !success && valid_utf8(stdout@) && valid_utf8(stderr@) ==> action@ == ActionView::Fail(
                ErrorView::ScriptFailed {
                    status: status@,
                    stdout: decode_utf8(stdout@),
                    stderr: decode_utf8(stderr@),
                },
            )),
    {
        match (self.step, event) {
            (ScrapeStep::CheckingScript, ScrapeEvent::IsFile(there)) => {
                let dir = self.dir();
                if there {
                    self.step = ScrapeStep::CheckingModules;
                    ScrapeAction::CheckDir { dir, below: "node_modules/puppeteer-core".to_owned() }
                } else {
                    let script = self.script.clone();
                    self.fail(ScrapeError::ScriptMissing { script, dir })
                }
            },
            (ScrapeStep::CheckingModules, ScrapeEvent::IsDir(there)) => {
                if there {
                    self.step = ScrapeStep::FindingNode;
                    ScrapeAction::Find(Program::Node)
                } else {
                    self.step = ScrapeStep::FindingNpm;
                    ScrapeAction::Find(Program::Npm)
                }
            },
            (ScrapeStep::FindingNpm, ScrapeEvent::Found { var, present }) => {
                match which_npm(var, &present) {
                    Ok(program) => {
                        let args: Vec<String> = vec!["install".to_owned()];
                        assert(texts(args@) =~= install_args());
                        let dir = self.dir();
                        self.step = ScrapeStep::Installing;
                        ScrapeAction::Install { program, args, dir }
                    },
                    Err(program) => self.fail(ScrapeError::ProgramMissing(program)),
                }
            },
            (ScrapeStep::Installing, ScrapeEvent::Installed(success)) => {
                if success {
                    self.step = ScrapeStep::FindingNode;
                    ScrapeAction::Find(Program::Node)
                } else {
                    let dir = self.dir();
                    self.fail(ScrapeError::InstallFailed { dir })
                }
            },
            (ScrapeStep::Installing, _) => {
                let dir = self.dir();
                self.fail(ScrapeError::InstallNotRun { dir })
            },
            (ScrapeStep::FindingNode, ScrapeEvent::Found { var, present }) => {
                match which_node(var, &present) {
                    Ok(program) => {
                        let args = self.args();
                        let vars = self.vars();
                        self.step = ScrapeStep::Running;
                        ScrapeAction::Run { program, args, vars }
                    },
                    Err(program) => self.fail(ScrapeError::ProgramMissing(program)),
                }
            },
            (ScrapeStep::Running, ScrapeEvent::Output { success, status, stdout, stderr }) => {
                if !success {
                    let stdout = utf8_lossy(&stdout);
                    let stderr = utf8_lossy(&stderr);
                    return self.fail(ScrapeError::ScriptFailed { status, stdout, stderr });
                }
                match utf8_text(stdout) {
                    Err(source) => self.fail(ScrapeError::NotUtf8 { source }),
                    Ok(text) => {
                        self.step = ScrapeStep::Ended;
                        ScrapeAction::Done(trim(text.as_str()).to_owned())
                    },
                }
            },
            (_, _) => {
                let script = self.script.clone();
                self.fail(ScrapeError::ScriptNotRun { script })
            },
        }
    }
}

/// Whether each of `events` answers what is being done when it comes.
pub open spec fn all_accepted(start: ScrapeView, events: Seq<EventView>) -> bool
    decreases events.len(),
{
    events.len() > 0 ==> all_accepted(start, events.drop_last()) && reached(
        start,
        events.drop_last(),
    ).accepts(events.last())
}

/// How far the reading has come after `events`.
pub open spec fn reached(start: ScrapeView, events: Seq<EventView>) -> ScrapeView
    decreases events.len(),
{
    if events.len() == 0 {
        start
    } else {
        reached(start, events.drop_last()).next(events.last()).0
    }
}

/// Whether `events` show that the script is there, and that its modules are: they were there from
/// the start, or have been installed with success.
pub open spec fn script_is_ready(events: Seq<EventView>) -> bool {
    &&& events.len() >= 2
    &&& events[0] == EventView::IsFile(true)
    &&& events[1] == EventView::IsDir(true) || (events.len() >= 4 && events[1] == EventView::IsDir(
        false,
    ) && events[3] == EventView::Installed(true))
}

/// Whether `events` are those that lead to `step`.
spec fn leads_to(events: Seq<EventView>, step: ScrapeStep) -> bool {
    match step {
        ScrapeStep::CheckingScript => events.len() == 0,
        ScrapeStep::CheckingModules => events.len() == 1 && events[0] == EventView::IsFile(true),
        ScrapeStep::FindingNpm => events.len() == 2 && events[0] == EventView::IsFile(true)
            && events[1] == EventView::IsDir(false),
        ScrapeStep::Installing => events.len() == 3 && events[0] == EventView::IsFile(true)
            && events[1] == EventView::IsDir(false),
        ScrapeStep::FindingNode => (events.len() == 2 || events.len() == 4) && script_is_ready(
            events,
        ),
        ScrapeStep::Running => (events.len() == 3 || events.len() == 5) && script_is_ready(events),
        ScrapeStep::Ended => 1 <= events.len() <= 6,
    }
}

proof fn lemma_leads_to(start: ScrapeView, events: Seq<EventView>)
    requires
        start.step == ScrapeStep::CheckingScript,
        all_accepted(start, events),
    ensures
        leads_to(events, reached(start, events).step),
        reached(start, events) == start.at(reached(start, events).step),
    decreases events.len(),
{
    if events.len() > 0 {
        let before = events.drop_last();
        lemma_leads_to(start, before);
        let last = events.len() - 1;
        assert(forall|i: int| 0 <= i < last ==> before[i] == events[i]);
        assert(events.last() == events[last]);
    }
}

/// The script is run only when it is there and has its modules, and it is run with exactly the
/// script itself, the link to the share and the password, if there is one. It gets the path of the
/// browser that was given, and no other variable of its own.
pub proof fn law_script_runs_only_when_ready(
    start: ScrapeView,
    events: Seq<EventView>,
    event: EventView,
)
    requires
        start.step == ScrapeStep::CheckingScript,
        all_accepted(start, events),
        reached(start, events).accepts(event),
        reached(start, events).next(event).1 is Run,
    ensures
        script_is_ready(events),
        reached(start, events).next(event).1->Run_args == start.args(),
        reached(start, events).next(event).1->vars == start.vars(),
{
    lemma_leads_to(start, events);
}

/// The package manager is run only for a script that is there and lacks its modules, in the directory
/// of the script and to install them.
pub proof fn law_installs_only_what_is_missing(
    start: ScrapeView,
    events: Seq<EventView>,
    event: EventView,
)
    requires
        start.step == ScrapeStep::CheckingScript,
        all_accepted(start, events),
        reached(start, events).accepts(event),
        reached(start, events).next(event).1 is Install,
    ensures
        events.len() == 2,
        events[0] == EventView::IsFile(true),
        events[1] == EventView::IsDir(false),
        reached(start, events).next(event).1->Install_dir == start.dir(),
        reached(start, events).next(event).1->Install_args == install_args(),
{
    lemma_leads_to(start, events);
}

/// The reading is over after six answers at the latest.
pub proof fn law_reading_ends(start: ScrapeView, events: Seq<EventView>)
    requires
        start.step == ScrapeStep::CheckingScript,
        all_accepted(start, events),
    ensures
        events.len() <= 6,
        events.len() == 6 ==> reached(start, events).step == ScrapeStep::Ended,
{
    lemma_leads_to(start, events);
}

/// The reading is over exactly when the tree was read or the reading failed.
pub proof fn law_ended_means_done_or_failed(view: ScrapeView, event: EventView)
    requires
        view.accepts(event),
    ensures
        view.next(event).0.step == ScrapeStep::Ended <==> view.next(event).1 is Done || view.next(
            event,
        ).1 is Fail,
{
}

} // verus!
