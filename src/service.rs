use vstd::prelude::*;
use vstd::string::*;

verus! {

/// The platform's way of gaining administrator rights.
#[derive(Debug, Clone, Copy, PartialEq, Eq, Structural)]
pub enum Platform {
    /// A shell verb: PowerShell's `Start-Process -Verb RunAs`; the handle is
    /// that of the helper, not of the worker.
    Windows,
    /// A scripting host prompt: `osascript` with administrator privileges;
    /// the handle is that of the host.
    MacOs,
    /// A privileged exec front-end: `pkexec`; the handle is the worker.
    Linux,
}

/// A program to run and its argument vector.
#[derive(Debug, Clone)]
pub struct CommandSpec {
    pub program: String,
    pub args: Vec<String>,
}

/// Why an operation of the service manager failed.
#[derive(Debug, Clone)]
pub enum ServiceError {
    /// `start` while a worker is held.
    AlreadyRunning,
    /// The configuration file to start with does not exist.
    ConfigNotFound(String),
    /// Spawning the elevated command failed, with the system's message.
    StartFailed(String),
    /// `stop` while no worker is held.
    NotRunning,
    /// Spawning or signalling the termination failed, with the system's message.
    StopFailed(String),
    /// Waiting for the tracked process failed, with the system's message.
    WaitFailed(String),
    /// The worker's version could not be obtained.
    VersionFailed,
}

/// The strings of `v` as text.
pub open spec fn texts(v: Seq<String>) -> Seq<Seq<char>> {
    v.map_values(|a: String| a@)
}

/// The items of `s` separated by single spaces.
pub open spec fn join_spaces(s: Seq<Seq<char>>) -> Seq<char>
    decreases s.len(),
{
    if s.len() == 0 {
        Seq::empty()
    } else if s.len() == 1 {
        s[0]
    } else {
        join_spaces(s.drop_last()) + seq![' '] + s.last()
    }
}

/// `s` with each single quote written as `'\''`, for use between single quotes
/// in a POSIX shell.
pub open spec fn sh_escape(s: Seq<char>) -> Seq<char>
    decreases s.len(),
{
    if s.len() == 0 {
        s
    } else if s.last() == '\'' {
        sh_escape(s.drop_last()) + seq!['\'', '\\', '\'', '\'']
    } else {
        sh_escape(s.drop_last()).push(s.last())
    }
}

/// `s` as one single-quoted shell word.
pub open spec fn sh_quote(s: Seq<char>) -> Seq<char> {
    seq!['\''] + sh_escape(s) + seq!['\'']
}

/// `s` with backslashes and double quotes escaped, for use inside an
/// AppleScript string literal.
pub open spec fn script_escape(s: Seq<char>) -> Seq<char>
    decreases s.len(),
{
    if s.len() == 0 {
        s
    } else if s.last() == '\\' || s.last() == '"' {
        script_escape(s.drop_last()) + seq!['\\', s.last()]
    } else {
        script_escape(s.drop_last()).push(s.last())
    }
}

/// The shell command line that runs `program` with `args`, every word quoted.
pub open spec fn shell_line(program: Seq<char>, args: Seq<Seq<char>>) -> Seq<char> {
    join_spaces(seq![sh_quote(program)] + args.map_values(|a: Seq<char>| sh_quote(a)))
}

/// The program that an elevated launch runs on `platform`.
pub open spec fn elevated_program(platform: Platform) -> Seq<char> {
    match platform {
        Platform::Windows => "powershell"@,
        Platform::MacOs => "osascript"@,
        Platform::Linux => "pkexec"@,
    }
}

/// The arguments of an elevated launch of `program` with `args`.
pub open spec fn elevated_args(platform: Platform, program: Seq<char>, args: Seq<Seq<char>>) -> Seq<
    Seq<char>,
> {
    match platform {
        Platform::Windows => seq![
            "-Command"@,
            "Start-Process -FilePath '"@ + program + "' -ArgumentList '"@ + join_spaces(args)
                + "' -Verb RunAs -Wait"@,
        ],
        Platform::MacOs => seq![
            "-e"@,
            "do shell script \""@ + script_escape(shell_line(program, args))
                + "\" with administrator privileges"@,
        ],
        Platform::Linux => seq![program] + args,
    }
}

/// The elevated command that terminates the worker with process id `pid` on
/// `platform`; on Linux the tracked handle is killed directly instead.
pub open spec fn kill_command_spec(platform: Platform, pid: Seq<char>) -> Option<
    (Seq<char>, Seq<Seq<char>>),
> {
    match platform {
        Platform::Windows => Some(
            (
                "powershell"@,
                seq![
                    "-Command"@,
                    "Start-Process -FilePath 'taskkill' -ArgumentList '/F', '/PID', '"@ + pid
                        + "' -Verb RunAs"@,
                ],
            ),
        ),
        Platform::MacOs => Some(
            (
                "osascript"@,
                seq![
                    "-e"@,
                    "do shell script \"kill -9 "@ + pid + "\" with administrator privileges"@,
                ],
            ),
        ),
        Platform::Linux => None,
    }
}

/// `args` joined by single spaces.
pub fn join_args(args: &Vec<String>) -> (r: String)
    ensures
        r@ == join_spaces(texts(args@)),
{
    let mut r = String::new();
    let n = args.len();
    let mut i: usize = 0;
    proof {
        reveal_strlit(" ");
    }
    while i < n
        invariant
            n == args@.len(),
            i <= n,
            r@ == join_spaces(texts(args@).subrange(0, i as int)),
        decreases n - i,
    {
        let ghost s = texts(args@).subrange(0, i + 1);
        assert(s.drop_last() =~= texts(args@).subrange(0, i as int));
        if i > 0 {
            r.append(" ");
        }
        r.append(args[i].as_str());
        proof {
            if i == 0 {
                assert(r@ =~= s[0]);
            } else {
                reveal_strlit(" ");
                assert(s.last() == args@[i as int]@);
                assert(r@ =~= join_spaces(s.drop_last()) + seq![' '] + s.last());
            }
        }
        i = i + 1;
    }
    assert(texts(args@).subrange(0, n as int) =~= texts(args@));
    r
}

fn text_vec2(a: String, b: String) -> (r: Vec<String>)
    ensures
        texts(r@) == seq![a@, b@],
{
    let mut r = Vec::new();
    r.push(a);
    r.push(b);
    assert(texts(r@) =~= seq![a@, b@]);
    r
}

/// `s` as one single-quoted shell word.
pub fn shell_quote(s: &str) -> (r: String)
    ensures
        r@ == sh_quote(s@),
{
    let n = s.unicode_len();
    let mut r = String::from_str("'");
    let mut i: usize = 0;
    proof {
        reveal_strlit("'");
        assert(s@.subrange(0, 0) =~= Seq::<char>::empty());
        assert(r@ =~= seq!['\''] + sh_escape(s@.subrange(0, 0)));
    }
    while i < n
        invariant
            n == s@.len(),
            i <= n,
            r@ == seq!['\''] + sh_escape(s@.subrange(0, i as int)),
        decreases n - i,
    {
        let ghost t = s@.subrange(0, i + 1);
        assert(t.drop_last() =~= s@.subrange(0, i as int));
        let c = s.get_char(i);
        if c == '\'' {
            r.append("'\\''");
            proof {
                reveal_strlit("'\\''");
                assert(r@ =~= seq!['\''] + sh_escape(t));
            }
        } else {
            r.append(s.substring_char(i, i + 1));
            assert(r@ =~= seq!['\''] + sh_escape(t));
        }
        i = i + 1;
    }
    r.append("'");
    proof {
        reveal_strlit("'");
        assert(s@.subrange(0, n as int) =~= s@);
        assert(r@ =~= sh_quote(s@));
    }
    r
}

/// `s` escaped for an AppleScript string literal.
pub fn escape_for_script(s: &str) -> (r: String)
    ensures
        r@ == script_escape(s@),
{
    let n = s.unicode_len();
    let mut r = String::new();
    let mut i: usize = 0;
    assert(s@.subrange(0, 0) =~= Seq::<char>::empty());
    while i < n
        invariant
            n == s@.len(),
            i <= n,
            r@ == script_escape(s@.subrange(0, i as int)),
        decreases n - i,
    {
        let ghost t = s@.subrange(0, i + 1);
        assert(t.drop_last() =~= s@.subrange(0, i as int));
        let c = s.get_char(i);
        if c == '\\' || c == '"' {
            r.append("\\");
            proof {
                reveal_strlit("\\");
            }
        }
        r.append(s.substring_char(i, i + 1));
        assert(r@ =~= script_escape(t));
        i = i + 1;
    }
    assert(s@.subrange(0, n as int) =~= s@);
    r
}

/// The shell command line that runs `program` with `args`, every word quoted.
pub fn quoted_line(program: &str, args: &Vec<String>) -> (r: String)
    ensures
        r@ == shell_line(program@, texts(args@)),
{
    let mut words: Vec<String> = Vec::new();
    words.push(shell_quote(program));
    let n = args.len();
    let mut i: usize = 0;
    while i < n
        invariant
            n == args@.len(),
            i <= n,
            texts(words@) == seq![sh_quote(program@)] + texts(args@).subrange(0, i as int).map_values(
                |a: Seq<char>| sh_quote(a),
            ),
        decreases n - i,
    {
        let ghost before = words@;
        words.push(shell_quote(args[i].as_str()));
        assert(texts(words@) =~= texts(before).push(sh_quote(args@[i as int]@)));
        assert(texts(args@).subrange(0, i + 1).map_values(|a: Seq<char>| sh_quote(a)) =~= texts(
            args@,
        ).subrange(0, i as int).map_values(|a: Seq<char>| sh_quote(a)).push(
            sh_quote(args@[i as int]@),
        ));
        i = i + 1;
    }
    assert(texts(args@).subrange(0, n as int) =~= texts(args@));
    join_args(&words)
}

/// The command that runs `program` with `args` under administrator rights on
/// `platform`.
pub fn create_elevated_command(platform: Platform, program: &str, args: &Vec<String>) -> (r:
    CommandSpec)
    ensures
        r.program@ == elevated_program(platform),
        texts(r.args@) == elevated_args(platform, program@, texts(args@)),
{
    match platform {
        Platform::Windows => {
            let mut script = String::from_str("Start-Process -FilePath '");
            script.append(program);
            script.append("' -ArgumentList '");
            script.append(join_args(args).as_str());
            script.append("' -Verb RunAs -Wait");
            CommandSpec {
                program: String::from_str("powershell"),
                args: text_vec2(String::from_str("-Command"), script),
            }
        },
        Platform::MacOs => {
            let mut script = String::from_str("do shell script \"");
            script.append(escape_for_script(quoted_line(program, args).as_str()).as_str());
            script.append("\" with administrator privileges");
            CommandSpec {
                program: String::from_str("osascript"),
                args: text_vec2(String::from_str("-e"), script),
            }
        },
        Platform::Linux => {
            let mut all: Vec<String> = Vec::new();
            all.push(String::from_str(program));
            let n = args.len();
            let mut i: usize = 0;
            while i < n
                invariant
                    n == args@.len(),
                    i <= n,
                    texts(all@) == seq![program@] + texts(args@).subrange(0, i as int),
                decreases n - i,
            {
                let ghost before = all@;
                all.push(args[i].clone());
                assert(texts(all@) =~= texts(before).push(args@[i as int]@));
                assert(seq![program@] + texts(args@).subrange(0, i + 1) =~= (seq![program@]
                    + texts(args@).subrange(0, i as int)).push(args@[i as int]@));
                i = i + 1;
            }
            assert(texts(args@).subrange(0, n as int) =~= texts(args@));
            CommandSpec { program: String::from_str("pkexec"), args: all }
        },
    }
}

/// The elevated command that terminates the worker whose process id reads
/// `pid`, where the platform needs one.
pub fn kill_command(platform: Platform, pid: &str) -> (r: Option<CommandSpec>)
    ensures
        r is Some == kill_command_spec(platform, pid@) is Some,
        r matches Some(c) ==> kill_command_spec(platform, pid@) == Some(
            (c.program@, texts(c.args@)),
        ),
{
    match platform {
        Platform::Windows => {
            let mut script = String::from_str(
                "Start-Process -FilePath 'taskkill' -ArgumentList '/F', '/PID', '",
            );
            script.append(pid);
            script.append("' -Verb RunAs");
            Some(
                CommandSpec {
                    program: String::from_str("powershell"),
                    args: text_vec2(String::from_str("-Command"), script),
                },
            )
        },
        Platform::MacOs => {
            let mut script = String::from_str("do shell script \"kill -9 ");
            script.append(pid);
            script.append("\" with administrator privileges");
            Some(
                CommandSpec {
                    program: String::from_str("osascript"),
                    args: text_vec2(String::from_str("-e"), script),
                },
            )
        },
        Platform::Linux => None,
    }
}

/// The worker handle after `start` decides: a held handle stays and the call
/// fails; with no handle, a missing configuration file or a failed spawn
/// leaves none, and a spawned one is held.
pub open spec fn start_step<H>(held: Option<H>, config_exists: bool, spawned: Option<H>) -> (
    Option<H>,
    bool,
) {
    if held is Some {
        (held, false)
    } else if !config_exists {
        (None, false)
    } else {
        match spawned {
            Some(h) => (Some(h), true),
            None => (None, false),
        }
    }
}

/// The worker handle after `stop`: none is left, and the call succeeds only
/// where one was held.
pub open spec fn stop_step<H>(held: Option<H>) -> (Option<H>, bool) {
    (None, held is Some)
}

/// Owns at most one worker process handle.
pub struct ServiceManager<H> {
    process: Option<H>,
}

impl<H> ServiceManager<H> {
    /// The handle held, if any.
    pub closed spec fn handle(&self) -> Option<H> {
        self.process
    }

    /// A manager in the idle state.
    pub fn new() -> (r: ServiceManager<H>)
        ensures
            r.handle() is None,
    {
        ServiceManager { process: None }
    }

    /// Whether a handle is held; the process may have exited meanwhile.
    pub fn is_running(&self) -> (r: bool)
        ensures
            r == self.handle() is Some,
    {
        self.process.is_some()
    }

    /// Decides whether a worker may be started with `config_path`, and if so
    /// gives the elevated command that runs `<singbox_path> run -c <config_path>`.
    /// The manager is not changed.
    pub fn start(
        &self,
        platform: Platform,
        config_path: &str,
        config_exists: bool,
        singbox_path: &str,
    ) -> (r: Result<CommandSpec, ServiceError>)
        ensures
            self.handle() is Some ==> r matches Err(ServiceError::AlreadyRunning),
            self.handle() is None && !config_exists ==> (r matches Err(
                ServiceError::ConfigNotFound(p),
            ) && p@ == config_path@),
            self.handle() is None && config_exists ==> (r matches Ok(c) && c.program@
                == elevated_program(platform) && texts(c.args@) == elevated_args(
                platform,
                singbox_path@,
                seq!["run"@, "-c"@, config_path@],
            )),
    {
        if self.process.is_some() {
            return Err(ServiceError::AlreadyRunning);
        }
        if !config_exists {
            return Err(ServiceError::ConfigNotFound(String::from_str(config_path)));
        }
        let mut args: Vec<String> = Vec::new();
        args.push(String::from_str("run"));
        args.push(String::from_str("-c"));
        args.push(String::from_str(config_path));
        assert(texts(args@) =~= seq!["run"@, "-c"@, config_path@]);
        Ok(create_elevated_command(platform, singbox_path, &args))
    }

    /// Records the outcome of spawning the command that `start` gave: a
    /// spawned handle is held, a spawn error is reported and nothing is held.
    pub fn complete_start(&mut self, spawned: Result<H, String>) -> (r: Result<(), ServiceError>)
        requires
            old(self).handle() is None,
        ensures
            (final(self).handle(), r is Ok) == start_step(old(self).handle(), true, spawned.ok()),
            spawned matches Err(e) ==> (r matches Err(ServiceError::StartFailed(m)) && m@ == e@),
    {
        match spawned {
            Ok(h) => {
                self.process = Some(h);
                Ok(())
            },
            Err(e) => Err(ServiceError::StartFailed(e)),
        }
    }

    /// Gives up the held handle, so that it can be terminated and reaped;
    /// the manager is idle afterwards. Fails when nothing is held.
    pub fn stop(&mut self) -> (r: Result<H, ServiceError>)
        ensures
            (final(self).handle(), r is Ok) == stop_step(old(self).handle()),
            r matches Ok(h) ==> old(self).handle() == Some(h),
            r is Err ==> r matches Err(ServiceError::NotRunning),
    {
        match self.process.take() {
            Some(h) => Ok(h),
            None => Err(ServiceError::NotRunning),
        }
    }
}

/// A start followed by a stop leaves the manager idle, whatever the start did,
/// and a second stop then fails.
pub proof fn lemma_start_stop_idle<H>(held: Option<H>, config_exists: bool, spawned: Option<H>)
    ensures
        stop_step(start_step(held, config_exists, spawned).0).0 is None,
        !stop_step(stop_step(start_step(held, config_exists, spawned).0).0).1,
{
}

/// A start while a handle is held fails and keeps that handle.
pub proof fn lemma_start_while_running<H>(h: H, config_exists: bool, spawned: Option<H>)
    ensures
        start_step(Some(h), config_exists, spawned) == (Some(h), false),
{
}

/// The dotted number that the pattern `version\s+(\d+\.\d+\.\d+)` captures
/// in its leftmost match in a text, if any.
pub uninterp spec fn version_match(text: Seq<char>) -> Option<Seq<char>>;

/// Relies on regex::Regex::new and Regex::captures: the group captured by the
/// leftmost match of the version pattern in `text`, which depends on `text`
/// alone.
#[verifier::external_body]
fn find_version(text: &str) -> (r: Option<String>)
    ensures
        r is Some == version_match(text@) is Some,
        r matches Some(v) ==> version_match(text@) == Some(v@),
{
    regex::Regex::new(r"version\s+(\d+\.\d+\.\d+)").ok().and_then(
        |re| re.captures(text).and_then(|c| c.get(1)).map(|m| m.as_str().to_string()),
    )
}

/// The version that a match of the version pattern gives, or a failure when
/// there was none.
pub fn version_from_match(found: Option<String>) -> (r: Result<String, ServiceError>)
    ensures
        found matches Some(v) ==> (r matches Ok(s) && s@ == v@),
        found is None ==> r matches Err(ServiceError::VersionFailed),
{
    match found {
        Some(v) => Ok(v),
        None => Err(ServiceError::VersionFailed),
    }
}

/// The version in what `<singbox_path> version` printed; `None` stands for a
/// run that failed or printed no text.
pub fn get_singbox_version(output: Option<&str>) -> (r: Result<String, ServiceError>)
    ensures
        output is None ==> r matches Err(ServiceError::VersionFailed),
        output matches Some(t) ==> match version_match(t@) {
            Some(v) => (r matches Ok(s) && s@ == v),
            None => r matches Err(ServiceError::VersionFailed),
        },
{
    match output {
        None => Err(ServiceError::VersionFailed),
        Some(t) => version_from_match(find_version(t)),
    }
}

} // verus!
