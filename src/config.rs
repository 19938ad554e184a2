use vstd::prelude::*;
use crate::error::{Error, ErrorKind, ErrorLine};
use crate::float::{is_float, is_float_text};
use crate::ini::{opt_view, outcomes, runs, Callback, CallbackKind, Event, EventKind, Ini};
use crate::options::{opt_string_view, Options};
use crate::text::{parse_u64, parsed_u64, push_string, str_eq, strings_view};

verus! {

/// A pacman repository. See pacman.conf(5) for each field.
#[derive(Clone, Debug, Default, PartialEq, PartialOrd)]
#[non_exhaustive]
pub struct Repository {
    /// Name
    pub name: String,
    /// Server
    pub servers: Vec<String>,
    /// SigLevel
    pub sig_level: Vec<String>,
    /// Usage
    pub usage: Vec<String>,
}

/// The abstract content of a `Repository`.
pub struct RepositoryView {
    pub name: Seq<char>,
    pub servers: Seq<Seq<char>>,
    pub sig_level: Seq<Seq<char>>,
    pub usage: Seq<Seq<char>>,
}

impl View for Repository {
    type V = RepositoryView;

    open spec fn view(&self) -> RepositoryView {
        RepositoryView {
            name: self.name@,
            servers: strings_view(self.servers),
            sig_level: strings_view(self.sig_level),
            usage: strings_view(self.usage),
        }
    }
}

/// A pacman config. See pacman.conf(5) for each field.
#[derive(Clone, Debug, PartialEq, PartialOrd)]
#[non_exhaustive]
pub struct Config {
    /// RootDir
    pub root_dir: String,
    /// DBPath
    pub db_path: String,
    /// CacheDir
    pub cache_dir: Vec<String>,
    /// HookDir
    pub hook_dir: Vec<String>,
    /// GPGDir
    pub gpg_dir: String,
    /// LogFile
    pub log_file: String,
    /// HoldPkg
    pub hold_pkg: Vec<String>,
    /// IgnorePkg
    pub ignore_pkg: Vec<String>,
    /// IgnoreGroup
    pub ignore_group: Vec<String>,
    /// Architecture
    pub architecture: Vec<String>,
    /// XferCommand
    pub xfer_command: String,
    /// NoUpgrade
    pub no_upgrade: Vec<String>,
    /// NoExtract
    pub no_extract: Vec<String>,
    /// CleanMethod
    pub clean_method: Vec<String>,
    /// SigLevel
    pub sig_level: Vec<String>,
    /// LocalFileSigLevel
    pub local_file_sig_level: Vec<String>,
    /// RemoteFileSigLevel
    pub remote_file_sig_level: Vec<String>,
    /// DownloadUser
    pub download_user: Option<String>,
    /// UseSyslog
    pub use_syslog: bool,
    /// Color
    pub color: bool,
    /// UseDelta, as the text it was given in, which is in the syntax of floating-point
    /// numbers; `None` where it was never set (zero).
    pub use_delta: Option<String>,
    /// TotalDownload
    pub total_download: bool,
    /// CheckSpace
    pub check_space: bool,
    /// VerbosePkgLists
    pub verbose_pkg_lists: bool,
    /// DisableDownloadTimeout
    pub disable_download_timeout: bool,
    /// ParallelDownloads
    pub parallel_downloads: u64,
    /// DisableSandbox
    pub disable_sandbox: bool,
    /// ILoveCandy
    pub chomp: bool,
    /// \[repo_name\]
    pub repos: Vec<Repository>,
}

/// The abstract content of a `Config`.
pub struct ConfigView {
    pub root_dir: Seq<char>,
    pub db_path: Seq<char>,
    pub cache_dir: Seq<Seq<char>>,
    pub hook_dir: Seq<Seq<char>>,
    pub gpg_dir: Seq<char>,
    pub log_file: Seq<char>,
    pub hold_pkg: Seq<Seq<char>>,
    pub ignore_pkg: Seq<Seq<char>>,
    pub ignore_group: Seq<Seq<char>>,
    pub architecture: Seq<Seq<char>>,
    pub xfer_command: Seq<char>,
    pub no_upgrade: Seq<Seq<char>>,
    pub no_extract: Seq<Seq<char>>,
    pub clean_method: Seq<Seq<char>>,
    pub sig_level: Seq<Seq<char>>,
    pub local_file_sig_level: Seq<Seq<char>>,
    pub remote_file_sig_level: Seq<Seq<char>>,
    pub download_user: Option<Seq<char>>,
    pub use_syslog: bool,
    pub color: bool,
    pub use_delta: Option<Seq<char>>,
    pub total_download: bool,
    pub check_space: bool,
    pub verbose_pkg_lists: bool,
    pub disable_download_timeout: bool,
    pub parallel_downloads: u64,
    pub disable_sandbox: bool,
    pub chomp: bool,
    pub repos: Seq<RepositoryView>,
}

impl View for Config {
    type V = ConfigView;

    open spec fn view(&self) -> ConfigView {
        ConfigView {
            root_dir: self.root_dir@,
            db_path: self.db_path@,
            cache_dir: strings_view(self.cache_dir),
            hook_dir: strings_view(self.hook_dir),
            gpg_dir: self.gpg_dir@,
            log_file: self.log_file@,
            hold_pkg: strings_view(self.hold_pkg),
            ignore_pkg: strings_view(self.ignore_pkg),
            ignore_group: strings_view(self.ignore_group),
            architecture: strings_view(self.architecture),
            xfer_command: self.xfer_command@,
            no_upgrade: strings_view(self.no_upgrade),
            no_extract: strings_view(self.no_extract),
            clean_method: strings_view(self.clean_method),
            sig_level: strings_view(self.sig_level),
            local_file_sig_level: strings_view(self.local_file_sig_level),
            remote_file_sig_level: strings_view(self.remote_file_sig_level),
            download_user: opt_string_view(self.download_user),
            use_syslog: self.use_syslog,
            color: self.color,
            use_delta: opt_string_view(self.use_delta),
            total_download: self.total_download,
            check_space: self.check_space,
            verbose_pkg_lists: self.verbose_pkg_lists,
            disable_download_timeout: self.disable_download_timeout,
            parallel_downloads: self.parallel_downloads,
            disable_sandbox: self.disable_sandbox,
            chomp: self.chomp,
            repos: self.repos@.map_values(|r: Repository| r@),
        }
    }
}

/// Why a directive is refused.
pub enum Failure {
    /// The directive stands outside any section; holds the key.
    NoSection(Seq<char>),
    /// The key needs a value; holds the section and key.
    MissingValue(Seq<char>, Seq<char>),
    /// The value is not valid for the key; holds the section, key and value.
    InvalidValue(Seq<char>, Seq<char>, Seq<char>),
}

/// Whether the error kind `k` reports `f`.
pub open spec fn kind_is(k: ErrorKind, f: Failure) -> bool {
    match f {
        Failure::NoSection(key) => k is NoSection && k->NoSection_0@ == key,
        Failure::MissingValue(s, key) => k is MissingValue && k->MissingValue_0@ == s
            && k->MissingValue_1@ == key,
        Failure::InvalidValue(s, key, v) => k is InvalidValue && k->InvalidValue_0@ == s
            && k->InvalidValue_1@ == key && k->InvalidValue_2@ == v,
    }
}

/// A config with every field empty, false or zero.
pub open spec fn empty_config() -> ConfigView {
    ConfigView {
        root_dir: seq![],
        db_path: seq![],
        cache_dir: seq![],
        hook_dir: seq![],
        gpg_dir: seq![],
        log_file: seq![],
        hold_pkg: seq![],
        ignore_pkg: seq![],
        ignore_group: seq![],
        architecture: seq![],
        xfer_command: seq![],
        no_upgrade: seq![],
        no_extract: seq![],
        clean_method: seq![],
        sig_level: seq![],
        local_file_sig_level: seq![],
        remote_file_sig_level: seq![],
        download_user: None,
        use_syslog: false,
        color: false,
        use_delta: None,
        total_download: false,
        check_space: false,
        verbose_pkg_lists: false,
        disable_download_timeout: false,
        parallel_downloads: 0,
        disable_sandbox: false,
        chomp: false,
        repos: seq![],
    }
}

/// The config after a section named `name` is declared: every section but `options` adds
/// an empty repository of that name.
pub open spec fn after_section(c: ConfigView, name: Seq<char>) -> ConfigView {
    if name == "options"@ {
        c
    } else {
        ConfigView {
            repos: c.repos.push(
                RepositoryView { name, servers: seq![], sig_level: seq![], usage: seq![] },
            ),
            ..c
        }
    }
}

/// The outcome of a directive in a repository section: `Server`, `SigLevel` and `Usage`
/// need a value, which is appended to that list of the latest repository; other keys, or
/// a directive with no repository declared yet, change nothing.
pub open spec fn after_repo_directive(
    c: ConfigView,
    section: Seq<char>,
    key: Seq<char>,
    value: Option<Seq<char>>,
) -> Result<ConfigView, Failure> {
    if c.repos.len() == 0 || !(key == "Server"@ || key == "SigLevel"@ || key == "Usage"@) {
        Ok(c)
    } else {
        match value {
            None => Err(Failure::MissingValue(section, key)),
            Some(v) => {
                let i = c.repos.len() - 1;
                let r = c.repos[i];
                let r2 = if key == "Server"@ {
                    RepositoryView { servers: r.servers.push(v), ..r }
                } else if key == "SigLevel"@ {
                    RepositoryView { sig_level: r.sig_level.push(v), ..r }
                } else {
                    RepositoryView { usage: r.usage.push(v), ..r }
                };
                Ok(ConfigView { repos: c.repos.update(i, r2), ..c })
            },
        }
    }
}

/// The outcome of a directive with a value in the `options` section.
pub open spec fn after_option_value(
    c: ConfigView,
    section: Seq<char>,
    key: Seq<char>,
    v: Seq<char>,
) -> Result<ConfigView, Failure> {
    if key == "RootDir"@ {
        Ok(ConfigView { root_dir: v, ..c })
    } else if key == "DBPath"@ {
        Ok(ConfigView { db_path: v, ..c })
    } else if key == "CacheDir"@ {
        Ok(ConfigView { cache_dir: c.cache_dir.push(v), ..c })
    } else if key == "HookDir"@ {
        Ok(ConfigView { hook_dir: c.hook_dir.push(v), ..c })
    } else if key == "GPGDir"@ {
        Ok(ConfigView { gpg_dir: v, ..c })
    } else if key == "LogFile"@ {
        Ok(ConfigView { log_file: v, ..c })
    } else if key == "HoldPkg"@ {
        Ok(ConfigView { hold_pkg: c.hold_pkg.push(v), ..c })
    } else if key == "IgnorePkg"@ {
        Ok(ConfigView { ignore_pkg: c.ignore_pkg.push(v), ..c })
    } else if key == "IgnoreGroup"@ {
        Ok(ConfigView { ignore_group: c.ignore_group.push(v), ..c })
    } else if key == "Architecture"@ {
        Ok(ConfigView { architecture: c.architecture.push(v), ..c })
    } else if key == "XferCommand"@ {
        Ok(ConfigView { xfer_command: v, ..c })
    } else if key == "NoUpgrade"@ {
        Ok(ConfigView { no_upgrade: c.no_upgrade.push(v), ..c })
    } else if key == "NoExtract"@ {
        Ok(ConfigView { no_extract: c.no_extract.push(v), ..c })
    } else if key == "CleanMethod"@ {
        Ok(ConfigView { clean_method: c.clean_method.push(v), ..c })
    } else if key == "SigLevel"@ {
        Ok(ConfigView { sig_level: c.sig_level.push(v), ..c })
    } else if key == "LocalFileSigLevel"@ {
        Ok(ConfigView { local_file_sig_level: c.local_file_sig_level.push(v), ..c })
    } else if key == "RemoteFileSigLevel"@ {
        Ok(ConfigView { remote_file_sig_level: c.remote_file_sig_level.push(v), ..c })
    } else if key == "UseDelta"@ {
        if is_float_text(v) {
            Ok(ConfigView { use_delta: Some(v), ..c })
        } else {
            Err(Failure::InvalidValue(section, key, v))
        }
    } else if key == "ParallelDownloads"@ {
        match parsed_u64(v) {
            Some(n) => Ok(ConfigView { parallel_downloads: n, ..c }),
            None => Err(Failure::InvalidValue(section, key, v)),
        }
    } else if key == "DownloadUser"@ {
        Ok(ConfigView { download_user: Some(v), ..c })
    } else {
        Ok(c)
    }
}

/// The config after a directive without a value in the `options` section: the flags it
/// names are set, `UseDelta` takes its default ratio, and other keys change nothing.
pub open spec fn after_option_flag(c: ConfigView, key: Seq<char>) -> ConfigView {
    if key == "Color"@ {
        ConfigView { color: true, ..c }
    } else if key == "UseSyslog"@ {
        ConfigView { use_syslog: true, ..c }
    } else if key == "TotalDownload"@ {
        ConfigView { total_download: true, ..c }
    } else if key == "CheckSpace"@ {
        ConfigView { check_space: true, ..c }
    } else if key == "VerbosePkgLists"@ {
        ConfigView { verbose_pkg_lists: true, ..c }
    } else if key == "DisableDownloadTimeout"@ {
        ConfigView { disable_download_timeout: true, ..c }
    } else if key == "UseDelta"@ {
        ConfigView { use_delta: Some("0.7"@), ..c }
    } else if key == "DisableSandbox"@ {
        ConfigView { disable_sandbox: true, ..c }
    } else if key == "ILoveCandy"@ {
        ConfigView { chomp: true, ..c }
    } else {
        c
    }
}

/// The outcome of a directive in section `section` (if any).
pub open spec fn after_directive(
    c: ConfigView,
    section: Option<Seq<char>>,
    key: Seq<char>,
    value: Option<Seq<char>>,
) -> Result<ConfigView, Failure> {
    match section {
        None => Err(Failure::NoSection(key)),
        Some(s) => if s == "options"@ {
            match value {
                Some(v) => after_option_value(c, s, key, v),
                None => Ok(after_option_flag(c, key)),
            }
        } else {
            after_repo_directive(c, s, key, value)
        },
    }
}

/// Whether `r` is the outcome `expected` of a handler call that started from `c` and
/// left `next`; errors carry no line.
pub open spec fn outcome_is(
    c: ConfigView,
    expected: Result<ConfigView, Failure>,
    next: ConfigView,
    r: Result<(), ErrorKind>,
) -> bool {
    match expected {
        Ok(d) => next == d && r is Ok,
        Err(f) => next == c && r is Err && kind_is(r->Err_0, f),
    }
}

impl Ini for Config {
    type Err = Error;

    open spec fn step(self, ev: Event, next: Self, r: Result<(), Error>) -> bool {
        match ev.kind {
            EventKind::Section(name) => next@ == after_section(self@, name) && r is Ok,
            EventKind::Directive(section, key, value) => match after_directive(
                self@,
                section,
                key,
                value,
            ) {
                Ok(d) => next@ == d && r is Ok,
                Err(f) => {
                    &&& next@ == self@
                    &&& r is Err
                    &&& kind_is(r->Err_0.kind, f)
                    &&& r->Err_0.line is Some
                    &&& r->Err_0.line->Some_0.number == ev.line_number
                    &&& r->Err_0.line->Some_0.line@ == ev.line
                },
            },
        }
    }

    fn callback(&mut self, cb: Callback) -> (r: Result<(), Error>) {
        let line = ErrorLine::new(cb.line_number, cb.line);
        match cb.kind {
            CallbackKind::Section(section) => {
                self.handle_section(section);
                Ok(())
            },
            CallbackKind::Directive(section, key, value) => {
                match self.handle_directive(section, key, value) {
                    Ok(()) => Ok(()),
                    Err(kind) => Err(Error { kind, line: Some(line) }),
                }
            },
        }
    }
}

impl Config {
    /// Options for reading a config.
    pub fn options() -> (r: Options)
        ensures
            r@.conf_binary is None && r@.pacman_conf is None && r@.root_dir is None,
    {
        Options::new()
    }

    fn handle_section(&mut self, section: &str)
        ensures
            final(self)@ == after_section(old(self)@, section@),
    {
        if !str_eq(section, "options") {
            let repo = Repository {
                name: section.to_owned(),
                servers: Vec::new(),
                sig_level: Vec::new(),
                usage: Vec::new(),
            };
            assert(repo@.servers =~= seq![]);
            assert(repo@.sig_level =~= seq![]);
            assert(repo@.usage =~= seq![]);
            self.repos.push(repo);
            assert(final(self)@.repos =~= after_section(old(self)@, section@).repos);
        }
    }

    fn handle_directive(&mut self, section: Option<&str>, key: &str, value: Option<&str>) -> (r:
        Result<(), ErrorKind>)
        ensures
            outcome_is(
                old(self)@,
                after_directive(old(self)@, opt_view(section), key@, opt_view(value)),
                final(self)@,
                r,
            ),
    {
        match section {
            Some(section) => {
                if str_eq(section, "options") {
                    self.handle_option(section, key, value)
                } else {
                    self.handle_repo(section, key, value)
                }
            },
            None => Err(ErrorKind::NoSection(key.to_owned())),
        }
    }
}

impl Config {
    fn handle_repo(&mut self, section: &str, key: &str, value: Option<&str>) -> (r: Result<
        (),
        ErrorKind,
    >)
        ensures
            outcome_is(
                old(self)@,
                after_repo_directive(old(self)@, section@, key@, opt_view(value)),
                final(self)@,
                r,
            ),
    {
        let is_server = str_eq(key, "Server");
        let is_sig_level = str_eq(key, "SigLevel");
        let is_usage = str_eq(key, "Usage");
        if self.repos.len() == 0 || !(is_server || is_sig_level || is_usage) {
            return Ok(());
        }
        match value {
            None => Err(ErrorKind::MissingValue(section.to_owned(), key.to_owned())),
            Some(v) => {
                let ghost before = self@;
                let mut repo = self.repos.pop().unwrap();
                assert(repo@ == before.repos.last());
                if is_server {
                    push_string(&mut repo.servers, v);
                } else if is_sig_level {
                    push_string(&mut repo.sig_level, v);
                } else {
                    push_string(&mut repo.usage, v);
                }
                self.repos.push(repo);
                proof {
                    let expected = after_repo_directive(before, section@, key@, opt_view(value));
                    assert(self@.repos =~= expected->Ok_0.repos);
                }
                Ok(())
            },
        }
    }

    #[verifier::rlimit(50)]
    fn handle_option(&mut self, section: &str, key: &str, value: Option<&str>) -> (r: Result<
        (),
        ErrorKind,
    >)
        ensures
            outcome_is(
                old(self)@,
                match opt_view(value) {
                    Some(v) => after_option_value(old(self)@, section@, key@, v),
                    None => Ok(after_option_flag(old(self)@, key@)),
                },
                final(self)@,
                r,
            ),
    {
        match value {
            Some(value) => {
                if str_eq(key, "RootDir") {
                    self.root_dir = value.to_owned();
                } else if str_eq(key, "DBPath") {
                    self.db_path = value.to_owned();
                } else if str_eq(key, "CacheDir") {
                    push_string(&mut self.cache_dir, value);
                } else if str_eq(key, "HookDir") {
                    push_string(&mut self.hook_dir, value);
                } else if str_eq(key, "GPGDir") {
                    self.gpg_dir = value.to_owned();
                } else if str_eq(key, "LogFile") {
                    self.log_file = value.to_owned();
                } else if str_eq(key, "HoldPkg") {
                    push_string(&mut self.hold_pkg, value);
                } else if str_eq(key, "IgnorePkg") {
                    push_string(&mut self.ignore_pkg, value);
                } else if str_eq(key, "IgnoreGroup") {
                    push_string(&mut self.ignore_group, value);
                } else if str_eq(key, "Architecture") {
                    push_string(&mut self.architecture, value);
                } else if str_eq(key, "XferCommand") {
                    self.xfer_command = value.to_owned();
                } else if str_eq(key, "NoUpgrade") {
                    push_string(&mut self.no_upgrade, value);
                } else if str_eq(key, "NoExtract") {
                    push_string(&mut self.no_extract, value);
                } else if str_eq(key, "CleanMethod") {
                    push_string(&mut self.clean_method, value);
                } else if str_eq(key, "SigLevel") {
                    push_string(&mut self.sig_level, value);
                } else if str_eq(key, "LocalFileSigLevel") {
                    push_string(&mut self.local_file_sig_level, value);
                } else if str_eq(key, "RemoteFileSigLevel") {
                    push_string(&mut self.remote_file_sig_level, value);
                } else if str_eq(key, "UseDelta") {
                    if is_float(value) {
                        self.use_delta = Some(value.to_owned());
                    } else {
                        return Err(
                            ErrorKind::InvalidValue(
                                section.to_owned(),
                                key.to_owned(),
                                value.to_owned(),
                            ),
                        );
                    }
                } else if str_eq(key, "ParallelDownloads") {
                    match parse_u64(value) {
                        Some(n) => self.parallel_downloads = n,
                        None => {
                            return Err(
                                ErrorKind::InvalidValue(
                                    section.to_owned(),
                                    key.to_owned(),
                                    value.to_owned(),
                                ),
                            );
                        },
                    }
                } else if str_eq(key, "DownloadUser") {
                    self.download_user = Some(value.to_owned());
                }
            },
            None => {
                if str_eq(key, "Color") {
                    self.color = true;
                } else if str_eq(key, "UseSyslog") {
                    self.use_syslog = true;
                } else if str_eq(key, "TotalDownload") {
                    self.total_download = true;
                } else if str_eq(key, "CheckSpace") {
                    self.check_space = true;
                } else if str_eq(key, "VerbosePkgLists") {
                    self.verbose_pkg_lists = true;
                } else if str_eq(key, "DisableDownloadTimeout") {
                    self.disable_download_timeout = true;
                } else if str_eq(key, "UseDelta") {
                    self.use_delta = Some("0.7".to_owned());
                } else if str_eq(key, "DisableSandbox") {
                    self.disable_sandbox = true;
                } else if str_eq(key, "ILoveCandy") {
                    self.chomp = true;
                }
            },
        }
        Ok(())
    }
}

/// The outcome of one event on config `c`: the next config, or the failure with the event
/// that caused it.
pub open spec fn after_event(c: ConfigView, ev: Event) -> Result<ConfigView, (Failure, Event)> {
    match ev.kind {
        EventKind::Section(name) => Ok(after_section(c, name)),
        EventKind::Directive(section, key, value) => match after_directive(c, section, key, value) {
            Ok(d) => Ok(d),
            Err(f) => Err((f, ev)),
        },
    }
}

/// The outcome of the events `evs` in turn on config `c`, stopping at the first failure.
pub open spec fn config_run(c: ConfigView, evs: Seq<Event>) -> Result<ConfigView, (Failure, Event)>
    decreases evs.len(),
{
    if evs.len() == 0 {
        Ok(c)
    } else {
        match config_run(c, evs.drop_last()) {
            Ok(d) => after_event(d, evs.last()),
            Err(x) => Err(x),
        }
    }
}

/// Whether `r` is the result `expected` of reading a config: the config, or the error with
/// the number and text of the line that caused it.
pub open spec fn read_result_is(
    expected: Result<ConfigView, (Failure, Event)>,
    end: ConfigView,
    r: Result<(), Error>,
) -> bool {
    match expected {
        Ok(d) => r is Ok && end == d,
        Err((f, ev)) => {
            &&& r is Err
            &&& kind_is(r->Err_0.kind, f)
            &&& r->Err_0.line is Some
            &&& r->Err_0.line->Some_0.number == ev.line_number
            &&& r->Err_0.line->Some_0.line@ == ev.line
        },
    }
}

/// Running a config handler over events yields what `config_run` gives for them.
pub proof fn lemma_config_runs(start: Config, evs: Seq<Event>, end: Config, r: Result<(), Error>)
    requires
        runs(
            (|a: Config, e: Event, b: Config, x: Result<(), Error>| Config::step(a, e, b, x)),
            start,
            evs,
            end,
            r,
        ),
    ensures
        read_result_is(config_run(start@, evs), end@, r),
    decreases evs.len(),
{
    let step = |a: Config, e: Event, b: Config, x: Result<(), Error>| Config::step(a, e, b, x);
    if evs.len() > 0 {
        let before = outcomes(step, start, evs.drop_last());
        let q = choose|q: (Config, Result<(), Error>)|
            #[trigger] before.contains(q) && if q.1 is Err {
                (end, r) == q
            } else {
                step(q.0, evs.last(), end, r)
            };
        lemma_config_runs(start, evs.drop_last(), q.0, q.1);
    }
}

impl Default for Config {
    fn default() -> (r: Config)
        ensures
            r@ == empty_config(),
    {
        let r = Config {
            root_dir: String::new(),
            db_path: String::new(),
            cache_dir: Vec::new(),
            hook_dir: Vec::new(),
            gpg_dir: String::new(),
            log_file: String::new(),
            hold_pkg: Vec::new(),
            ignore_pkg: Vec::new(),
            ignore_group: Vec::new(),
            architecture: Vec::new(),
            xfer_command: String::new(),
            no_upgrade: Vec::new(),
            no_extract: Vec::new(),
            clean_method: Vec::new(),
            sig_level: Vec::new(),
            local_file_sig_level: Vec::new(),
            remote_file_sig_level: Vec::new(),
            download_user: None,
            use_syslog: false,
            color: false,
            use_delta: None,
            total_download: false,
            check_space: false,
            verbose_pkg_lists: false,
            disable_download_timeout: false,
            parallel_downloads: 0,
            disable_sandbox: false,
            chomp: false,
            repos: Vec::new(),
        };
        assert(strings_view(r.cache_dir) =~= seq![]);
        assert(strings_view(r.hook_dir) =~= seq![]);
        assert(strings_view(r.hold_pkg) =~= seq![]);
        assert(strings_view(r.ignore_pkg) =~= seq![]);
        assert(strings_view(r.ignore_group) =~= seq![]);
        assert(strings_view(r.architecture) =~= seq![]);
        assert(strings_view(r.no_upgrade) =~= seq![]);
        assert(strings_view(r.no_extract) =~= seq![]);
        assert(strings_view(r.clean_method) =~= seq![]);
        assert(strings_view(r.sig_level) =~= seq![]);
        assert(strings_view(r.local_file_sig_level) =~= seq![]);
        assert(strings_view(r.remote_file_sig_level) =~= seq![]);
        assert(r@.repos =~= seq![]);
        assert(r@ == empty_config());
        r
    }
}

impl Config {
    /// Reads a config from ini text, starting from an empty config.
    pub fn from_ini(s: &str) -> (r: Result<Config, Error>)
        ensures
            match config_run(empty_config(), crate::ini::ini_events(None, s@)) {
                Ok(d) => r is Ok && r->Ok_0@ == d,
                Err((f, ev)) => {
                    &&& r is Err
                    &&& kind_is(r->Err_0.kind, f)
                    &&& r->Err_0.line is Some
                    &&& r->Err_0.line->Some_0.number == ev.line_number
                    &&& r->Err_0.line->Some_0.line@ == ev.line
                },
            },
    {
        let mut config = Config::default();
        let ghost start = config;
        let res = config.parse_str(s);
        proof {
            lemma_config_runs(start, crate::ini::ini_events(None, s@), config, res);
        }
        match res {
            Ok(()) => Ok(config),
            Err(e) => Err(e),
        }
    }
}

impl std::str::FromStr for Config {
    type Err = Error;

    fn from_str(s: &str) -> (r: Result<Config, Error>)
        ensures
            match config_run(empty_config(), crate::ini::ini_events(None, s@)) {
                Ok(d) => r is Ok && r->Ok_0@ == d,
                Err((f, ev)) => {
                    &&& r is Err
                    &&& kind_is(r->Err_0.kind, f)
                    &&& r->Err_0.line is Some
                    &&& r->Err_0.line->Some_0.number == ev.line_number
                    &&& r->Err_0.line->Some_0.line@ == ev.line
                },
            },
    {
        Config::from_ini(s)
    }
}

} // verus!
