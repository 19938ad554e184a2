use cini::float::is_float;
use cini::{Config, Error, ErrorKind, ErrorLine, Ini, Options};
use std::str::FromStr;

#[test]
fn test_error() {
    let err = Config::from_str(
        "
                                    [options]
                                    Color
                                    [repo]
                                    Server
                                    ",
    )
    .unwrap_err();

    if let ErrorKind::MissingValue(s, k) = err.kind {
        assert_eq!(s, "repo");
        assert_eq!(k, "Server");
        assert_eq!(err.line.unwrap().number, 5);
    } else {
        panic!("Error kind is not MissingValue");
    }
}

const SAMPLE: &str = "[options]
RootDir = /
DBPath = /var/lib/pacman/
CacheDir = /var/cache/pacman/pkg/
HoldPkg = pacman
HoldPkg = glibc
Architecture = x86_64
ParallelDownloads = 5
DownloadUser = alpm
UseDelta = 0.5
Color
CheckSpace
ILoveCandy
Unknown = ignored
# a comment

[core]
Server = https://a.example/core
Server = https://b.example/core
Usage = All
SigLevel = Required
Include = /etc/pacman.d/mirrorlist

[extra]
Server = https://a.example/extra
";

#[test]
fn reads_options_and_repositories() {
    let c = Config::from_ini(SAMPLE).unwrap();
    assert_eq!(c.root_dir, "/");
    assert_eq!(c.db_path, "/var/lib/pacman/");
    assert_eq!(c.cache_dir, vec!["/var/cache/pacman/pkg/".to_string()]);
    assert_eq!(c.hold_pkg, vec!["pacman".to_string(), "glibc".to_string()]);
    assert_eq!(c.architecture, vec!["x86_64".to_string()]);
    assert_eq!(c.parallel_downloads, 5);
    assert_eq!(c.download_user, Some("alpm".to_string()));
    assert_eq!(c.use_delta, Some("0.5".to_string()));
    assert!(c.color && c.check_space && c.chomp);
    assert!(!c.use_syslog && !c.total_download && !c.disable_sandbox);
    assert_eq!(c.repos.len(), 2);
    assert_eq!(c.repos[0].name, "core");
    assert_eq!(
        c.repos[0].servers,
        vec!["https://a.example/core".to_string(), "https://b.example/core".to_string()]
    );
    assert_eq!(c.repos[0].usage, vec!["All".to_string()]);
    assert_eq!(c.repos[0].sig_level, vec!["Required".to_string()]);
    assert_eq!(c.repos[1].name, "extra");
    assert_eq!(c.repos[1].servers, vec!["https://a.example/extra".to_string()]);
}

#[test]
fn bare_use_delta_takes_default_ratio() {
    let c = Config::from_ini("[options]\nUseDelta\n").unwrap();
    assert_eq!(c.use_delta, Some("0.7".to_string()));
    let d = Config::from_ini("[options]\nColor\n").unwrap();
    assert_eq!(d.use_delta, None);
}

#[test]
fn directive_outside_section_is_refused() {
    let err = Config::from_ini("\nColor\n").unwrap_err();
    match err.kind {
        ErrorKind::NoSection(k) => assert_eq!(k, "Color"),
        other => panic!("unexpected {:?}", other),
    }
    let line = err.line.unwrap();
    assert_eq!(line.number, 2);
    assert_eq!(line.line, "Color");
}

#[test]
fn invalid_parallel_downloads() {
    let err = Config::from_ini("[options]\nParallelDownloads = many\n").unwrap_err();
    match err.kind {
        ErrorKind::InvalidValue(s, k, v) => {
            assert_eq!((s.as_str(), k.as_str(), v.as_str()), ("options", "ParallelDownloads", "many"))
        }
        other => panic!("unexpected {:?}", other),
    }
    assert_eq!(err.line.unwrap().number, 2);
    assert_eq!(Config::from_ini("[options]\nParallelDownloads = +7\n").unwrap().parallel_downloads, 7);
    assert!(Config::from_ini("[options]\nParallelDownloads = -1\n").is_err());
    assert!(Config::from_ini("[options]\nParallelDownloads = 18446744073709551616\n").is_err());
}

#[test]
fn invalid_use_delta() {
    let err = Config::from_ini("[options]\nUseDelta = lots\n").unwrap_err();
    assert!(matches!(err.kind, ErrorKind::InvalidValue(_, _, ref v) if v == "lots"));
}

#[test]
fn missing_value_for_option_keys_is_ignored() {
    let c = Config::from_ini("[options]\nRootDir\nSigLevel\n").unwrap();
    assert_eq!(c.root_dir, "");
    assert!(c.sig_level.is_empty());
}

#[test]
fn repo_keys_need_values_and_others_are_ignored() {
    let c = Config::from_ini("[core]\nFoo\nBar = baz\n").unwrap();
    assert_eq!(c.repos[0].name, "core");
    assert!(c.repos[0].servers.is_empty());
    let err = Config::from_ini("[core]\nUsage\n").unwrap_err();
    assert!(matches!(err.kind, ErrorKind::MissingValue(ref s, ref k) if s == "core" && k == "Usage"));
}

#[test]
fn failure_keeps_config_unchanged_and_stops() {
    let mut c = Config::default();
    let res = c.parse_str("[options]\nCacheDir = /a\nParallelDownloads = x\nCacheDir = /b\n");
    assert!(res.is_err());
    assert_eq!(c.cache_dir, vec!["/a".to_string()]);
    assert_eq!(c.parallel_downloads, 0);
}

#[test]
fn config_is_reused_across_parses() {
    let mut c = Config::default();
    c.parse_str("[a]\nServer = x\n").unwrap();
    c.parse_str("[b]\nServer = y\n").unwrap();
    assert_eq!(c.repos.len(), 2);
    assert_eq!(c.repos[1].servers, vec!["y".to_string()]);
}

#[test]
fn float_syntax() {
    for ok in ["0", "0.7", "+.5", "-5.", "1e10", "1E-3", "2.5e+4", "inf", "-Infinity", "NaN"] {
        assert!(is_float(ok), "{}", ok);
        assert!(ok.parse::<f64>().is_ok());
    }
    for bad in ["", ".", "e5", "1e", "1.2.3", "1e5e", " 1", "infinit", "0x10", "1_0", "--1"] {
        assert!(!is_float(bad), "{}", bad);
        assert!(bad.parse::<f64>().is_err());
    }
}

#[test]
fn error_messages() {
    let e = Error { kind: ErrorKind::NoSection("Color".to_string()), line: Some(ErrorLine::new(12, "Color")) };
    assert_eq!(e.message(), "Line 12: Key 'Color' must appear in a section: Color");
    let m = ErrorKind::MissingValue("repo".to_string(), "Server".to_string());
    assert_eq!(m.message(), "Key 'Server' in section 'repo' requires a value");
    let i = ErrorKind::InvalidValue("options".to_string(), "UseDelta".to_string(), "x".to_string());
    assert_eq!(i.message(), "Invalid value for 'UseDelta' in section 'options': 'x'");
    let r = Error::from(ErrorKind::Runtime("boom".to_string()));
    assert!(r.line.is_none());
    assert_eq!(r.message(), "Failed to execute pacman-conf: boom");
    let u = ErrorKind::UnknownKey("s".to_string(), "k".to_string());
    assert_eq!(u.message(), "Unknown key: 's' in section 'k'");
    let z = Error { kind: ErrorKind::Runtime("x".to_string()), line: Some(ErrorLine::new(0, "l")) };
    assert_eq!(z.message(), "Line 0: Failed to execute pacman-conf: x: l");
}

#[test]
fn error_line_new() {
    let l = ErrorLine::new(7, "Server");
    assert_eq!(l, ErrorLine { number: 7, line: "Server".to_string() });
}

#[test]
fn options_builder() {
    let o = Config::options();
    assert_eq!(o, Options::new());
    assert_eq!(o.conf_binary_path(), None);
    let o = o.root_dir("/chroot").pacman_conf("tests/pacman.conf").pacman_conf_bin("/usr/bin/pacman-conf");
    assert_eq!(o.root_dir_path(), Some("/chroot"));
    assert_eq!(o.pacman_conf_path(), Some("tests/pacman.conf"));
    assert_eq!(o.conf_binary_path(), Some("/usr/bin/pacman-conf"));
}

#[test]
fn from_str_key_outside_section() {
    let err = Config::from_str("Color").unwrap_err();
    assert!(matches!(err.kind, ErrorKind::NoSection(ref k) if k == "Color"));
    assert_eq!(err.line, Some(ErrorLine { number: 1, line: "Color".to_string() }));
}

#[test]
fn from_str_small_config() {
    let c = Config::from_str("[options]\nColor\nParallelDownloads = 3\n[core]\nServer = http://x\nUsage = All")
        .unwrap();
    assert!(c.color);
    assert_eq!(c.parallel_downloads, 3);
    assert_eq!(c.repos.len(), 1);
    assert_eq!(c.repos[0].name, "core");
    assert_eq!(c.repos[0].servers, vec!["http://x".to_string()]);
    assert!(c.repos[0].sig_level.is_empty());
    assert_eq!(c.repos[0].usage, vec!["All".to_string()]);
    let mut d = Config::default();
    d.color = true;
    d.parallel_downloads = 3;
    d.repos = c.repos.clone();
    assert_eq!(c, d);
}

#[test]
fn std_error_message_is_framed_by_its_line() {
    let io = std::io::Error::new(std::io::ErrorKind::Other, "disk gone");
    let text = io.to_string();
    let e = Error { kind: ErrorKind::Io(io), line: Some(ErrorLine::new(3, "x")) };
    assert_eq!(e.message(), format!("Line 3: {}: x", text));
    let bare = Error::from(std::io::Error::new(std::io::ErrorKind::Other, "gone"));
    assert_eq!(bare.message(), "gone");
}
