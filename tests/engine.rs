use cini::{split_pair, Callback, CallbackKind, Ini};

#[derive(Default)]
struct Config {
    cake: bool,
    amount: u32,
    lie: bool,
}

impl Ini for Config {
    type Err = String;

    fn callback(&mut self, cb: Callback) -> Result<(), Self::Err> {
        match cb.kind {
            CallbackKind::Section(section) => assert_eq!(section, "nom"),
            CallbackKind::Directive(section, key, value) => {
                assert_eq!(section, Some("nom"));
                match key {
                    "cake" => self.cake = true,
                    "amount" => self.amount = value.unwrap().parse().unwrap(),
                    "lie" => self.lie = value.unwrap().parse().unwrap(),
                    _ => panic!("that's not cake"),
                }
            }
        }

        Ok(())
    }
}

fn parse_config(s: &str) -> Result<Config, String> {
    let mut config = Config::default();
    config.parse_str(s).map(|_| config)
}

#[test]
fn cake() {
    let ini = "
        [nom]
        cake
        amount = 23
        lie = true
        #comment";
    let config: Config = parse_config(ini).unwrap();
    assert_eq!(config.cake, true);
    assert_eq!(config.amount, 23);
    assert_eq!(config.lie, true);
}

#[test]
fn comment() {
    let mut config = Config::default();
    config.parse_str("#cake").unwrap();
    assert_eq!(config.cake, false);
}

#[test]
#[should_panic]
fn no_cake() {
    let mut config = Config::default();
    config
        .parse_str(
            "[nom]
                         not a cake",
        )
        .unwrap();
}

#[test]
#[should_panic]
fn no_section() {
    let mut config = Config::default();
    config.parse_str("cake").unwrap();
}

/// One recorded event: file name, line, line number and kind.
#[derive(Debug, PartialEq)]
enum Kind {
    Section(String),
    Directive(Option<String>, String, Option<String>),
}

#[derive(Debug, PartialEq)]
struct Seen {
    filename: Option<String>,
    line: String,
    number: usize,
    kind: Kind,
}

/// Records every event; fails on a `Server` directive without a value.
#[derive(Default)]
struct Recorder {
    seen: Vec<Seen>,
}

impl Ini for Recorder {
    type Err = (String, String, usize);

    fn callback(&mut self, cb: Callback) -> Result<(), Self::Err> {
        let kind = match cb.kind {
            CallbackKind::Section(name) => Kind::Section(name.to_string()),
            CallbackKind::Directive(section, key, value) => {
                if key == "Server" && value.is_none() {
                    return Err((section.unwrap_or("").to_string(), key.to_string(), cb.line_number));
                }
                Kind::Directive(
                    section.map(|s| s.to_string()),
                    key.to_string(),
                    value.map(|v| v.to_string()),
                )
            }
        };
        self.seen.push(Seen {
            filename: cb.filename.map(|f| f.to_string()),
            line: cb.line.to_string(),
            number: cb.line_number,
            kind,
        });
        Ok(())
    }
}

fn dir(section: Option<&str>, key: &str, value: Option<&str>) -> Kind {
    Kind::Directive(section.map(|s| s.to_string()), key.to_string(), value.map(|v| v.to_string()))
}

#[test]
fn directives_without_section() {
    let mut r = Recorder::default();
    assert_eq!(r.parse_str("foo = 5\nbar = 44\ncake\n"), Ok(()));
    let got: Vec<(usize, &Kind)> = r.seen.iter().map(|s| (s.number, &s.kind)).collect();
    assert_eq!(
        got,
        vec![
            (1, &dir(None, "foo", Some("5"))),
            (2, &dir(None, "bar", Some("44"))),
            (3, &dir(None, "cake", None)),
        ]
    );
}

#[test]
fn section_then_directives_and_comment() {
    let mut r = Recorder::default();
    assert_eq!(r.parse_str("[nom]\ncake\namount = 23\n#comment"), Ok(()));
    let got: Vec<(usize, &Kind)> = r.seen.iter().map(|s| (s.number, &s.kind)).collect();
    assert_eq!(
        got,
        vec![
            (1, &Kind::Section("nom".to_string())),
            (2, &dir(Some("nom"), "cake", None)),
            (3, &dir(Some("nom"), "amount", Some("23"))),
        ]
    );
}

#[test]
fn failure_reports_its_line_and_stops() {
    let mut r = Recorder::default();
    let res = r.parse_str("\n[options]\nColor\n[repo]\nServer\nUsage = All\n");
    assert_eq!(res, Err(("repo".to_string(), "Server".to_string(), 5)));
    assert_eq!(r.seen.len(), 3);
    assert_eq!(r.seen[2].kind, Kind::Section("repo".to_string()));
}

#[test]
fn line_numbers_count_blank_and_comment_lines() {
    let mut r = Recorder::default();
    r.parse_str("\n# note\n  key = v  \n\n[s]\n").unwrap();
    assert_eq!(r.seen.len(), 2);
    assert_eq!(r.seen[0].number, 3);
    assert_eq!(r.seen[0].line, "key = v");
    assert_eq!(r.seen[0].kind, dir(None, "key", Some("v")));
    assert_eq!(r.seen[1].number, 5);
}

#[test]
fn empty_value_differs_from_absent_value() {
    let mut r = Recorder::default();
    r.parse_str("a=\nb = \nc\n").unwrap();
    assert_eq!(r.seen[0].kind, dir(None, "a", Some("")));
    assert_eq!(r.seen[1].kind, dir(None, "b", Some("")));
    assert_eq!(r.seen[2].kind, dir(None, "c", None));
}

#[test]
fn section_names_are_taken_as_they_stand() {
    let mut r = Recorder::default();
    r.parse_str("[]\nx\n[a]b]\ny\n[ c ]\n").unwrap();
    assert_eq!(r.seen[0].kind, Kind::Section("".to_string()));
    assert_eq!(r.seen[1].kind, dir(Some(""), "x", None));
    assert_eq!(r.seen[2].kind, Kind::Section("a]b".to_string()));
    assert_eq!(r.seen[3].kind, dir(Some("a]b"), "y", None));
    assert_eq!(r.seen[4].kind, Kind::Section(" c ".to_string()));
}

#[test]
fn only_the_first_equals_splits() {
    let mut r = Recorder::default();
    r.parse_str("k = a = b\n").unwrap();
    assert_eq!(r.seen[0].kind, dir(None, "k", Some("a = b")));
}

#[test]
fn filename_is_passed_to_every_event() {
    let mut r = Recorder::default();
    r.parse(Some("pacman.conf"), "[s]\nk = v\n").unwrap();
    assert!(r.seen.iter().all(|s| s.filename.as_deref() == Some("pacman.conf")));
    let mut r2 = Recorder::default();
    r2.parse_str("[s]\n").unwrap();
    assert_eq!(r2.seen[0].filename, None);
}

#[test]
fn section_state_starts_fresh_on_each_parse() {
    let mut r = Recorder::default();
    r.parse_str("[s]\n").unwrap();
    r.parse_str("k\n").unwrap();
    assert_eq!(r.seen[1].kind, dir(None, "k", None));
}

#[test]
fn empty_and_crlf_input() {
    let mut r = Recorder::default();
    r.parse_str("").unwrap();
    assert!(r.seen.is_empty());
    r.parse_str("[s]\r\nk=v\r\n").unwrap();
    assert_eq!(r.seen[0].kind, Kind::Section("s".to_string()));
    assert_eq!(r.seen[1].kind, dir(Some("s"), "k", Some("v")));
    assert_eq!(r.seen[1].number, 2);
}

#[test]
fn split_pair_trims_around_the_first_equals() {
    assert_eq!(split_pair("key  =  value "), ("key", Some("value ")));
    assert_eq!(split_pair("flag"), ("flag", None));
    assert_eq!(split_pair("k="), ("k", Some("")));
}
