use vstd::prelude::*;
use crate::ini::opt_view;

verus! {

/// Settings for locating pacman-conf, the config file and the root directory.
#[derive(Debug, Clone, PartialEq, Eq, Default)]
pub struct Options {
    conf_binary: Option<String>,
    pacman_conf: Option<String>,
    root_dir: Option<String>,
}

/// The abstract content of an `Options`.
pub struct OptionsView {
    pub conf_binary: Option<Seq<char>>,
    pub pacman_conf: Option<Seq<char>>,
    pub root_dir: Option<Seq<char>>,
}

/// The view of an optional string.
pub open spec fn opt_string_view(o: Option<String>) -> Option<Seq<char>> {
    match o {
        Some(s) => Some(s@),
        None => None,
    }
}

impl View for Options {
    type V = OptionsView;

    closed spec fn view(&self) -> OptionsView {
        OptionsView {
            conf_binary: opt_string_view(self.conf_binary),
            pacman_conf: opt_string_view(self.pacman_conf),
            root_dir: opt_string_view(self.root_dir),
        }
    }
}

fn as_opt_str(o: &Option<String>) -> (r: Option<&str>)
    ensures
        opt_view(r) == opt_string_view(*o),
{
    match o {
        Some(s) => Some(s.as_str()),
        None => None,
    }
}

impl Options {
    /// Options with nothing set: pacman's defaults apply.
    pub fn new() -> (r: Self)
        ensures
            r@ == (OptionsView { conf_binary: None, pacman_conf: None, root_dir: None }),
    {
        Options { conf_binary: None, pacman_conf: None, root_dir: None }
    }

    /// Sets the path of the pacman-conf helper.
    pub fn pacman_conf_bin(self, s: &str) -> (r: Self)
        ensures
            r@ == (OptionsView { conf_binary: Some(s@), ..self@ }),
    {
        Options { conf_binary: Some(s.to_owned()), ..self }
    }

    /// Sets the path of the pacman config file.
    pub fn pacman_conf(self, s: &str) -> (r: Self)
        ensures
            r@ == (OptionsView { pacman_conf: Some(s@), ..self@ }),
    {
        Options { pacman_conf: Some(s.to_owned()), ..self }
    }

    /// Sets pacman's root directory.
    pub fn root_dir(self, s: &str) -> (r: Self)
        ensures
            r@ == (OptionsView { root_dir: Some(s@), ..self@ }),
    {
        Options { root_dir: Some(s.to_owned()), ..self }
    }

    /// The configured path of the pacman-conf helper, if any.
    pub fn conf_binary_path(&self) -> (r: Option<&str>)
        ensures
            opt_view(r) == self@.conf_binary,
    {
        as_opt_str(&self.conf_binary)
    }

    /// The configured path of the config file, if any.
    pub fn pacman_conf_path(&self) -> (r: Option<&str>)
        ensures
            opt_view(r) == self@.pacman_conf,
    {
        as_opt_str(&self.pacman_conf)
    }

    /// The configured root directory, if any.
    pub fn root_dir_path(&self) -> (r: Option<&str>)
        ensures
            opt_view(r) == self@.root_dir,
    {
        as_opt_str(&self.root_dir)
    }
}

} // verus!
