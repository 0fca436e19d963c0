//! The configuration: who the report book belongs to and where the reports
//! are written.

use vstd::prelude::*;

verus! {

/// The one global configuration record.
#[derive(Debug)]
pub struct Config {
    pub trainee_name: String,
    pub department_name: String,
    pub company_name: String,
    pub output_directory: String,
    pub start_date: String,
}

/// What a configuration holds, as texts.
pub struct ConfigView {
    pub trainee_name: Seq<char>,
    pub department_name: Seq<char>,
    pub company_name: Seq<char>,
    pub output_directory: Seq<char>,
    pub start_date: Seq<char>,
}

impl View for Config {
    type V = ConfigView;

    open spec fn view(&self) -> ConfigView {
        ConfigView {
            trainee_name: self.trainee_name@,
            department_name: self.department_name@,
            company_name: self.company_name@,
            output_directory: self.output_directory@,
            start_date: self.start_date@,
        }
    }
}

/// The configuration of a first start: every text empty, and reports
/// written to `output_directory`.
pub open spec fn initial_config(output_directory: Seq<char>) -> ConfigView {
    ConfigView {
        trainee_name: Seq::empty(),
        department_name: Seq::empty(),
        company_name: Seq::empty(),
        output_directory,
        start_date: Seq::empty(),
    }
}

/// Where reports are written on a first start: the desktop directory, or
/// the current directory where the system names no desktop.
pub open spec fn initial_output_directory(desktop: Option<Seq<char>>) -> Seq<char> {
    match desktop {
        Some(path) => path,
        None => "."@,
    }
}

/// `dirs::desktop_dir`, with the path turned into text: the user's desktop
/// directory, where the system names one. The answer depends on the user's
/// environment, so nothing is claimed of it.
#[verifier::external_body]
fn desktop_dir() -> (desktop: Option<String>) {
    match dirs::desktop_dir() {
        Some(path) => Some(path.to_string_lossy().to_string()),
        None => None,
    }
}

impl Config {
    /// The configuration of a first start, given the desktop directory that
    /// the system names, if any.
    pub fn initial(desktop: Option<String>) -> (config: Self)
        ensures
            config@ == initial_config(
                initial_output_directory(
                    match desktop {
                        Some(path) => Some(path@),
                        None => None,
                    },
                ),
            ),
    {
        let output_directory = match desktop {
            Some(path) => path,
            None => String::from_str("."),
        };
        Config {
            trainee_name: String::new(),
            department_name: String::new(),
            company_name: String::new(),
            output_directory,
            start_date: String::new(),
        }
    }
}

impl Default for Config {
    /// The configuration of a first start on this machine: every text
    /// empty, and reports written to the user's desktop directory, or to
    /// the current directory where there is none.
    fn default() -> (config: Self)
        ensures
            config@ == initial_config(config.output_directory@),
    {
        Config::initial(desktop_dir())
    }
}

impl Clone for Config {
    fn clone(&self) -> (copy: Self)
        ensures
            copy@ == self@,
    {
        Config {
            trainee_name: self.trainee_name.clone(),
            department_name: self.department_name.clone(),
            company_name: self.company_name.clone(),
            output_directory: self.output_directory.clone(),
            start_date: self.start_date.clone(),
        }
    }
}

impl PartialEq for Config {
    fn eq(&self, other: &Self) -> (equal: bool) {
        self.trainee_name == other.trainee_name && self.department_name == other.department_name
            && self.company_name == other.company_name && self.output_directory
            == other.output_directory && self.start_date == other.start_date
    }
}

impl vstd::std_specs::cmp::PartialEqSpecImpl for Config {
    open spec fn obeys_eq_spec() -> bool {
        true
    }

    open spec fn eq_spec(&self, other: &Self) -> bool {
        self.trainee_name@ == other.trainee_name@ && self.department_name@
            == other.department_name@ && self.company_name@ == other.company_name@
            && self.output_directory@ == other.output_directory@ && self.start_date@
            == other.start_date@
    }
}

} // verus!
