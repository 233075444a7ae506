//! The status snapshot an application exposes, and the mutations that
//! `process` applies to it.

use vstd::prelude::*;

verus! {

/// Status snapshot exposed by the application: the version it currently
/// runs, and how many packages it has rejected because their signature did
/// not validate.
#[derive(Debug)]
pub struct Info {
    pub current_version: String,
    pub count_invalid_packages: u32,
}

/// Mathematical model of an [`Info`].
pub ghost struct InfoView {
    pub current_version: Seq<char>,
    pub count_invalid_packages: u32,
}

impl View for Info {
    type V = InfoView;

    open spec fn view(&self) -> InfoView {
        InfoView {
            current_version: self.current_version@,
            count_invalid_packages: self.count_invalid_packages,
        }
    }
}

/// The status an application starts from: version `"0.0.1"`, no invalid
/// packages seen.
pub open spec fn initial_info() -> InfoView {
    InfoView { current_version: "0.0.1"@, count_invalid_packages: 0 }
}

impl Default for Info {
    fn default() -> (r: Info)
        ensures
            r@ == initial_info(),
    {
        Info { current_version: String::from_str("0.0.1"), count_invalid_packages: 0 }
    }
}

impl PartialEq for Info {
    fn eq(&self, other: &Info) -> (r: bool) {
        self.current_version == other.current_version
            && self.count_invalid_packages == other.count_invalid_packages
    }
}

impl vstd::std_specs::cmp::PartialEqSpecImpl for Info {
    open spec fn obeys_eq_spec() -> bool {
        true
    }

    open spec fn eq_spec(&self, other: &Info) -> bool {
        self@ == other@
    }
}

/// One atomic mutation of an [`Info`], applied exclusively by the
/// application's `map_info`.
pub enum InfoMutation {
    /// Adopt the given version as `current_version`.
    SetVersion(String),
    /// Record one more rejected package.
    RecordInvalid,
}

/// Adopting a version changes `current_version` and nothing else.
pub open spec fn set_version(i: InfoView, v: Seq<char>) -> InfoView {
    InfoView { current_version: v, ..i }
}

/// Recording an invalid package adds one to the counter and changes nothing
/// else; a counter already at `u32::MAX` stays there.
pub open spec fn bump_invalid(i: InfoView) -> InfoView {
    if i.count_invalid_packages == u32::MAX {
        i
    } else {
        InfoView { count_invalid_packages: (i.count_invalid_packages + 1) as u32, ..i }
    }
}

impl InfoMutation {
    /// What applying this mutation does to a status.
    pub open spec fn apply(self, i: InfoView) -> InfoView {
        match self {
            InfoMutation::SetVersion(v) => set_version(i, v@),
            InfoMutation::RecordInvalid => bump_invalid(i),
        }
    }
}

} // verus!
