use vstd::prelude::*;

verus! {

/// What a run has to do, decided from the environment and the disk.
#[derive(Clone, Copy, Debug, PartialEq, Eq, Structural)]
pub enum Plan {
    /// The SDK is installed where the primary variable says.
    NoOp,
    /// The primary variable points somewhere the installer does not own.
    Reject,
    /// The SDK is on disk but the current process lacks its variables.
    TempFixup,
    /// The SDK has to be downloaded and installed.
    FullInstall,
}

/// The decision table, first match wins. `sdk_var` is the primary
/// variable (`None` when unset), `root` the default install root,
/// `root_exists` and `root_nonempty` what the disk holds there.
pub open spec fn spec_plan(
    sdk_var: Option<Seq<char>>,
    root: Seq<char>,
    root_exists: bool,
    root_nonempty: bool,
) -> Plan {
    match sdk_var {
        Some(v) => if v == root && root_exists && root_nonempty {
            Plan::NoOp
        } else {
            Plan::Reject
        },
        None => if root_exists {
            Plan::TempFixup
        } else {
            Plan::FullInstall
        },
    }
}

/// A string that may be absent, as a view.
pub open spec fn str_opt_view(o: Option<String>) -> Option<Seq<char>> {
    match o {
        Some(s) => Some(s@),
        None => None,
    }
}

/// Decides what a run does. A variable that is set is never overwritten:
/// unless it names the installed default root, the run is rejected.
pub fn plan(sdk_var: &Option<String>, root: &String, root_exists: bool, root_nonempty: bool) -> (r:
    Plan)
    ensures
        r == spec_plan(str_opt_view(*sdk_var), root@, root_exists, root_nonempty),
        r == Plan::NoOp <==> (sdk_var.is_some() && sdk_var.unwrap()@ == root@ && root_exists
            && root_nonempty),
        r == Plan::Reject <==> (sdk_var.is_some() && !(sdk_var.unwrap()@ == root@ && root_exists
            && root_nonempty)),
        r == Plan::TempFixup <==> (sdk_var.is_none() && root_exists),
        r == Plan::FullInstall <==> (sdk_var.is_none() && !root_exists),
{
    match sdk_var {
        Some(v) => {
            if *v == *root && root_exists && root_nonempty {
                Plan::NoOp
            } else {
                Plan::Reject
            }
        },
        None => {
            if root_exists {
                Plan::TempFixup
            } else {
                Plan::FullInstall
            }
        },
    }
}

} // verus!
