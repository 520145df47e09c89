//! Where the configuration file is looked for and saved.
use vstd::prelude::*;

verus! {

/// The default path of the configuration file.
pub const CONFIG_PATH: &'static str = "./config.ron";

/// The default path of the historical configuration.
pub const HISTORICAL_CONFIG_PATH: &'static str = "./historical_config";

/// The paths at which the configuration file is looked for, in order.
pub open spec fn spec_candidate_paths(provided: Option<Seq<char>>, environment: Option<Seq<char>>) -> Seq<
    Seq<char>,
> {
    (match provided {
        Some(path) => seq![path],
        None => Seq::empty(),
    }) + (match environment {
        Some(path) => seq![path],
        None => Seq::empty(),
    }) + seq![CONFIG_PATH@]
}

/// The path at which the configuration file is saved.
pub open spec fn spec_target_path(provided: Option<Seq<char>>, environment: Option<Seq<char>>) -> Seq<
    char,
> {
    match provided {
        Some(path) => path,
        None => match environment {
            Some(path) => path,
            None => CONFIG_PATH@,
        },
    }
}

/// The view of an optional path.
pub open spec fn path_view(path: Option<String>) -> Option<Seq<char>> {
    match path {
        Some(p) => Some(p@),
        None => None,
    }
}

/// The paths at which the configuration file is looked for, in order: the
/// path that was provided, the path that the environment names, and the
/// default path.
pub fn candidate_paths(provided: Option<String>, environment: Option<String>) -> (paths: Vec<String>)
    ensures
        paths.deep_view() == spec_candidate_paths(path_view(provided), path_view(environment)),
{
    let mut paths: Vec<String> = Vec::new();
    assert(paths.deep_view() =~= Seq::<Seq<char>>::empty());
    let ghost first = paths.deep_view();
    if let Some(path) = provided {
        paths.push(path);
        assert(paths.deep_view() =~= seq![path@]);
    }
    let ghost second = paths.deep_view();
    if let Some(path) = environment {
        paths.push(path);
        assert(paths.deep_view() =~= second + seq![path@]);
    } else {
        assert(second + Seq::<Seq<char>>::empty() =~= second);
    }
    let ghost third = paths.deep_view();
    paths.push(String::from_str(CONFIG_PATH));
    assert(paths.deep_view() =~= third + seq![CONFIG_PATH@]);
    paths
}

/// The path at which the configuration file is saved: the path that was
/// provided, or else the path that the environment names, or else the default
/// path.
pub fn target_path(provided: Option<String>, environment: Option<String>) -> (path: String)
    ensures
        path@ == spec_target_path(path_view(provided), path_view(environment)),
{
    match provided {
        Some(path) => path,
        None => match environment {
            Some(path) => path,
            None => String::from_str(CONFIG_PATH),
        },
    }
}

} // verus!
