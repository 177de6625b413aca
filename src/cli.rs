//! The logic behind the command line: comma-separated lists, tilde
//! expansion, and checking a subcommand before it runs.
use crate::order::views;
use vstd::prelude::*;

verus! {

/// The pieces of `s` between commas; `s` without commas is one piece.
pub open spec fn split_commas(s: Seq<char>) -> Seq<Seq<char>>
    decreases s.len(),
{
    if s.len() == 0 {
        seq![Seq::<char>::empty()]
    } else {
        let r = split_commas(s.drop_last());
        if s.last() == ',' {
            r.push(Seq::<char>::empty())
        } else {
            r.update(r.len() - 1, r.last().push(s.last()))
        }
    }
}

/// A list given as one comma-separated argument.
#[derive(Debug)]
pub struct CommaSeparatedStrings(pub Vec<String>);

impl CommaSeparatedStrings {
    /// Splits `s` at every comma.
    pub fn from_str(s: &str) -> (r: CommaSeparatedStrings)
        ensures
            views(r.0@) == split_commas(s@),
    {
        let n = s.unicode_len();
        let mut pieces: Vec<String> = Vec::new();
        let mut start: usize = 0;
        let mut i: usize = 0;
        assert(s@.take(0) =~= Seq::<char>::empty());
        assert(s@.subrange(0, 0) =~= Seq::<char>::empty());
        assert(views(pieces@).push(s@.subrange(0, 0)) =~= split_commas(s@.take(0)));
        while i < n
            invariant
                n == s@.len(),
                start <= i <= n,
                views(pieces@).push(s@.subrange(start as int, i as int)) == split_commas(
                    s@.take(i as int),
                ),
            decreases n - i,
        {
            let c = s.get_char(i);
            let ghost prev = split_commas(s@.take(i as int));
            assert(s@.take(i + 1).drop_last() =~= s@.take(i as int));
            assert(s@.take(i + 1).last() == c);
            if c == ',' {
                let piece = s.substring_char(start, i).to_owned();
                pieces.push(piece);
                assert(s@.subrange(i + 1, i + 1) =~= Seq::<char>::empty());
                start = i + 1;
                assert(views(pieces@).push(s@.subrange(start as int, i + 1)) =~= prev.push(
                    Seq::<char>::empty(),
                ));
            } else {
                assert(s@.subrange(start as int, i + 1) =~= s@.subrange(start as int, i as int).push(
                    c,
                ));
                assert(views(pieces@).push(s@.subrange(start as int, i + 1)) =~= prev.update(
                    prev.len() - 1,
                    prev.last().push(c),
                ));
            }
            i = i + 1;
        }
        let last = s.substring_char(start, n).to_owned();
        pieces.push(last);
        assert(s@.take(n as int) =~= s@);
        CommaSeparatedStrings(pieces)
    }
}

/// The names that are not empty, in order.
pub open spec fn nonempty_only(s: Seq<Seq<char>>) -> Seq<Seq<char>>
    decreases s.len(),
{
    if s.len() == 0 {
        s
    } else if s.last().len() == 0 {
        nonempty_only(s.drop_last())
    } else {
        nonempty_only(s.drop_last()).push(s.last())
    }
}

/// Drops the empty strings, keeping the order of the rest.
pub fn filter_empty_strings(string_list: Vec<String>) -> (r: Vec<String>)
    ensures
        views(r@) == nonempty_only(views(string_list@)),
{
    let ghost all = views(string_list@);
    let mut r: Vec<String> = Vec::new();
    let n = string_list.len();
    let mut i: usize = 0;
    assert(all.take(0) =~= Seq::<Seq<char>>::empty());
    while i < n
        invariant
            n == string_list@.len(),
            all == views(string_list@),
            i <= n,
            views(r@) == nonempty_only(all.take(i as int)),
        decreases n - i,
    {
        assert(all.take(i + 1).drop_last() =~= all.take(i as int));
        assert(all.take(i + 1).last() == string_list@[i as int]@);
        if string_list[i].as_str().unicode_len() != 0 {
            let c = string_list[i].clone();
            let ghost before = views(r@);
            r.push(c);
            assert(views(r@) =~= before.push(string_list@[i as int]@));
        }
        i = i + 1;
    }
    assert(all.take(n as int) =~= all);
    r
}

#[derive(Clone, Copy, Debug, PartialEq, Eq, Structural)]
pub enum CliError {
    /// The home directory is unknown, so `~` cannot be expanded.
    NoHomeDirectory,
    /// The home directory is unknown, so a path under `~/` cannot be expanded.
    TildeExpansionFailed,
    /// A clone needs layers or coordinates, and not both.
    LayersOrCoordinates,
}

pub open spec fn tilde() -> Seq<char> {
    seq!['~']
}

pub open spec fn tilde_slash() -> Seq<char> {
    seq!['~', '/']
}

/// The path with a leading `~` component replaced by the home directory.
/// A path that does not begin with the component `~` is kept. Under `~/`,
/// the rest is joined to the home directory with one `/`; with `/` as the
/// home directory only the `~` is dropped.
pub open spec fn expand_tilde_spec(p: Seq<char>, home: Option<Seq<char>>) -> Result<
    Seq<char>,
    CliError,
> {
    if p == tilde() {
        match home {
            Some(h) => Ok(h),
            None => Err(CliError::NoHomeDirectory),
        }
    } else if p.len() >= 2 && p.take(2) == tilde_slash() {
        match home {
            None => Err(CliError::TildeExpansionFailed),
            Some(h) => if h == seq!['/'] {
                Ok(p.skip(1))
            } else if h.len() > 0 && h.last() == '/' {
                Ok(h + p.skip(2))
            } else {
                Ok(h + seq!['/'] + p.skip(2))
            },
        }
    } else {
        Ok(p)
    }
}

pub open spec fn string_result_view(r: Result<String, CliError>) -> Result<Seq<char>, CliError> {
    match r {
        Ok(s) => Ok(s@),
        Err(e) => Err(e),
    }
}

/// Expands a leading `~` in a path, given the user's home directory.
pub fn expand_tilde(path: &str, home: Option<String>) -> (r: Result<String, CliError>)
    ensures
        string_result_view(r) == expand_tilde_spec(path@, match home {
            Some(h) => Some(h@),
            None => None,
        }),
{
    let n = path.unicode_len();
    let is_tilde = n == 1 && path.get_char(0) == '~';
    if is_tilde {
        assert(path@ =~= tilde());
        return match home {
            Some(h) => Ok(h),
            None => Err(CliError::NoHomeDirectory),
        };
    }
    let under = n >= 2 && path.get_char(0) == '~' && path.get_char(1) == '/';
    if !under {
        proof {
            if path@.len() >= 2 && path@.take(2) == tilde_slash() {
                assert(path@.take(2)[0] == path@[0]);
                assert(path@.take(2)[1] == path@[1]);
            }
        }
        return Ok(path.to_owned());
    }
    assert(path@.take(2) =~= tilde_slash());
    assert(path@ != tilde());
    match home {
        None => Err(CliError::TildeExpansionFailed),
        Some(h) => {
            let hl = h.as_str().unicode_len();
            let root = hl == 1 && h.as_str().get_char(0) == '/';
            if root {
                assert(h@ =~= seq!['/']);
                assert(path@.subrange(1, n as int) =~= path@.skip(1));
                Ok(path.substring_char(1, n).to_owned())
            } else {
                proof {
                    if h@ == seq!['/'] {
                        assert(h@[0] == '/');
                    }
                }
                let ghost hv = h@;
                assert(path@.subrange(2, n as int) =~= path@.skip(2));
                let mut out = h;
                let ends_slash = hl > 0 && out.as_str().get_char(hl - 1) == '/';
                if !ends_slash {
                    proof {
                        reveal_strlit("/");
                    }
                    out.append("/");
                    assert(out@ =~= hv + seq!['/']);
                } else {
                    assert(hv.last() == '/');
                }
                out.append(path.substring_char(2, n));
                Ok(out)
            }
        },
    }
}

/// The named layers or the ad-hoc coordinates of a new clone.
#[derive(Debug)]
pub enum CloneSpec {
    Layers(Vec<String>),
    Coordinates(Vec<String>),
}

/// What a clone starts from: after dropping empty names, exactly one of the
/// two lists may hold names, and it decides the kind.
pub fn clone_spec(layers: Vec<String>, coordinates: Vec<String>) -> (r: Result<CloneSpec, CliError>)
    ensures
        ({
            let l = nonempty_only(views(layers@));
            let c = nonempty_only(views(coordinates@));
            &&& r is Err <==> (l.len() == 0) == (c.len() == 0)
            &&& r is Err ==> r == Err::<CloneSpec, CliError>(CliError::LayersOrCoordinates)
            &&& r matches Ok(CloneSpec::Layers(v)) ==> c.len() == 0 && views(v@) == l
            &&& r matches Ok(CloneSpec::Coordinates(v)) ==> l.len() == 0 && views(v@) == c
        }),
{
    let layers = filter_empty_strings(layers);
    let coordinates = filter_empty_strings(coordinates);
    if coordinates.len() == 0 && layers.len() == 0 || coordinates.len() != 0 && layers.len() != 0 {
        return Err(CliError::LayersOrCoordinates);
    }
    if coordinates.len() != 0 {
        Ok(CloneSpec::Coordinates(coordinates))
    } else {
        Ok(CloneSpec::Layers(layers))
    }
}

/// A subcommand as the user gave it; paths may begin with `~`.
#[derive(Debug)]
pub enum Subcommand {
    Clone {
        dense_repo: String,
        sparse_repo: String,
        branch: String,
        coordinates: CommaSeparatedStrings,
        layers: CommaSeparatedStrings,
    },
    Sync { sparse_repo: String },
    AvailableLayers { repo: String },
    SelectedLayers { repo: String },
    PushLayer { repo: String, names: Vec<String> },
    PopLayer { repo: String, count: usize },
    RemoveLayer { repo: String, names: Vec<String> },
    ListRepos,
    DetectBuildGraphChanges { repo: String },
    UserInterfaceTest,
}

/// A subcommand ready to run: paths expanded, a clone's spec decided.
#[derive(Debug)]
pub enum Command {
    Clone { dense_repo: String, sparse_repo: String, branch: String, spec: CloneSpec },
    Sync { sparse_repo: String },
    AvailableLayers { repo: String },
    SelectedLayers { repo: String },
    PushLayer { repo: String, names: Vec<String> },
    PopLayer { repo: String, count: usize },
    RemoveLayer { repo: String, names: Vec<String> },
    ListRepos,
    DetectBuildGraphChanges { repo: String },
    UserInterfaceTest,
}

pub open spec fn expands(p: String, home: Option<Seq<char>>, out: String) -> bool {
    expand_tilde_spec(p@, home) == Ok::<Seq<char>, CliError>(out@)
}

pub open spec fn home_view(home: Option<String>) -> Option<Seq<char>> {
    match home {
        Some(h) => Some(h@),
        None => None,
    }
}

fn expand(path: &String, home: &Option<String>) -> (r: Result<String, CliError>)
    ensures
        string_result_view(r) == expand_tilde_spec(path@, home_view(*home)),
{
    let h = match home {
        Some(h) => Some(h.clone()),
        None => None,
    };
    expand_tilde(path.as_str(), h)
}

/// Prepares a subcommand: every path is tilde-expanded (the first failure is
/// the error), and a clone's layers and coordinates are checked.
pub fn run_subcommand(cmd: Subcommand, home: Option<String>) -> (r: Result<Command, CliError>)
    ensures
        ({
            let hv = home_view(home);
            match cmd {
                Subcommand::Clone { dense_repo, sparse_repo, branch, coordinates, layers } => {
                    let d = expand_tilde_spec(dense_repo@, hv);
                    let s = expand_tilde_spec(sparse_repo@, hv);
                    let l = nonempty_only(views(layers.0@));
                    let c = nonempty_only(views(coordinates.0@));
                    &&& d is Err ==> r == Err::<Command, CliError>(d->Err_0)
                    &&& d is Ok && s is Err ==> r == Err::<Command, CliError>(s->Err_0)
                    &&& d is Ok && s is Ok && (l.len() == 0) == (c.len() == 0) ==> r == Err::<
                        Command,
                        CliError,
                    >(CliError::LayersOrCoordinates)
                    &&& r is Ok <==> d is Ok && s is Ok && (l.len() == 0) != (c.len() == 0)
                    &&& r matches Ok(Command::Clone { dense_repo: d2, sparse_repo: s2, branch: b2, spec }) ==> d2@ == d->Ok_0
                        && s2@ == s->Ok_0 && b2@ == branch@ && match spec {
                        CloneSpec::Layers(v) => c.len() == 0 && views(v@) == l,
                        CloneSpec::Coordinates(v) => l.len() == 0 && views(v@) == c,
                    }
                    &&& r is Ok ==> r->Ok_0 is Clone
                },
                Subcommand::Sync { sparse_repo } => match r {
                    Ok(Command::Sync { sparse_repo: p }) => expands(sparse_repo, hv, p),
                    Ok(_) => false,
                    Err(e) => expand_tilde_spec(sparse_repo@, hv) == Err::<Seq<char>, CliError>(e),
                },
                Subcommand::AvailableLayers { repo } => match r {
                    Ok(Command::AvailableLayers { repo: p }) => expands(repo, hv, p),
                    Ok(_) => false,
                    Err(e) => expand_tilde_spec(repo@, hv) == Err::<Seq<char>, CliError>(e),
                },
                Subcommand::SelectedLayers { repo } => match r {
                    Ok(Command::SelectedLayers { repo: p }) => expands(repo, hv, p),
                    Ok(_) => false,
                    Err(e) => expand_tilde_spec(repo@, hv) == Err::<Seq<char>, CliError>(e),
                },
                Subcommand::PushLayer { repo, names } => match r {
                    Ok(Command::PushLayer { repo: p, names: n }) => expands(repo, hv, p) && n == names,
                    Ok(_) => false,
                    Err(e) => expand_tilde_spec(repo@, hv) == Err::<Seq<char>, CliError>(e),
                },
                Subcommand::PopLayer { repo, count } => match r {
                    Ok(Command::PopLayer { repo: p, count: n }) => expands(repo, hv, p) && n == count,
                    Ok(_) => false,
                    Err(e) => expand_tilde_spec(repo@, hv) == Err::<Seq<char>, CliError>(e),
                },
                Subcommand::RemoveLayer { repo, names } => match r {
                    Ok(Command::RemoveLayer { repo: p, names: n }) => expands(repo, hv, p) && n
                        == names,
                    Ok(_) => false,
                    Err(e) => expand_tilde_spec(repo@, hv) == Err::<Seq<char>, CliError>(e),
                },
                Subcommand::ListRepos => r matches Ok(Command::ListRepos),
                Subcommand::DetectBuildGraphChanges { repo } => match r {
                    Ok(Command::DetectBuildGraphChanges { repo: p }) => expands(repo, hv, p),
                    Ok(_) => false,
                    Err(e) => expand_tilde_spec(repo@, hv) == Err::<Seq<char>, CliError>(e),
                },
                Subcommand::UserInterfaceTest => r matches Ok(Command::UserInterfaceTest),
            }
        }),
{
    match cmd {
        Subcommand::Clone { dense_repo, sparse_repo, branch, coordinates, layers } => {
            let dense_repo = expand(&dense_repo, &home)?;
            let sparse_repo = expand(&sparse_repo, &home)?;
            let spec = clone_spec(layers.0, coordinates.0)?;
            Ok(Command::Clone { dense_repo, sparse_repo, branch, spec })
        },
        Subcommand::Sync { sparse_repo } => {
            let sparse_repo = expand(&sparse_repo, &home)?;
            Ok(Command::Sync { sparse_repo })
        },
        Subcommand::AvailableLayers { repo } => {
            let repo = expand(&repo, &home)?;
            Ok(Command::AvailableLayers { repo })
        },
        Subcommand::SelectedLayers { repo } => {
            let repo = expand(&repo, &home)?;
            Ok(Command::SelectedLayers { repo })
        },
        Subcommand::PushLayer { repo, names } => {
            let repo = expand(&repo, &home)?;
            Ok(Command::PushLayer { repo, names })
        },
        Subcommand::PopLayer { repo, count } => {
            let repo = expand(&repo, &home)?;
            Ok(Command::PopLayer { repo, count })
        },
        Subcommand::RemoveLayer { repo, names } => {
            let repo = expand(&repo, &home)?;
            Ok(Command::RemoveLayer { repo, names })
        },
        Subcommand::ListRepos => Ok(Command::ListRepos),
        Subcommand::DetectBuildGraphChanges { repo } => {
            let repo = expand(&repo, &home)?;
            Ok(Command::DetectBuildGraphChanges { repo })
        },
        Subcommand::UserInterfaceTest => Ok(Command::UserInterfaceTest),
    }
}

} // verus!
