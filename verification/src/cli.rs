//! What the command line asks for, turned into what is to be done.

use vstd::prelude::*;
use crate::apple_platform::ApplePlatform;
use crate::error::{PackagingError, PackagingErrorView};
use crate::text::{split, split_seq, text_eq, texts};

verus! {

/// The arguments of the command that builds the bundle.
#[derive(Debug)]
pub struct BuildArgs {
    pub package: String,
    pub only_ios: bool,
    pub only_macos: bool,
    pub profile: String,
    pub ffi_module_name: String,
}

/// The arguments of the command that writes the package manifest.
#[derive(Debug)]
pub struct GeneratePackageArgs {
    pub package: String,
    pub ffi_module_name: String,
    pub project_name: String,
    /// Pairs of a package name and a module name: `name:module`, with
    /// commas between the pairs.
    pub package_name_map: String,
}

#[derive(Debug)]
pub enum Commands {
    Build(BuildArgs),
    GeneratePackage(GeneratePackageArgs),
}

/// The parsed command line.
#[derive(Debug)]
pub struct Cli {
    pub command: Commands,
}

/// What is to be done.
#[derive(Debug)]
pub enum Action {
    /// Build `package` with `profile` for each of the platforms, or for
    /// the host where there are none.
    Build { package: String, profile: String, ffi_module_name: String, apple_platforms: Vec<ApplePlatform> },
    /// Write the manifest of the package `project_name`.
    GeneratePackage {
        ffi_module_name: String,
        project_name: String,
        package_name_map: Vec<(String, String)>,
    },
}

/// The keys and values of a list of pairs.
pub open spec fn pair_texts(pairs: Seq<(String, String)>) -> Seq<(Seq<char>, Seq<char>)> {
    pairs.map_values(|p: (String, String)| (p.0@, p.1@))
}

/// The platforms to build for: only the one that was asked for, else all
/// of them on a host that can build them, and none on any other host.
pub open spec fn platforms_for(only_ios: bool, only_macos: bool, host_is_macos: bool) -> Seq<
    ApplePlatform,
> {
    if only_ios {
        seq![ApplePlatform::IOS]
    } else if only_macos {
        seq![ApplePlatform::MacOS]
    } else if host_is_macos {
        seq![ApplePlatform::MacOS, ApplePlatform::IOS, ApplePlatform::TvOS, ApplePlatform::WatchOS]
    } else {
        Seq::empty()
    }
}

/// The first `count` pairs of a name map, or the failure of the first pair
/// that has no `:`. Of a pair with more than one `:`, what follows the
/// second is left out.
pub open spec fn name_pairs_among(pairs: Seq<Seq<char>>, count: nat) -> Result<
    Seq<(Seq<char>, Seq<char>)>,
    PackagingErrorView,
>
    decreases count,
{
    if count == 0 || count > pairs.len() {
        Ok(Seq::empty())
    } else {
        match name_pairs_among(pairs, (count - 1) as nat) {
            Err(e) => Err(e),
            Ok(rest) => {
                let fields = split_seq(pairs[count - 1], ':');
                if fields.len() < 2 {
                    Err(PackagingErrorView::MalformedNameMap { pair: pairs[count - 1] })
                } else {
                    Ok(rest.push((fields[0], fields[1])))
                }
            },
        }
    }
}

/// The pairs that a name map spells.
pub open spec fn name_map_of(text: Seq<char>) -> Result<
    Seq<(Seq<char>, Seq<char>)>,
    PackagingErrorView,
> {
    let pairs = split_seq(text, ',');
    name_pairs_among(pairs, pairs.len())
}

/// The value that a name map gives for `key`: that of the last pair with
/// the key.
pub open spec fn value_for(pairs: Seq<(Seq<char>, Seq<char>)>, key: Seq<char>) -> Option<Seq<char>>
    decreases pairs.len(),
{
    if pairs.len() == 0 {
        None
    } else if pairs.last().0 == key {
        Some(pairs.last().1)
    } else {
        value_for(pairs.drop_last(), key)
    }
}

/// Once a pair is malformed, taking more pairs does not mend it.
proof fn lemma_name_pairs_stay_failed(pairs: Seq<Seq<char>>, from: nat, to: nat)
    requires
        from <= to <= pairs.len(),
        name_pairs_among(pairs, from) is Err,
    ensures
        name_pairs_among(pairs, to) == name_pairs_among(pairs, from),
    decreases to - from,
{
    if from < to {
        lemma_name_pairs_stay_failed(pairs, from, (to - 1) as nat);
    }
}

/// Reads a name map: pairs `name:module` with commas between them.
pub fn parse_package_name_map(text: &str) -> (map: Result<Vec<(String, String)>, PackagingError>)
    ensures
        match map {
            Ok(pairs) => name_map_of(text@) == Ok::<
                Seq<(Seq<char>, Seq<char>)>,
                PackagingErrorView,
            >(pair_texts(pairs@)),
            Err(e) => name_map_of(text@) == Err::<Seq<(Seq<char>, Seq<char>)>, PackagingErrorView>(
                e@,
            ),
        },
{
    let pairs = split(text, ',');
    let mut map: Vec<(String, String)> = Vec::new();
    let mut k: usize = 0;
    assert(texts(pairs@).len() == pairs@.len());
    assert(pair_texts(map@) =~= Seq::empty());
    while k < pairs.len()
        invariant
            k <= pairs.len(),
            texts(pairs@) == split_seq(text@, ','),
            texts(pairs@).len() == pairs@.len(),
            name_pairs_among(texts(pairs@), k as nat) == Ok::<
                Seq<(Seq<char>, Seq<char>)>,
                PackagingErrorView,
            >(pair_texts(map@)),
        decreases pairs.len() - k,
    {
        assert(texts(pairs@)[k as int] == pairs@[k as int]@);
        let fields = split(pairs[k].as_str(), ':');
        assert(texts(fields@).len() == fields@.len());
        if fields.len() < 2 {
            proof {
                lemma_name_pairs_stay_failed(texts(pairs@), (k + 1) as nat, pairs@.len());
            }
            return Err(PackagingError::MalformedNameMap { pair: pairs[k].clone() });
        }
        assert(texts(fields@)[0] == fields@[0]@);
        assert(texts(fields@)[1] == fields@[1]@);
        let entry = (fields[0].clone(), fields[1].clone());
        assert(pair_texts(map@.push(entry)) =~= pair_texts(map@).push((entry.0@, entry.1@)));
        map.push(entry);
        k += 1;
    }
    Ok(map)
}

/// The value that a name map gives for `key`. Where several pairs have
/// the key, the last one counts.
pub fn lookup_name<'a>(map: &'a Vec<(String, String)>, key: &str) -> (value: Option<&'a String>)
    ensures
        match value {
            Some(v) => value_for(pair_texts(map@), key@) == Some(v@),
            None => value_for(pair_texts(map@), key@) is None,
        },
{
    let mut k: usize = map.len();
    assert(pair_texts(map@).take(k as int) == pair_texts(map@));
    while k > 0
        invariant
            k <= map.len(),
            value_for(pair_texts(map@), key@) == value_for(pair_texts(map@).take(k as int), key@),
        decreases k,
    {
        k -= 1;
        let ghost before = pair_texts(map@).take(k + 1);
        assert(before.last() == (map@[k as int].0@, map@[k as int].1@));
        assert(before.drop_last() == pair_texts(map@).take(k as int));
        if text_eq(map[k].0.as_str(), key) {
            return Some(&map[k].1);
        }
    }
    None
}

/// What the build command is to do.
pub fn build(args: BuildArgs, host_is_macos: bool) -> (action: Action)
    ensures
        action matches Action::Build { package, profile, ffi_module_name, apple_platforms }
            && package == args.package && profile == args.profile && ffi_module_name
            == args.ffi_module_name && apple_platforms@ == platforms_for(
            args.only_ios,
            args.only_macos,
            host_is_macos,
        ),
{
    let apple_platforms = if args.only_ios {
        vec![ApplePlatform::IOS]
    } else if args.only_macos {
        vec![ApplePlatform::MacOS]
    } else if host_is_macos {
        ApplePlatform::all()
    } else {
        vec![]
    };
    Action::Build {
        package: args.package,
        profile: args.profile,
        ffi_module_name: args.ffi_module_name,
        apple_platforms,
    }
}

/// What the command that writes the package manifest is to do.
pub fn generate_package(args: GeneratePackageArgs) -> (action: Result<Action, PackagingError>)
    ensures
        match action {
            Ok(a) => a matches Action::GeneratePackage {
                ffi_module_name,
                project_name,
                package_name_map,
            } && ffi_module_name == args.ffi_module_name && project_name == args.project_name
                && name_map_of(args.package_name_map@) == Ok::<
                Seq<(Seq<char>, Seq<char>)>,
                PackagingErrorView,
            >(pair_texts(package_name_map@)),
            Err(e) => name_map_of(args.package_name_map@) == Err::<
                Seq<(Seq<char>, Seq<char>)>,
                PackagingErrorView,
            >(e@),
        },
{
    match parse_package_name_map(args.package_name_map.as_str()) {
        Ok(package_name_map) => Ok(
            Action::GeneratePackage {
                ffi_module_name: args.ffi_module_name,
                project_name: args.project_name,
                package_name_map,
            },
        ),
        Err(e) => Err(e),
    }
}

/// The action of an [`Action`] or a failure, as a proposition about both.
pub open spec fn action_of(cli: Cli, host_is_macos: bool, action: Result<Action, PackagingError>) -> bool {
    match cli.command {
        Commands::Build(args) => action matches Ok(
            Action::Build { package, profile, ffi_module_name, apple_platforms },
        ) && package == args.package && profile == args.profile && ffi_module_name
            == args.ffi_module_name && apple_platforms@ == platforms_for(
            args.only_ios,
            args.only_macos,
            host_is_macos,
        ),
        Commands::GeneratePackage(args) => match action {
            Ok(a) => a matches Action::GeneratePackage {
                ffi_module_name,
                project_name,
                package_name_map,
            } && ffi_module_name == args.ffi_module_name && project_name == args.project_name
                && name_map_of(args.package_name_map@) == Ok::<
                Seq<(Seq<char>, Seq<char>)>,
                PackagingErrorView,
            >(pair_texts(package_name_map@)),
            Err(e) => name_map_of(args.package_name_map@) == Err::<
                Seq<(Seq<char>, Seq<char>)>,
                PackagingErrorView,
            >(e@),
        },
    }
}

impl Cli {
    /// What the parsed command line asks for. `host_is_macos` tells
    /// whether the tool runs on a host that can build for all platforms.
    pub fn execute(self, host_is_macos: bool) -> (action: Result<Action, PackagingError>)
        ensures
            action_of(self, host_is_macos, action),
    {
        match self.command {
            Commands::Build(args) => Ok(build(args, host_is_macos)),
            Commands::GeneratePackage(args) => generate_package(args),
        }
    }
}

} // verus!
