//! Where model weights are kept.

use crate::catalog::ModelCatalog;
use crate::error::FfiDemucsError;
use crate::model::{FfiDemucsModel, ModelView};
use std::path::PathBuf;
use vstd::prelude::*;

verus! {

/// `std::path::PathBuf`, carried through as it came.
#[verifier::external_type_specification]
#[verifier::external_body]
pub struct ExPathBuf(PathBuf);

/// `dirs::cache_dir`, the platform's directory for caches. It reads the
/// process environment and the user database, so nothing is claimed of what
/// it returns.
pub assume_specification[ dirs::cache_dir ]() -> (r: Option<PathBuf>);

/// The directory a path in the cache starts from.
#[derive(Debug, PartialEq, Eq)]
pub enum CacheRoot {
    /// The directory the application chose.
    Configured(String),
    /// The platform's directory for caches.
    Platform(PathBuf),
}

/// A path in the cache: a root directory, then the names to join to it one
/// after the other.
#[derive(Debug, PartialEq, Eq)]
pub struct CachePath {
    pub root: CacheRoot,
    pub names: Vec<String>,
}

impl CachePath {
    /// The names as text.
    pub open spec fn components(self) -> Seq<Seq<char>> {
        Seq::new(self.names@.len(), |i: int| self.names@[i]@)
    }

    /// The path starts from `root` and goes by `components`.
    pub open spec fn is(self, root: CacheRoot, components: Seq<Seq<char>>) -> bool {
        self.root == root && self.components() == components
    }

    /// The path of `name` in the directory that `self` is.
    pub fn join(self, name: &str) -> (r: CachePath)
        ensures
            r.is(self.root, self.components().push(name@)),
    {
        let mut names = self.names;
        names.push(name.to_owned());
        let r = CachePath { root: self.root, names };
        assert(r.components() =~= self.components().push(name@));
        r
    }
}

/// Sets where model weights are stored. Sandboxed apps should call this once
/// at launch with a directory inside their container. Without it, weights go
/// to the platform cache directory under `demucs-rs/`.
pub fn configure_cache_dir(configured: &mut Option<String>, path: String)
    ensures
        *final(configured) == Some(path),
{
    *configured = Some(path);
}

/// `r` is the cache directory where the application configured `configured`
/// and the platform offers `platform`: the application's choice, else
/// `demucs-rs` in what the platform offers, else an error that says what to
/// do.
pub open spec fn chosen_cache_dir(
    configured: Option<String>,
    platform: Option<PathBuf>,
    r: Result<CachePath, FfiDemucsError>,
) -> bool {
    match (configured, platform) {
        (Some(dir), _) => r matches Ok(path) && path.is(CacheRoot::Configured(dir), Seq::empty()),
        (None, Some(base)) => r matches Ok(path) && path.is(
            CacheRoot::Platform(base),
            seq!["demucs-rs"@],
        ),
        (None, None) => r matches Err(FfiDemucsError::Io { reason }) && reason@
            == "could not determine the cache directory; call configure_cache_dir"@,
    }
}

/// Chooses the cache directory between what the application configured and
/// what the platform offers.
pub fn choose_cache_dir(configured: Option<String>, platform: Option<PathBuf>) -> (r: Result<
    CachePath,
    FfiDemucsError,
>)
    ensures
        chosen_cache_dir(configured, platform, r),
{
    match configured {
        Some(dir) => {
            let path = CachePath { root: CacheRoot::Configured(dir), names: Vec::new() };
            assert(path.components() =~= Seq::empty());
            Ok(path)
        },
        None => match platform {
            Some(base) => {
                let dir = CachePath { root: CacheRoot::Platform(base), names: Vec::new() };
                assert(dir.components().push("demucs-rs"@) =~= seq!["demucs-rs"@]);
                Ok(dir.join("demucs-rs"))
            },
            None => Err(
                FfiDemucsError::Io {
                    reason:
                        "could not determine the cache directory; call configure_cache_dir".to_owned(),
                },
            ),
        },
    }
}

/// `r` is the cache directory where the application configured `configured`,
/// for some answer of `dirs::cache_dir` where it configured nothing.
pub open spec fn is_cache_dir(
    configured: Option<String>,
    r: Result<CachePath, FfiDemucsError>,
) -> bool {
    match configured {
        Some(_) => chosen_cache_dir(configured, None, r),
        None => exists|platform: Option<PathBuf>| #[trigger]
            call_ensures(dirs::cache_dir, (), platform) && chosen_cache_dir(None, platform, r),
    }
}

/// The directory that model weights are kept in. The platform is asked only
/// where the application configured nothing.
pub fn cache_dir(configured: Option<String>) -> (r: Result<CachePath, FfiDemucsError>)
    ensures
        is_cache_dir(configured, r),
{
    match configured {
        Some(dir) => choose_cache_dir(Some(dir), None),
        None => {
            let platform = dirs::cache_dir();
            assert(call_ensures(dirs::cache_dir, (), platform));
            choose_cache_dir(None, platform)
        },
    }
}

/// `path` is where `filename` is kept in the cache directory `dir`; there is
/// none if there is no cache directory.
pub open spec fn kept_in(
    dir: Result<CachePath, FfiDemucsError>,
    filename: Seq<char>,
    path: Option<CachePath>,
) -> bool {
    match dir {
        Ok(dir) => path matches Some(path) && path.is(dir.root, dir.components().push(filename)),
        Err(_) => path is None,
    }
}

/// Where `filename` is kept in the cache directory `dir`.
pub fn path_in(dir: Result<CachePath, FfiDemucsError>, filename: &str) -> (r: Option<CachePath>)
    ensures
        kept_in(dir, filename@, r),
{
    match dir {
        Ok(dir) => Some(dir.join(filename)),
        Err(_) => None,
    }
}

/// `path` is where the weights of `model` are kept.
pub open spec fn is_model_path(
    model: ModelView,
    catalog: ModelCatalog,
    configured: Option<String>,
    path: Option<CachePath>,
) -> bool {
    exists|dir: Result<CachePath, FfiDemucsError>| #[trigger]
        is_cache_dir(configured, dir) && kept_in(dir, model.info(catalog).filename@, path)
}

/// Where the weights of `model` are kept, downloaded or not.
pub fn model_path(
    model: &FfiDemucsModel,
    catalog: &ModelCatalog,
    configured: Option<String>,
) -> (r: Option<CachePath>)
    ensures
        is_model_path(model@, *catalog, configured, r),
{
    let dir = cache_dir(configured);
    path_in(dir, model.info(catalog).filename.as_str())
}

/// Whether the weights of `model` are downloaded. `exists_at` looks for a
/// file.
///
/// All fine-tuned stem selections share one weights file, so this answers the
/// same for every `FineTuned` value.
pub fn is_model_cached<F: FnOnce(&CachePath) -> bool>(
    model: FfiDemucsModel,
    catalog: &ModelCatalog,
    configured: Option<String>,
    exists_at: F,
) -> (r: bool)
    requires
        forall|path: CachePath| #[trigger] call_requires(exists_at, (&path,)),
    ensures
        exists|path: Option<CachePath>| #[trigger]
            is_model_path(model@, *catalog, configured, path) && match path {
                Some(path) => call_ensures(exists_at, (&path,), r),
                None => !r,
            },
{
    let path = model_path(&model, catalog, configured);
    assert(is_model_path(model@, *catalog, configured, path));
    match path {
        Some(path) => exists_at(&path),
        None => false,
    }
}

/// Where the weights of `model` are, if they are downloaded. `exists_at`
/// looks for a file.
pub fn cached_model_path<F: FnOnce(&CachePath) -> bool>(
    model: FfiDemucsModel,
    catalog: &ModelCatalog,
    configured: Option<String>,
    exists_at: F,
) -> (r: Option<CachePath>)
    requires
        forall|path: CachePath| #[trigger] call_requires(exists_at, (&path,)),
    ensures
        exists|path: Option<CachePath>| #[trigger]
            is_model_path(model@, *catalog, configured, path) && match path {
                Some(path) => match r {
                    Some(found) => found == path && call_ensures(exists_at, (&path,), true),
                    None => call_ensures(exists_at, (&path,), false),
                },
                None => r is None,
            },
{
    let path = model_path(&model, catalog, configured);
    assert(is_model_path(model@, *catalog, configured, path));
    match path {
        Some(path) => if exists_at(&path) {
            Some(path)
        } else {
            None
        },
        None => None,
    }
}

/// Deletes the weights of `model`. `remove` removes a file and says whether
/// it did. Returns `true` if a file was removed.
pub fn delete_cached_model<F: FnOnce(&CachePath) -> bool>(
    model: FfiDemucsModel,
    catalog: &ModelCatalog,
    configured: Option<String>,
    remove: F,
) -> (r: bool)
    requires
        forall|path: CachePath| #[trigger] call_requires(remove, (&path,)),
    ensures
        exists|path: Option<CachePath>| #[trigger]
            is_model_path(model@, *catalog, configured, path) && match path {
                Some(path) => call_ensures(remove, (&path,), r),
                None => !r,
            },
{
    let path = model_path(&model, catalog, configured);
    assert(is_model_path(model@, *catalog, configured, path));
    match path {
        Some(path) => remove(&path),
        None => false,
    }
}

/// All fine-tuned stem selections share one weights file.
pub proof fn fine_tuned_selections_share_a_file(
    a: Seq<crate::stem::FfiStemKind>,
    b: Seq<crate::stem::FfiStemKind>,
    catalog: ModelCatalog,
    configured: Option<String>,
    path: Option<CachePath>,
)
    ensures
        is_model_path(ModelView::FineTuned { stems: a }, catalog, configured, path)
            <==> is_model_path(ModelView::FineTuned { stems: b }, catalog, configured, path),
{
}

/// Where a directory is configured every model has a path, which is its file
/// name in that directory.
pub proof fn configured_models_have_a_path(
    model: ModelView,
    catalog: ModelCatalog,
    dir: String,
    path: Option<CachePath>,
)
    requires
        is_model_path(model, catalog, Some(dir), path),
    ensures
        path matches Some(p) && p.is(
            CacheRoot::Configured(dir),
            seq![model.info(catalog).filename@],
        ),
{
    let filename = model.info(catalog).filename@;
    assert(Seq::<Seq<char>>::empty().push(filename) =~= seq![filename]);
}

/// Models kept under different file names never share a path.
pub proof fn different_files_have_different_paths(
    a: ModelView,
    b: ModelView,
    catalog: ModelCatalog,
    configured: Option<String>,
    path_a: CachePath,
    path_b: CachePath,
)
    requires
        is_model_path(a, catalog, configured, Some(path_a)),
        is_model_path(b, catalog, configured, Some(path_b)),
        a.info(catalog).filename@ != b.info(catalog).filename@,
    ensures
        path_a != path_b,
{
    assert(path_a.components().last() == a.info(catalog).filename@);
    assert(path_b.components().last() == b.info(catalog).filename@);
}

/// A path is from a root by components exactly if its names, one by one, are
/// those components.
pub proof fn paths_go_by_their_names(path: CachePath, root: CacheRoot, components: Seq<Seq<char>>)
    ensures
        path.is(root, components) <==> {
            &&& path.root == root
            &&& path.names@.len() == components.len()
            &&& forall|i: int| 0 <= i < components.len() ==> (#[trigger] path.names@[i])@
                == components[i]
        },
{
    if path.root == root && path.names@.len() == components.len() && (forall|i: int|
        0 <= i < components.len() ==> (#[trigger] path.names@[i])@ == components[i]) {
        assert(path.components() =~= components);
    }
    if path.is(root, components) {
        assert forall|i: int| 0 <= i < components.len() implies (#[trigger] path.names@[i])@
            == components[i] by {
            assert(path.components()[i] == path.names@[i]@);
        }
    }
}

/// Joining a name keeps every name before it.
pub proof fn joining_adds_one_name(dir: CachePath, name: &str, joined: CachePath)
    requires
        call_ensures(CachePath::join, (dir, name), joined),
    ensures
        joined.root == dir.root,
        joined.names@.len() == dir.names@.len() + 1,
        forall|i: int|
            0 <= i < dir.names@.len() ==> (#[trigger] joined.names@[i])@ == dir.names@[i]@,
        joined.names@.last()@ == name@,
{
    paths_go_by_their_names(joined, dir.root, dir.components().push(name@));
}

/// The application's choice of a cache directory is taken as it stands; else
/// it is `demucs-rs` in the platform's; else there is none, and the error says
/// what to do.
pub proof fn cache_directory_is_the_configured_or_the_platforms(
    configured: Option<String>,
    platform: Option<PathBuf>,
    r: Result<CachePath, FfiDemucsError>,
)
    requires
        chosen_cache_dir(configured, platform, r) || call_ensures(
            choose_cache_dir,
            (configured, platform),
            r,
        ),
    ensures
        configured matches Some(chosen) ==> {
            &&& r matches Ok(dir)
            &&& dir.root == CacheRoot::Configured(chosen)
            &&& dir.names@.len() == 0
        },
        configured is None ==> (platform matches Some(base) ==> {
            &&& r matches Ok(dir)
            &&& dir.root == CacheRoot::Platform(base)
            &&& dir.names@.len() == 1
            &&& dir.names@[0]@ == "demucs-rs"@
        }),
        configured is None && platform is None ==> {
            &&& r matches Err(FfiDemucsError::Io { reason })
            &&& reason@ == "could not determine the cache directory; call configure_cache_dir"@
        },
{
    if let Ok(dir) = r {
        if let Some(chosen) = configured {
            paths_go_by_their_names(dir, CacheRoot::Configured(chosen), Seq::empty());
        } else if let Some(base) = platform {
            paths_go_by_their_names(dir, CacheRoot::Platform(base), seq!["demucs-rs"@]);
        }
    }
}

/// Where nothing is configured, the cache directory is the one that the
/// platform's answer leads to.
pub proof fn unconfigured_cache_directory_comes_from_the_platform(
    r: Result<CachePath, FfiDemucsError>,
)
    requires
        is_cache_dir(None, r) || call_ensures(cache_dir, (None,), r),
    ensures
        exists|platform: Option<PathBuf>| #[trigger]
            call_ensures(dirs::cache_dir, (), platform) && match platform {
                Some(base) => {
                    &&& r matches Ok(dir)
                    &&& dir.root == CacheRoot::Platform(base)
                    &&& dir.names@.len() == 1
                    &&& dir.names@[0]@ == "demucs-rs"@
                },
                None => r matches Err(FfiDemucsError::Io { reason }) && reason@
                    == "could not determine the cache directory; call configure_cache_dir"@,
            },
{
    let platform = choose|platform: Option<PathBuf>| #[trigger]
        call_ensures(dirs::cache_dir, (), platform) && chosen_cache_dir(None, platform, r);
    cache_directory_is_the_configured_or_the_platforms(None, platform, r);
}

/// Where a directory is configured, the cache directory is that one.
pub proof fn configured_cache_directory_is_taken(
    chosen: String,
    r: Result<CachePath, FfiDemucsError>,
)
    requires
        is_cache_dir(Some(chosen), r) || call_ensures(cache_dir, (Some(chosen),), r),
    ensures
        r matches Ok(dir) && dir.root == CacheRoot::Configured(chosen) && dir.names@.len() == 0,
{
    cache_directory_is_the_configured_or_the_platforms(Some(chosen), None, r);
}

/// A file is kept directly in the cache directory: by all the names of the
/// directory, then by its own.
pub proof fn files_are_kept_in_the_directory(
    dir: Result<CachePath, FfiDemucsError>,
    filename: &str,
    path: Option<CachePath>,
)
    requires
        kept_in(dir, filename@, path) || call_ensures(path_in, (dir, filename), path),
    ensures
        dir is Ok <==> path is Some,
        dir matches Ok(d) ==> (path matches Some(p) ==> {
            &&& p.root == d.root
            &&& p.names@.len() == d.names@.len() + 1
            &&& forall|i: int| 0 <= i < d.names@.len() ==> (#[trigger] p.names@[i])@
                == d.names@[i]@
            &&& p.names@.last()@ == filename@
        }),
{
    if let (Ok(d), Some(p)) = (dir, path) {
        paths_go_by_their_names(p, d.root, d.components().push(filename@));
    }
}

/// Where nothing is configured, the weights of a model are kept under
/// `demucs-rs` in the directory that the platform offers; where it offers
/// none, they have no place.
pub proof fn unconfigured_models_are_kept_under_demucs_rs(
    model: ModelView,
    catalog: ModelCatalog,
    path: Option<CachePath>,
)
    requires
        is_model_path(model, catalog, None, path),
    ensures
        exists|platform: Option<PathBuf>| #[trigger]
            call_ensures(dirs::cache_dir, (), platform) && match platform {
                Some(base) => path matches Some(p) && p.is(
                    CacheRoot::Platform(base),
                    seq!["demucs-rs"@, model.info(catalog).filename@],
                ),
                None => path is None,
            },
{
    let filename = model.info(catalog).filename@;
    let dir = choose|dir: Result<CachePath, FfiDemucsError>| #[trigger]
        is_cache_dir(None, dir) && kept_in(dir, filename, path);
    let platform = choose|platform: Option<PathBuf>| #[trigger]
        call_ensures(dirs::cache_dir, (), platform) && chosen_cache_dir(None, platform, dir);
    if let Some(base) = platform {
        assert(seq!["demucs-rs"@].push(filename) =~= seq!["demucs-rs"@, filename]);
    }
    assert(call_ensures(dirs::cache_dir, (), platform));
}

/// A path found for a model is that of its file in the cache directory of the
/// same configuration, wherever the platform's directory stays the same.
pub proof fn model_path_is_in_the_cache_directory(
    model: ModelView,
    catalog: ModelCatalog,
    configured: Option<String>,
    path: CachePath,
    dir: CachePath,
)
    requires
        is_model_path(model, catalog, configured, Some(path)),
        is_cache_dir(configured, Ok(dir)),
        configured is None ==> path.root == dir.root,
    ensures
        path.root == dir.root,
        path.components() == dir.components().push(model.info(catalog).filename@),
{
    let filename = model.info(catalog).filename@;
    let found = choose|found: Result<CachePath, FfiDemucsError>| #[trigger]
        is_cache_dir(configured, found) && kept_in(found, filename, Some(path));
    match configured {
        Some(chosen) => {
            configured_cache_directory_is_taken(chosen, found);
            configured_cache_directory_is_taken(chosen, Ok(dir));
        },
        None => {
            unconfigured_cache_directory_comes_from_the_platform(found);
            unconfigured_cache_directory_comes_from_the_platform(Ok(dir));
        },
    }
    assert(found->Ok_0.components() =~= dir.components());
}

/// Where a directory is configured, whether a model is cached is whether its
/// file is in that directory.
pub proof fn cache_is_searched_where_configured<F: FnOnce(&CachePath) -> bool>(
    model: FfiDemucsModel,
    catalog: &ModelCatalog,
    dir: String,
    exists_at: F,
    cached: bool,
    found: Option<CachePath>,
)
    requires
        call_ensures(is_model_cached::<F>, (model, catalog, Some(dir), exists_at), cached),
        call_ensures(cached_model_path::<F>, (model, catalog, Some(dir), exists_at), found),
    ensures
        exists|path: CachePath| #[trigger]
            call_ensures(exists_at, (&path,), cached) && path.is(
                CacheRoot::Configured(dir),
                seq![model@.info(*catalog).filename@],
            ),
        exists|path: CachePath| #[trigger]
            call_ensures(exists_at, (&path,), found is Some) && path.is(
                CacheRoot::Configured(dir),
                seq![model@.info(*catalog).filename@],
            ) && (found is Some ==> found == Some(path)),
{
    let asked = choose|path: Option<CachePath>| #[trigger]
        is_model_path(model@, *catalog, Some(dir), path) && match path {
            Some(path) => call_ensures(exists_at, (&path,), cached),
            None => !cached,
        };
    configured_models_have_a_path(model@, *catalog, dir, asked);
    let seen = choose|path: Option<CachePath>| #[trigger]
        is_model_path(model@, *catalog, Some(dir), path) && match path {
            Some(path) => match found {
                Some(found) => found == path && call_ensures(exists_at, (&path,), true),
                None => call_ensures(exists_at, (&path,), false),
            },
            None => found is None,
        };
    configured_models_have_a_path(model@, *catalog, dir, seen);
    assert(call_ensures(exists_at, (&asked->0,), cached));
    assert(call_ensures(exists_at, (&seen->0,), found is Some));
}

/// Where a directory is configured, the file that is removed for a model is
/// its file in that directory.
pub proof fn files_are_removed_where_configured<F: FnOnce(&CachePath) -> bool>(
    model: FfiDemucsModel,
    catalog: &ModelCatalog,
    dir: String,
    remove: F,
    removed: bool,
)
    requires
        call_ensures(delete_cached_model::<F>, (model, catalog, Some(dir), remove), removed),
    ensures
        exists|path: CachePath| #[trigger]
            call_ensures(remove, (&path,), removed) && path.is(
                CacheRoot::Configured(dir),
                seq![model@.info(*catalog).filename@],
            ),
{
    let asked = choose|path: Option<CachePath>| #[trigger]
        is_model_path(model@, *catalog, Some(dir), path) && match path {
            Some(path) => call_ensures(remove, (&path,), removed),
            None => !removed,
        };
    configured_models_have_a_path(model@, *catalog, dir, asked);
    assert(call_ensures(remove, (&asked->0,), removed));
}

} // verus!
