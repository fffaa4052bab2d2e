//! The command line for making the world cache.

use crate::arguments::{
    canonical_image_path, parse_cache_workers, parse_nonnegative_usize, parse_positive_limit,
    ImagePath,
};
use crate::protocol::DEFAULT_CANVAS_CACHE_WORKERS;
use crate::text::{concat2, copy_text, starts_with_char, text_eq};
use crate::textmap::TextMap;
use crate::arguments;
use crate::error;
use crate::paths;
use crate::text;
use vstd::prelude::*;

verus! {

// ---------------------------------------------------------------------------
// Scopes

/// A way from one wallpaper to another.
#[derive(Clone, Debug, PartialEq, Eq)]
pub struct WorldCacheRoute {
    pub from: String,
    pub to: String,
}

/// Ways, taken by their views.
pub open spec fn route_views(routes: Seq<WorldCacheRoute>) -> Seq<(Seq<char>, Seq<char>)> {
    Seq::new(routes.len(), |i: int| (routes[i].from@, routes[i].to@))
}

/// What of the cache is to be made.
#[derive(Clone, Debug, PartialEq, Eq)]
pub enum WorldCacheComputeScope {
    /// All of it.
    All,
    /// What some ways need.
    Route { routes: Vec<WorldCacheRoute> },
    /// What lies around some wallpapers at a level of detail.
    Neighborhood { centers: Vec<String>, radius: usize, lod: usize },
}

/// What of the cache is to be made, as a mathematical value.
pub enum ScopeView {
    All,
    Route { routes: Seq<(Seq<char>, Seq<char>)> },
    Neighborhood { centers: Seq<Seq<char>>, radius: usize, lod: usize },
}

impl View for WorldCacheComputeScope {
    type V = ScopeView;

    open spec fn view(&self) -> ScopeView {
        match self {
            WorldCacheComputeScope::All => ScopeView::All,
            WorldCacheComputeScope::Route { routes } => ScopeView::Route {
                routes: route_views(routes@),
            },
            WorldCacheComputeScope::Neighborhood { centers, radius, lod } =>
                ScopeView::Neighborhood { centers: text::texts(centers@), radius: *radius, lod: *lod },
        }
    }
}

/// What of the cache is to be made, if anything is told of it.
pub open spec fn scope_if(scope: Option<WorldCacheComputeScope>) -> Option<ScopeView> {
    match scope {
        Some(scope) => Some(scope@),
        None => None,
    }
}

/// What of the cache options ask for: each option belongs to one scope.
pub open spec fn scope_for(
    scope: Option<ScopeView>,
    from: Option<Seq<char>>,
    to: Option<Seq<char>>,
    routes: Seq<(Seq<char>, Seq<char>)>,
    centers: Seq<Seq<char>>,
    radius: Option<usize>,
    lod: Option<usize>,
) -> Result<ScopeView, Seq<char>> {
    match scope {
        Some(ScopeView::Route { .. }) => if centers.len() > 0 || radius is Some || lod is Some {
            Err("world cache compute --center/--radius/--lod require --scope neighborhood"@)
        } else if from is Some && to is None {
            Err("world cache compute --scope route requires --to"@)
        } else if from is None && to is Some {
            Err("world cache compute --scope route requires --from"@)
        } else {
            let all = match (from, to) {
                (Some(from), Some(to)) => routes.push((from, to)),
                _ => routes,
            };
            if all.len() == 0 {
                Err("world cache compute --scope route requires --from/--to or --route"@)
            } else {
                Ok(ScopeView::Route { routes: all })
            }
        },
        Some(ScopeView::Neighborhood { .. }) => if from is Some || to is Some || routes.len() > 0 {
            Err("world cache compute --from/--to/--route require --scope route"@)
        } else if centers.len() == 0 {
            Err("world cache compute --scope neighborhood requires --center"@)
        } else {
            Ok(
                ScopeView::Neighborhood {
                    centers,
                    radius: match radius {
                        Some(radius) => radius,
                        None => 0,
                    },
                    lod: match lod {
                        Some(lod) => lod,
                        None => 0,
                    },
                },
            )
        },
        _ => if from is Some || to is Some || routes.len() > 0 || centers.len() > 0 || radius is Some
            || lod is Some {
            Err(
                "world cache compute route or neighborhood options require --scope route or --scope neighborhood"@,
            )
        } else {
            Ok(ScopeView::All)
        },
    }
}

/// What of the cache options ask for.
pub fn resolve_world_cache_compute_scope(
    scope: Option<WorldCacheComputeScope>,
    from: Option<String>,
    to: Option<String>,
    routes: Vec<WorldCacheRoute>,
    centers: Vec<String>,
    neighborhood_radius: Option<usize>,
    neighborhood_lod: Option<usize>,
) -> (result: Result<WorldCacheComputeScope, String>)
    ensures
        error::agrees_view(
            result,
            scope_for(
                scope_if(scope),
                text::text_if(from),
                text::text_if(to),
                route_views(routes@),
                text::texts(centers@),
                neighborhood_radius,
                neighborhood_lod,
            ),
        ),
{
    assert(route_views(routes@).len() == routes@.len());
    assert(text::texts(centers@).len() == centers@.len());
    match scope {
        Some(WorldCacheComputeScope::Route { .. }) => {
            if centers.len() > 0 || neighborhood_radius.is_some() || neighborhood_lod.is_some() {
                return Err(
                    copy_text(
                        "world cache compute --center/--radius/--lod require --scope neighborhood",
                    ),
                );
            }
            let mut routes = routes;
            let ghost before = routes@;
            match (from, to) {
                (Some(from), Some(to)) => {
                    routes.push(WorldCacheRoute { from, to });
                    assert(route_views(routes@) =~= route_views(before).push((from@, to@)));
                },
                (Some(_), None) => {
                    return Err(copy_text("world cache compute --scope route requires --to"));
                },
                (None, Some(_)) => {
                    return Err(copy_text("world cache compute --scope route requires --from"));
                },
                (None, None) => {},
            }
            assert(route_views(routes@).len() == routes@.len());
            if routes.len() == 0 {
                return Err(
                    copy_text("world cache compute --scope route requires --from/--to or --route"),
                );
            }
            Ok(WorldCacheComputeScope::Route { routes })
        },
        Some(WorldCacheComputeScope::Neighborhood { .. }) => {
            if from.is_some() || to.is_some() || routes.len() > 0 {
                return Err(
                    copy_text("world cache compute --from/--to/--route require --scope route"),
                );
            }
            if centers.len() == 0 {
                return Err(
                    copy_text("world cache compute --scope neighborhood requires --center"),
                );
            }
            let radius: usize = match neighborhood_radius {
                Some(radius) => radius,
                None => 0,
            };
            let lod: usize = match neighborhood_lod {
                Some(lod) => lod,
                None => 0,
            };
            Ok(WorldCacheComputeScope::Neighborhood { centers, radius, lod })
        },
        _ => {
            if from.is_some() || to.is_some() || routes.len() > 0 || centers.len() > 0
                || neighborhood_radius.is_some() || neighborhood_lod.is_some() {
                return Err(
                    copy_text(
                        "world cache compute route or neighborhood options require --scope route or --scope neighborhood",
                    ),
                );
            }
            Ok(WorldCacheComputeScope::All)
        },
    }
}

// ---------------------------------------------------------------------------
// Options

/// Where the cache is made.
#[derive(Clone, Copy, Debug, PartialEq, Eq, Structural)]
pub enum WorldCacheComputeExecution {
    Foreground,
    Background,
}

/// How the cache is to be made.
#[derive(Clone, Debug, PartialEq, Eq)]
pub struct WorldCacheComputeOptions {
    pub dry_run: bool,
    pub execution: WorldCacheComputeExecution,
    pub progress: bool,
    pub json: bool,
    pub workers: usize,
    pub limit: Option<usize>,
    pub tile_limit: Option<usize>,
    pub scope: WorldCacheComputeScope,
}

/// How the cache is to be made, as a mathematical value.
pub struct ComputeOptionsView {
    pub dry_run: bool,
    pub execution: WorldCacheComputeExecution,
    pub progress: bool,
    pub json: bool,
    pub workers: usize,
    pub limit: Option<usize>,
    pub tile_limit: Option<usize>,
    pub scope: ScopeView,
}

impl View for WorldCacheComputeOptions {
    type V = ComputeOptionsView;

    open spec fn view(&self) -> ComputeOptionsView {
        ComputeOptionsView {
            dry_run: self.dry_run,
            execution: self.execution,
            progress: self.progress,
            json: self.json,
            workers: self.workers,
            limit: self.limit,
            tile_limit: self.tile_limit,
            scope: self.scope@,
        }
    }
}

/// What has been read of how the cache is to be made.
pub struct ComputeState {
    pub dry_run: bool,
    pub execution: WorldCacheComputeExecution,
    pub progress: bool,
    pub json: bool,
    pub workers: usize,
    pub limit: Option<usize>,
    pub tile_limit: Option<usize>,
    pub scope: Option<WorldCacheComputeScope>,
    pub from: Option<String>,
    pub to: Option<String>,
    pub routes: Vec<WorldCacheRoute>,
    pub centers: Vec<String>,
    pub radius: Option<usize>,
    pub lod: Option<usize>,
}

/// What has been read of how the cache is to be made, as a mathematical value.
pub struct StateView {
    pub dry_run: bool,
    pub execution: WorldCacheComputeExecution,
    pub progress: bool,
    pub json: bool,
    pub workers: usize,
    pub limit: Option<usize>,
    pub tile_limit: Option<usize>,
    pub scope: Option<ScopeView>,
    pub from: Option<Seq<char>>,
    pub to: Option<Seq<char>>,
    pub routes: Seq<(Seq<char>, Seq<char>)>,
    pub centers: Seq<Seq<char>>,
    pub radius: Option<usize>,
    pub lod: Option<usize>,
}

impl View for ComputeState {
    type V = StateView;

    open spec fn view(&self) -> StateView {
        StateView {
            dry_run: self.dry_run,
            execution: self.execution,
            progress: self.progress,
            json: self.json,
            workers: self.workers,
            limit: self.limit,
            tile_limit: self.tile_limit,
            scope: scope_if(self.scope),
            from: text::text_if(self.from),
            to: text::text_if(self.to),
            routes: route_views(self.routes@),
            centers: text::texts(self.centers@),
            radius: self.radius,
            lod: self.lod,
        }
    }
}

/// What is known before arguments are read.
pub open spec fn nothing_read() -> StateView {
    StateView {
        dry_run: false,
        execution: WorldCacheComputeExecution::Foreground,
        progress: false,
        json: false,
        workers: DEFAULT_CANVAS_CACHE_WORKERS,
        limit: None,
        tile_limit: None,
        scope: None,
        from: None,
        to: None,
        routes: Seq::empty(),
        centers: Seq::empty(),
        radius: None,
        lod: None,
    }
}

/// What is known after an option that stands by itself, if it is one.
pub open spec fn with_flag(s: StateView, option: Seq<char>) -> Option<StateView> {
    if option == "--dry-run"@ {
        Some(StateView { dry_run: true, ..s })
    } else if option == "--background"@ {
        Some(StateView { execution: WorldCacheComputeExecution::Background, ..s })
    } else if option == "--progress"@ {
        Some(StateView { progress: true, ..s })
    } else if option == "--json"@ {
        Some(StateView { json: true, ..s })
    } else {
        None
    }
}

/// What to say of an option that has no value, if it is one that needs a value.
pub open spec fn compute_missing(option: Seq<char>) -> Option<Seq<char>> {
    if option == "--scope"@ {
        Some("--scope requires all, route, or neighborhood"@)
    } else if option == "--from"@ {
        Some("--from requires a wallpaper path"@)
    } else if option == "--to"@ {
        Some("--to requires a wallpaper path"@)
    } else if option == "--center"@ {
        Some("--center requires a wallpaper path"@)
    } else if option == "--radius"@ {
        Some("--radius requires a non-negative integer"@)
    } else if option == "--lod"@ {
        Some("--lod requires a non-negative integer"@)
    } else if option == "--workers"@ {
        Some("--workers requires a positive integer"@)
    } else if option == "--limit"@ {
        Some("--limit requires a positive integer"@)
    } else if option == "--tile-limit"@ {
        Some("--tile-limit requires a positive integer"@)
    } else {
        None
    }
}

/// The scope with a name.
pub open spec fn scope_named(name: Seq<char>) -> Result<ScopeView, Seq<char>> {
    if name == "all"@ {
        Ok(ScopeView::All)
    } else if name == "route"@ {
        Ok(ScopeView::Route { routes: Seq::empty() })
    } else if name == "neighborhood"@ {
        Ok(ScopeView::Neighborhood { centers: Seq::empty(), radius: 0, lod: 0 })
    } else {
        Err("world cache compute --scope must be all, route, or neighborhood"@)
    }
}

/// What is known after an option that has a value.
pub open spec fn with_value(
    s: StateView,
    option: Seq<char>,
    value: Seq<char>,
    images: Seq<(Seq<char>, ImagePath)>,
) -> Result<StateView, Seq<char>> {
    if option == "--scope"@ {
        match scope_named(value) {
            Err(message) => Err(message),
            Ok(scope) => Ok(StateView { scope: Some(scope), ..s }),
        }
    } else if option == "--from"@ {
        match arguments::image_in(images, value) {
            Err(message) => Err(message),
            Ok(path) => Ok(StateView { from: Some(path), ..s }),
        }
    } else if option == "--to"@ {
        match arguments::image_in(images, value) {
            Err(message) => Err(message),
            Ok(path) => Ok(StateView { to: Some(path), ..s }),
        }
    } else if option == "--center"@ {
        match arguments::image_in(images, value) {
            Err(message) => Err(message),
            Ok(path) => Ok(StateView { centers: s.centers.push(path), ..s }),
        }
    } else if option == "--radius"@ {
        match arguments::count_in(value, "integer"@) {
            Err(message) => Err(message),
            Ok(radius) => Ok(StateView { radius: Some(radius), ..s }),
        }
    } else if option == "--lod"@ {
        match arguments::count_in(value, "integer"@) {
            Err(message) => Err(message),
            Ok(lod) => Ok(StateView { lod: Some(lod), ..s }),
        }
    } else if option == "--workers"@ {
        match arguments::positive_count_in(value, "cache worker count"@) {
            Err(message) => Err(message),
            Ok(workers) => Ok(StateView { workers, ..s }),
        }
    } else if option == "--limit"@ {
        match arguments::positive_count_in(value, "limit"@) {
            Err(message) => Err(message),
            Ok(limit) => Ok(StateView { limit: Some(limit), ..s }),
        }
    } else {
        match arguments::positive_count_in(value, "limit"@) {
            Err(message) => Err(message),
            Ok(limit) => Ok(StateView { tile_limit: Some(limit), ..s }),
        }
    }
}

/// What is known after an option that names a way.
pub open spec fn with_route(
    args: Seq<Seq<char>>,
    index: int,
    s: StateView,
    images: Seq<(Seq<char>, ImagePath)>,
) -> Result<StateView, Seq<char>> {
    if index + 1 >= args.len() {
        Err("--route requires FROM and TO wallpaper paths"@)
    } else {
        match arguments::image_in(images, args[index + 1]) {
            Err(message) => Err(message),
            Ok(from) => if index + 2 >= args.len() {
                Err("--route requires FROM and TO wallpaper paths"@)
            } else {
                match arguments::image_in(images, args[index + 2]) {
                    Err(message) => Err(message),
                    Ok(to) => Ok(StateView { routes: s.routes.push((from, to)), ..s }),
                }
            },
        }
    }
}

/// What is known after the arguments from one on.
pub open spec fn compute_from(
    args: Seq<Seq<char>>,
    index: int,
    s: StateView,
    images: Seq<(Seq<char>, ImagePath)>,
) -> Result<StateView, Seq<char>>
    decreases args.len() - index,
{
    if index >= args.len() {
        Ok(s)
    } else if args[index] == "--route"@ {
        match with_route(args, index, s, images) {
            Err(message) => Err(message),
            Ok(next) => compute_from(args, index + 3, next, images),
        }
    } else {
        match with_flag(s, args[index]) {
            Some(next) => compute_from(args, index + 1, next, images),
            None => match compute_missing(args[index]) {
                Some(message) => if index + 1 >= args.len() {
                    Err(message)
                } else {
                    match with_value(s, args[index], args[index + 1], images) {
                        Err(message) => Err(message),
                        Ok(next) => compute_from(args, index + 2, next, images),
                    }
                },
                None => if args[index].len() > 0 && args[index][0] == '-' {
                    Err("unknown world cache compute option: "@ + args[index])
                } else {
                    Err("world cache compute does not accept argument: "@ + args[index])
                },
            },
        }
    }
}

/// How the cache is to be made, once all arguments are read.
pub open spec fn compute_done(s: StateView) -> Result<ComputeOptionsView, Seq<char>> {
    match scope_for(s.scope, s.from, s.to, s.routes, s.centers, s.radius, s.lod) {
        Err(message) => Err(message),
        Ok(scope) => if scope !is All && s.limit is Some {
            Err(
                "world cache compute --limit is only supported with --scope all; use --tile-limit to cap selected tile work"@,
            )
        } else if s.execution == WorldCacheComputeExecution::Background && s.dry_run {
            Err("world cache compute --background cannot be combined with --dry-run"@)
        } else {
            Ok(
                ComputeOptionsView {
                    dry_run: s.dry_run,
                    execution: s.execution,
                    progress: s.progress,
                    json: s.json,
                    workers: s.workers,
                    limit: s.limit,
                    tile_limit: s.tile_limit,
                    scope,
                },
            )
        },
    }
}

/// How arguments ask for the cache to be made.
pub open spec fn compute_options(args: Seq<Seq<char>>, images: Seq<(Seq<char>, ImagePath)>) -> Result<
    ComputeOptionsView,
    Seq<char>,
> {
    match compute_from(args, 0, nothing_read(), images) {
        Err(message) => Err(message),
        Ok(s) => compute_done(s),
    }
}

impl ComputeState {
    fn new() -> (state: Self)
        ensures
            state@ == nothing_read(),
    {
        let state = ComputeState {
            dry_run: false,
            execution: WorldCacheComputeExecution::Foreground,
            progress: false,
            json: false,
            workers: DEFAULT_CANVAS_CACHE_WORKERS,
            limit: None,
            tile_limit: None,
            scope: None,
            from: None,
            to: None,
            routes: Vec::new(),
            centers: Vec::new(),
            radius: None,
            lod: None,
        };
        assert(state@.routes =~= Seq::<(Seq<char>, Seq<char>)>::empty());
        assert(state@.centers =~= Seq::<Seq<char>>::empty());
        state
    }

    fn set_flag(&mut self, option: &str) -> (is_flag: bool)
        ensures
            is_flag == with_flag(old(self)@, option@) is Some,
            final(self)@ == match with_flag(old(self)@, option@) {
                Some(next) => next,
                None => old(self)@,
            },
    {
        if text_eq(option, "--dry-run") {
            self.dry_run = true;
        } else if text_eq(option, "--background") {
            self.execution = WorldCacheComputeExecution::Background;
        } else if text_eq(option, "--progress") {
            self.progress = true;
        } else if text_eq(option, "--json") {
            self.json = true;
        } else {
            return false;
        }
        true
    }

    fn set_scope(&mut self, value: &str) -> (result: Result<(), String>)
        ensures
            match (result, scope_named(value@)) {
                (Ok(_), Ok(scope)) => final(self)@ == (StateView {
                    scope: Some(scope),
                    ..old(self)@
                }),
                (Err(message), Err(expected)) => message@ == expected,
                _ => false,
            },
    {
        if text_eq(value, "all") {
            self.scope = Some(WorldCacheComputeScope::All);
        } else if text_eq(value, "route") {
            let routes: Vec<WorldCacheRoute> = Vec::new();
            assert(route_views(routes@) =~= Seq::<(Seq<char>, Seq<char>)>::empty());
            self.scope = Some(WorldCacheComputeScope::Route { routes });
        } else if text_eq(value, "neighborhood") {
            let centers: Vec<String> = Vec::new();
            assert(text::texts(centers@) =~= Seq::<Seq<char>>::empty());
            self.scope = Some(
                WorldCacheComputeScope::Neighborhood { centers, radius: 0, lod: 0 },
            );
        } else {
            return Err(
                copy_text("world cache compute --scope must be all, route, or neighborhood"),
            );
        }
        Ok(())
    }

    fn set_value(&mut self, option: &str, value: &str, images: &TextMap<ImagePath>) -> (result:
        Result<(), String>)
        ensures
            match (result, with_value(old(self)@, option@, value@, images.raw())) {
                (Ok(_), Ok(next)) => final(self)@ == next,
                (Err(message), Err(expected)) => message@ == expected,
                _ => false,
            },
    {
        if text_eq(option, "--scope") {
            return self.set_scope(value);
        }
        if text_eq(option, "--from") {
            self.from = Some(canonical_image_path(images, value)?);
        } else if text_eq(option, "--to") {
            self.to = Some(canonical_image_path(images, value)?);
        } else if text_eq(option, "--center") {
            let path = canonical_image_path(images, value)?;
            let ghost before = self@;
            self.centers.push(path);
            assert(self@.centers =~= before.centers.push(path@));
        } else if text_eq(option, "--radius") {
            self.radius = Some(parse_nonnegative_usize(value)?);
        } else if text_eq(option, "--lod") {
            self.lod = Some(parse_nonnegative_usize(value)?);
        } else if text_eq(option, "--workers") {
            self.workers = parse_cache_workers(value)?;
        } else if text_eq(option, "--limit") {
            self.limit = Some(parse_positive_limit(value)?);
        } else {
            self.tile_limit = Some(parse_positive_limit(value)?);
        }
        Ok(())
    }

    fn add_route(&mut self, args: &Vec<String>, index: usize, images: &TextMap<ImagePath>) -> (result:
        Result<(), String>)
        requires
            index < args@.len(),
        ensures
            match (result, with_route(text::texts(args@), index as int, old(self)@, images.raw())) {
                (Ok(_), Ok(next)) => final(self)@ == next && index + 2 < args@.len(),
                (Err(message), Err(expected)) => message@ == expected,
                _ => false,
            },
    {
        assert(text::texts(args@).len() == args@.len());
        if args.len() - index < 2 {
            return Err(copy_text("--route requires FROM and TO wallpaper paths"));
        }
        assert(text::texts(args@)[index + 1] == args@[index + 1]@);
        let from = canonical_image_path(images, args[index + 1].as_str())?;
        if args.len() - index < 3 {
            return Err(copy_text("--route requires FROM and TO wallpaper paths"));
        }
        assert(text::texts(args@)[index + 2] == args@[index + 2]@);
        let to = canonical_image_path(images, args[index + 2].as_str())?;
        let ghost before = self@;
        self.routes.push(WorldCacheRoute { from, to });
        assert(self@.routes =~= before.routes.push((from@, to@)));
        Ok(())
    }

    fn finish(self) -> (result: Result<WorldCacheComputeOptions, String>)
        ensures
            error::agrees_view(result, compute_done(self@)),
    {
        let scope = resolve_world_cache_compute_scope(
            self.scope,
            self.from,
            self.to,
            self.routes,
            self.centers,
            self.radius,
            self.lod,
        )?;
        if !matches!(scope, WorldCacheComputeScope::All) && self.limit.is_some() {
            return Err(
                copy_text(
                    "world cache compute --limit is only supported with --scope all; use --tile-limit to cap selected tile work",
                ),
            );
        }
        if self.execution == WorldCacheComputeExecution::Background && self.dry_run {
            return Err(
                copy_text("world cache compute --background cannot be combined with --dry-run"),
            );
        }
        Ok(
            WorldCacheComputeOptions {
                dry_run: self.dry_run,
                execution: self.execution,
                progress: self.progress,
                json: self.json,
                workers: self.workers,
                limit: self.limit,
                tile_limit: self.tile_limit,
                scope,
            },
        )
    }
}

fn missing_value_of(option: &str) -> (message: Option<&'static str>)
    ensures
        paths::str_if(message) == compute_missing(option@),
{
    if text_eq(option, "--scope") {
        Some("--scope requires all, route, or neighborhood")
    } else if text_eq(option, "--from") {
        Some("--from requires a wallpaper path")
    } else if text_eq(option, "--to") {
        Some("--to requires a wallpaper path")
    } else if text_eq(option, "--center") {
        Some("--center requires a wallpaper path")
    } else if text_eq(option, "--radius") {
        Some("--radius requires a non-negative integer")
    } else if text_eq(option, "--lod") {
        Some("--lod requires a non-negative integer")
    } else if text_eq(option, "--workers") {
        Some("--workers requires a positive integer")
    } else if text_eq(option, "--limit") {
        Some("--limit requires a positive integer")
    } else if text_eq(option, "--tile-limit") {
        Some("--tile-limit requires a positive integer")
    } else {
        None
    }
}

/// Reads how arguments ask for the cache to be made.
pub fn parse_world_cache_compute_options(args: &Vec<String>, images: &TextMap<ImagePath>)
    -> (result: Result<WorldCacheComputeOptions, String>)
    ensures
        error::agrees_view(result, compute_options(text::texts(args@), images.raw())),
{
    let ghost all = text::texts(args@);
    let ghost wanted = compute_from(all, 0, nothing_read(), images.raw());
    let mut state = ComputeState::new();
    let mut index: usize = 0;
    while index < args.len()
        invariant
            index <= args@.len(),
            all == text::texts(args@),
            all.len() == args@.len(),
            wanted == compute_from(all, 0, nothing_read(), images.raw()),
            wanted == compute_from(all, index as int, state@, images.raw()),
        decreases args@.len() - index,
    {
        let arg = args[index].as_str();
        assert(all[index as int] == arg@);
        if text_eq(arg, "--route") {
            state.add_route(args, index, images)?;
            index = index + 3;
        } else if state.set_flag(arg) {
            index = index + 1;
        } else {
            match missing_value_of(arg) {
                Some(message) => {
                    if args.len() - index < 2 {
                        return Err(copy_text(message));
                    }
                    assert(all[index + 1] == args@[index + 1]@);
                    state.set_value(arg, args[index + 1].as_str(), images)?;
                    index = index + 2;
                },
                None => {
                    if starts_with_char(arg, '-') {
                        return Err(concat2("unknown world cache compute option: ", arg));
                    }
                    return Err(concat2("world cache compute does not accept argument: ", arg));
                },
            }
        }
    }
    state.finish()
}

} // verus!
