//! Hash-based routing: a closed set of named screens selected from an
//! external string key. Unrecognized keys map to the terminal `NotFound`
//! variant rather than raising an error.

use vstd::prelude::*;
use crate::strutil::str_eq;

verus! {

/// The screens of the application.
#[derive(Debug, Clone, Copy, PartialEq, Eq, Structural)]
pub enum Route {
    Home,
    Counter,
    Cats,
    Games,
    About,
    NotFound,
}

/// The route selected by a location hash.
pub open spec fn route_of_hash(h: Seq<char>) -> Route {
    if h == "#/"@ || h == "#"@ || h == ""@ {
        Route::Home
    } else if h == "#/counter"@ {
        Route::Counter
    } else if h == "#/cats"@ {
        Route::Cats
    } else if h == "#/games"@ {
        Route::Games
    } else if h == "#/about"@ {
        Route::About
    } else {
        Route::NotFound
    }
}

/// The location hash that names a route.
pub open spec fn hash_of_route(r: Route) -> Seq<char> {
    match r {
        Route::Home => "#/"@,
        Route::Counter => "#/counter"@,
        Route::Cats => "#/cats"@,
        Route::Games => "#/games"@,
        Route::About => "#/about"@,
        Route::NotFound => "#/404"@,
    }
}

impl Route {
    /// Maps an external location hash to its screen; every unknown key
    /// yields `NotFound`.
    pub fn from_hash(hash: &str) -> (r: Route)
        ensures
            r == route_of_hash(hash@),
    {
        if str_eq(hash, "#/") || str_eq(hash, "#") || str_eq(hash, "") {
            Route::Home
        } else if str_eq(hash, "#/counter") {
            Route::Counter
        } else if str_eq(hash, "#/cats") {
            Route::Cats
        } else if str_eq(hash, "#/games") {
            Route::Games
        } else if str_eq(hash, "#/about") {
            Route::About
        } else {
            Route::NotFound
        }
    }

    /// The location hash for this screen.
    pub fn to_hash(&self) -> (r: &'static str)
        ensures
            r@ == hash_of_route(*self),
    {
        match self {
            Route::Home => "#/",
            Route::Counter => "#/counter",
            Route::Cats => "#/cats",
            Route::Games => "#/games",
            Route::About => "#/about",
            Route::NotFound => "#/404",
        }
    }
}

} // verus!
