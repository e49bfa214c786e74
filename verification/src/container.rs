//! The application state container: one instance of every engine plus
//! the cross-cutting route, dispatching incoming intent messages to the
//! engine that owns them. It is the sole mutation point; the view layer
//! consumes the resulting snapshot and the returned instruction.

use vstd::prelude::*;
use crate::gallery::{
    advance_model, all_loaded_model, empty_gallery_model, gallery_wf, image_loaded_model,
    keys_from, merge_model, next_image_loaded_model, next_keys, start_initial_model, Effect,
    Gallery,
};
use crate::games::{
    initial_model, update_model, update_result_model, update_rng_model, GameError, GameModel,
    GameMsg, GameState,
};
use crate::rng::{rng_next, rng_val, Rng};
use crate::route::Route;

verus! {

/// The top-level intent messages of the application.
#[derive(Debug, Clone, PartialEq)]
pub enum Msg {
    /// Load the first image batch, or advance to the next image.
    FetchCat,
    /// One image of the first batch finished loading; the payload is the
    /// index the collaborator addressed.
    ImageLoaded(usize),
    /// The whole first batch finished loading.
    AllImagesLoaded,
    /// One image of the look-ahead batch finished loading.
    NextBatchImageLoaded,
    /// The whole look-ahead batch finished loading.
    NextBatchComplete,
    /// The user chose a screen.
    NavigateTo(Route),
    /// The location hash changed underneath the application.
    UrlChanged(Route),
    /// A message for one of the game engines.
    Game(GameMsg),
}

impl From<GameMsg> for Msg {
    fn from(game_msg: GameMsg) -> (r: Msg) {
        Msg::Game(game_msg)
    }
}

impl vstd::std_specs::convert::FromSpecImpl<GameMsg> for Msg {
    open spec fn obeys_from_spec() -> bool {
        true
    }

    open spec fn from_spec(t: GameMsg) -> Msg {
        Msg::Game(t)
    }
}

/// The whole application state.
#[derive(Debug)]
pub struct AppState {
    pub current_route: Route,
    pub games: GameState,
    pub gallery: Gallery,
}

/// The mathematical model of `AppState`.
#[verifier::ext_equal]
pub struct AppModel {
    pub route: Route,
    pub games: GameModel,
    pub gallery: crate::gallery::GalleryModel,
}

impl View for AppState {
    type V = AppModel;

    open spec fn view(&self) -> AppModel {
        AppModel { route: self.current_route, games: self.games@, gallery: self.gallery@ }
    }
}

/// Well-formedness of the whole application state.
pub open spec fn app_wf(m: AppModel) -> bool {
    crate::games::wf(m.games) && gallery_wf(m.gallery)
}

/// Whether arriving at `route` auto-loads the gallery: only on the cats
/// screen, only while nothing was ever loaded and nothing is loading.
pub open spec fn route_triggers_load(m: AppModel, route: Route) -> bool {
    route == Route::Cats && m.gallery.batch.len() == 0 && !m.gallery.loading
}

/// Arriving at a route: the route is stored, and first arrival on the
/// cats screen starts the initial image batch.
pub open spec fn route_sync_model(m: AppModel, route: Route, base: u64) -> AppModel {
    let m1 = AppModel { route: route, ..m };
    if route_triggers_load(m, route) {
        AppModel { gallery: start_initial_model(m.gallery, base), ..m1 }
    } else {
        m1
    }
}

impl AppState {
    /// A fresh application: home screen, fresh games, empty gallery.
    pub fn new(rng: &mut Rng) -> (r: AppState)
        ensures
            r@.route == Route::Home,
            r@.games == initial_model(rng_val(old(rng).state, 1, 100)),
            r@.gallery == empty_gallery_model(),
            final(rng).state == rng_next(old(rng).state),
            app_wf(r@),
    {
        let r = AppState {
            current_route: Route::Home,
            games: GameState::new(rng),
            gallery: Gallery::new(),
        };
        proof {
            assert(r@.gallery =~~= empty_gallery_model());
        }
        r
    }

    /// Stores a newly arrived route and auto-loads the gallery on first
    /// arrival at the cats screen.
    fn apply_route(&mut self, route: Route, now: u64) -> (e: Effect)
        requires
            gallery_wf(old(self)@.gallery),
            now as int + 10 <= u64::MAX,
        ensures
            final(self)@ == route_sync_model(old(self)@, route, now),
            route_triggers_load(old(self)@, route) ==> (e matches Effect::PreloadInitial(keys)
                && keys@ == keys_from(now as int)),
            !route_triggers_load(old(self)@, route) ==> e == Effect::Nothing,
    {
        self.current_route = route;
        let e = if route == Route::Cats && self.gallery.current_batch.len() == 0
            && !self.gallery.is_loading_current {
            self.gallery.start_initial_batch(now)
        } else {
            Effect::Nothing
        };
        proof {
            assert(self@ =~~= route_sync_model(old(self)@, route, now));
        }
        e
    }

    /// Processes one intent message to completion: routes it to the
    /// owning engine and returns the instruction the view layer must
    /// carry out. `now` is the external clock reading that keys freshly
    /// materialized image references.
    pub fn update(&mut self, msg: Msg, now: u64, rng: &mut Rng) -> (r: Result<Effect, GameError>)
        requires
            app_wf(old(self)@),
            old(self).games.rps_score.0 < i32::MAX,
            old(self).games.rps_score.1 < i32::MAX,
            old(self).games.guess_attempts < i32::MAX,
            old(self).games.memory_moves < i32::MAX,
            now as int + old(self)@.gallery.total + 1010 <= u64::MAX,
        ensures
            app_wf(final(self)@),
            match msg {
                Msg::FetchCat => {
                    &&& final(self)@ == (AppModel {
                        gallery: advance_model(old(self)@.gallery, now),
                        ..old(self)@
                    })
                    &&& final(rng).state == old(rng).state
                    &&& r is Ok
                    &&& (old(self)@.gallery.batch.len() == 0 ==> (r matches Ok(
                        Effect::PreloadInitial(keys),
                    ) && keys@ == keys_from(now as int)))
                    &&& (old(self)@.gallery.batch.len() > 0 && advance_model(
                        old(self)@.gallery,
                        now,
                    ).prefetching && !old(self)@.gallery.prefetching ==> (r matches Ok(
                        Effect::PreloadNext(keys),
                    ) && keys@ == next_keys(now, old(self)@.gallery.total)))
                },
                Msg::ImageLoaded(_) => final(self)@ == (AppModel {
                    gallery: image_loaded_model(old(self)@.gallery),
                    ..old(self)@
                }) && final(rng).state == old(rng).state && r == Ok::<Effect, GameError>(
                    Effect::Nothing,
                ),
                Msg::AllImagesLoaded => final(self)@ == (AppModel {
                    gallery: all_loaded_model(old(self)@.gallery),
                    ..old(self)@
                }) && final(rng).state == old(rng).state && r == Ok::<Effect, GameError>(
                    Effect::Nothing,
                ),
                Msg::NextBatchImageLoaded => final(self)@ == (AppModel {
                    gallery: next_image_loaded_model(old(self)@.gallery),
                    ..old(self)@
                }) && final(rng).state == old(rng).state && r == Ok::<Effect, GameError>(
                    Effect::Nothing,
                ),
                Msg::NextBatchComplete => final(self)@ == (AppModel {
                    gallery: merge_model(old(self)@.gallery),
                    ..old(self)@
                }) && final(rng).state == old(rng).state && r == Ok::<Effect, GameError>(
                    Effect::Nothing,
                ),
                Msg::NavigateTo(route) => {
                    &&& final(self)@ == route_sync_model(old(self)@, route, now)
                    &&& final(rng).state == old(rng).state
                    &&& (route_triggers_load(old(self)@, route) ==> (r matches Ok(
                        Effect::PreloadInitial(keys),
                    ) && keys@ == keys_from(now as int)))
                    &&& (!route_triggers_load(old(self)@, route) ==> r == Ok::<Effect, GameError>(
                        Effect::Nothing,
                    ))
                },
                Msg::UrlChanged(route) => {
                    &&& final(self)@ == route_sync_model(old(self)@, route, now)
                    &&& final(rng).state == old(rng).state
                    &&& (route_triggers_load(old(self)@, route) ==> (r matches Ok(
                        Effect::PreloadInitial(keys),
                    ) && keys@ == keys_from(now as int)))
                    &&& (!route_triggers_load(old(self)@, route) ==> r == Ok::<Effect, GameError>(
                        Effect::Nothing,
                    ))
                },
                Msg::Game(gmsg) => {
                    &&& final(self)@.route == old(self)@.route
                    &&& final(self)@.gallery == old(self)@.gallery
                    &&& final(rng).state == update_rng_model(old(rng).state, gmsg)
                    &&& (update_result_model(old(self)@.games, gmsg) matches Ok(()) ==> r == Ok::<
                        Effect,
                        GameError,
                    >(Effect::Nothing) && final(self)@.games == update_model(
                        old(self)@.games,
                        gmsg,
                        old(rng).state,
                    ))
                    &&& (forall|e: GameError|
                        update_result_model(old(self)@.games, gmsg) == Err::<(), GameError>(e)
                            ==> r == Err::<Effect, GameError>(e) && final(self)@.games == old(
                            self,
                        )@.games)
                },
            },
    {
        match msg {
            Msg::FetchCat => {
                let e = self.gallery.advance(now);
                Ok(e)
            },
            Msg::ImageLoaded(index) => {
                self.gallery.image_loaded(index);
                Ok(Effect::Nothing)
            },
            Msg::AllImagesLoaded => {
                self.gallery.all_images_loaded();
                Ok(Effect::Nothing)
            },
            Msg::NextBatchImageLoaded => {
                self.gallery.next_batch_image_loaded();
                Ok(Effect::Nothing)
            },
            Msg::NextBatchComplete => {
                self.gallery.next_batch_complete();
                Ok(Effect::Nothing)
            },
            Msg::NavigateTo(route) => {
                let e = self.apply_route(route, now);
                Ok(e)
            },
            Msg::UrlChanged(route) => {
                let e = self.apply_route(route, now);
                Ok(e)
            },
            Msg::Game(game_msg) => match self.games.update(game_msg, rng) {
                Ok(()) => Ok(Effect::Nothing),
                Err(e) => Err(e),
            },
        }
    }
}

} // verus!
