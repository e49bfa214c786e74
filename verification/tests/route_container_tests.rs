use app_core::container::AppState;
use app_core::container::Msg;
use app_core::gallery::Effect;
use app_core::games::GameMsg;
use app_core::rng::Rng;
use app_core::route::Route;

#[test]
fn known_hashes_map_to_their_screens() {
    assert_eq!(Route::from_hash("#/"), Route::Home);
    assert_eq!(Route::from_hash("#"), Route::Home);
    assert_eq!(Route::from_hash(""), Route::Home);
    assert_eq!(Route::from_hash("#/counter"), Route::Counter);
    assert_eq!(Route::from_hash("#/cats"), Route::Cats);
    assert_eq!(Route::from_hash("#/games"), Route::Games);
    assert_eq!(Route::from_hash("#/about"), Route::About);
}

#[test]
fn unknown_hashes_map_to_not_found() {
    assert_eq!(Route::from_hash("#/nope"), Route::NotFound);
    assert_eq!(Route::from_hash("#/counter/"), Route::NotFound);
    assert_eq!(Route::from_hash("##"), Route::NotFound);
    assert_eq!(Route::from_hash("#/404"), Route::NotFound);
}

#[test]
fn every_route_round_trips_through_its_hash() {
    for r in [Route::Home, Route::Counter, Route::Cats, Route::Games, Route::About] {
        assert_eq!(Route::from_hash(r.to_hash()), r);
    }
    assert_eq!(Route::NotFound.to_hash(), "#/404");
    assert_eq!(Route::from_hash(Route::NotFound.to_hash()), Route::NotFound);
}

#[test]
fn fresh_app_starts_at_home() {
    let mut rng = Rng::new(1);
    let app = AppState::new(&mut rng);
    assert_eq!(app.current_route, Route::Home);
    assert!(app.gallery.current_batch.is_empty());
    assert!(app.games.memory_cards.is_empty());
}

#[test]
fn navigating_to_cats_auto_loads_the_gallery() {
    let mut rng = Rng::new(1);
    let mut app = AppState::new(&mut rng);
    let e = app.update(Msg::NavigateTo(Route::Cats), 5000, &mut rng).unwrap();
    assert_eq!(app.current_route, Route::Cats);
    assert!(matches!(e, Effect::PreloadInitial(_)));
    assert_eq!(app.gallery.current_batch.len(), 10);
    assert!(app.gallery.is_loading_current);
    // Coming back later never reloads: the batch already exists.
    app.update(Msg::AllImagesLoaded, 5001, &mut rng).unwrap();
    let e = app.update(Msg::NavigateTo(Route::Home), 5002, &mut rng).unwrap();
    assert_eq!(e, Effect::Nothing);
    let e = app.update(Msg::NavigateTo(Route::Cats), 5003, &mut rng).unwrap();
    assert_eq!(e, Effect::Nothing);
    assert_eq!(app.gallery.current_batch.len(), 10);
}

#[test]
fn url_change_behaves_like_navigation() {
    let mut rng = Rng::new(1);
    let mut app = AppState::new(&mut rng);
    let e = app.update(Msg::UrlChanged(Route::Games), 0, &mut rng).unwrap();
    assert_eq!(e, Effect::Nothing);
    assert_eq!(app.current_route, Route::Games);
    let e = app.update(Msg::UrlChanged(Route::Cats), 100, &mut rng).unwrap();
    assert!(matches!(e, Effect::PreloadInitial(_)));
    assert_eq!(app.current_route, Route::Cats);
}

#[test]
fn fetch_cat_drives_the_pipeline_through_the_container() {
    let mut rng = Rng::new(1);
    let mut app = AppState::new(&mut rng);
    let e = app.update(Msg::FetchCat, 5000, &mut rng).unwrap();
    assert!(matches!(e, Effect::PreloadInitial(_)));
    for i in 0..10 {
        app.update(Msg::ImageLoaded(i), 5000, &mut rng).unwrap();
    }
    assert!(!app.gallery.is_loading_current);
    for _ in 0..7 {
        let e = app.update(Msg::FetchCat, 6000, &mut rng).unwrap();
        assert_eq!(e, Effect::Nothing);
    }
    let e = app.update(Msg::FetchCat, 6000, &mut rng).unwrap();
    assert!(matches!(e, Effect::PreloadNext(_)));
    for _ in 0..9 {
        app.update(Msg::NextBatchImageLoaded, 6000, &mut rng).unwrap();
    }
    assert!(app.gallery.is_prefetching_next);
    app.update(Msg::NextBatchImageLoaded, 6000, &mut rng).unwrap();
    assert!(!app.gallery.is_prefetching_next);
    assert_eq!(app.gallery.current_batch.len(), 20);
    assert_eq!(app.gallery.current_index, 8);
}

#[test]
fn next_batch_complete_merges_through_the_container() {
    let mut rng = Rng::new(1);
    let mut app = AppState::new(&mut rng);
    app.update(Msg::FetchCat, 5000, &mut rng).unwrap();
    app.update(Msg::AllImagesLoaded, 5000, &mut rng).unwrap();
    for _ in 0..8 {
        app.update(Msg::FetchCat, 6000, &mut rng).unwrap();
    }
    app.update(Msg::NextBatchComplete, 6000, &mut rng).unwrap();
    assert_eq!(app.gallery.current_batch.len(), 20);
}

#[test]
fn game_messages_reach_the_game_engines() {
    let mut rng = Rng::new(1);
    let mut app = AppState::new(&mut rng);
    app.games.guess_target = 60;
    app.update(Msg::Game(GameMsg::GuessNumber(60)), 0, &mut rng).unwrap();
    assert!(app.games.guess_game_over);
    app.update(Msg::Game(GameMsg::StartMemoryGame), 0, &mut rng).unwrap();
    assert_eq!(app.games.memory_cards.len(), 16);
}

#[test]
fn rejected_game_message_surfaces_its_error() {
    let mut rng = Rng::new(1);
    let mut app = AppState::new(&mut rng);
    let r = app.update(Msg::Game(GameMsg::MemoryCardClick(3)), 0, &mut rng);
    assert!(r.is_err());
    assert!(app.games.memory_cards.is_empty());
}

#[test]
fn game_message_wraps_into_the_top_level_message() {
    let m = Msg::from(GameMsg::SubmitGuess);
    assert_eq!(m, Msg::Game(GameMsg::SubmitGuess));
}
