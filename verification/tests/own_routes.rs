use cronsched::route_data::data_types as dt;
use cronsched::collect::cache::WaypointCollection as Places;
use cronsched::route_data::cache::WaypointCollection;
use cronsched::route_data::data_types::{
    ComputeRoutesRequest, Location, LocationType, RouteDataRequest, RouteTravelMode, RoutingPreference, Units,
};

fn place_id(w: &cronsched::route_data::data_types::Waypoint) -> String {
    match &w.location_type {
        Some(LocationType::PlaceId(p)) => p.clone(),
        _ => String::new(),
    }
}

#[test]
fn request_names_every_place_by_id() {
    let loc = |a: &str, p: &str| Location { address: a.to_string(), place_id: p.to_string() };
    let request = RouteDataRequest {
        origin: loc("school", "A"),
        destination: loc("home", "B"),
        intermediates: vec![loc("stop 1", "C"), loc("stop 2", "D")],
    };
    let r = ComputeRoutesRequest::from(request);
    assert_eq!(place_id(r.origin.as_ref().unwrap()), "A");
    assert_eq!(place_id(r.destination.as_ref().unwrap()), "B");
    assert_eq!(r.intermediates.len(), 2);
    assert_eq!(place_id(&r.intermediates[1]), "D");
    assert!(!r.intermediates[0].via);
    assert_eq!(r.routing_preference, RoutingPreference::TrafficAwareOptimal);
    assert_eq!(r.travel_mode, RouteTravelMode::Drive);
    assert_eq!(r.units, Units::Imperial);
    assert_eq!(r.language_code, "en-US");
}

#[test]
fn waypoints_of_the_project() {
    let w = WaypointCollection::new();
    assert_eq!(place_id(w.one_utsa_circle()), "ChIJh705pGFmXIYR6o_rMARBOsw");
    assert!(w.train_tracks_on_rittiman_rd().via);
    assert!(!w.fm78_heb().via);
    assert_eq!(place_id(w.fm78_heb()), "ChIJKY2HNwfzXIYRIfkmIOxSHY4");
}

#[test]
fn places_of_the_project() {
    let p = Places::default();
    assert_eq!(p.castle_cross_and_castle_hunt().place_id, "ChIJuVHGigzzXIYREiAXfeeKMFM");
    assert_eq!(p.utsa_downtown_campus().address, "501 W César E Chávez Blvd, San Antonio, TX 78207, USA");
    assert_eq!(p.martin_opposite_leona().place_id, "ChIJ3ayu3UtfXIYRqXtAsRt-ZA8");
}

#[test]
fn a_collection_run_asks_for_four_legs_to_the_heb() {
    let places = Places::new();
    let plan = cronsched::collect::collection_run(&places);
    assert_eq!(plan.len(), 4);
    let waits: Vec<u64> = plan.iter().map(|l| l.wait_minutes).collect();
    assert_eq!(waits, vec![26, 43, 14, 0]);
    let stops: Vec<usize> = plan.iter().map(|l| l.request.intermediates.len()).collect();
    assert_eq!(stops, vec![11, 9, 4, 1]);
    for leg in &plan {
        assert_eq!(leg.request.destination.place_id, places.fm78_heb.place_id);
    }
    assert_eq!(plan[0].request.origin.place_id, places.one_utsa_circle.place_id);
    assert_eq!(plan[1].request.origin.place_id, places.martin_opposite_leona.place_id);
    assert_eq!(plan[2].request.origin.place_id, places.randolph_park_and_ride.place_id);
    assert_eq!(plan[3].request.origin.place_id, places.castle_cross_and_castle_hunt.place_id);
    assert_eq!(plan[1].request.intermediates[0].place_id, places.via_centro_plaza.place_id);
    assert_eq!(plan[2].request.intermediates[0].place_id, places.walzem_and_mordred.place_id);
    assert_eq!(plan[3].request.intermediates[0].place_id, places.train_tracks_on_rittiman_rd.place_id);
}

#[test]
fn the_date_header_dates_a_response() {
    assert_eq!(dt::response_date(None), Err(dt::ResponseDateError::MissingDate));
    assert_eq!(dt::response_date(Some("yesterday")), Err(dt::ResponseDateError::BadDate));
    assert_eq!(
        dt::response_date(Some("Wed, 18 Feb 2015 23:16:09 GMT")),
        Ok(dt::ResponseDate { seconds: 1424301369, utc_offset_seconds: 0 })
    );
    assert_eq!(
        dt::response_date(Some("Mon, 16 Oct 2023 20:15:00 +0200")),
        Ok(dt::ResponseDate { seconds: 1697480100, utc_offset_seconds: 7200 })
    );
    let a = Location { address: "a".to_owned(), place_id: "A".to_owned() };
    let b = Location { address: "b".to_owned(), place_id: "B".to_owned() };
    let rec = dt::try_from_response_with_orig_and_dest(a, b, Some("Wed, 18 Feb 2015 23:16:09 GMT")).unwrap();
    assert_eq!(rec.origin.place_id, "A");
    assert_eq!(rec.destination.place_id, "B");
    assert_eq!(rec.date.seconds, 1424301369);
    let a = Location { address: "a".to_owned(), place_id: "A".to_owned() };
    let b = Location { address: "b".to_owned(), place_id: "B".to_owned() };
    assert!(matches!(dt::try_from_response_with_orig_and_dest(a, b, None), Err(dt::ResponseDateError::MissingDate)));
}
