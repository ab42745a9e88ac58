//! The places of the route collector, and the plan of one collection run:
//! the route requests it sends, in order, and how long it waits after each.
use vstd::prelude::*;

use self::cache::WaypointCollection;
use crate::route_data::data_types::{Location, RouteDataRequest};

pub mod cache;

verus! {

/// One leg of a collection run: the route to ask for, then the minutes to
/// wait before the next leg.
#[derive(Debug)]
pub struct CollectLeg {
    pub request: RouteDataRequest,
    pub wait_minutes: u64,
}

/// Whether `a` names the same place as `b` (same address, same place id).
pub open spec fn spec_same_place(a: Location, b: Location) -> bool {
    a.address@ == b.address@ && a.place_id@ == b.place_id@
}

/// Whether `leg` asks for the route from `origin` through `stops`, in
/// order, to `destination`, and then waits `wait` minutes.
pub open spec fn spec_is_leg(leg: CollectLeg, origin: Location, stops: Seq<Location>, destination: Location, wait: u64) -> bool {
    &&& spec_same_place(leg.request.origin, origin)
    &&& spec_same_place(leg.request.destination, destination)
    &&& leg.request.intermediates@.len() == stops.len()
    &&& forall|i: int| 0 <= i < stops.len() ==> spec_same_place(#[trigger] leg.request.intermediates@[i], stops[i])
    &&& leg.wait_minutes == wait
}

/// The stops after school: Crossroads, Martin opposite Leona, Via Centro
/// Plaza, UTSA downtown, UTSA San Pedro, Grand Hyatt, Randolph park and
/// ride, Walzem and Mordred, Midcrown, Castle Cross, the train tracks at
/// Rittiman.
pub open spec fn spec_stops_from_school(p: WaypointCollection) -> Seq<Location> {
    seq![
        p.crossroads_park_and_ride,
        p.martin_opposite_leona,
        p.via_centro_plaza,
        p.utsa_downtown_campus,
        p.utsa_san_pedro,
        p.grand_hyatt,
        p.randolph_park_and_ride,
        p.walzem_and_mordred,
        p.midcrown_ed_white,
        p.castle_cross_and_castle_hunt,
        p.train_tracks_on_rittiman_rd,
    ]
}

/// The stops after Martin opposite Leona: those after school from Via
/// Centro Plaza on.
pub open spec fn spec_stops_from_martin(p: WaypointCollection) -> Seq<Location> {
    spec_stops_from_school(p).subrange(2, 11)
}

/// The stops after Randolph park and ride: those after school from Walzem
/// and Mordred on.
pub open spec fn spec_stops_from_randolph(p: WaypointCollection) -> Seq<Location> {
    spec_stops_from_school(p).subrange(7, 11)
}

/// The stops after Castle Cross: the train tracks at Rittiman.
pub open spec fn spec_stops_from_castle_cross(p: WaypointCollection) -> Seq<Location> {
    spec_stops_from_school(p).subrange(10, 11)
}

/// A copy of the place `l`.
fn copy_place(l: &Location) -> (r: Location)
    ensures
        spec_same_place(r, *l),
{
    Location { address: l.address.as_str().to_owned(), place_id: l.place_id.as_str().to_owned() }
}

/// The leg from `origin` through `stops` to `destination`, then a wait of
/// `wait` minutes.
fn leg(origin: &Location, stops: &[&Location], destination: &Location, wait: u64) -> (r: CollectLeg)
    ensures
        spec_is_leg(r, *origin, stops@.map_values(|l: &Location| *l), *destination, wait),
{
    let mut intermediates: Vec<Location> = Vec::new();
    let mut i: usize = 0;
    while i < stops.len()
        invariant
            i <= stops@.len(),
            intermediates@.len() == i,
            forall|k: int| 0 <= k < i ==> spec_same_place(#[trigger] intermediates@[k], *stops@[k]),
        decreases stops@.len() - i,
    {
        intermediates.push(copy_place(stops[i]));
        i = i + 1;
    }
    CollectLeg {
        request: RouteDataRequest {
            origin: copy_place(origin),
            destination: copy_place(destination),
            intermediates,
        },
        wait_minutes: wait,
    }
}

/// The plan of one collection run, every hour while the bus runs: the
/// route from school to the HEB on FM-78 through the bus's eleven stops,
/// then a wait of 26 minutes; from Martin opposite Leona through the nine
/// stops left, then 43 minutes; from Randolph park and ride through the
/// four left, then 14 minutes; from Castle Cross through the train tracks
/// at Rittiman, with no wait after it. With the project's places
/// (`WaypointCollection::new`) these are the places of `spec_is_standard`.
pub fn collection_run(places: &WaypointCollection) -> (r: Vec<CollectLeg>)
    ensures
        r@.len() == 4,
        spec_is_leg(r@[0], places.one_utsa_circle, spec_stops_from_school(*places), places.fm78_heb, 26),
        spec_is_leg(r@[1], places.martin_opposite_leona, spec_stops_from_martin(*places), places.fm78_heb, 43),
        spec_is_leg(r@[2], places.randolph_park_and_ride, spec_stops_from_randolph(*places), places.fm78_heb, 14),
        spec_is_leg(r@[3], places.castle_cross_and_castle_hunt, spec_stops_from_castle_cross(*places), places.fm78_heb, 0),
{
    let p = places;
    let school_stops: [&Location; 11] = [
        p.crossroads_park_and_ride(),
        p.martin_opposite_leona(),
        p.via_centro_plaza(),
        p.utsa_downtown_campus(),
        p.utsa_san_pedro(),
        p.grand_hyatt(),
        p.randolph_park_and_ride(),
        p.walzem_and_mordred(),
        p.midcrown_ed_white(),
        p.castle_cross_and_castle_hunt(),
        p.train_tracks_on_rittiman_rd(),
    ];
    let martin_stops: [&Location; 9] = [
        p.via_centro_plaza(),
        p.utsa_downtown_campus(),
        p.utsa_san_pedro(),
        p.grand_hyatt(),
        p.randolph_park_and_ride(),
        p.walzem_and_mordred(),
        p.midcrown_ed_white(),
        p.castle_cross_and_castle_hunt(),
        p.train_tracks_on_rittiman_rd(),
    ];
    let randolph_stops: [&Location; 4] = [
        p.walzem_and_mordred(),
        p.midcrown_ed_white(),
        p.castle_cross_and_castle_hunt(),
        p.train_tracks_on_rittiman_rd(),
    ];
    let castle_stops: [&Location; 1] = [p.train_tracks_on_rittiman_rd()];
    let mut plan: Vec<CollectLeg> = Vec::new();
    plan.push(leg(p.one_utsa_circle(), &school_stops, p.fm78_heb(), 26));
    plan.push(leg(p.martin_opposite_leona(), &martin_stops, p.fm78_heb(), 43));
    plan.push(leg(p.randolph_park_and_ride(), &randolph_stops, p.fm78_heb(), 14));
    plan.push(leg(p.castle_cross_and_castle_hunt(), &castle_stops, p.fm78_heb(), 0));
    assert(school_stops@.map_values(|l: &Location| *l) =~= spec_stops_from_school(*places));
    assert(martin_stops@.map_values(|l: &Location| *l) =~= spec_stops_from_martin(*places));
    assert(randolph_stops@.map_values(|l: &Location| *l) =~= spec_stops_from_randolph(*places));
    assert(castle_stops@.map_values(|l: &Location| *l) =~= spec_stops_from_castle_cross(*places));
    plan
}

} // verus!
