//! The waypoints that the route collector queries often.
use vstd::prelude::*;

use super::data_types::{spec_is_place_waypoint, Waypoint};

verus! {

/// An immutable collection of frequently used waypoints for my project.
/// Very large struct, would recommend passing this by reference until
/// you need a particular waypoint, then cloning that waypoint.
#[derive(Debug)]
pub struct WaypointCollection {
    pub one_utsa_circle: Waypoint,
    pub crossroads_park_and_ride: Waypoint,
    pub martin_opposite_leona: Waypoint,
    pub via_centro_plaza: Waypoint,
    pub utsa_downtown_campus: Waypoint,
    pub utsa_san_pedro: Waypoint,
    pub grand_hyatt: Waypoint,
    pub randolph_park_and_ride: Waypoint,
    pub walzem_and_mordred: Waypoint,
    pub midcrown_ed_white: Waypoint,
    pub train_tracks_on_rittiman_rd: Waypoint,
    pub fm78_heb: Waypoint,
}

impl WaypointCollection {
    /// Whether each waypoint is at its place, by place id; the grand Hyatt
    /// and the train tracks on Rittiman Road are passed (`via`), the others
    /// are stops.
    pub open spec fn spec_is_standard(&self) -> bool {
        &&& spec_is_place_waypoint(self.one_utsa_circle, "ChIJh705pGFmXIYR6o_rMARBOsw"@, false)
        &&& spec_is_place_waypoint(self.crossroads_park_and_ride, "ChIJw2IJsT9eXIYR2fua_adlYFQ"@, false)
        &&& spec_is_place_waypoint(self.martin_opposite_leona, "ChIJ3ayu3UtfXIYRqXtAsRt"@, false)
        &&& spec_is_place_waypoint(self.via_centro_plaza, "ChIJAYhDWEpfXIYRwtu8lNZWDkc"@, false)
        &&& spec_is_place_waypoint(self.utsa_downtown_campus, "ChIJHXXwLEtfXIYRIMdj4wpcYRA"@, false)
        &&& spec_is_place_waypoint(self.utsa_san_pedro, "ChIJZ5ztQv5ZXIYRFl3Bupk6PVQ"@, false)
        &&& spec_is_place_waypoint(self.grand_hyatt, "ChIJy6ciXqpYXIYRo5XoO_IClA8"@, true)
        &&& spec_is_place_waypoint(self.randolph_park_and_ride, "ChIJMct5BLKNXIYRxcHtoTFl5K4"@, false)
        &&& spec_is_place_waypoint(self.walzem_and_mordred, "ChIJY5YTj1nzXIYRnG48q_P195A"@, false)
        &&& spec_is_place_waypoint(self.midcrown_ed_white, "ChIJTzCwmUPzXIYR4iNYswS_4Dg"@, false)
        &&& spec_is_place_waypoint(self.train_tracks_on_rittiman_rd, "Eio1IFJpdHRpbWFuIEN1dCwgU2FuIEFudG9uaW8sIFRYIDc4MjE4LCBVU0EiMBIuChQKEgmP8VGVC_NchhHy8qA2Kg7EjBAFKhQKEgnTQwyVC_NchhG3sjHzhR2CpQ"@, true)
        &&& spec_is_place_waypoint(self.fm78_heb, "ChIJKY2HNwfzXIYRIfkmIOxSHY4"@, false)
    }

    /// The collection of the project's waypoints (see `spec_is_standard`).
    pub fn new() -> (r: WaypointCollection)
        ensures
            r.spec_is_standard(),
    {
        WaypointCollection {
            one_utsa_circle: Waypoint::place("ChIJh705pGFmXIYR6o_rMARBOsw".to_owned(), false),
            crossroads_park_and_ride: Waypoint::place("ChIJw2IJsT9eXIYR2fua_adlYFQ".to_owned(), false),
            martin_opposite_leona: Waypoint::place("ChIJ3ayu3UtfXIYRqXtAsRt".to_owned(), false),
            via_centro_plaza: Waypoint::place("ChIJAYhDWEpfXIYRwtu8lNZWDkc".to_owned(), false),
            utsa_downtown_campus: Waypoint::place("ChIJHXXwLEtfXIYRIMdj4wpcYRA".to_owned(), false),
            utsa_san_pedro: Waypoint::place("ChIJZ5ztQv5ZXIYRFl3Bupk6PVQ".to_owned(), false),
            grand_hyatt: Waypoint::place("ChIJy6ciXqpYXIYRo5XoO_IClA8".to_owned(), true),
            randolph_park_and_ride: Waypoint::place("ChIJMct5BLKNXIYRxcHtoTFl5K4".to_owned(), false),
            walzem_and_mordred: Waypoint::place("ChIJY5YTj1nzXIYRnG48q_P195A".to_owned(), false),
            midcrown_ed_white: Waypoint::place("ChIJTzCwmUPzXIYR4iNYswS_4Dg".to_owned(), false),
            train_tracks_on_rittiman_rd: Waypoint::place("Eio1IFJpdHRpbWFuIEN1dCwgU2FuIEFudG9uaW8sIFRYIDc4MjE4LCBVU0EiMBIuChQKEgmP8VGVC_NchhHy8qA2Kg7EjBAFKhQKEgnTQwyVC_NchhG3sjHzhR2CpQ".to_owned(), true),
            fm78_heb: Waypoint::place("ChIJKY2HNwfzXIYRIfkmIOxSHY4".to_owned(), false),
        }
    }

    /// The waypoint `one_utsa_circle`.
    pub fn one_utsa_circle(&self) -> (r: &Waypoint)
        ensures
            *r == self.one_utsa_circle,
    {
        &self.one_utsa_circle
    }

    /// The waypoint `utsa_downtown_campus`.
    pub fn utsa_downtown_campus(&self) -> (r: &Waypoint)
        ensures
            *r == self.utsa_downtown_campus,
    {
        &self.utsa_downtown_campus
    }

    /// The waypoint `utsa_san_pedro`.
    pub fn utsa_san_pedro(&self) -> (r: &Waypoint)
        ensures
            *r == self.utsa_san_pedro,
    {
        &self.utsa_san_pedro
    }

    /// The waypoint `randolph_park_and_ride`.
    pub fn randolph_park_and_ride(&self) -> (r: &Waypoint)
        ensures
            *r == self.randolph_park_and_ride,
    {
        &self.randolph_park_and_ride
    }

    /// The waypoint `train_tracks_on_rittiman_rd`.
    pub fn train_tracks_on_rittiman_rd(&self) -> (r: &Waypoint)
        ensures
            *r == self.train_tracks_on_rittiman_rd,
    {
        &self.train_tracks_on_rittiman_rd
    }

    /// The waypoint `fm78_heb`.
    pub fn fm78_heb(&self) -> (r: &Waypoint)
        ensures
            *r == self.fm78_heb,
    {
        &self.fm78_heb
    }
}

} // verus!
