//! The places that the route collector queries often.
use vstd::prelude::*;

use crate::route_data::data_types::Location;

verus! {

/// An immutable collection of frequently used waypoints for my project.
/// Very large struct, would recommend passing this by reference until
/// you need a particular waypoint, then cloning that waypoint.
#[derive(Debug)]
pub struct WaypointCollection {
    pub one_utsa_circle: Location,
    pub crossroads_park_and_ride: Location,
    pub martin_opposite_leona: Location,
    pub via_centro_plaza: Location,
    pub utsa_downtown_campus: Location,
    pub utsa_san_pedro: Location,
    pub grand_hyatt: Location,
    pub randolph_park_and_ride: Location,
    pub walzem_and_mordred: Location,
    pub midcrown_ed_white: Location,
    pub castle_cross_and_castle_hunt: Location,
    pub train_tracks_on_rittiman_rd: Location,
    pub fm78_heb: Location,
}

/// Whether `l` has the address `address` and the place id `place_id`.
pub open spec fn spec_is_location(l: Location, address: Seq<char>, place_id: Seq<char>) -> bool {
    l.address@ == address && l.place_id@ == place_id
}

/// The place with the given address and place id.
fn location(address: &str, place_id: &str) -> (r: Location)
    ensures
        spec_is_location(r, address@, place_id@),
{
    Location { address: address.to_owned(), place_id: place_id.to_owned() }
}

impl WaypointCollection {
    /// Whether each place has its address and place id.
    pub open spec fn spec_is_standard(&self) -> bool {
        &&& spec_is_location(self.one_utsa_circle, "One UTSA Circle, San Antonio, TX 78249, USA"@, "ChIJh705pGFmXIYR6o_rMARBOsw"@)
        &&& spec_is_location(self.crossroads_park_and_ride, "Crossroads Park & Ride, Balcones Heights, TX 78201, USA"@, "ChIJw2IJsT9eXIYR2fua_adlYFQ"@)
        &&& spec_is_location(self.martin_opposite_leona, "Martin Opposite Leona, San Antonio, TX 78207, USA"@, "ChIJ3ayu3UtfXIYRqXtAsRt-ZA8"@)
        &&& spec_is_location(self.via_centro_plaza, "909 W Houston St, San Antonio, TX 78207, USA"@, "ChIJAYhDWEpfXIYRwtu8lNZWDkc"@)
        &&& spec_is_location(self.utsa_downtown_campus, "501 W César E Chávez Blvd, San Antonio, TX 78207, USA"@, "ChIJHXXwLEtfXIYRIMdj4wpcYRA"@)
        &&& spec_is_location(self.utsa_san_pedro, "506 Dolorosa St, San Antonio, TX 78204, USA"@, "ChIJZ5ztQv5ZXIYRFl3Bupk6PVQ"@)
        &&& spec_is_location(self.grand_hyatt, "600 E Market St, San Antonio, TX 78205, USA"@, "ChIJy6ciXqpYXIYRo5XoO_IClA8"@)
        &&& spec_is_location(self.randolph_park_and_ride, "Randolph Park and Ride, San Antonio, TX 78233, USA"@, "ChIJMct5BLKNXIYRxcHtoTFl5K4"@)
        &&& spec_is_location(self.walzem_and_mordred, "Walzem & Mordred, Windcrest, TX 78218, USA"@, "ChIJY5YTj1nzXIYRnG48q_P195A"@)
        &&& spec_is_location(self.midcrown_ed_white, "Midcrown Between Round Table & Prince Valiant, San Antonio, TX 78218, USA"@, "ChIJTzCwmUPzXIYR4iNYswS_4Dg"@)
        &&& spec_is_location(self.castle_cross_and_castle_hunt, "Castle Cross & Castle Hunt, San Antonio, TX 78218, USA"@, "ChIJuVHGigzzXIYREiAXfeeKMFM"@)
        &&& spec_is_location(self.train_tracks_on_rittiman_rd, "5 Rittiman Cut, San Antonio, TX 78218, USA"@, "Eio1IFJpdHRpbWFuIEN1dCwgU2FuIEFudG9uaW8sIFRYIDc4MjE4LCBVU0EiMBIuChQKEgmP8VGVC_NchhHy8qA2Kg7EjBAFKhQKEgnTQwyVC_NchhG3sjHzhR2CpQ"@)
        &&& spec_is_location(self.fm78_heb, "6580 Farm-To-Market Rd 78, San Antonio, TX 78244, USA"@, "ChIJKY2HNwfzXIYRIfkmIOxSHY4"@)
    }

    /// The collection of the project's places (see `spec_is_standard`).
    pub fn new() -> (r: WaypointCollection)
        ensures
            r.spec_is_standard(),
    {
        WaypointCollection {
            one_utsa_circle: location("One UTSA Circle, San Antonio, TX 78249, USA", "ChIJh705pGFmXIYR6o_rMARBOsw"),
            crossroads_park_and_ride: location("Crossroads Park & Ride, Balcones Heights, TX 78201, USA", "ChIJw2IJsT9eXIYR2fua_adlYFQ"),
            martin_opposite_leona: location("Martin Opposite Leona, San Antonio, TX 78207, USA", "ChIJ3ayu3UtfXIYRqXtAsRt-ZA8"),
            via_centro_plaza: location("909 W Houston St, San Antonio, TX 78207, USA", "ChIJAYhDWEpfXIYRwtu8lNZWDkc"),
            utsa_downtown_campus: location("501 W César E Chávez Blvd, San Antonio, TX 78207, USA", "ChIJHXXwLEtfXIYRIMdj4wpcYRA"),
            utsa_san_pedro: location("506 Dolorosa St, San Antonio, TX 78204, USA", "ChIJZ5ztQv5ZXIYRFl3Bupk6PVQ"),
            grand_hyatt: location("600 E Market St, San Antonio, TX 78205, USA", "ChIJy6ciXqpYXIYRo5XoO_IClA8"),
            randolph_park_and_ride: location("Randolph Park and Ride, San Antonio, TX 78233, USA", "ChIJMct5BLKNXIYRxcHtoTFl5K4"),
            walzem_and_mordred: location("Walzem & Mordred, Windcrest, TX 78218, USA", "ChIJY5YTj1nzXIYRnG48q_P195A"),
            midcrown_ed_white: location("Midcrown Between Round Table & Prince Valiant, San Antonio, TX 78218, USA", "ChIJTzCwmUPzXIYR4iNYswS_4Dg"),
            castle_cross_and_castle_hunt: location("Castle Cross & Castle Hunt, San Antonio, TX 78218, USA", "ChIJuVHGigzzXIYREiAXfeeKMFM"),
            train_tracks_on_rittiman_rd: location("5 Rittiman Cut, San Antonio, TX 78218, USA", "Eio1IFJpdHRpbWFuIEN1dCwgU2FuIEFudG9uaW8sIFRYIDc4MjE4LCBVU0EiMBIuChQKEgmP8VGVC_NchhHy8qA2Kg7EjBAFKhQKEgnTQwyVC_NchhG3sjHzhR2CpQ"),
            fm78_heb: location("6580 Farm-To-Market Rd 78, San Antonio, TX 78244, USA", "ChIJKY2HNwfzXIYRIfkmIOxSHY4"),
        }
    }

    /// The place `one_utsa_circle`.
    pub fn one_utsa_circle(&self) -> (r: &Location)
        ensures
            *r == self.one_utsa_circle,
    {
        &self.one_utsa_circle
    }

    /// The place `crossroads_park_and_ride`.
    pub fn crossroads_park_and_ride(&self) -> (r: &Location)
        ensures
            *r == self.crossroads_park_and_ride,
    {
        &self.crossroads_park_and_ride
    }

    /// The place `martin_opposite_leona`.
    pub fn martin_opposite_leona(&self) -> (r: &Location)
        ensures
            *r == self.martin_opposite_leona,
    {
        &self.martin_opposite_leona
    }

    /// The place `via_centro_plaza`.
    pub fn via_centro_plaza(&self) -> (r: &Location)
        ensures
            *r == self.via_centro_plaza,
    {
        &self.via_centro_plaza
    }

    /// The place `utsa_downtown_campus`.
    pub fn utsa_downtown_campus(&self) -> (r: &Location)
        ensures
            *r == self.utsa_downtown_campus,
    {
        &self.utsa_downtown_campus
    }

    /// The place `utsa_san_pedro`.
    pub fn utsa_san_pedro(&self) -> (r: &Location)
        ensures
            *r == self.utsa_san_pedro,
    {
        &self.utsa_san_pedro
    }

    /// The place `grand_hyatt`.
    pub fn grand_hyatt(&self) -> (r: &Location)
        ensures
            *r == self.grand_hyatt,
    {
        &self.grand_hyatt
    }

    /// The place `randolph_park_and_ride`.
    pub fn randolph_park_and_ride(&self) -> (r: &Location)
        ensures
            *r == self.randolph_park_and_ride,
    {
        &self.randolph_park_and_ride
    }

    /// The place `walzem_and_mordred`.
    pub fn walzem_and_mordred(&self) -> (r: &Location)
        ensures
            *r == self.walzem_and_mordred,
    {
        &self.walzem_and_mordred
    }

    /// The place `midcrown_ed_white`.
    pub fn midcrown_ed_white(&self) -> (r: &Location)
        ensures
            *r == self.midcrown_ed_white,
    {
        &self.midcrown_ed_white
    }

    /// The place `castle_cross_and_castle_hunt`.
    pub fn castle_cross_and_castle_hunt(&self) -> (r: &Location)
        ensures
            *r == self.castle_cross_and_castle_hunt,
    {
        &self.castle_cross_and_castle_hunt
    }

    /// The place `train_tracks_on_rittiman_rd`.
    pub fn train_tracks_on_rittiman_rd(&self) -> (r: &Location)
        ensures
            *r == self.train_tracks_on_rittiman_rd,
    {
        &self.train_tracks_on_rittiman_rd
    }

    /// The place `fm78_heb`.
    pub fn fm78_heb(&self) -> (r: &Location)
        ensures
            *r == self.fm78_heb,
    {
        &self.fm78_heb
    }
}

impl Default for WaypointCollection {
    /// The collection of the project's places.
    fn default() -> (r: Self)
        ensures
            r.spec_is_standard(),
    {
        Self::new()
    }
}

} // verus!
