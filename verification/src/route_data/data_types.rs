//! Places, and the request for the routes between them.
use vstd::prelude::*;

verus! {

/// A place, by its address and its place id.
#[derive(Clone, Debug)]
pub struct Location {
    pub address: String,
    pub place_id: String,
}

/// How a waypoint names its place.
#[derive(Debug)]
pub enum LocationType {
    PlaceId(String),
    Address(String),
}

/// A point that a route starts at, ends at or passes: its place, and
/// whether the route only passes it (`via`) rather than stopping there.
#[derive(Debug)]
pub struct Waypoint {
    pub via: bool,
    pub vehicle_stopover: bool,
    pub side_of_road: bool,
    pub location_type: Option<LocationType>,
}

/// How routes are computed with respect to traffic.
#[derive(Clone, Copy, Debug, PartialEq, Eq, Structural)]
pub enum RoutingPreference {
    Unspecified,
    TrafficUnaware,
    TrafficAware,
    TrafficAwareOptimal,
}

/// How a route is travelled.
#[derive(Clone, Copy, Debug, PartialEq, Eq, Structural)]
pub enum RouteTravelMode {
    Unspecified,
    Drive,
    Bicycle,
    Walk,
    TwoWheeler,
    Transit,
}

/// The units that distances are given in.
#[derive(Clone, Copy, Debug, PartialEq, Eq, Structural)]
pub enum Units {
    Unspecified,
    Metric,
    Imperial,
}

/// A request for routes, as the routes service takes it: the places, how
/// to route, and the language of the answer; what is not set here is left
/// at its default.
#[derive(Debug)]
pub struct ComputeRoutesRequest {
    pub origin: Option<Waypoint>,
    pub destination: Option<Waypoint>,
    pub intermediates: Vec<Waypoint>,
    pub routing_preference: RoutingPreference,
    pub travel_mode: RouteTravelMode,
    pub units: Units,
    pub language_code: String,
}

/// A simplified version of the `ComputeRoutesRequest` struct used
/// for Google's Routes API.
#[derive(Debug)]
pub struct RouteDataRequest {
    pub origin: Location,
    pub destination: Location,
    pub intermediates: Vec<Location>,
}

/// Whether `w` is a stop (not `via`, no other option set) at the place
/// with id `place_id`.
pub open spec fn spec_is_place_stop(w: Waypoint, place_id: Seq<char>) -> bool {
    &&& !w.via
    &&& !w.vehicle_stopover
    &&& !w.side_of_road
    &&& w.location_type matches Some(LocationType::PlaceId(p)) && p@ == place_id
}

/// Whether `w` is a waypoint at the place with id `place_id`, passed
/// (`via`) or stopped at as `via` says, with no other option set.
pub open spec fn spec_is_place_waypoint(w: Waypoint, place_id: Seq<char>, via: bool) -> bool {
    &&& w.via == via
    &&& !w.vehicle_stopover
    &&& !w.side_of_road
    &&& w.location_type matches Some(LocationType::PlaceId(p)) && p@ == place_id
}

impl Waypoint {
    /// The waypoint at the place with id `place_id`, passed (`via`) or
    /// stopped at; the other options are off.
    pub fn place(place_id: String, via: bool) -> (r: Waypoint)
        ensures
            spec_is_place_waypoint(r, place_id@, via),
    {
        Waypoint { via, vehicle_stopover: false, side_of_road: false, location_type: Some(LocationType::PlaceId(place_id)) }
    }
}

impl ComputeRoutesRequest {
    /// The request for `value`: a stop at each place by its place id
    /// (origin, destination, and the intermediates in order), routed with
    /// the best traffic awareness, for driving, in imperial units and
    /// American English.
    pub fn from(value: RouteDataRequest) -> (r: ComputeRoutesRequest)
        ensures
            r.origin matches Some(w) && spec_is_place_stop(w, value.origin.place_id@),
            r.destination matches Some(w) && spec_is_place_stop(w, value.destination.place_id@),
            r.intermediates@.len() == value.intermediates@.len(),
            forall|i: int|
                0 <= i < r.intermediates@.len() ==> spec_is_place_stop(
                    #[trigger] r.intermediates@[i],
                    value.intermediates@[i].place_id@,
                ),
            r.routing_preference == RoutingPreference::TrafficAwareOptimal,
            r.travel_mode == RouteTravelMode::Drive,
            r.units == Units::Imperial,
            r.language_code@ == "en-US"@,
    {
        let mut intermediates: Vec<Waypoint> = Vec::new();
        let ghost locations = value.intermediates@;
        for location in it: value.intermediates
            invariant
                it.seq() == locations,
                intermediates@.len() == it.index(),
                forall|i: int|
                    0 <= i < intermediates@.len() ==> spec_is_place_stop(
                        #[trigger] intermediates@[i],
                        locations[i].place_id@,
                    ),
        {
            intermediates.push(Waypoint::place(location.place_id, false));
        }
        ComputeRoutesRequest {
            origin: Some(Waypoint::place(value.origin.place_id, false)),
            destination: Some(Waypoint::place(value.destination.place_id, false)),
            intermediates,
            routing_preference: RoutingPreference::TrafficAwareOptimal,
            travel_mode: RouteTravelMode::Drive,
            units: Units::Imperial,
            language_code: "en-US".to_owned(),
        }
    }
}

/// The moment a routes response was made, from its `date` header: seconds
/// since the Unix epoch (UTC) and the offset of the header's time zone from
/// UTC in seconds.
#[derive(Clone, Copy, Debug, PartialEq, Eq, Structural)]
pub struct ResponseDate {
    pub seconds: i64,
    pub utc_offset_seconds: i32,
}

/// Why a response could not be recorded: it had no `date` header, or the
/// header is not an RFC 2822 date and time.
#[derive(Clone, Copy, Debug, PartialEq, Eq, Structural)]
pub enum ResponseDateError {
    MissingDate,
    BadDate,
}

/// A routes response to record, without the response itself: where the
/// route started and ended, and when the response was made.
#[derive(Debug)]
pub struct RouteRecord {
    pub origin: Location,
    pub destination: Location,
    pub date: ResponseDate,
}

/// The moment named by the `date` header `header` of a response (see
/// `crate::clock::spec_rfc2822`): `MissingDate` without the header,
/// `BadDate` when it does not read as an RFC 2822 date and time.
pub fn response_date(header: Option<&str>) -> (r: Result<ResponseDate, ResponseDateError>)
    ensures
        r == spec_response_date(header),
{
    match header {
        None => Err(ResponseDateError::MissingDate),
        Some(h) => date_of_parsed(crate::clock::parse_rfc2822(h)),
    }
}

/// The date read from a parsed `date` header (`None` when it did not
/// parse): the moment and offset it gives, else `BadDate`.
pub fn date_of_parsed(parsed: Option<(i64, i32)>) -> (r: Result<ResponseDate, ResponseDateError>)
    ensures
        r == spec_date_of_parsed(parsed),
{
    match parsed {
        Some((seconds, offset)) => Ok(ResponseDate { seconds, utc_offset_seconds: offset }),
        None => Err(ResponseDateError::BadDate),
    }
}

/// What `date_of_parsed` gives for `parsed`.
pub open spec fn spec_date_of_parsed(parsed: Option<(i64, i32)>) -> Result<ResponseDate, ResponseDateError> {
    match parsed {
        Some((seconds, offset)) => Ok(ResponseDate { seconds, utc_offset_seconds: offset }),
        None => Err(ResponseDateError::BadDate),
    }
}

/// The record of a response for the route from `origin` to `destination`,
/// dated by the response's `date` header (see `response_date`).
pub fn try_from_response_with_orig_and_dest(
    origin: Location,
    destination: Location,
    date_header: Option<&str>,
) -> (r: Result<RouteRecord, ResponseDateError>)
    ensures
        match spec_response_date(date_header) {
            Ok(date) => r matches Ok(rec) && rec.origin == origin && rec.destination == destination && rec.date == date,
            Err(e) => r == Err::<RouteRecord, ResponseDateError>(e),
        },
{
    match response_date(date_header) {
        Ok(date) => Ok(RouteRecord { origin, destination, date }),
        Err(e) => Err(e),
    }
}

/// A response is dated by the moment its `date` header names, exactly as
/// the RFC 2822 reader gives it (seconds since the epoch, in UTC), with the
/// header's offset from UTC kept beside it and not applied a second time: a
/// header read as `(seconds, offset)` gives those two values, whatever the
/// sign of the offset. A header that does not read gives `BadDate`, and no
/// header `MissingDate`.
pub proof fn law_response_date_is_the_moment_read(h: &str, seconds: i64, offset: i32)
    ensures
        spec_date_of_parsed(Some((seconds, offset))) == Ok::<ResponseDate, ResponseDateError>(
            ResponseDate { seconds, utc_offset_seconds: offset },
        ),
        spec_date_of_parsed(None) == Err::<ResponseDate, ResponseDateError>(ResponseDateError::BadDate),
        crate::clock::spec_rfc2822(h@) == Some((seconds, offset)) ==> spec_response_date(Some(h)) == Ok::<
            ResponseDate,
            ResponseDateError,
        >(ResponseDate { seconds, utc_offset_seconds: offset }),
        crate::clock::spec_rfc2822(h@) is None ==> spec_response_date(Some(h)) == Err::<
            ResponseDate,
            ResponseDateError,
        >(ResponseDateError::BadDate),
        spec_response_date(None) == Err::<ResponseDate, ResponseDateError>(ResponseDateError::MissingDate),
{
}

/// What `response_date` gives for `header`.
pub open spec fn spec_response_date(header: Option<&str>) -> Result<ResponseDate, ResponseDateError> {
    match header {
        None => Err(ResponseDateError::MissingDate),
        Some(h) => spec_date_of_parsed(crate::clock::spec_rfc2822(h@)),
    }
}

} // verus!
