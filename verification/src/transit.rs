//! Core data types for transit entities: route kinds, trip directions, stop
//! events and the transit error type.

use vstd::prelude::*;

use crate::identifiers::{
    ComplexIdentifier, RouteIdentifier, StationIdentifier, TripIdentifier,
};

verus! {

/// Route types, numbered as the interchange format numbers them.
#[derive(Clone, Copy, Debug, PartialEq, Eq, Hash, Structural)]
pub enum RouteType {
    Tram,
    Subway,
    Rail,
    Bus,
    Ferry,
    CableTram,
    AerialLift,
    Funicular,
}

impl RouteType {
    /// Decode an interchange-format route type number; every value above
    /// seven is unknown.
    pub fn from_gtfs(value: u16) -> (r: Option<RouteType>)
        ensures
            r == (if value == 0 {
                Some(RouteType::Tram)
            } else if value == 1 {
                Some(RouteType::Subway)
            } else if value == 2 {
                Some(RouteType::Rail)
            } else if value == 3 {
                Some(RouteType::Bus)
            } else if value == 4 {
                Some(RouteType::Ferry)
            } else if value == 5 {
                Some(RouteType::CableTram)
            } else if value == 6 {
                Some(RouteType::AerialLift)
            } else if value == 7 {
                Some(RouteType::Funicular)
            } else {
                None
            }),
    {
        match value {
            0 => Some(Self::Tram),
            1 => Some(Self::Subway),
            2 => Some(Self::Rail),
            3 => Some(Self::Bus),
            4 => Some(Self::Ferry),
            5 => Some(Self::CableTram),
            6 => Some(Self::AerialLift),
            7 => Some(Self::Funicular),
            _ => None,
        }
    }
}

/// Trip direction: outbound or inbound.
#[derive(Clone, Copy, Debug, PartialEq, Eq, Hash, Structural)]
pub enum DirectionId {
    Outbound,
    Inbound,
}

/// A single stop event in a trip: arrival and departure at a station, in
/// seconds since midnight of the service day (times past midnight may exceed
/// twenty-four hours).
#[derive(Debug)]
pub struct StopEvent {
    pub station_id: StationIdentifier,
    pub arrival: u32,
    pub departure: u32,
    pub stop_sequence: u32,
}

impl Clone for StopEvent {
    fn clone(&self) -> (r: StopEvent)
        ensures
            r.station_id@ == self.station_id@,
            r.arrival == self.arrival,
            r.departure == self.departure,
            r.stop_sequence == self.stop_sequence,
    {
        StopEvent {
            station_id: self.station_id.clone(),
            arrival: self.arrival,
            departure: self.departure,
            stop_sequence: self.stop_sequence,
        }
    }
}

impl StopEvent {
    pub fn new(station_id: StationIdentifier, arrival: u32, departure: u32, stop_sequence: u32) -> (r:
        StopEvent)
        ensures
            r.station_id@ == station_id@,
            r.arrival == arrival,
            r.departure == departure,
            r.stop_sequence == stop_sequence,
    {
        StopEvent { station_id, arrival, departure, stop_sequence }
    }

    /// Apply a delay in seconds, clamping each time at zero. Fails exactly
    /// when the clamped departure would precede the clamped arrival.
    pub fn with_delay(&self, delay_seconds: i32) -> (r: Result<StopEvent, TransitError>)
        requires
            self.arrival + delay_seconds <= u32::MAX,
            self.departure + delay_seconds <= u32::MAX,
        ensures
            ({
                let na = if self.arrival + delay_seconds >= 0 {
                    self.arrival + delay_seconds
                } else {
                    0int
                };
                let nd = if self.departure + delay_seconds >= 0 {
                    self.departure + delay_seconds
                } else {
                    0int
                };
                &&& (r is Ok <==> na <= nd)
                &&& (r matches Ok(e) ==> e.arrival == na && e.departure == nd && e.station_id@
                    == self.station_id@ && e.stop_sequence == self.stop_sequence)
                &&& (r is Err ==> r matches Err(TransitError::InvalidData(_)))
            }),
    {
        let arr: i64 = self.arrival as i64 + delay_seconds as i64;
        let dep: i64 = self.departure as i64 + delay_seconds as i64;
        let new_arrival: u32 = if arr >= 0 {
            arr as u32
        } else {
            0
        };
        let new_departure: u32 = if dep >= 0 {
            dep as u32
        } else {
            0
        };
        if new_departure < new_arrival {
            return Err(
                TransitError::InvalidData(
                    "delay would move the departure before the arrival".to_owned(),
                ),
            );
        }
        Ok(
            StopEvent {
                station_id: self.station_id.clone(),
                arrival: new_arrival,
                departure: new_departure,
                stop_sequence: self.stop_sequence,
            },
        )
    }
}

/// Everything that can go wrong in the transit layer.
#[derive(Debug)]
pub enum TransitError {
    StationNotFound(StationIdentifier),
    RouteNotFound(RouteIdentifier),
    TripNotFound(TripIdentifier),
    ComplexNotFound(ComplexIdentifier),
    InvalidData(String),
    SerializationError(String),
}

impl TransitError {
    /// A short description of the error class.
    pub fn message(&self) -> (r: &'static str)
        ensures
            self is StationNotFound ==> r@ == "station not found"@,
            self is RouteNotFound ==> r@ == "route not found"@,
            self is TripNotFound ==> r@ == "trip not found"@,
            self is ComplexNotFound ==> r@ == "complex not found"@,
            self is InvalidData ==> r@ == "invalid data"@,
            self is SerializationError ==> r@ == "serialization error"@,
    {
        match self {
            TransitError::StationNotFound(_) => "station not found",
            TransitError::RouteNotFound(_) => "route not found",
            TransitError::TripNotFound(_) => "trip not found",
            TransitError::ComplexNotFound(_) => "complex not found",
            TransitError::InvalidData(_) => "invalid data",
            TransitError::SerializationError(_) => "serialization error",
        }
    }
}

} // verus!
