//! The question layer's data model, and the two question shapes whose region
//! algebra is built from plain values alone: radar circles and thermometer
//! half-planes. The data-backed question builders (matching, measuring,
//! tentacle) live with the map-data providers upstream; their answer and
//! target types are shared from here.

use vstd::prelude::*;

use crate::compiler::{SdfCompiler, Shape};
use crate::identifiers::StationIdentifier;
use crate::instruction::{Register, SdfInstruction};
use crate::types::{Centimeters, Position};

verus! {

/// Why a question's region could not be built.
#[derive(Clone, Copy, Debug, PartialEq, Eq, Structural)]
pub enum ShapeErrorClass {
    /// The region is not computable from the answer at all.
    Uncomputable,
    /// The map bundle lacks the data category the question needs.
    MissingData,
}

/// A failure to turn an answered question into a region.
#[derive(Debug)]
pub struct ShapeError {
    pub message: String,
    pub class: ShapeErrorClass,
}

/// What a matching question compares: "is your nearest X the same as mine?"
#[derive(Debug)]
pub enum MatchingTarget {
    CommercialAirport { icao: String, iata: Option<String> },
    TransitLine { scheduled_stations: Vec<StationIdentifier> },
    StationsNameLength(u32),
    StreetOrPath { osm_way_id: i64 },
    FirstAdministrativeDivision { osm_relation_id: i64 },
    SecondAdministrativeDivision { osm_relation_id: i64 },
    ThirdAdministrativeDivision { osm_relation_id: i64 },
    FourthAdministrativeDivision { osm_relation_id: i64 },
    Mountain { id: String },
    Landmass { landmass_id: String },
    Park { osm_relation_park_id: i64 },
    AmusementPark { osm_poi_theme_park_id: i64 },
    Zoo { osm_poi_zoo_id: i64 },
    Aquarium { osm_poi_aquarium_id: i64 },
    GolfCourse { osm_poi_golf_id: i64 },
    Museum { osm_poi_museum_id: i64 },
    MovieTheater { osm_poi_cinema_id: i64 },
    Hospital { osm_poi_hospital_id: i64 },
    Library { osm_poi_library_id: i64 },
    ForeignConsulate { osm_poi_office_diplomatic_id: i64 },
}

/// "Is your nearest `category` the same as my nearest `category`?"
#[derive(Debug)]
pub struct MatchingQuestion {
    pub category: MatchingTarget,
}

#[derive(Clone, Copy, Debug, PartialEq, Eq, Structural)]
pub enum MatchingQuestionAnswer {
    Null,
    Yes,
    No,
}

/// What a measuring question measures the distance to.
#[derive(Clone, Copy, Debug, PartialEq, Eq, Structural)]
pub enum MeasuringTarget {
    CommercialAirport,
    HighSpeedRailLine,
    RailStation,
    InternationalBorder,
    FirstAdministrativeDivisionBorder,
    SecondAdministrativeDivisionBorder,
    SeaLevel,
    BodyOfWater,
    Coastline,
    Mountain,
    Park,
    AmusementPark,
    Zoo,
    Aquarium,
    GolfCourse,
    Museum,
    MovieTheater,
    Hospital,
    Library,
    ForeignConsulate,
}

/// "Compared to me, are you closer to or further from `category`?"
#[derive(Clone, Copy, Debug)]
pub struct MeasuringQuestion {
    pub category: MeasuringTarget,
    /// The asking player's own distance — or, for sea level, altitude.
    pub distance: Centimeters,
}

#[derive(Clone, Copy, Debug, PartialEq, Eq, Structural)]
pub enum MeasuringQuestionAnswer {
    Closer,
    Further,
}

/// What a tentacle question enumerates within its radius.
#[derive(Clone, Copy, Debug, PartialEq, Eq, Structural)]
pub enum TentacleTarget {
    Museum,
    Library,
    MovieTheater,
    Hospital,
    MetroLine,
    Zoo,
    Aquarium,
    AmusementPark,
}

#[derive(Debug)]
pub enum TentacleQuestionAnswer {
    OutOfRadius,
    Null,
    WithinRadius { closest_id: String },
}

/// "Are you within `radius` of me?"
#[derive(Clone, Copy, Debug)]
pub struct RadarQuestion {
    pub center: Position,
    pub radius: Centimeters,
}

#[derive(Clone, Copy, Debug, PartialEq, Eq, Structural)]
pub enum RadarQuestionAnswer {
    Hit,
    Miss,
}

/// An answered radar question as a region: the circle around the asker, or
/// its complement on a miss.
pub struct RadarQuestionShape {
    question: RadarQuestion,
    answer: RadarQuestionAnswer,
}

impl RadarQuestionShape {
    #[verifier::type_invariant]
    pub closed spec fn inv(self) -> bool {
        self.question.center.valid()
    }

    /// The question this region answers.
    pub closed spec fn question_spec(self) -> RadarQuestion {
        self.question
    }

    /// The answer this region encodes.
    pub closed spec fn answer_spec(self) -> RadarQuestionAnswer {
        self.answer
    }

    pub fn new(question: RadarQuestion, answer: RadarQuestionAnswer) -> (r: RadarQuestionShape)
        requires
            question.center.valid(),
        ensures
            r.question_spec() == question,
            r.answer_spec() == answer,
    {
        RadarQuestionShape { question, answer }
    }
}

impl Shape for RadarQuestionShape {
    open spec fn instructions_needed(&self) -> int {
        3
    }

    open spec fn program_of(&self, base: int) -> Seq<SdfInstruction> {
        let q = self.question_spec();
        let circle = seq![
            (SdfInstruction::Point { position: q.center, output: Register(base as u32) }),
            (SdfInstruction::Dilate {
                input: Register(base as u32),
                amount: q.radius,
                output: Register((base + 1) as u32),
            }),
        ];
        if self.answer_spec() is Hit {
            circle
        } else {
            circle.push(
                (SdfInstruction::Invert {
                    input: Register((base + 1) as u32),
                    output: Register((base + 2) as u32),
                }),
            )
        }
    }

    open spec fn result_of(&self, base: int) -> Register {
        if self.answer_spec() is Hit {
            Register((base + 1) as u32)
        } else {
            Register((base + 2) as u32)
        }
    }

    fn build_into(&self, compiler: &mut SdfCompiler) -> (r: Register) {
        proof {
            use_type_invariant(&*self);
        }
        let ghost pre = compiler@;
        let circle = crate::circle::Circle::new(self.question.center, self.question.radius);
        let result = compiler.with(&circle);
        let r = match self.answer {
            RadarQuestionAnswer::Hit => result,
            RadarQuestionAnswer::Miss => compiler.invert(result),
        };
        proof {
            assert(compiler@ =~= pre + self.program_of(pre.len() as int));
        }
        r
    }
}

/// "I've just traveled this leg. Am I hotter or colder?"
#[derive(Clone, Copy, Debug)]
pub struct ThermometerQuestion {
    pub start: Position,
    pub end: Position,
}

#[derive(Clone, Copy, Debug, PartialEq, Eq, Structural)]
pub enum ThermometerQuestionAnswer {
    Hotter,
    Colder,
}

/// An answered thermometer question as a region: the half of the map on the
/// answer's side of the leg's perpendicular bisector.
pub struct ThermometerQuestionShape {
    question: ThermometerQuestion,
    answer: ThermometerQuestionAnswer,
}

impl ThermometerQuestionShape {
    #[verifier::type_invariant]
    pub closed spec fn inv(self) -> bool {
        &&& self.question.start.valid()
        &&& self.question.end.valid()
        &&& self.question.start != self.question.end
    }

    /// The question this region answers.
    pub closed spec fn question_spec(self) -> ThermometerQuestion {
        self.question
    }

    /// The answer this region encodes.
    pub closed spec fn answer_spec(self) -> ThermometerQuestionAnswer {
        self.answer
    }

    pub fn new(question: ThermometerQuestion, answer: ThermometerQuestionAnswer) -> (r:
        ThermometerQuestionShape)
        requires
            question.start.valid(),
            question.end.valid(),
            question.start != question.end,
        ensures
            r.question_spec() == question,
            r.answer_spec() == answer,
    {
        ThermometerQuestionShape { question, answer }
    }
}

/// The dividing line equidistant from two distinct points: its anchor is the
/// leg's midpoint (rounded down per axis) and its normal is the leg vector,
/// so the line is the leg's perpendicular bisector.
pub fn find_equidistant_great_circle(p1: Position, p2: Position) -> (r: (Position, i64, i64))
    requires
        p1.valid(),
        p2.valid(),
        p1 != p2,
    ensures
        r.0.x == (p1.x + p2.x) / 2,
        r.0.y == (p1.y + p2.y) / 2,
        r.0.valid(),
        r.1 == p2.x - p1.x,
        r.2 == p2.y - p1.y,
        !(r.1 == 0 && r.2 == 0),
        -2_000_000_000 <= r.1 <= 2_000_000_000,
        -2_000_000_000 <= r.2 <= 2_000_000_000,
{
    let mx = floor_half(p1.x + p2.x);
    let my = floor_half(p1.y + p2.y);
    (Position { x: mx, y: my }, p2.x - p1.x, p2.y - p1.y)
}

/// Floor division by two.
fn floor_half(s: i64) -> (r: i64)
    requires
        -4_000_000_000 <= s <= 4_000_000_000,
    ensures
        r == s / 2,
{
    let r = if s >= 0 {
        s / 2
    } else {
        -((-s + 1) / 2)
    };
    proof {
        if s < 0 {
            assert(-((1 - s as int) / 2) == s as int / 2) by (nonlinear_arith)
                requires
                    s < 0,
            ;
        }
    }
    r
}

impl Shape for ThermometerQuestionShape {
    open spec fn instructions_needed(&self) -> int {
        1
    }

    open spec fn program_of(&self, base: int) -> Seq<SdfInstruction> {
        let q = self.question_spec();
        seq![
            (SdfInstruction::GreatCircle {
                point: (Position {
                    x: ((q.start.x + q.end.x) / 2) as i64,
                    y: ((q.start.y + q.end.y) / 2) as i64,
                }),
                normal_x: (q.end.x - q.start.x) as i64,
                normal_y: (q.end.y - q.start.y) as i64,
                interior_point: if self.answer_spec() is Hotter {
                    q.end
                } else {
                    q.start
                },
                output: Register(base as u32),
            }),
        ]
    }

    open spec fn result_of(&self, base: int) -> Register {
        Register(base as u32)
    }

    fn build_into(&self, compiler: &mut SdfCompiler) -> (r: Register) {
        proof {
            use_type_invariant(&*self);
        }
        let ghost pre = compiler@;
        let (point, nx, ny) = find_equidistant_great_circle(
            self.question.start,
            self.question.end,
        );
        let r = match self.answer {
            ThermometerQuestionAnswer::Hotter => compiler.great_circle(
                point,
                nx,
                ny,
                self.question.end,
            ),
            ThermometerQuestionAnswer::Colder => compiler.great_circle(
                point,
                nx,
                ny,
                self.question.start,
            ),
        };
        proof {
            assert(compiler@ =~= pre + self.program_of(pre.len() as int));
        }
        r
    }
}

} // verus!
