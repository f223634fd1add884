use jet_lag_core::cache::ShaderCache;
use jet_lag_core::compiled::{read_coord, CompiledShape};
use jet_lag_core::compiler::SdfCompiler;
use jet_lag_core::game::GameState;
use jet_lag_core::instruction::{
    ContourTexture, Register, SdfInstruction, Vdg, VdgSite,
};
use jet_lag_core::question::{
    find_equidistant_great_circle, RadarQuestion, RadarQuestionAnswer, RadarQuestionShape,
    ThermometerQuestion, ThermometerQuestionAnswer, ThermometerQuestionShape,
};
use jet_lag_core::tile::Tile;
use jet_lag_core::types::{Centimeters, Position};

fn pos(x: i64, y: i64) -> Position {
    Position::new(x, y)
}

fn bind(
    cache: &mut ShaderCache,
    instructions: Vec<SdfInstruction>,
    target: Register,
) -> CompiledShape {
    match CompiledShape::from_instructions(cache, instructions, target) {
        Ok(cs) => cs,
        Err(e) => panic!("unexpected compilation defect: {:?}", e),
    }
}

#[test]
fn test_point_binding_round_trip() {
    // Binding a point's arguments for a tile and evaluating at exactly that
    // point gives a distance of zero.
    let mut cache = ShaderCache::new();
    let mut compiler = SdfCompiler::new();
    let p = pos(123_456, -654_321);
    let r = compiler.point(p);
    let shape = bind(&mut cache, compiler.finish(), r);

    let tile = Tile::world();
    let mut buffer: Vec<u8> = Vec::new();
    let ranges = shape.fill_arguments(&mut buffer, &tile).unwrap();
    assert_eq!(ranges.len(), 1);
    assert_eq!(ranges[0].offset, 0);
    assert_eq!(ranges[0].length, 8);
    // Two little-endian 32-bit signed integers, tile-relative.
    let dx = (p.x - tile.x0) as i32;
    let dy = (p.y - tile.y0) as i32;
    let mut expected = dx.to_le_bytes().to_vec();
    expected.extend_from_slice(&dy.to_le_bytes());
    assert_eq!(buffer, expected);

    assert_eq!(shape.evaluate(p), 0);
}

#[test]
fn test_fill_arguments_slot_order() {
    let mut cache = ShaderCache::new();
    let mut compiler = SdfCompiler::new();
    let a = compiler.point(pos(10, 20));
    let d = compiler.dilate(a, Centimeters(777));
    let shape = bind(&mut cache, compiler.finish(), d);
    assert_eq!(shape.required_slots().len(), 2);

    let tile = Tile::world();
    let mut buffer: Vec<u8> = Vec::new();
    let ranges = shape.fill_arguments(&mut buffer, &tile).unwrap();
    assert_eq!(ranges.len(), 2);
    assert_eq!((ranges[0].offset, ranges[0].length), (0, 8));
    assert_eq!((ranges[1].offset, ranges[1].length), (8, 4));
    assert_eq!(buffer.len(), 12);
    assert_eq!(&buffer[8..12], &777i32.to_le_bytes());
}

#[test]
fn test_tile_children_nest() {
    let world = Tile::world();
    let children = world.children();
    for c in children.iter() {
        assert_eq!(c.zoom, 1);
        assert!(world.x0 <= c.x0 && c.x1 <= world.x1);
        assert!(world.y0 <= c.y0 && c.y1 <= world.y1);
    }
    // Bottom-left, bottom-right, top-right, top-left.
    assert_eq!((children[0].tile_x, children[0].tile_y), (0, 1));
    assert_eq!((children[1].tile_x, children[1].tile_y), (1, 1));
    assert_eq!((children[2].tile_x, children[2].tile_y), (1, 0));
    assert_eq!((children[3].tile_x, children[3].tile_y), (0, 0));
    // The split is at the midpoints.
    assert_eq!(children[0].x1, 0);
    assert_eq!(children[0].y0, 0);

    let bounds = world.into_bounds();
    assert_eq!(bounds.min_lon as i64, world.x0);
    assert_eq!(bounds.min_lat as i64, world.y0);
    assert_eq!(bounds.lon_span as i64, world.x1 - world.x0);
    assert_eq!(bounds.lat_span as i64, world.y1 - world.y0);
}

#[test]
fn test_geodesic_string_distance() {
    let mut cache = ShaderCache::new();
    let mut compiler = SdfCompiler::new();
    // An L-shaped polyline.
    let r = compiler.geodesic_string(vec![pos(0, 0), pos(1000, 0), pos(1000, 1000)]);
    let shape = bind(&mut cache, compiler.finish(), r);
    assert_eq!(shape.evaluate(pos(500, 0)), 0, "on the first segment");
    assert_eq!(shape.evaluate(pos(500, 300)), 300, "above the first segment");
    assert_eq!(shape.evaluate(pos(1400, 500)), 400, "right of the second segment");
    assert_eq!(shape.evaluate(pos(-300, -400)), 500, "past the first endpoint");
}

#[test]
fn test_great_circle_halves_the_plane() {
    let mut cache = ShaderCache::new();
    let mut compiler = SdfCompiler::new();
    // Divider through (500, 0) with normal pointing along +x; the interior
    // point lies at +x, so positive-x samples are inside.
    let r = compiler.great_circle(pos(500, 0), 1000, 0, pos(2000, 0));
    let shape = bind(&mut cache, compiler.finish(), r);
    assert!(shape.evaluate(pos(2000, 0)) < 0);
    assert!(shape.evaluate(pos(-2000, 0)) > 0);
    assert_eq!(shape.evaluate(pos(500, 12345)), 0, "on the divider itself");
    assert_eq!(shape.evaluate(pos(800, 0)), -300);
}

#[test]
fn test_thermometer_shape() {
    let mut cache = ShaderCache::new();
    let question = ThermometerQuestion { start: pos(0, 0), end: pos(1000, 0) };
    let hotter = ThermometerQuestionShape::new(question, ThermometerQuestionAnswer::Hotter);
    let shape = CompiledShape::compile(&mut cache, &hotter);
    assert!(shape.evaluate(pos(900, 0)) < 0, "the end's side is hotter");
    assert!(shape.evaluate(pos(100, 0)) > 0, "the start's side is colder");

    let colder = ThermometerQuestionShape::new(question, ThermometerQuestionAnswer::Colder);
    let shape = CompiledShape::compile(&mut cache, &colder);
    assert!(shape.evaluate(pos(100, 0)) < 0);
    assert!(shape.evaluate(pos(900, 0)) > 0);

    let (mid, nx, ny) = find_equidistant_great_circle(pos(0, 0), pos(1000, 0));
    assert_eq!((mid.x, mid.y), (500, 0));
    assert_eq!((nx, ny), (1000, 0));
}

#[test]
fn test_radar_shape() {
    let mut cache = ShaderCache::new();
    let question = RadarQuestion { center: pos(0, 0), radius: Centimeters(1000) };
    let hit = RadarQuestionShape::new(question, RadarQuestionAnswer::Hit);
    let shape = CompiledShape::compile(&mut cache, &hit);
    assert!(shape.evaluate(pos(500, 0)) < 0);
    assert!(shape.evaluate(pos(1500, 0)) > 0);

    let miss = RadarQuestionShape::new(question, RadarQuestionAnswer::Miss);
    let shape = CompiledShape::compile(&mut cache, &miss);
    assert!(shape.evaluate(pos(500, 0)) > 0);
    assert!(shape.evaluate(pos(1500, 0)) < 0);
}

#[test]
fn test_contour_texture() {
    let mut cache = ShaderCache::new();
    let mut compiler = SdfCompiler::new();
    // A 2x2 elevation grid, 1000 cm cells: low on the left, high on the right.
    let texture = ContourTexture {
        origin: pos(0, 0),
        cell_cm: 1000,
        width: 2,
        height: 2,
        values: vec![100, 900, 100, 900],
    };
    let r = compiler.with_contour_texture(texture, Centimeters(500));
    let shape = bind(&mut cache, compiler.finish(), r);
    assert_eq!(shape.evaluate(pos(500, 500)), -400, "low cell reads below the threshold");
    assert_eq!(shape.evaluate(pos(1500, 500)), 400, "high cell reads above the threshold");
    assert_eq!(shape.evaluate(pos(-999, -999)), -400, "samples clamp to the nearest cell");
}

#[test]
fn test_planar_subdivision() {
    let mut cache = ShaderCache::new();
    let mut compiler = SdfCompiler::new();
    // Two cells: the interior one around the origin, the exterior one to the
    // right.
    let diagram = Vdg {
        sites: vec![
            VdgSite { position: pos(0, 0), inside: true },
            VdgSite { position: pos(2000, 0), inside: false },
        ],
    };
    let r = compiler.with_vdg(diagram);
    let shape = bind(&mut cache, compiler.finish(), r);
    assert!(shape.evaluate(pos(100, 0)) < 0, "nearer the interior site");
    assert!(shape.evaluate(pos(1900, 0)) > 0, "nearer the exterior site");
    assert_eq!(shape.evaluate(pos(1000, 0)), 0, "equidistant between the cells");
}

#[test]
fn test_centimeter_conversions() {
    assert_eq!(Centimeters(25).as_millimeters(), 250);
    assert_eq!(Centimeters(-3).as_millimeters(), -30);
    assert_eq!(Centimeters::from_millimeters(3048).0, 304);
    assert_eq!(Centimeters::from_millimeters(-3048).0, -304);
}

#[test]
fn test_game_state_distances() {
    let state = GameState {};
    assert_eq!(state.seeker_hiding_radius().0, 40233);
    assert_eq!(state.hider_max_distance_to_street_or_path().0, 304);
}

#[test]
fn test_coordinate_wire_round_trip() {
    let mut cache = ShaderCache::new();
    let mut compiler = SdfCompiler::new();
    let p = pos(-987_654_321, 123_456_789);
    let r = compiler.point(p);
    let shape = bind(&mut cache, compiler.finish(), r);
    let tile = Tile::world();
    let mut buffer: Vec<u8> = Vec::new();
    let ranges = shape.fill_arguments(&mut buffer, &tile).unwrap();
    let decoded = read_coord(&buffer, ranges[0].offset as usize, &tile);
    assert_eq!(decoded, p);
}
