use jet_lag_core::cache::ShaderCache;
use jet_lag_core::circle::Circle;
use jet_lag_core::compiled::CompiledShape;
use jet_lag_core::compiler::SdfCompiler;
use jet_lag_core::instruction::{BoundaryOverlapResolution, Register, SdfInstruction};
use jet_lag_core::shader::ShaderCompileError;
use jet_lag_core::types::{Centimeters, Position, VAL_MAX};

fn pos(x: i64, y: i64) -> Position {
    Position::new(x, y)
}

fn bind(
    cache: &mut ShaderCache,
    instructions: Vec<SdfInstruction>,
    target: Register,
) -> CompiledShape {
    match CompiledShape::from_instructions(cache, instructions, target) {
        Ok(cs) => cs,
        Err(e) => panic!("unexpected compilation defect: {:?}", e),
    }
}

#[test]
fn test_point_cloud_empty_is_outside_everywhere() {
    let mut cache = ShaderCache::new();
    let mut compiler = SdfCompiler::new();
    let r = compiler.point_cloud(vec![]);
    let shape = bind(&mut cache, compiler.finish(), r);
    for sample in [pos(0, 0), pos(123_456, -789), pos(-1_000_000_000, 1_000_000_000)] {
        assert_eq!(shape.evaluate(sample), VAL_MAX);
        assert!(shape.evaluate(sample) > 0);
    }
}

#[test]
fn test_point_cloud_is_member_minimum() {
    let mut cache = ShaderCache::new();
    let mut compiler = SdfCompiler::new();
    let r = compiler.point_cloud(vec![pos(0, 0), pos(300, 400)]);
    let shape = bind(&mut cache, compiler.finish(), r);
    assert_eq!(shape.evaluate(pos(0, 0)), 0);
    assert_eq!(shape.evaluate(pos(300, 0)), 300); // min(300, 400)
    assert_eq!(shape.evaluate(pos(300, 400)), 0);
    assert_eq!(shape.evaluate(pos(0, 800)), 500); // min(800, 500)
}

#[test]
fn test_double_invert_is_identity() {
    let mut cache = ShaderCache::new();
    let mut compiler = SdfCompiler::new();
    let p = compiler.point(pos(100, 200));
    let once = compiler.invert(p);
    let twice = compiler.invert(once);
    let instructions = compiler.finish();
    let direct = bind(&mut cache, instructions.clone(), p);
    let doubled = bind(&mut cache, instructions, twice);
    for sample in [pos(0, 0), pos(100, 200), pos(-5000, 7000)] {
        assert_eq!(doubled.evaluate(sample), direct.evaluate(sample));
    }
}

#[test]
fn test_union_is_min_and_intersection_is_max() {
    let mut cache = ShaderCache::new();
    let mut compiler = SdfCompiler::new();
    let a = compiler.point(pos(0, 0));
    let b = compiler.point(pos(1000, 0));
    let u = compiler.union(vec![a, b]);
    let i = compiler.intersection(a, b);
    let instructions = compiler.finish();
    let union_shape = bind(&mut cache, instructions.clone(), u);
    let inter_shape = bind(&mut cache, instructions, i);
    let sample = pos(250, 0);
    assert_eq!(union_shape.evaluate(sample), 250); // min(250, 750)
    assert_eq!(inter_shape.evaluate(sample), 750); // max(250, 750)
}

#[test]
fn test_subtract_and_edge() {
    let mut cache = ShaderCache::new();
    let mut compiler = SdfCompiler::new();
    let a = compiler.point(pos(0, 0));
    let b = compiler.point(pos(1000, 0));
    let s = compiler.subtract(a, b);
    let grown = compiler.dilate(a, Centimeters(500));
    let e = compiler.edge(grown);
    let instructions = compiler.finish();
    let sub_shape = bind(&mut cache, instructions.clone(), s);
    let edge_shape = bind(&mut cache, instructions, e);
    // subtract = max(a, -b)
    assert_eq!(sub_shape.evaluate(pos(250, 0)), 250);
    assert_eq!(sub_shape.evaluate(pos(900, 0)), 900);
    // edge = abs(dilated field), never negative
    assert_eq!(edge_shape.evaluate(pos(300, 0)), 200); // |300 - 500|
    assert_eq!(edge_shape.evaluate(pos(700, 0)), 200); // |700 - 500|
    assert!(edge_shape.evaluate(pos(500, 0)) >= 0);
}

#[test]
fn test_dilate_shifts_and_is_monotone() {
    let mut cache = ShaderCache::new();
    let mut compiler = SdfCompiler::new();
    let p = compiler.point(pos(0, 0));
    let small = compiler.dilate(p, Centimeters(500));
    let large = compiler.dilate(p, Centimeters(600));
    let instructions = compiler.finish();
    let small_shape = bind(&mut cache, instructions.clone(), small);
    let large_shape = bind(&mut cache, instructions, large);
    for sample in [pos(0, 0), pos(400, 0), pos(2000, 0), pos(-900, 0)] {
        // dilate subtracts the amount exactly ...
        assert_eq!(small_shape.evaluate(sample) + 500, large_shape.evaluate(sample) + 600);
        // ... and a larger amount never grows the outside region.
        assert!(large_shape.evaluate(sample) <= small_shape.evaluate(sample));
    }
    assert_eq!(small_shape.evaluate(pos(400, 0)), -100);
}

#[test]
fn test_boundary_policies_disagree_on_ambiguous_samples() {
    let mut cache = ShaderCache::new();
    let mut compiler = SdfCompiler::new();
    let a0 = compiler.point(pos(0, 0));
    let a = compiler.dilate(a0, Centimeters(1000));
    let b0 = compiler.point(pos(10, 0));
    let b = compiler.dilate(b0, Centimeters(1000));
    let keep_inside = compiler.boundary(a, b, BoundaryOverlapResolution::Inside);
    let keep_outside = compiler.boundary(a, b, BoundaryOverlapResolution::Outside);
    let instructions = compiler.finish();
    let inside_shape = bind(&mut cache, instructions.clone(), keep_inside);
    let outside_shape = bind(&mut cache, instructions, keep_outside);
    // The origin satisfies both candidate regions.
    let sample = pos(0, 0);
    let vi = inside_shape.evaluate(sample);
    let vo = outside_shape.evaluate(sample);
    assert!(vi <= 0, "Inside policy must classify the ambiguous sample inside");
    assert!(vo > 0, "Outside policy must classify the ambiguous sample outside");
    assert_ne!(vi, vo);
}

#[test]
fn test_identical_shapes_share_one_cached_routine() {
    let mut cache = ShaderCache::new();
    // Two circles with different constants: identical structure.
    let c1 = Circle::new(pos(0, 0), Centimeters(500));
    let c2 = Circle::new(pos(77_000, -3), Centimeters(9_000));
    let s1 = CompiledShape::compile(&mut cache, &c1);
    let s2 = CompiledShape::compile(&mut cache, &c2);
    assert_eq!(s1.hash(), s2.hash());
    assert_eq!(cache.len(), 1, "the second compile must reuse the cached routine");
    // And the two programs still evaluate with their own constants.
    assert_eq!(s1.evaluate(pos(0, 0)), -500);
    assert_eq!(s2.evaluate(pos(77_000, -3)), -9_000);
}

#[test]
fn test_dilated_point_circle_scenario() {
    let mut cache = ShaderCache::new();
    let center = pos(5_000, 5_000);
    let circle = Circle::new(center, Centimeters(500));
    let shape = CompiledShape::compile(&mut cache, &circle);
    assert!(shape.evaluate(pos(5_400, 5_000)) < 0, "400cm from the center is inside");
    assert!(shape.evaluate(pos(5_600, 5_000)) > 0, "600cm from the center is outside");
    assert_eq!(shape.evaluate(pos(5_500, 5_000)), 0, "500cm from the center is the boundary");
}

#[test]
fn test_boundary_of_point_against_cloud_scenario() {
    let mut cache = ShaderCache::new();
    let mut compiler = SdfCompiler::new();
    let p1 = compiler.point(pos(0, 0));
    let others = compiler.point_cloud(vec![pos(1000, 0), pos(1000, 800)]);
    let r = compiler.boundary(p1, others, BoundaryOverlapResolution::Inside);
    let shape = bind(&mut cache, compiler.finish(), r);
    // At exactly P1 the sample belongs to P1's region.
    assert!(shape.evaluate(pos(0, 0)) <= 0);
    // Far away on P1's side of the bisector.
    assert!(shape.evaluate(pos(-5_000, 0)) < 0);
    // On the other side, nearer the cloud.
    assert!(shape.evaluate(pos(1000, 0)) > 0);
    assert!(shape.evaluate(pos(5_000, 400)) > 0);
}

#[test]
fn test_compilation_rejects_malformed_streams() {
    let mut cache = ShaderCache::new();

    fn expect_err(
        r: Result<CompiledShape, ShaderCompileError>,
        want: ShaderCompileError,
    ) {
        match r {
            Ok(_) => panic!("expected a compilation defect"),
            Err(e) => assert_eq!(e, want),
        }
    }

    // A register produced out of position.
    let bad = vec![SdfInstruction::Point { position: pos(0, 0), output: Register(3) }];
    expect_err(
        CompiledShape::from_instructions(&mut cache, bad, Register(0)),
        ShaderCompileError::InvalidRegister,
    );

    // A forward reference.
    let forward = vec![SdfInstruction::Invert { input: Register(0), output: Register(0) }];
    expect_err(
        CompiledShape::from_instructions(&mut cache, forward, Register(0)),
        ShaderCompileError::InvalidRegister,
    );

    // A payload outside the planar map frame.
    let far = vec![SdfInstruction::Point {
        position: Position { x: 2_000_000_000, y: 0 },
        output: Register(0),
    }];
    expect_err(
        CompiledShape::from_instructions(&mut cache, far, Register(0)),
        ShaderCompileError::InvalidPayload,
    );

    // A result register the program never produces.
    let mut compiler = SdfCompiler::new();
    compiler.point(pos(0, 0));
    expect_err(
        CompiledShape::from_instructions(&mut cache, compiler.finish(), Register(7)),
        ShaderCompileError::MissingResult,
    );

    // An over-long program: one instruction past the slot format's
    // eight-bit instruction-index budget.
    let mut long = Vec::new();
    for i in 0..257u32 {
        long.push(SdfInstruction::Point { position: pos(0, 0), output: Register(i) });
    }
    expect_err(
        CompiledShape::from_instructions(&mut cache, long, Register(0)),
        ShaderCompileError::TooManyInstructions,
    );
}

#[test]
fn test_midpoint_policy_follows_the_bisector() {
    let mut cache = ShaderCache::new();
    let mut compiler = SdfCompiler::new();
    let a = compiler.point(pos(0, 0));
    let b = compiler.point(pos(1000, 0));
    let r = compiler.boundary(a, b, BoundaryOverlapResolution::Midpoint);
    let shape = bind(&mut cache, compiler.finish(), r);
    // The field is the difference of the two candidate distances, so it
    // vanishes exactly on the perpendicular bisector.
    assert_eq!(shape.evaluate(pos(500, 0)), 0);
    assert_eq!(shape.evaluate(pos(200, 0)), -600);
    assert_eq!(shape.evaluate(pos(800, 0)), 600);
}
