use topdown_racer::track::{
    known_named, sorted_names, Point, PropKind, PropSource, StartLineSource, Surface,
    SurfaceSpanSource, TerrainZone, Theme, Track, TrackParseError, TrackSource, TrackSurvey,
    ZoneKind, ZoneSource,
};

/// Maximum distance between two coordinates for them to coincide.
const CLOSURE_TOLERANCE: f32 = 1e-4;

fn pt(p: [f32; 2]) -> Point {
    Point {
        x: p[0].to_bits(),
        y: p[1].to_bits(),
    }
}

/// Which vertices lie within the tolerance of an earlier vertex.
fn repeats(points: &[[f32; 2]]) -> Vec<bool> {
    (0..points.len())
        .map(|i| {
            let p = points[i];
            !points[..i].iter().all(|q| {
                (p[0] - q[0]).abs() > CLOSURE_TOLERANCE || (p[1] - q[1]).abs() > CLOSURE_TOLERANCE
            })
        })
        .collect()
}

/// The tolerance measurements the shell takes before validation.
fn survey(points: &[[f32; 2]], zones: &[Vec<[f32; 2]>]) -> TrackSurvey {
    let (closed, repeated) = match (points.first(), points.last()) {
        (Some(first), Some(last)) => {
            let gap = ((first[0] - last[0]).powi(2) + (first[1] - last[1]).powi(2)).sqrt();
            (gap <= CLOSURE_TOLERANCE, repeats(&points[..points.len() - 1]))
        }
        _ => (true, Vec::new()),
    };
    TrackSurvey {
        closed,
        repeated,
        zone_repeated: zones.iter().map(|z| repeats(z)).collect(),
    }
}

struct Doc {
    points: Vec<[f32; 2]>,
    width: Option<f32>,
    widths: Option<Vec<f32>>,
    surfaces: Vec<(usize, Option<usize>, &'static str)>,
    props: Vec<(&'static str, [f32; 2], Option<f32>)>,
    zones: Vec<(&'static str, Vec<[f32; 2]>)>,
    theme: Option<&'static str>,
    start_segment: Option<usize>,
}

impl Doc {
    fn parse(&self) -> Result<Track, TrackParseError> {
        let zone_points: Vec<Vec<[f32; 2]>> = self.zones.iter().map(|z| z.1.clone()).collect();
        let survey = survey(&self.points, &zone_points);
        let src = TrackSource {
            name: "T".to_owned(),
            widths: self
                .widths
                .as_ref()
                .map(|w| w.iter().map(|v| v.to_bits()).collect()),
            points: self.points.iter().map(|p| pt(*p)).collect(),
            surfaces: self
                .surfaces
                .iter()
                .map(|(start, end, surface)| SurfaceSpanSource {
                    start: *start,
                    end: *end,
                    surface: surface.to_string(),
                })
                .collect(),
            props: self
                .props
                .iter()
                .map(|(kind, position, rotation)| PropSource {
                    kind: kind.to_string(),
                    position: pt(*position),
                    rotation_degrees: rotation.map(f32::to_bits),
                })
                .collect(),
            terrain_zones: self
                .zones
                .iter()
                .map(|(kind, polygon)| ZoneSource {
                    kind: kind.to_string(),
                    polygon: polygon.iter().map(|p| pt(*p)).collect(),
                })
                .collect(),
            width: self.width.map(f32::to_bits),
            theme: self.theme.map(str::to_owned),
            start_line: self.start_segment.map(|segment| StartLineSource { segment }),
        };
        Track::from_source(src, &survey)
    }
}

const TRIANGLE: [[f32; 2]; 4] = [[0.0, 0.0], [10.0, 0.0], [10.0, 10.0], [0.0, 0.0]];

/// Track text with the given points, global width and surface spans.
fn track_text(
    points: &[[f32; 2]],
    width: f32,
    surfaces: Vec<(usize, Option<usize>, &'static str)>,
) -> Doc {
    Doc {
        points: points.to_vec(),
        width: Some(width),
        widths: None,
        surfaces,
        props: Vec::new(),
        zones: Vec::new(),
        theme: None,
        start_segment: None,
    }
}

/// Track text with a per-vertex widths array too.
fn track_text_widths(points: &[[f32; 2]], width: Option<f32>, widths: &[f32]) -> Doc {
    let mut doc = track_text(points, 0.0, Vec::new());
    doc.width = width;
    doc.widths = Some(widths.to_vec());
    doc
}

fn closed_triangle_text() -> Doc {
    track_text(&TRIANGLE, 10.0, Vec::new())
}

fn v2_track_text() -> Doc {
    Doc {
        points: TRIANGLE.to_vec(),
        width: Some(10.0),
        widths: None,
        surfaces: Vec::new(),
        props: vec![
            ("tree", [5.0, 5.0], Some(90.0)),
            ("brake_board", [8.0, 1.0], None),
        ],
        zones: vec![(
            "dirt",
            vec![[20.0, 20.0], [30.0, 20.0], [30.0, 30.0], [20.0, 30.0]],
        )],
        theme: Some("hillside"),
        start_segment: Some(1),
    }
}

fn widths_of(track: &Track) -> Vec<f32> {
    track.widths.iter().map(|w| f32::from_bits(*w)).collect()
}

#[test]
fn unclosed_loop_is_rejected_with_descriptive_error() {
    check_unclosed_loop_is_rejected_with_descriptive_error();
}

/// Single-width track files obey the same rule.
#[test]
fn track_unclosed_loop_is_rejected_with_descriptive_error() {
    check_unclosed_loop_is_rejected_with_descriptive_error();
}

fn check_unclosed_loop_is_rejected_with_descriptive_error() {
    let unclosed = [[0.0, 0.0], [10.0, 0.0], [10.0, 10.0], [5.0, 20.0]];
    let err = track_text(&unclosed, 10.0, Vec::new()).parse().unwrap_err();
    match err {
        TrackParseError::UnclosedLoop { first, last } => {
            assert_eq!(first, pt([0.0, 0.0]));
            assert_eq!(last, pt([5.0, 20.0]));
        }
        other => panic!("{other:?}"),
    }

    // Boundary: the same shape closed explicitly parses.
    let closed = closed_triangle_text().parse().unwrap();
    assert_eq!(closed.points.len(), 4);
}

#[test]
fn degenerate_loop_is_rejected_with_descriptive_error() {
    check_degenerate_loop_is_rejected_with_descriptive_error();
}

/// Single-width track files obey the same rule.
#[test]
fn track_degenerate_loop_is_rejected_with_descriptive_error() {
    check_degenerate_loop_is_rejected_with_descriptive_error();
}

fn check_degenerate_loop_is_rejected_with_descriptive_error() {
    let cases: [&[[f32; 2]]; 3] = [
        &[[0.0, 0.0], [0.0, 0.0]],
        &[[0.0, 0.0], [10.0, 0.0], [0.0, 0.0]],
        &[[0.0, 0.0]],
    ];
    for points in cases {
        let err = track_text(points, 10.0, Vec::new()).parse().unwrap_err();
        assert!(matches!(err, TrackParseError::TooFewPoints(_)), "{points:?}: {err:?}");
        let msg = err.describe().unwrap();
        assert!(msg.contains("distinct points"), "message: {msg}");
    }
}

#[test]
fn near_closed_loop_canonicalizes_the_closing_point() {
    check_near_closed_loop_canonicalizes_the_closing_point();
}

/// Single-width track files obey the same rule.
#[test]
fn track_near_closed_loop_canonicalizes_the_closing_point() {
    check_near_closed_loop_canonicalizes_the_closing_point();
}

fn check_near_closed_loop_canonicalizes_the_closing_point() {
    let points = [[0.0, 0.0], [10.0, 0.0], [10.0, 10.0], [0.00005, 0.0]];
    let track = track_text(&points, 10.0, Vec::new()).parse().unwrap();
    assert_eq!(track.points.last(), Some(&track.points[0]));
}

#[test]
fn non_positive_width_is_rejected_with_descriptive_error() {
    check_non_positive_width_is_rejected_with_descriptive_error();
}

/// Single-width track files obey the same rule.
#[test]
fn track_non_positive_width_is_rejected_with_descriptive_error() {
    check_non_positive_width_is_rejected_with_descriptive_error();
}

fn check_non_positive_width_is_rejected_with_descriptive_error() {
    for width in [0.0, -5.0] {
        let err = track_text(&TRIANGLE, width, Vec::new()).parse().unwrap_err();
        assert!(
            matches!(err, TrackParseError::InvalidWidth(w) if w == f32::to_bits(width)),
            "width {width}: {err:?}"
        );
    }

    // Boundary: a small positive width parses.
    assert!(track_text(&TRIANGLE, 0.5, Vec::new()).parse().is_ok());
}

#[test]
fn widths_array_wins_over_the_global_width() {
    let track = track_text_widths(&TRIANGLE, Some(10.0), &[8.0, 12.0, 16.0, 8.0])
        .parse()
        .unwrap();
    assert_eq!(widths_of(&track), vec![8.0, 12.0, 16.0, 8.0]);
    assert_eq!(track.widths.len(), track.points.len());

    // The global width is a fallback, not a co-field.
    let track = track_text_widths(&TRIANGLE, Some(10.0), &[8.0, 12.0, 16.0, 99.0])
        .parse()
        .unwrap();
    assert_eq!(widths_of(&track), vec![8.0, 12.0, 16.0, 8.0]);
}

#[test]
fn global_width_without_widths_resolves_a_uniform_array() {
    let track = closed_triangle_text().parse().unwrap();
    assert_eq!(widths_of(&track), vec![10.0; track.points.len()]);
}

#[test]
fn widths_only_json_loads_without_a_global_width() {
    let track = track_text_widths(&TRIANGLE, None, &[8.0, 12.0, 16.0, 8.0])
        .parse()
        .unwrap();
    assert_eq!(widths_of(&track), vec![8.0, 12.0, 16.0, 8.0]);
}

#[test]
fn json_with_neither_width_nor_widths_is_rejected() {
    let mut doc = closed_triangle_text();
    doc.width = None;
    let err = doc.parse().unwrap_err();
    assert!(matches!(err, TrackParseError::MissingWidth), "{err:?}");
    assert!(err.describe().unwrap().contains("widths"));
}

#[test]
fn widths_length_mismatch_is_rejected_with_descriptive_error() {
    let cases: [&[f32]; 3] = [&[], &[10.0, 10.0], &[10.0, 10.0, 10.0, 10.0, 10.0]];
    for widths in cases {
        let err = track_text_widths(&TRIANGLE, Some(10.0), widths)
            .parse()
            .unwrap_err();
        assert!(
            matches!(err, TrackParseError::WidthsLengthMismatch { points: 4, widths: n } if n == widths.len()),
            "{widths:?}: {err:?}"
        );
        let msg = err.describe().unwrap();
        assert!(msg.contains("widths"), "message: {msg}");
    }
}

#[test]
fn non_positive_vertex_width_is_rejected_with_index() {
    for (widths, index) in [
        ([10.0, 0.0, 10.0, 10.0], 1),
        ([10.0, 10.0, -3.0, 10.0], 2),
    ] {
        let err = track_text_widths(&TRIANGLE, Some(10.0), &widths)
            .parse()
            .unwrap_err();
        assert!(
            matches!(err, TrackParseError::InvalidVertexWidth { index: i, .. } if i == index),
            "{widths:?}: {err:?}"
        );
    }

    // Boundary: small positive vertex widths parse.
    assert!(track_text_widths(&TRIANGLE, Some(10.0), &[0.5, 10.0, 10.0, 0.5])
        .parse()
        .is_ok());
}

#[test]
fn unknown_surface_is_rejected_with_descriptive_error() {
    check_unknown_surface_is_rejected_with_descriptive_error();
}

/// Single-width track files obey the same rule.
#[test]
fn track_unknown_surface_is_rejected_with_descriptive_error() {
    check_unknown_surface_is_rejected_with_descriptive_error();
}

fn check_unknown_surface_is_rejected_with_descriptive_error() {
    let err = track_text(&TRIANGLE, 10.0, vec![(0, None, "ice")])
        .parse()
        .unwrap_err();
    match &err {
        TrackParseError::UnknownSurface { found, known } => {
            assert_eq!(found, "ice");
            assert_eq!(known, &vec!["grass", "gravel", "road"]);
        }
        other => panic!("{other:?}"),
    }
    let msg = err.describe().unwrap();
    assert!(msg.contains("unknown surface"), "message: {msg}");
    assert!(msg.contains("'ice'"), "message: {msg}");
    assert!(msg.contains("road"), "message: {msg}");
    assert_eq!(msg, "unknown surface 'ice'; known surfaces: grass, gravel, road");

    // Distinctness: every known surface name parses and resolves.
    let track = track_text(&TRIANGLE, 10.0, vec![(0, Some(1), "grass")])
        .parse()
        .unwrap();
    assert_eq!(track.surfaces[1], Surface::Grass);
}

#[test]
fn surface_span_out_of_range_is_rejected_with_descriptive_error() {
    check_surface_span_out_of_range_is_rejected_with_descriptive_error();
}

/// Single-width track files obey the same rule.
#[test]
fn track_surface_span_out_of_range_is_rejected_with_descriptive_error() {
    check_surface_span_out_of_range_is_rejected_with_descriptive_error();
}

fn check_surface_span_out_of_range_is_rejected_with_descriptive_error() {
    for surfaces in [
        vec![(9, None, "gravel")],
        vec![(0, Some(9), "gravel")],
        vec![(2, Some(1), "gravel")],
    ] {
        let err = track_text(&TRIANGLE, 10.0, surfaces.clone())
            .parse()
            .unwrap_err();
        assert!(
            matches!(err, TrackParseError::InvalidSurfaceSpan { segment_count: 3, .. }),
            "{surfaces:?}: {err:?}"
        );
        let msg = err.describe().unwrap();
        assert!(msg.contains("segment"), "message: {msg}");
    }
}

#[test]
fn v2_fields_parse_into_typed_props_zones_theme_and_start_segment() {
    let track = v2_track_text().parse().unwrap();
    assert_eq!(track.props.len(), 2);
    assert_eq!(track.props[0].kind, PropKind::Tree);
    assert_eq!(track.props[0].position, pt([5.0, 5.0]));
    assert_eq!(f32::from_bits(track.props[0].rotation_degrees), 90.0);
    assert_eq!(track.props[1].kind, PropKind::BrakeBoard);
    assert_eq!(f32::from_bits(track.props[1].rotation_degrees), 0.0);
    assert_eq!(track.zones.len(), 1);
    let zone: &TerrainZone = &track.zones[0];
    assert_eq!(zone.kind, ZoneKind::Dirt);
    assert_eq!(zone.polygon.len(), 4);
    assert_eq!(track.theme, Theme::Hillside);
    assert_eq!(track.start_segment, 1);
}

#[test]
fn unknown_prop_type_is_rejected_with_descriptive_error() {
    let mut doc = v2_track_text();
    doc.props[0] = ("rock", [5.0, 5.0], None);
    let err = doc.parse().unwrap_err();
    match &err {
        TrackParseError::UnknownPropType { found, known } => {
            assert_eq!(found, "rock");
            assert_eq!(known, &vec!["brake_board", "tire_stack", "tree"]);
        }
        other => panic!("{other:?}"),
    }
    let msg = err.describe().unwrap();
    assert!(msg.contains("unknown prop"), "message: {msg}");
    assert!(msg.contains("'rock'"), "message: {msg}");
    assert!(msg.contains("tree"), "message: {msg}");
}

#[test]
fn unknown_zone_kind_is_rejected_with_descriptive_error() {
    let mut doc = v2_track_text();
    doc.zones[0].0 = "lava";
    let err = doc.parse().unwrap_err();
    match &err {
        TrackParseError::UnknownZoneKind { found, known } => {
            assert_eq!(found, "lava");
            assert_eq!(known, &vec!["dark_grass", "dirt", "sand"]);
        }
        other => panic!("{other:?}"),
    }
    let msg = err.describe().unwrap();
    assert!(msg.contains("unknown terrain zone"), "message: {msg}");
    assert!(msg.contains("'lava'"), "message: {msg}");
    assert!(msg.contains("sand"), "message: {msg}");
}

#[test]
fn degenerate_zone_is_rejected_with_descriptive_error() {
    let mut doc = v2_track_text();
    doc.zones[0].1 = vec![[20.0, 20.0], [30.0, 20.0], [20.0, 20.0]];
    let err = doc.parse().unwrap_err();
    assert!(
        matches!(err, TrackParseError::DegenerateZone { distinct: 2 }),
        "{err:?}"
    );
    let msg = err.describe().unwrap();
    assert!(msg.contains("distinct vertices"), "message: {msg}");
}

#[test]
fn invalid_start_segment_is_rejected_with_descriptive_error() {
    let mut doc = v2_track_text();
    doc.start_segment = Some(9);
    let err = doc.parse().unwrap_err();
    assert!(
        matches!(
            err,
            TrackParseError::InvalidStartSegment {
                segment: 9,
                segment_count: 3
            }
        ),
        "{err:?}"
    );
    let msg = err.describe().unwrap();
    assert!(msg.contains("segment"), "message: {msg}");

    // Boundary: the last valid segment index parses.
    let mut ok = v2_track_text();
    ok.start_segment = Some(2);
    assert_eq!(ok.parse().unwrap().start_segment, 2);
}

#[test]
fn unknown_theme_is_rejected_with_descriptive_error() {
    let mut doc = v2_track_text();
    doc.theme = Some("desert");
    let err = doc.parse().unwrap_err();
    match &err {
        TrackParseError::UnknownTheme { found, known } => {
            assert_eq!(found, "desert");
            assert_eq!(known, &vec!["hillside"]);
        }
        other => panic!("{other:?}"),
    }
    let msg = err.describe().unwrap();
    assert!(msg.contains("unknown theme"), "message: {msg}");
    assert!(msg.contains("'desert'"), "message: {msg}");
    assert!(msg.contains("hillside"), "message: {msg}");
}

#[test]
fn v2_defaults_apply_when_the_fields_are_absent() {
    let bare = closed_triangle_text().parse().unwrap();
    assert!(bare.props.is_empty());
    assert!(bare.zones.is_empty());
    assert_eq!(bare.theme, Theme::Hillside);
    assert_eq!(bare.start_segment, 0);
    assert_eq!(bare.surfaces, vec![Surface::Road; 3]);
}

#[test]
fn consecutive_duplicate_vertices_are_rejected_with_the_segment_index() {
    let points = [[0.0, 0.0], [10.0, 0.0], [10.0, 0.0], [10.0, 10.0], [0.0, 0.0]];
    let err = track_text(&points, 10.0, Vec::new()).parse().unwrap_err();
    assert!(
        matches!(err, TrackParseError::ZeroLengthSegment { segment: 1 }),
        "{err:?}"
    );
    assert_eq!(
        err.describe().unwrap(),
        "track segment 1 has zero length; consecutive vertices must differ"
    );
}

#[test]
fn surface_spans_paint_in_order_and_later_spans_win() {
    let square = [[0.0, 0.0], [10.0, 0.0], [10.0, 10.0], [0.0, 10.0], [0.0, 0.0]];
    let track = track_text(
        &square,
        10.0,
        vec![(0, Some(2), "gravel"), (1, None, "grass")],
    )
    .parse()
    .unwrap();
    assert_eq!(
        track.surfaces,
        vec![Surface::Gravel, Surface::Grass, Surface::Gravel, Surface::Road]
    );
}

#[test]
fn names_resolve_only_to_known_variants_and_list_sorted() {
    assert_eq!(Surface::from_name("road"), Some(Surface::Road));
    assert_eq!(Surface::from_name("Road"), None);
    assert_eq!(PropKind::from_name("tire_stack"), Some(PropKind::TireStack));
    assert_eq!(ZoneKind::from_name("dark_grass"), Some(ZoneKind::DarkGrass));
    assert_eq!(Theme::from_name("hillside"), Some(Theme::Hillside));
    assert_eq!(Theme::from_name(""), None);
    for s in Surface::KNOWN {
        assert_eq!(Surface::from_name(s.name()), Some(s));
    }
    assert_eq!(known_named(&ZoneKind::KNOWN, "sand"), Some(ZoneKind::Sand));
    assert_eq!(sorted_names(&ZoneKind::KNOWN), vec!["dark_grass", "dirt", "sand"]);
    assert_eq!(PropKind::Tree.name(), "tree");
    assert_eq!(ZoneKind::Dirt.name(), "dirt");
    assert_eq!(Theme::Hillside.name(), "hillside");
}

#[test]
fn rejections_with_numbers_in_binary32_are_left_to_the_caller_to_describe() {
    let err = track_text(&TRIANGLE, 0.0, Vec::new()).parse().unwrap_err();
    assert!(err.describe().is_none());
    let unclosed = [[0.0, 0.0], [10.0, 0.0], [10.0, 10.0], [5.0, 20.0]];
    let err = track_text(&unclosed, 10.0, Vec::new()).parse().unwrap_err();
    assert!(err.describe().is_none());
    let err = track_text(&TRIANGLE, 10.0, vec![(2, Some(1), "gravel")])
        .parse()
        .unwrap_err();
    assert_eq!(
        err.describe().unwrap(),
        "surface span covers segments 2..=1 but the track has only 3 segments"
    );
    let err = track_text_widths(&TRIANGLE, None, &[1.0]).parse().unwrap_err();
    assert_eq!(
        err.describe().unwrap(),
        "track widths has 1 entries but the track has 4 points; one width per vertex (closing repeat included) is required"
    );
}
