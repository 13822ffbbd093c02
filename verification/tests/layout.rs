use topdown_racer::layout::{drawn_segments, zone_fan};
use topdown_racer::track::Surface;

#[test]
fn grass_segments_get_no_road_geometry_and_unlisted_ones_are_road() {
    let surfaces = vec![Surface::Road, Surface::Grass, Surface::Gravel];
    assert_eq!(
        drawn_segments(&surfaces, 5),
        vec![
            (0, Surface::Road),
            (2, Surface::Gravel),
            (3, Surface::Road),
            (4, Surface::Road)
        ]
    );
    assert!(drawn_segments(&vec![Surface::Grass; 4], 4).is_empty());
}

#[test]
fn zone_outlines_fill_as_a_fan_from_the_first_vertex() {
    assert_eq!(zone_fan(5), vec![(0, 1, 2), (0, 2, 3), (0, 3, 4)]);
    assert_eq!(zone_fan(3), vec![(0, 1, 2)]);
    assert!(zone_fan(2).is_empty());
    assert!(zone_fan(0).is_empty());
}
