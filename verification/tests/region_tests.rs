use clipflow::region::clamp_region;
use clipflow::types::Region;

#[test]
fn test_clamp_region_normal() {
    let r = clamp_region(&Region { x: 100, y: 200, width: 800, height: 600 });
    assert_eq!(r, Region { x: 100, y: 200, width: 800, height: 600 });
}

#[test]
fn test_clamp_region_negative_y() {
    // Window shadow: y=-8, height=1048 -> y=0, height=1040
    let r = clamp_region(&Region { x: 1912, y: -8, width: 1936, height: 1048 });
    assert_eq!(r.x, 0.max(1912));
    assert_eq!(r.y, 0);
    assert_eq!(r.height, 1040);
}

#[test]
fn test_clamp_region_negative_x_and_y() {
    let r = clamp_region(&Region { x: -10, y: -8, width: 1000, height: 800 });
    assert_eq!(r.x, 0);
    assert_eq!(r.y, 0);
    assert_eq!(r.width, 990);
    assert_eq!(r.height, 792);
}

#[test]
fn test_clamp_region_odd_dimensions() {
    let r = clamp_region(&Region { x: 0, y: 0, width: 801, height: 601 });
    assert_eq!(r.width, 800);
    assert_eq!(r.height, 600);
}

#[test]
fn test_clamp_region_minimum_size() {
    // Extremely negative: width would go to 0 or negative
    let r = clamp_region(&Region { x: -500, y: -500, width: 100, height: 100 });
    assert_eq!(r.x, 0);
    assert_eq!(r.y, 0);
    assert!(r.width >= 2);
    assert!(r.height >= 2);
}

#[test]
fn test_clamp_region_always_even_and_positive() {
    let samples = vec![
        Region { x: -3, y: 7, width: 5, height: 9 },
        Region { x: 2_000_000, y: -2_000_000, width: 4_000_000, height: 1 },
        Region { x: 0, y: 0, width: 0, height: 0 },
    ];
    for s in &samples {
        let r = clamp_region(s);
        assert!(r.width % 2 == 0 && r.width >= 2);
        assert!(r.height % 2 == 0 && r.height >= 2);
        assert!(r.x >= 0 && r.y >= 0);
    }
}
