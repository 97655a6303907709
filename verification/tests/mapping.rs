use zscale::gamma::gamma_adjust_table;
use zscale::mapper::GammaTable;

#[test]
fn lookup_reads_the_table() {
    let table = GammaTable::new();
    let entries = gamma_adjust_table();
    for level in 0..256i64 {
        assert_eq!(table.lookup(level), entries[level as usize]);
    }
}

#[test]
fn lookup_of_known_levels() {
    let table = GammaTable::new();
    assert_eq!(table.lookup(0), 0);
    assert_eq!(table.lookup(1), 27);
    assert_eq!(table.lookup(128), 194);
    assert_eq!(table.lookup(255), 255);
}

#[test]
fn lookup_clamps_a_level_pushed_above_the_top() {
    let table = GammaTable::new();
    assert_eq!(table.lookup(256), 255);
    assert_eq!(table.lookup(1000), 255);
    assert_eq!(table.lookup(i64::MAX), 255);
}

#[test]
fn lookup_clamps_a_level_below_zero() {
    let table = GammaTable::new();
    assert_eq!(table.lookup(-1), 0);
    assert_eq!(table.lookup(-300), 0);
    assert_eq!(table.lookup(i64::MIN), 0);
}

#[test]
fn map_levels_keeps_length_and_order() {
    let table = GammaTable::new();
    let levels: Vec<i64> = vec![255, 0, 128, 1, 128, 300, -7];
    assert_eq!(table.map_levels(&levels), vec![255u8, 0, 194, 27, 194, 255, 0]);
}

#[test]
fn map_levels_of_nothing_is_nothing() {
    let table = GammaTable::new();
    assert_eq!(table.map_levels(&Vec::new()), Vec::<u8>::new());
}

#[test]
fn map_levels_is_lookup_element_by_element() {
    let table = GammaTable::new();
    let levels: Vec<i64> = (-20..280).collect();
    let pixels = table.map_levels(&levels);
    assert_eq!(pixels.len(), levels.len());
    for k in 0..levels.len() {
        assert_eq!(pixels[k], table.lookup(levels[k]));
    }
}

#[test]
fn map_levels_never_falls_on_rising_levels() {
    let table = GammaTable::new();
    let levels: Vec<i64> = (-3..260).collect();
    let pixels = table.map_levels(&levels);
    for k in 1..pixels.len() {
        assert!(pixels[k - 1] <= pixels[k]);
    }
}

#[test]
fn map_levels_is_the_same_each_time() {
    let table = GammaTable::new();
    let levels: Vec<i64> = vec![3, 99, 200, 256, -1];
    assert_eq!(table.map_levels(&levels), table.map_levels(&levels));
    assert_eq!(table.map_levels(&levels), GammaTable::new().map_levels(&levels));
}
