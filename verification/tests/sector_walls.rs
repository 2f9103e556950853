use sector::math::{Vec2, ONE};
use sector::model::{missing_wall_color, Length, Position2, RawColor, Sector, SectorId};

fn p(x: i32, y: i32) -> Position2 {
    Position2(Vec2::new(x * ONE, y * ONE))
}

fn square() -> Sector {
    Sector {
        id: SectorId(7),
        vertices: vec![p(0, 0), p(0, 4), p(4, 4), p(4, 0)],
        portal_sectors: vec![None, Some(SectorId(8)), None, None],
        colors: vec![
            RawColor([1, 0, 0]),
            RawColor([2, 0, 0]),
            RawColor([3, 0, 0]),
            RawColor([4, 0, 0]),
        ],
        floor: Length(0),
        ceil: Length(4 * ONE),
    }
}

#[test]
fn to_walls_yields_one_wall_for_each_vertex() {
    let sector = square();
    let walls = sector.to_walls();
    assert_eq!(walls.len(), 4);
    for i in 0..4 {
        assert_eq!(walls[i].left, sector.vertices[i]);
        assert_eq!(walls[i].right, sector.vertices[(i + 1) % 4]);
    }
}

#[test]
fn to_walls_closes_the_polygon() {
    let walls = square().to_walls();
    assert_eq!(walls[3].left, p(4, 0));
    assert_eq!(walls[3].right, p(0, 0));
}

#[test]
fn to_walls_takes_portals_and_colors_by_position() {
    let walls = square().to_walls();
    assert_eq!(walls[0].portal_sector, None);
    assert_eq!(walls[1].portal_sector, Some(SectorId(8)));
    assert_eq!(walls[2].portal_sector, None);
    assert_eq!(walls[0].color, RawColor([1, 0, 0]));
    assert_eq!(walls[1].color, RawColor([2, 0, 0]));
    assert_eq!(walls[3].color, RawColor([4, 0, 0]));
}

#[test]
fn to_walls_of_a_sector_without_vertices_is_empty() {
    let sector = Sector::default();
    assert_eq!(sector.to_walls().len(), 0);
}

#[test]
fn to_walls_of_one_vertex_is_one_wall_without_length() {
    let mut sector = Sector::default();
    sector.vertices.push(p(3, 5));
    let walls = sector.to_walls();
    assert_eq!(walls.len(), 1);
    assert_eq!(walls[0].left, p(3, 5));
    assert_eq!(walls[0].right, p(3, 5));
}

#[test]
fn to_walls_of_two_vertices_goes_there_and_back() {
    let mut sector = Sector::default();
    sector.vertices.push(p(-2, 4));
    sector.vertices.push(p(2, 4));
    let walls = sector.to_walls();
    assert_eq!(walls.len(), 2);
    assert_eq!((walls[0].left, walls[0].right), (p(-2, 4), p(2, 4)));
    assert_eq!((walls[1].left, walls[1].right), (p(2, 4), p(-2, 4)));
}

#[test]
fn to_walls_fills_in_for_short_lists() {
    let mut sector = square();
    sector.portal_sectors = vec![Some(SectorId(9))];
    sector.colors = vec![RawColor([9, 9, 9]), RawColor([8, 8, 8])];
    let walls = sector.to_walls();
    assert_eq!(walls.len(), 4);
    assert_eq!(walls[0].portal_sector, Some(SectorId(9)));
    assert_eq!(walls[1].portal_sector, None);
    assert_eq!(walls[3].portal_sector, None);
    assert_eq!(walls[0].color, RawColor([9, 9, 9]));
    assert_eq!(walls[1].color, RawColor([8, 8, 8]));
    assert_eq!(walls[2].color, missing_wall_color());
    assert_eq!(walls[3].color, missing_wall_color());
}

#[test]
fn to_walls_ignores_what_is_beyond_the_vertices() {
    let mut sector = square();
    sector.vertices.truncate(2);
    let walls = sector.to_walls();
    assert_eq!(walls.len(), 2);
    assert_eq!(walls[1].portal_sector, Some(SectorId(8)));
    assert_eq!(walls[1].color, RawColor([2, 0, 0]));
}

#[test]
fn missing_wall_color_is_red() {
    assert_eq!(missing_wall_color(), RawColor([255, 0, 0]));
}

#[test]
fn defaults_are_zero() {
    let sector = Sector::default();
    assert_eq!(sector.id, SectorId(0));
    assert_eq!(sector.floor, Length(0));
    assert_eq!(sector.ceil, Length(0));
    assert_eq!(SectorId::default(), SectorId(0));
    assert_eq!(RawColor::default(), RawColor([0, 0, 0]));
    assert_eq!(Position2::default(), p(0, 0));
    assert_eq!(sector::model::InitialSector::default().0, SectorId(0));
}

#[test]
fn sector_is_well_formed_with_full_lists_and_ceiling_above_floor() {
    assert!(square().is_well_formed());
    let mut short = square();
    short.colors.pop();
    assert!(!short.is_well_formed());
    let mut short = square();
    short.portal_sectors.pop();
    assert!(!short.is_well_formed());
    let mut flat = square();
    flat.ceil = flat.floor;
    assert!(!flat.is_well_formed());
    assert!(!Sector::default().is_well_formed());
}
