use pumpkin_java_multiversion::data::mappings::IdMapping;
use pumpkin_java_multiversion::packet::chunk_legacy::{to_v1_17, to_v1_17_column, to_v1_17_finish};

/// One 1.18 section: `count` blocks of the single state `state`, all of
/// biome `biome`.
fn section(count: u8, state: u8, biome: u8) -> Vec<u8> {
    vec![0, count, 0, state, 0, 0, biome, 0]
}

fn chunk(sections: &[Vec<u8>]) -> Vec<u8> {
    let blob: Vec<u8> = sections.concat();
    let mut out = vec![0, 0, 0, 1, 0, 0, 0, 2, 10, 0, 0, 0];
    assert!(blob.len() < 128);
    out.push(blob.len() as u8);
    out.extend(blob);
    out
}

const LIGHT: [u8; 7] = [0, 0, 0, 0, 0, 0, 0];

#[test]
fn a_1_18_column_keeps_the_window_and_pads_the_biomes() {
    // The server's world starts at y -64, so its fifth section is the
    // client's first.
    let mut sections = vec![section(1, 9, 7); 4];
    sections.push(section(5, 1, 2));
    sections.push(section(0, 0, 3));
    let payload = chunk(&sections);
    let states = IdMapping::from_table(vec![0, 4]);
    let (column, at) = to_v1_17_column(&payload, -64, &states).unwrap();
    assert_eq!(at, payload.len());

    let mut expected = vec![0, 0, 0, 1, 0, 0, 0, 2, 1, 0, 0, 0, 0, 0, 0, 0, 1, 10, 0, 0, 0, 0x80, 0x08];
    // Two window sections carry 64 biomes each; the column is made up with
    // the last one.
    expected.extend(vec![2u8; 64]);
    expected.extend(vec![3u8; 960]);
    // The one non-empty section, its single state widened to a palette.
    let mut kept = vec![0, 5, 4, 1, 4, 0x80, 0x02];
    kept.extend(vec![0u8; 2048]);
    expected.extend([0x87, 0x10]);
    expected.extend(kept);
    assert_eq!(column, expected);
}

#[test]
fn the_finished_chunk_ends_with_the_light() {
    let mut payload = chunk(&[section(5, 1, 2)]);
    let (column, at) = to_v1_17_column(&payload, 0, &IdMapping::identity()).unwrap();
    payload.push(0);
    payload.extend(LIGHT);
    let mut expected = column.clone();
    expected.push(0);
    assert_eq!(to_v1_17_finish(&payload, &column, &[0], at + 1), Some(expected));
    payload.push(0);
    assert_eq!(to_v1_17_finish(&payload, &column, &[0], at + 1), None);
}

#[test]
fn a_blob_past_the_payload_or_a_cut_section_is_refused() {
    let mut payload = chunk(&[section(5, 1, 2)]);
    let at = payload.len();
    payload[12] = 40;
    assert_eq!(to_v1_17_column(&payload, 0, &IdMapping::identity()), None);
    let mut payload = chunk(&[section(5, 1, 2)]);
    payload[12] = 7;
    payload.truncate(at - 1);
    assert_eq!(to_v1_17_column(&payload, 0, &IdMapping::identity()), None);
}

/// The block entity list of a 1.18 chunk: a named chest at x 2, z 1 of the
/// chunk and y 70, which carries a stale `x`, and an entity of a type the
/// client has no name for.
fn block_entities() -> Vec<u8> {
    let mut list = vec![2u8, 0x21, 0, 70, 5, 10, 0, 0];
    list.extend([8, 0, 10]);
    list.extend(b"CustomName");
    list.extend([0, 5]);
    list.extend(b"crate");
    list.extend([3, 0, 1, b'x', 0, 0, 0, 9]);
    list.push(0);
    list.extend([0, 0, 0, 9, 10, 0, 0, 0]);
    list
}

fn names() -> Vec<Vec<u8>> {
    vec![b"barrel".to_vec(), b"chest".to_vec()]
}

#[test]
fn a_1_18_chunk_becomes_a_1_17_one() {
    let mut payload = chunk(&[section(5, 1, 2)]);
    let (column, _) = to_v1_17_column(&payload, 0, &IdMapping::identity()).unwrap();
    payload.extend(block_entities());
    payload.extend(LIGHT);
    // The client numbers the chest 5, the newest registry 1.
    let inverse = IdMapping::from_table(vec![-1, -1, -1, -1, -1, 1]);
    let out = to_v1_17(&payload, 0, &IdMapping::identity(), &inverse, &names()).unwrap();

    let mut entity = vec![10u8, 0, 0, 8, 0, 10];
    entity.extend(b"CustomName");
    entity.extend([0, 5]);
    entity.extend(b"crate");
    entity.extend([8, 0, 2]);
    entity.extend(b"id");
    entity.extend([0, 15]);
    entity.extend(b"minecraft:chest");
    entity.extend([3, 0, 1, b'x', 0, 0, 0, 18]);
    entity.extend([3, 0, 1, b'y', 0, 0, 0, 70]);
    entity.extend([3, 0, 1, b'z', 0, 0, 0, 33]);
    entity.push(0);
    let mut expected = column;
    expected.push(1);
    expected.extend(entity);
    assert_eq!(out, expected);
}

#[test]
fn a_payload_that_is_not_whole_is_dropped() {
    let mut payload = chunk(&[section(5, 1, 2)]);
    payload.extend(block_entities());
    payload.extend(LIGHT);
    let inverse = IdMapping::from_table(vec![-1, -1, -1, -1, -1, 1]);
    for cut in 0..payload.len() {
        assert!(to_v1_17(&payload[..cut], 0, &IdMapping::identity(), &inverse, &names()).is_none(), "cut at {cut}");
    }
    let mut trailing = payload.clone();
    trailing.push(0);
    assert!(to_v1_17(&trailing, 0, &IdMapping::identity(), &inverse, &names()).is_none());
}
