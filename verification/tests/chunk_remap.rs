use pumpkin_java_multiversion::codec::{read_i16, read_u8, read_var_int, write_i16, write_i32, write_i64, write_var_int};
use pumpkin_java_multiversion::data::mappings::IdMapping;
use pumpkin_java_multiversion::packet::chunk_remap::{copy_container, packed_long_count, remap_chunk_payload};
use pumpkin_java_multiversion::version::JavaMinecraftVersion;

/// The state id of stone on the newest protocol.
const STONE: i32 = 1;

/// Block states renumbered for the client under test: stone moves to 5.
fn states() -> IdMapping {
    IdMapping::from_table(vec![0, 5])
}

fn mapped(states: &IdMapping, id: i32) -> i32 {
    states.map(id as u32).unwrap_or(0) as i32
}

fn chunk_1_21_4(stone: i32) -> Vec<u8> {
    let mut sections = Vec::new();
    // Section 1: 4096 blocks, single palette.
    write_i16(&mut sections, 4096);
    sections.push(0);
    write_var_int(&mut sections, stone);
    write_var_int(&mut sections, 0); // packed data length
    sections.push(0); // biome single palette
    write_var_int(&mut sections, 1);
    write_var_int(&mut sections, 0);
    // Section 2: indirect palette [air, stone], 4 bits per entry.
    write_i16(&mut sections, 1);
    sections.push(4);
    write_var_int(&mut sections, 2);
    write_var_int(&mut sections, 0);
    write_var_int(&mut sections, stone);
    write_var_int(&mut sections, 256);
    for _ in 0..256 {
        write_i64(&mut sections, 0);
    }
    sections.push(0);
    write_var_int(&mut sections, 1);
    write_var_int(&mut sections, 0);

    let mut payload = Vec::new();
    write_i32(&mut payload, 3);
    write_i32(&mut payload, -4);
    // Empty unnamed compound.
    payload.push(10);
    payload.push(0);
    write_var_int(&mut payload, sections.len() as i32);
    payload.extend_from_slice(&sections);
    // Block entities: none. Light: stand-in bytes for the test.
    write_var_int(&mut payload, 0);
    payload.extend_from_slice(&[7, 7, 7]);
    payload
}

/// Reads the first section's block count, palette width and single id.
fn first_section(out: &[u8]) -> (i16, u8, i32) {
    let (_blob_len, p) = read_var_int(out, 8 + 2).unwrap();
    let (count, p) = read_i16(out, p).unwrap();
    let (bits, p) = read_u8(out, p).unwrap();
    let (id, _) = read_var_int(out, p).unwrap();
    (count, bits, id)
}

#[test]
fn remaps_palettes_in_the_1_21_4_layout() {
    let states = states();
    let payload = chunk_1_21_4(STONE);
    let out = remap_chunk_payload(&payload, JavaMinecraftVersion::V_1_21_4, &states, &IdMapping::identity())
        .expect("1.21.4 chunk must parse");
    assert_eq!(&out[out.len() - 3..], &[7, 7, 7], "tail copied through");

    let mapped = mapped(&states, STONE);
    let (count, bits, id) = first_section(&out);
    assert_eq!(count, 4096);
    assert_eq!(bits, 0);
    assert_eq!(id, mapped);
}

#[test]
fn remaps_palettes_in_the_1_20_5_layout() {
    let states = states();
    let payload = chunk_1_21_4(STONE);
    let out = remap_chunk_payload(&payload, JavaMinecraftVersion::V_1_20_5, &states, &IdMapping::identity())
        .expect("1.20.5 chunk must parse");
    assert_eq!(&out[out.len() - 3..], &[7, 7, 7], "tail copied through");

    let mapped = mapped(&states, STONE);
    let (count, bits, id) = first_section(&out);
    assert_eq!(count, 4096);
    assert_eq!(bits, 0);
    assert_eq!(id, mapped);
}

#[test]
fn remaps_palettes_in_the_1_20_2_and_1_20_3_layouts() {
    let states = states();
    let payload = chunk_1_21_4(STONE);
    for version in [JavaMinecraftVersion::V_1_20_2, JavaMinecraftVersion::V_1_20_3] {
        let out = remap_chunk_payload(&payload, version, &states, &IdMapping::identity())
            .expect("1.20.2/1.20.3 chunk parses");
        assert_eq!(&out[out.len() - 3..], &[7, 7, 7], "tail copied through");

        let mapped = mapped(&states, STONE);
        let (count, bits, id) = first_section(&out);
        assert_eq!(count, 4096);
        assert_eq!(bits, 0);
        assert_eq!(id, mapped);
    }
}

#[test]
fn unnamed_heightmap_root_starts_at_1_20_2() {
    let mut heightmaps = Vec::new();
    heightmaps.push(10); // TAG_Compound
    heightmaps.push(12); // TAG_Long_Array
    write_i16(&mut heightmaps, 15);
    heightmaps.extend_from_slice(b"MOTION_BLOCKING");
    write_i32(&mut heightmaps, 2);
    write_i64(&mut heightmaps, 0);
    write_i64(&mut heightmaps, 0);
    heightmaps.push(0); // TAG_End

    let empty = chunk_1_21_4(1);
    let mut payload = Vec::new();
    payload.extend_from_slice(&empty[..8]);
    payload.extend_from_slice(&heightmaps);
    payload.extend_from_slice(&empty[8 + 2..]);

    let identity = IdMapping::identity();
    for version in [
        JavaMinecraftVersion::V_1_20_2,
        JavaMinecraftVersion::V_1_20_3,
        JavaMinecraftVersion::V_1_20_5,
    ] {
        assert!(
            remap_chunk_payload(&payload, version, &identity, &identity).is_some(),
            "{} reads an unnamed heightmaps root",
            version.name()
        );
    }
    assert!(
        remap_chunk_payload(&payload, JavaMinecraftVersion::V_1_20, &identity, &identity).is_none(),
        "1.20 expects a root name and must reject these bytes"
    );
}

#[test]
fn rejects_layouts_older_than_1_18() {
    let payload = chunk_1_21_4(1);
    let identity = IdMapping::identity();
    assert!(remap_chunk_payload(&payload, JavaMinecraftVersion::V_1_17_1, &identity, &identity).is_none());
    assert!(remap_chunk_payload(&payload, JavaMinecraftVersion::V_1_16_2, &identity, &identity).is_none());
}

#[test]
fn truncated_payload_is_rejected_not_forwarded() {
    let payload = chunk_1_21_4(1);
    let identity = IdMapping::identity();
    for cut in [9, 12, 20, payload.len() - 40] {
        assert!(
            remap_chunk_payload(&payload[..cut], JavaMinecraftVersion::V_1_21_4, &identity, &identity).is_none(),
            "cut at {cut}"
        );
    }
}

#[test]
fn longs_are_counted_from_the_width_from_1_21_5() {
    assert_eq!(packed_long_count(4096, 0), Some(0));
    assert_eq!(packed_long_count(4096, 4), Some(256));
    assert_eq!(packed_long_count(4096, 5), Some(342));
    assert_eq!(packed_long_count(64, 3), Some(4));
    assert_eq!(packed_long_count(4096, 65), None);
}

#[test]
fn the_1_21_5_layout_has_a_heightmap_list_and_no_long_counts() {
    let mut payload = Vec::new();
    write_i32(&mut payload, 1);
    write_i32(&mut payload, 2);
    // One heightmap: type 4, one long.
    write_var_int(&mut payload, 1);
    write_var_int(&mut payload, 4);
    write_var_int(&mut payload, 1);
    write_i64(&mut payload, 0x0102);
    let mut sections = Vec::new();
    write_i16(&mut sections, 10);
    sections.push(4);
    write_var_int(&mut sections, 2);
    write_var_int(&mut sections, 0);
    write_var_int(&mut sections, STONE);
    for _ in 0..256 {
        write_i64(&mut sections, 0);
    }
    sections.push(0);
    write_var_int(&mut sections, 3);
    // Padding core leaves behind.
    sections.extend_from_slice(&[0, 0, 0]);
    write_var_int(&mut payload, sections.len() as i32);
    payload.extend_from_slice(&sections);
    write_var_int(&mut payload, 0);
    payload.push(9);

    let states = states();
    let out = remap_chunk_payload(&payload, JavaMinecraftVersion::V_1_21_5, &states, &IdMapping::identity())
        .expect("1.21.5 chunk parses");
    let mut expected = payload.clone();
    // The stone in the palette is renumbered in place: the blob keeps its length.
    let at = 8 + 1 + 1 + 1 + 8 + 2 + 2 + 1 + 1 + 1;
    assert_eq!(expected[at], STONE as u8);
    expected[at] = 5;
    assert_eq!(out, expected);
}

#[test]
fn a_fluid_count_follows_the_block_count_from_26_1() {
    let mut payload = Vec::new();
    write_i32(&mut payload, 0);
    write_i32(&mut payload, 0);
    write_var_int(&mut payload, 0);
    let mut sections = Vec::new();
    write_i16(&mut sections, 4096);
    write_i16(&mut sections, 12);
    sections.push(0);
    write_var_int(&mut sections, STONE);
    sections.push(0);
    write_var_int(&mut sections, 2);
    write_var_int(&mut payload, sections.len() as i32);
    payload.extend_from_slice(&sections);
    write_var_int(&mut payload, 0);

    let states = states();
    let out = remap_chunk_payload(&payload, JavaMinecraftVersion::V_26_1, &states, &IdMapping::identity())
        .expect("26.1 chunk parses");
    assert_eq!(&out[9..], &[8, 0x10, 0, 0, 12, 0, 5, 0, 2, 0]);
    assert!(remap_chunk_payload(&payload, JavaMinecraftVersion::V_1_21_5, &states, &IdMapping::identity()).is_none());
}

#[test]
fn a_direct_block_palette_is_refused_but_a_direct_biome_palette_is_copied() {
    let mut blocks = vec![15];
    write_var_int(&mut blocks, 0);
    let mut out = vec![1, 2];
    let states = states();
    assert_eq!(
        copy_container(&blocks, 0, &mut out, 4096, 8, Some(&states), JavaMinecraftVersion::V_1_21_4),
        None
    );
    assert_eq!(out, vec![1, 2], "nothing written for a refused container");

    let mut biomes = vec![6];
    write_var_int(&mut biomes, 1);
    write_i64(&mut biomes, -1);
    let end = copy_container(&biomes, 0, &mut out, 64, 3, None, JavaMinecraftVersion::V_1_21_4);
    assert_eq!(end, Some(biomes.len()));
    assert_eq!(&out[2..], &biomes[..]);
}

#[test]
fn a_state_id_outside_sixteen_bits_is_refused() {
    let mut container = vec![0];
    write_var_int(&mut container, 70_000);
    write_var_int(&mut container, 0);
    let mut out = Vec::new();
    let identity = IdMapping::identity();
    assert_eq!(copy_container(&container, 0, &mut out, 4096, 8, Some(&identity), JavaMinecraftVersion::V_1_21_4), None);
    assert_eq!(
        copy_container(&container, 0, &mut out, 4096, 8, None, JavaMinecraftVersion::V_1_21_4),
        Some(container.len())
    );
}
